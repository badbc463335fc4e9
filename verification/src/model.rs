//! The in-memory document model: a versioned container of positioned block
//! records and armor-stand entity records, plus opaque passthrough tags that
//! are carried unchanged for re-emission.
//!
//! Floating-point scalars of the source format are held as their IEEE-754
//! bit patterns, since this library never interprets them: they only have to
//! survive the round trip unchanged.

use vstd::prelude::*;

verus! {

#[verifier::external_type_specification]
#[verifier::external_body]
pub struct ExNbtTag(quartz_nbt::NbtTag);

#[verifier::external_type_specification]
#[verifier::external_body]
pub struct ExNbtCompound(quartz_nbt::NbtCompound);

/// Relies on the derived `Clone` of `quartz_nbt::NbtTag`: a memberwise deep
/// copy of the tag tree, equal to the original.
#[verifier::external_body]
pub(crate) fn clone_nbt_tag(t: &quartz_nbt::NbtTag) -> (r: quartz_nbt::NbtTag)
    ensures
        r == *t,
{
    t.clone()
}

/// Relies on the derived `Clone` of `quartz_nbt::NbtCompound`: a memberwise
/// deep copy of the compound, equal to the original.
#[verifier::external_body]
pub(crate) fn clone_nbt_compound(c: &quartz_nbt::NbtCompound) -> (r: quartz_nbt::NbtCompound)
    ensures
        r == *c,
{
    c.clone()
}

/// Relies on `quartz_nbt::NbtCompound::new`: a compound with an empty
/// internal map, the explicit empty marker of an armor slot.
#[verifier::external_body]
pub(crate) fn new_nbt_compound() -> quartz_nbt::NbtCompound {
    quartz_nbt::NbtCompound::new()
}

/// An integer grid position: both a spatial placement and the address of the
/// (tier, trim) combination an element stands for.
#[derive(Clone, Copy, PartialEq, Eq, Structural, Debug)]
pub struct GridPos {
    pub x: i32,
    pub y: i32,
    pub z: i32,
}

/// Three doubles, held as bit patterns.
#[derive(Clone, Copy, PartialEq, Eq, Structural, Debug)]
pub struct F64Triple {
    pub x: u64,
    pub y: u64,
    pub z: u64,
}

/// Two floats, held as bit patterns.
#[derive(Clone, Copy, PartialEq, Eq, Structural, Debug)]
pub struct F32Pair {
    pub a: u32,
    pub b: u32,
}

/// A 128-bit identifier as four integers.
#[derive(Clone, Copy, PartialEq, Eq, Structural, Debug)]
pub struct UuidInts {
    pub a: i32,
    pub b: i32,
    pub c: i32,
    pub d: i32,
}

/// The trim written onto an armor piece.
pub struct Trim {
    pub material: String,
    pub pattern: String,
}

/// The tag of an armor piece: damage plus its trim.
pub struct ItemTag {
    pub damage: i32,
    pub trim: Trim,
}

/// An item inside a container block's payload.
pub struct ChestItem {
    pub count: i8,
    pub slot: i8,
    pub id: String,
    pub tag: ItemTag,
}

/// An armor piece worn by an armor stand.
pub struct ArmorItem {
    pub count: i8,
    pub id: String,
    pub tag: ItemTag,
}

/// A field encoded as either a populated armor piece or an explicitly empty
/// compound; the empty payload is kept so it can be re-emitted as read.
pub enum ArmorSlot {
    Piece(ArmorItem),
    Empty(quartz_nbt::NbtCompound),
}

/// The payload of a container block.
pub struct BlockPayload {
    pub items: Vec<ChestItem>,
    pub id: String,
}

/// A positioned block record; only container blocks carry a payload.
pub struct Block {
    pub pos: GridPos,
    pub state: i32,
    pub payload: Option<BlockPayload>,
}

/// The full armor-stand state: four armor slots plus scalar attributes and
/// opaque sub-tags that are never interpreted, only carried.
pub struct ArmorStandState {
    pub absorption_amount: u32,
    pub air: i16,
    pub armor_items: Vec<ArmorSlot>,
    pub attributes: quartz_nbt::NbtTag,
    pub brain: quartz_nbt::NbtTag,
    pub death_time: i16,
    pub disabled_slots: i32,
    pub fall_distance: u32,
    pub fall_flying: bool,
    pub fire: i16,
    pub hand_items: quartz_nbt::NbtTag,
    pub health: u32,
    pub hurt_by_timestamp: i32,
    pub hurt_time: i16,
    pub invisible: bool,
    pub invulnerable: bool,
    pub motion: F64Triple,
    pub no_base_plate: bool,
    pub on_ground: bool,
    pub portal_cooldown: i32,
    pub pos: F64Triple,
    pub pose: quartz_nbt::NbtTag,
    pub rotation: F32Pair,
    pub show_arms: bool,
    pub small: bool,
    pub uuid: UuidInts,
    pub id: String,
}

/// A free-standing entity record.
pub struct Entity {
    pub block_pos: GridPos,
    pub pos: F64Triple,
    pub state: ArmorStandState,
}

/// One structure document.
pub struct Document {
    pub data_version: i32,
    pub blocks: Vec<Block>,
    pub entities: Vec<Entity>,
    pub palette: quartz_nbt::NbtTag,
    pub size: quartz_nbt::NbtTag,
}

impl ArmorSlot {
    /// Whether the slot holds the explicit empty marker.
    pub open spec fn spec_is_empty(self) -> bool {
        self is Empty
    }

    pub fn is_empty(&self) -> (r: bool)
        ensures
            r == self.spec_is_empty(),
    {
        match self {
            ArmorSlot::Piece(_) => false,
            ArmorSlot::Empty(_) => true,
        }
    }

    /// The populated piece; callers must have established occupancy first.
    pub fn get(&self) -> (r: &ArmorItem)
        requires
            !self.spec_is_empty(),
        ensures
            *r == self->Piece_0,
    {
        match self {
            ArmorSlot::Piece(a) => a,
            ArmorSlot::Empty(_) => vstd::pervasive::unreached(),
        }
    }

    pub fn set(&mut self, piece: ArmorItem)
        ensures
            *final(self) == ArmorSlot::Piece(piece),
    {
        *self = ArmorSlot::Piece(piece);
    }

    /// Replaces the contents with a fresh empty marker.
    pub fn clear(&mut self)
        ensures
            final(self).spec_is_empty(),
    {
        *self = ArmorSlot::Empty(new_nbt_compound());
    }
}

/// Equality of container payloads, up to the abstract value of the item
/// sequence.
pub open spec fn payload_eq(a: BlockPayload, b: BlockPayload) -> bool {
    &&& a.items@ == b.items@
    &&& a.id == b.id
}

pub open spec fn opt_payload_eq(a: Option<BlockPayload>, b: Option<BlockPayload>) -> bool {
    match (a, b) {
        (Option::None, Option::None) => true,
        (Option::Some(x), Option::Some(y)) => payload_eq(x, y),
        _ => false,
    }
}

pub open spec fn block_eq(a: Block, b: Block) -> bool {
    &&& a.pos == b.pos
    &&& a.state == b.state
    &&& opt_payload_eq(a.payload, b.payload)
}

/// Equality of armor-stand states, up to the abstract value of the slot
/// sequence.
pub open spec fn stand_eq(a: ArmorStandState, b: ArmorStandState) -> bool {
    &&& stand_scalars_eq(a, b)
    &&& a.armor_items@ == b.armor_items@
}

/// Equality of everything in an armor-stand state except the armor slots:
/// the scalar attributes and opaque sub-tags the generator never touches.
pub open spec fn stand_scalars_eq(a: ArmorStandState, b: ArmorStandState) -> bool {
    &&& a.absorption_amount == b.absorption_amount
    &&& a.air == b.air
    &&& a.attributes == b.attributes
    &&& a.brain == b.brain
    &&& a.death_time == b.death_time
    &&& a.disabled_slots == b.disabled_slots
    &&& a.fall_distance == b.fall_distance
    &&& a.fall_flying == b.fall_flying
    &&& a.fire == b.fire
    &&& a.hand_items == b.hand_items
    &&& a.health == b.health
    &&& a.hurt_by_timestamp == b.hurt_by_timestamp
    &&& a.hurt_time == b.hurt_time
    &&& a.invisible == b.invisible
    &&& a.invulnerable == b.invulnerable
    &&& a.motion == b.motion
    &&& a.no_base_plate == b.no_base_plate
    &&& a.on_ground == b.on_ground
    &&& a.portal_cooldown == b.portal_cooldown
    &&& a.pos == b.pos
    &&& a.pose == b.pose
    &&& a.rotation == b.rotation
    &&& a.show_arms == b.show_arms
    &&& a.small == b.small
    &&& a.uuid == b.uuid
    &&& a.id == b.id
}

pub open spec fn entity_eq(a: Entity, b: Entity) -> bool {
    &&& a.block_pos == b.block_pos
    &&& a.pos == b.pos
    &&& stand_eq(a.state, b.state)
}

/// Structural equality of whole documents: every field the format carries,
/// element by element.
pub open spec fn doc_eq(a: Document, b: Document) -> bool {
    &&& a.data_version == b.data_version
    &&& a.blocks@.len() == b.blocks@.len()
    &&& forall|i: int| 0 <= i < a.blocks@.len() ==> block_eq(#[trigger] a.blocks@[i], b.blocks@[i])
    &&& a.entities@.len() == b.entities@.len()
    &&& forall|i: int|
        0 <= i < a.entities@.len() ==> entity_eq(#[trigger] a.entities@[i], b.entities@[i])
    &&& a.palette == b.palette
    &&& a.size == b.size
}

pub fn clone_trim(t: &Trim) -> (r: Trim)
    ensures
        r == *t,
{
    Trim { material: t.material.clone(), pattern: t.pattern.clone() }
}

pub fn clone_item_tag(t: &ItemTag) -> (r: ItemTag)
    ensures
        r == *t,
{
    ItemTag { damage: t.damage, trim: clone_trim(&t.trim) }
}

pub fn clone_chest_item(it: &ChestItem) -> (r: ChestItem)
    ensures
        r == *it,
{
    ChestItem { count: it.count, slot: it.slot, id: it.id.clone(), tag: clone_item_tag(&it.tag) }
}

pub fn clone_armor_item(it: &ArmorItem) -> (r: ArmorItem)
    ensures
        r == *it,
{
    ArmorItem { count: it.count, id: it.id.clone(), tag: clone_item_tag(&it.tag) }
}

pub fn clone_slot(s: &ArmorSlot) -> (r: ArmorSlot)
    ensures
        r == *s,
{
    match s {
        ArmorSlot::Piece(a) => ArmorSlot::Piece(clone_armor_item(a)),
        ArmorSlot::Empty(c) => ArmorSlot::Empty(clone_nbt_compound(c)),
    }
}

pub fn clone_chest_items(v: &Vec<ChestItem>) -> (r: Vec<ChestItem>)
    ensures
        r@ == v@,
{
    let mut r: Vec<ChestItem> = Vec::new();
    let mut i: usize = 0;
    while i < v.len()
        invariant
            i <= v@.len(),
            r@ =~= v@.subrange(0, i as int),
        decreases v@.len() - i,
    {
        r.push(clone_chest_item(&v[i]));
        i += 1;
    }
    proof {
        assert(r@ =~= v@);
    }
    r
}

pub fn clone_slots(v: &Vec<ArmorSlot>) -> (r: Vec<ArmorSlot>)
    ensures
        r@ == v@,
{
    let mut r: Vec<ArmorSlot> = Vec::new();
    let mut i: usize = 0;
    while i < v.len()
        invariant
            i <= v@.len(),
            r@ =~= v@.subrange(0, i as int),
        decreases v@.len() - i,
    {
        r.push(clone_slot(&v[i]));
        i += 1;
    }
    proof {
        assert(r@ =~= v@);
    }
    r
}

pub fn clone_payload(p: &BlockPayload) -> (r: BlockPayload)
    ensures
        payload_eq(r, *p),
{
    BlockPayload { items: clone_chest_items(&p.items), id: p.id.clone() }
}

pub fn clone_block(b: &Block) -> (r: Block)
    ensures
        block_eq(r, *b),
{
    let payload = match &b.payload {
        Option::Some(p) => Option::Some(clone_payload(p)),
        Option::None => Option::None,
    };
    Block { pos: b.pos, state: b.state, payload }
}

pub fn clone_stand(s: &ArmorStandState) -> (r: ArmorStandState)
    ensures
        stand_eq(r, *s),
{
    ArmorStandState {
        absorption_amount: s.absorption_amount,
        air: s.air,
        armor_items: clone_slots(&s.armor_items),
        attributes: clone_nbt_tag(&s.attributes),
        brain: clone_nbt_tag(&s.brain),
        death_time: s.death_time,
        disabled_slots: s.disabled_slots,
        fall_distance: s.fall_distance,
        fall_flying: s.fall_flying,
        fire: s.fire,
        hand_items: clone_nbt_tag(&s.hand_items),
        health: s.health,
        hurt_by_timestamp: s.hurt_by_timestamp,
        hurt_time: s.hurt_time,
        invisible: s.invisible,
        invulnerable: s.invulnerable,
        motion: s.motion,
        no_base_plate: s.no_base_plate,
        on_ground: s.on_ground,
        portal_cooldown: s.portal_cooldown,
        pos: s.pos,
        pose: clone_nbt_tag(&s.pose),
        rotation: s.rotation,
        show_arms: s.show_arms,
        small: s.small,
        uuid: s.uuid,
        id: s.id.clone(),
    }
}

pub fn clone_entity(e: &Entity) -> (r: Entity)
    ensures
        entity_eq(r, *e),
{
    Entity { block_pos: e.block_pos, pos: e.pos, state: clone_stand(&e.state) }
}

/// Deep-copies a document: an explicit tree of owned containers, sharing no
/// mutable substructure with the original.
pub fn clone_document(d: &Document) -> (r: Document)
    ensures
        doc_eq(r, *d),
{
    let mut blocks: Vec<Block> = Vec::new();
    let mut i: usize = 0;
    while i < d.blocks.len()
        invariant
            i <= d.blocks@.len(),
            blocks@.len() == i,
            forall|j: int| 0 <= j < i ==> block_eq(#[trigger] blocks@[j], d.blocks@[j]),
        decreases d.blocks@.len() - i,
    {
        blocks.push(clone_block(&d.blocks[i]));
        i += 1;
    }
    let mut entities: Vec<Entity> = Vec::new();
    let mut k: usize = 0;
    while k < d.entities.len()
        invariant
            k <= d.entities@.len(),
            entities@.len() == k,
            forall|j: int| 0 <= j < k ==> entity_eq(#[trigger] entities@[j], d.entities@[j]),
        decreases d.entities@.len() - k,
    {
        entities.push(clone_entity(&d.entities[k]));
        k += 1;
    }
    Document {
        data_version: d.data_version,
        blocks,
        entities,
        palette: clone_nbt_tag(&d.palette),
        size: clone_nbt_tag(&d.size),
    }
}

} // verus!
