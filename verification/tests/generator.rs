use armor_trims::locate::MatchFailure;
use armor_trims::model::ArmorItem;
use armor_trims::model::ArmorSlot;
use armor_trims::model::ArmorStandState;
use armor_trims::model::Block;
use armor_trims::model::BlockPayload;
use armor_trims::model::ChestItem;
use armor_trims::model::Document;
use armor_trims::model::Entity;
use armor_trims::model::F32Pair;
use armor_trims::model::F64Triple;
use armor_trims::model::GridPos;
use armor_trims::model::ItemTag;
use armor_trims::model::Trim;
use armor_trims::model::UuidInts;
use armor_trims::variant::TargetKind;
use armor_trims::variant::make_all_variants;
use armor_trims::variant::make_variant;
use quartz_nbt::NbtCompound;
use quartz_nbt::NbtTag;

fn placeholder_trim() -> Trim {
    Trim {
        material: String::from("minecraft:placeholder"),
        pattern: String::from("minecraft:placeholder"),
    }
}

fn item(id: &str, slot: i8) -> ChestItem {
    ChestItem {
        count: 1,
        slot,
        id: String::from(id),
        tag: ItemTag { damage: 0, trim: placeholder_trim() },
    }
}

fn piece(id: &str) -> ArmorItem {
    ArmorItem { count: 1, id: String::from(id), tag: ItemTag { damage: 0, trim: placeholder_trim() } }
}

fn default_items() -> Vec<ChestItem> {
    vec![
        item("minecraft:leather_helmet", 0),
        item("minecraft:leather_chestplate", 1),
        item("minecraft:leather_leggings", 2),
        item("minecraft:leather_boots", 3),
    ]
}

fn default_slots() -> Vec<ArmorSlot> {
    vec![
        ArmorSlot::Piece(piece("minecraft:leather_boots")),
        ArmorSlot::Piece(piece("minecraft:leather_leggings")),
        ArmorSlot::Piece(piece("minecraft:leather_chestplate")),
        ArmorSlot::Piece(piece("minecraft:leather_helmet")),
    ]
}

fn stand(slots: Vec<ArmorSlot>) -> ArmorStandState {
    ArmorStandState {
        absorption_amount: 0,
        air: 300,
        armor_items: slots,
        attributes: NbtTag::Byte(1),
        brain: NbtTag::Byte(2),
        death_time: 0,
        disabled_slots: 0,
        fall_distance: 0,
        fall_flying: false,
        fire: -1,
        hand_items: NbtTag::Byte(3),
        health: 0x41a00000,
        hurt_by_timestamp: 0,
        hurt_time: 0,
        invisible: false,
        invulnerable: false,
        motion: F64Triple { x: 0, y: 0, z: 0 },
        no_base_plate: true,
        on_ground: true,
        portal_cooldown: 0,
        pos: F64Triple { x: 0, y: 0, z: 0 },
        pose: NbtTag::Byte(4),
        rotation: F32Pair { a: 0, b: 0 },
        show_arms: false,
        small: false,
        uuid: UuidInts { a: 1, b: 2, c: 3, d: 4 },
        id: String::from("minecraft:armor_stand"),
    }
}

fn block_at(m: i32, t: i32, items: Vec<ChestItem>) -> Block {
    Block {
        pos: GridPos { x: 0, y: m * 4 + 1, z: t },
        state: 3,
        payload: Some(BlockPayload { items, id: String::from("minecraft:chest") }),
    }
}

fn entity_at(m: i32, t: i32, slots: Vec<ArmorSlot>) -> Entity {
    Entity {
        block_pos: GridPos { x: 0, y: m * 4 + 1, z: t },
        pos: F64Triple { x: 100, y: 200, z: 300 },
        state: stand(slots),
    }
}

fn full_doc() -> Document {
    let mut blocks = Vec::new();
    let mut entities = Vec::new();
    for m in 0..10i32 {
        for t in 0..11i32 {
            blocks.push(block_at(m, t, default_items()));
            entities.push(entity_at(m, t, default_slots()));
        }
    }
    // A plain block without a payload at a coordinate position: the locator
    // must skip it.
    blocks.push(Block { pos: GridPos { x: 9, y: 1, z: 0 }, state: 8, payload: None });
    Document {
        data_version: 3465,
        blocks,
        entities,
        palette: NbtTag::Byte(77),
        size: NbtTag::IntArray(vec![9, 41, 11]),
    }
}

fn expect_ok(r: Result<Document, armor_trims::variant::TemplateError>) -> Document {
    match r {
        Ok(v) => v,
        Err(e) => panic!("expected success, got {:?}", e),
    }
}

fn expect_err(
    r: Result<Document, armor_trims::variant::TemplateError>,
) -> armor_trims::variant::TemplateError {
    match r {
        Ok(_) => panic!("expected a template error"),
        Err(e) => e,
    }
}

fn coord_block<'a>(d: &'a Document, m: i32, t: i32) -> &'a Block {
    let mut found = None;
    for b in &d.blocks {
        if b.pos.y == m * 4 + 1 && b.pos.z == t && b.payload.is_some() {
            assert!(found.is_none(), "duplicate block coordinate");
            found = Some(b);
        }
    }
    found.expect("missing block coordinate")
}

fn coord_entity<'a>(d: &'a Document, m: i32, t: i32) -> &'a Entity {
    let mut found = None;
    for e in &d.entities {
        if e.block_pos.y == m * 4 + 1 && e.block_pos.z == t {
            assert!(found.is_none(), "duplicate entity coordinate");
            found = Some(e);
        }
    }
    found.expect("missing entity coordinate")
}

fn payload_item<'a>(b: &'a Block, id: &str) -> &'a ChestItem {
    let items = &b.payload.as_ref().expect("no payload").items;
    let mut found = None;
    for it in items {
        if it.id == id {
            assert!(found.is_none(), "duplicate item id");
            found = Some(it);
        }
    }
    found.expect("item id not present")
}

fn worn_piece<'a>(e: &'a Entity, id: &str) -> &'a ArmorItem {
    let mut found = None;
    for s in &e.state.armor_items {
        if let ArmorSlot::Piece(p) = s {
            if p.id == id {
                assert!(found.is_none(), "duplicate worn id");
                found = Some(p);
            }
        }
    }
    found.expect("worn id not present")
}

#[test]
fn family_zero_rewrites_origin_coordinate() {
    let base = full_doc();
    let v = expect_ok(make_variant(&base, 0));
    let b = coord_block(&v, 0, 0);
    let e = coord_entity(&v, 0, 0);
    for id in [
        "minecraft:chainmail_helmet",
        "minecraft:chainmail_chestplate",
        "minecraft:chainmail_leggings",
        "minecraft:chainmail_boots",
    ] {
        let it = payload_item(b, id);
        assert_eq!(it.tag.trim.material, "minecraft:iron");
        assert_eq!(it.tag.trim.pattern, "minecraft:wild");
        let p = worn_piece(e, id);
        assert_eq!(p.tag.trim.material, "minecraft:iron");
        assert_eq!(p.tag.trim.pattern, "minecraft:wild");
    }
    assert_eq!(b.payload.as_ref().unwrap().items.len(), 4);
}

#[test]
fn family_one_rewrites_far_coordinate() {
    let base = full_doc();
    let v = expect_ok(make_variant(&base, 1));
    let b = coord_block(&v, 9, 10);
    let e = coord_entity(&v, 9, 10);
    let it = payload_item(b, "minecraft:iron_boots");
    assert_eq!(it.tag.trim.material, "minecraft:amethyst");
    assert_eq!(it.tag.trim.pattern, "minecraft:coast");
    let p = worn_piece(e, "minecraft:iron_leggings");
    assert_eq!(p.tag.trim.material, "minecraft:amethyst");
    assert_eq!(p.tag.trim.pattern, "minecraft:coast");
}

#[test]
fn untouched_fields_survive_substitution() {
    let base = full_doc();
    let v = expect_ok(make_variant(&base, 2));
    assert_eq!(v.data_version, 3465);
    assert!(v.palette == NbtTag::Byte(77));
    assert!(v.size == NbtTag::IntArray(vec![9, 41, 11]));
    assert_eq!(v.blocks.len(), base.blocks.len());
    assert_eq!(v.entities.len(), base.entities.len());
    let e = coord_entity(&v, 3, 4);
    assert_eq!(e.pos, F64Triple { x: 100, y: 200, z: 300 });
    assert_eq!(e.state.air, 300);
    assert_eq!(e.state.health, 0x41a00000);
    assert!(e.state.pose == NbtTag::Byte(4));
    assert_eq!(e.state.uuid, UuidInts { a: 1, b: 2, c: 3, d: 4 });
    let it = payload_item(coord_block(&v, 3, 4), "minecraft:golden_helmet");
    assert_eq!(it.count, 1);
    assert_eq!(it.slot, 0);
    assert_eq!(it.tag.damage, 0);
    // The payload-less block survives untouched.
    let plain = v
        .blocks
        .iter()
        .find(|b| b.payload.is_none())
        .expect("plain block lost");
    assert_eq!(plain.state, 8);
    assert_eq!(plain.pos, GridPos { x: 9, y: 1, z: 0 });
}

#[test]
fn pruning_family_keeps_single_piece() {
    let base = full_doc();
    let v = expect_ok(make_variant(&base, 5));
    for m in 0..10i32 {
        for t in 0..11i32 {
            let b = coord_block(&v, m, t);
            let items = &b.payload.as_ref().unwrap().items;
            assert_eq!(items.len(), 1);
            assert_eq!(items[0].id, "minecraft:turtle_helmet");
            let e = coord_entity(&v, m, t);
            let mut populated = 0;
            for s in &e.state.armor_items {
                if !s.is_empty() {
                    populated += 1;
                    assert_eq!(s.get().id, "minecraft:turtle_helmet");
                }
            }
            assert_eq!(populated, 1);
        }
    }
}

#[test]
fn all_families_leave_base_untouched() {
    let base = full_doc();
    let vs = match make_all_variants(&base) {
        Ok(vs) => vs,
        Err(e) => panic!("expected success, got {:?}", e),
    };
    assert_eq!(vs.len(), 6);
    // The base still carries its placeholders everywhere.
    for m in 0..10i32 {
        for t in 0..11i32 {
            let b = coord_block(&base, m, t);
            assert_eq!(b.payload.as_ref().unwrap().items.len(), 4);
            let it = payload_item(b, "minecraft:leather_helmet");
            assert_eq!(it.tag.trim.material, "minecraft:placeholder");
            let e = coord_entity(&base, m, t);
            let p = worn_piece(e, "minecraft:leather_chestplate");
            assert_eq!(p.tag.trim.pattern, "minecraft:placeholder");
        }
    }
    // Each family got its own rewrite.
    let names = [
        "minecraft:chainmail_helmet",
        "minecraft:iron_helmet",
        "minecraft:golden_helmet",
        "minecraft:diamond_helmet",
        "minecraft:netherite_helmet",
        "minecraft:turtle_helmet",
    ];
    for (f, v) in vs.iter().enumerate() {
        payload_item(coord_block(v, 0, 0), names[f]);
    }
}

#[test]
fn missing_block_coordinate_is_reported() {
    let mut base = full_doc();
    base.blocks
        .retain(|b| !(b.pos.y == 2 * 4 + 1 && b.pos.z == 3 && b.payload.is_some()));
    let e = expect_err(make_variant(&base, 0));
    assert_eq!(e.kind, TargetKind::Block);
    assert_eq!(e.failure, MatchFailure::Missing);
    assert_eq!(e.family, 0);
    assert_eq!(e.tier, 2);
    assert_eq!(e.trim, 3);
}

#[test]
fn duplicate_block_coordinate_is_reported() {
    let mut base = full_doc();
    base.blocks.push(block_at(7, 9, default_items()));
    let e = expect_err(make_variant(&base, 4));
    assert_eq!(e.kind, TargetKind::Block);
    assert_eq!(e.failure, MatchFailure::Multiple);
    assert_eq!(e.family, 4);
    assert_eq!(e.tier, 7);
    assert_eq!(e.trim, 9);
}

#[test]
fn missing_entity_coordinate_is_reported() {
    let mut base = full_doc();
    base.entities
        .retain(|en| !(en.block_pos.y == 1 && en.block_pos.z == 0));
    let e = expect_err(make_variant(&base, 0));
    assert_eq!(e.kind, TargetKind::Entity);
    assert_eq!(e.failure, MatchFailure::Missing);
    assert_eq!(e.tier, 0);
    assert_eq!(e.trim, 0);
}

#[test]
fn duplicate_entity_coordinate_is_reported() {
    let mut base = full_doc();
    base.entities.push(entity_at(5, 5, default_slots()));
    let e = expect_err(make_variant(&base, 3));
    assert_eq!(e.kind, TargetKind::Entity);
    assert_eq!(e.failure, MatchFailure::Multiple);
    assert_eq!(e.tier, 5);
    assert_eq!(e.trim, 5);
}

#[test]
fn missing_category_item_is_reported() {
    let mut base = full_doc();
    for b in base.blocks.iter_mut() {
        if b.pos.y == 1 && b.pos.z == 0 {
            if let Some(p) = b.payload.as_mut() {
                p.items.retain(|it| !it.id.contains("_leggings"));
            }
        }
    }
    let e = expect_err(make_variant(&base, 0));
    assert_eq!(e.kind, TargetKind::PayloadItem);
    assert_eq!(e.failure, MatchFailure::Missing);
    assert_eq!(e.category, 2);
    assert_eq!(e.tier, 0);
    assert_eq!(e.trim, 0);
}

#[test]
fn ambiguous_category_item_is_reported() {
    let mut base = full_doc();
    for b in base.blocks.iter_mut() {
        if b.pos.y == 1 && b.pos.z == 1 {
            if let Some(p) = b.payload.as_mut() {
                p.items.push(item("minecraft:spare_boots", 4));
            }
        }
    }
    let e = expect_err(make_variant(&base, 0));
    assert_eq!(e.kind, TargetKind::PayloadItem);
    assert_eq!(e.failure, MatchFailure::Multiple);
    assert_eq!(e.category, 3);
    assert_eq!(e.tier, 0);
    assert_eq!(e.trim, 1);
}

#[test]
fn all_slots_empty_is_reported() {
    let mut base = full_doc();
    for en in base.entities.iter_mut() {
        if en.block_pos.y == 1 && en.block_pos.z == 0 {
            en.state.armor_items = vec![
                ArmorSlot::Empty(NbtCompound::new()),
                ArmorSlot::Empty(NbtCompound::new()),
                ArmorSlot::Empty(NbtCompound::new()),
                ArmorSlot::Empty(NbtCompound::new()),
            ];
        }
    }
    let e = expect_err(make_variant(&base, 0));
    assert_eq!(e.kind, TargetKind::SlotPiece);
    assert_eq!(e.failure, MatchFailure::Missing);
    assert_eq!(e.category, 0);
}

#[test]
fn ambiguous_slot_piece_is_reported() {
    let mut base = full_doc();
    for en in base.entities.iter_mut() {
        if en.block_pos.y == 1 && en.block_pos.z == 0 {
            en.state
                .armor_items
                .push(ArmorSlot::Piece(piece("minecraft:spare_helmet")));
        }
    }
    let e = expect_err(make_variant(&base, 0));
    assert_eq!(e.kind, TargetKind::SlotPiece);
    assert_eq!(e.failure, MatchFailure::Multiple);
    assert_eq!(e.category, 0);
    assert_eq!(e.tier, 0);
    assert_eq!(e.trim, 0);
}

#[test]
fn empty_slot_is_skipped_not_read() {
    let mut base = full_doc();
    for en in base.entities.iter_mut() {
        let mut slots = vec![ArmorSlot::Empty(NbtCompound::new())];
        slots.append(&mut default_slots());
        en.state.armor_items = slots;
    }
    let v = expect_ok(make_variant(&base, 0));
    let e = coord_entity(&v, 0, 0);
    assert_eq!(e.state.armor_items.len(), 5);
    assert!(e.state.armor_items[0].is_empty());
    worn_piece(e, "minecraft:chainmail_helmet");
}
