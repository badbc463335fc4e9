//! The variant generator: for each armor family it deep-clones the base
//! document and, over the full cross-product of material tiers and trim
//! styles, rewrites the located block items and armor-stand pieces in place,
//! with the pruning special case of the single-piece family.

use vstd::prelude::*;

use crate::locate::MatchFailure;
use crate::locate::block_matches;
use crate::locate::chest_item_matches;
use crate::locate::entity_matches;
use crate::locate::find_block;
use crate::locate::find_chest_item;
use crate::locate::find_entity;
use crate::locate::find_slot;
use crate::locate::slot_matches;
use crate::model::ArmorItem;
use crate::model::ArmorSlot;
use crate::model::Block;
use crate::model::BlockPayload;
use crate::model::ChestItem;
use crate::model::Document;
use crate::model::Entity;
use crate::model::block_eq;
use crate::model::clone_document;
use crate::model::entity_eq;
use crate::model::stand_scalars_eq;
use crate::model::clone_chest_item;
use crate::model::clone_slot;
use crate::model::new_nbt_compound;
use crate::names::category_count;
use crate::names::category_suffix;
use crate::names::category_suffix_str;
use crate::names::family_count;
use crate::names::family_str;
use crate::names::lemma_rewritten_id_matches;
use crate::names::lemma_rewritten_id_unmatched;
use crate::names::material_count;
use crate::names::material_name;
use crate::names::material_str;
use crate::names::pruning_family;
use crate::names::rewritten_id;
use crate::names::trim_name;
use crate::names::trim_str;
use crate::names::trim_style_count;

verus! {

/// Which lookup a template-consistency error came from.
#[derive(Clone, Copy, PartialEq, Eq, Structural, Debug)]
pub enum TargetKind {
    /// The block record for a coordinate.
    Block,
    /// The entity record for a coordinate.
    Entity,
    /// A category's item inside a block payload.
    PayloadItem,
    /// A category's populated armor slot.
    SlotPiece,
}

/// A fatal template-consistency error, with enough context to say which
/// family, coordinate and category could not be resolved.
#[derive(Clone, Copy, PartialEq, Eq, Structural, Debug)]
pub struct TemplateError {
    pub kind: TargetKind,
    pub failure: MatchFailure,
    pub family: usize,
    pub tier: usize,
    pub trim: usize,
    pub category: usize,
}

/// A chest item carries exactly the identifier and trim that family `f`,
/// tier `m`, style `t` prescribe for category `k`.
pub open spec fn item_finalized(it: ChestItem, f: int, m: int, t: int, k: int) -> bool {
    &&& it.id@ == rewritten_id(f, k)
    &&& it.tag.trim.material@ == material_name(m)
    &&& it.tag.trim.pattern@ == trim_name(t)
}

/// An armor piece carries exactly the identifier and trim that family `f`,
/// tier `m`, style `t` prescribe for category `k`.
pub open spec fn piece_finalized(p: ArmorItem, f: int, m: int, t: int, k: int) -> bool {
    &&& p.id@ == rewritten_id(f, k)
    &&& p.tag.trim.material@ == material_name(m)
    &&& p.tag.trim.pattern@ == trim_name(t)
}

/// The rewrite step preserves everything it does not prescribe.
pub open spec fn item_rewrite_ok(pre: ChestItem, post: ChestItem, f: int, m: int, t: int, k: int) -> bool {
    &&& item_finalized(post, f, m, t, k)
    &&& post.count == pre.count
    &&& post.slot == pre.slot
    &&& post.tag.damage == pre.tag.damage
}

pub open spec fn piece_rewrite_ok(pre: ArmorItem, post: ArmorItem, f: int, m: int, t: int, k: int) -> bool {
    &&& piece_finalized(post, f, m, t, k)
    &&& post.count == pre.count
    &&& post.tag.damage == pre.tag.damage
}

/// Builds the identifier an item of category `k` receives under family `f`.
fn make_rewritten_id(f: usize, k: usize) -> (r: String)
    requires
        f < family_count(),
        k < category_count(),
    ensures
        r@ == rewritten_id(f as int, k as int),
{
    String::from_str(family_str(f)).concat(category_suffix_str(k))
}

/// Rewrites one chest item to its substituted identifier and trim.
fn rewrite_chest_item(it: &mut ChestItem, f: usize, m: usize, t: usize, k: usize)
    requires
        f < family_count(),
        m < material_count(),
        t < trim_style_count(),
        k < category_count(),
    ensures
        item_rewrite_ok(*old(it), *final(it), f as int, m as int, t as int, k as int),
{
    it.id = make_rewritten_id(f, k);
    it.tag.trim.material = String::from_str(material_str(m));
    it.tag.trim.pattern = String::from_str(trim_str(t));
}

/// Rewrites one armor piece to its substituted identifier and trim.
fn rewrite_armor_piece(p: &mut ArmorItem, f: usize, m: usize, t: usize, k: usize)
    requires
        f < family_count(),
        m < material_count(),
        t < trim_style_count(),
        k < category_count(),
    ensures
        piece_rewrite_ok(*old(p), *final(p), f as int, m as int, t as int, k as int),
{
    p.id = make_rewritten_id(f, k);
    p.tag.trim.material = String::from_str(material_str(m));
    p.tag.trim.pattern = String::from_str(trim_str(t));
}

/// Locates the unique payload item of category `k` and rewrites it.
fn rewrite_block_item(items: &mut Vec<ChestItem>, f: usize, m: usize, t: usize, k: usize) -> (r:
    Result<usize, MatchFailure>)
    requires
        f < family_count(),
        m < material_count(),
        t < trim_style_count(),
        k < category_count(),
    ensures
        r is Ok ==> {
            let i = r->Ok_0 as int;
            &&& 0 <= i < old(items)@.len()
            &&& final(items)@.len() == old(items)@.len()
            &&& chest_item_matches(old(items)@[i], category_suffix(k as int))
            &&& forall|j: int|
                0 <= j < old(items)@.len() && j != i ==> !chest_item_matches(
                    #[trigger] old(items)@[j],
                    category_suffix(k as int),
                )
            &&& item_rewrite_ok(old(items)@[i], final(items)@[i], f as int, m as int, t as int, k as int)
            &&& forall|j: int| 0 <= j < final(items)@.len() && j != i ==> final(items)@[j] == old(items)@[j]
        },
        r is Err ==> final(items)@ == old(items)@,
        r == Err::<usize, MatchFailure>(MatchFailure::Missing) ==> forall|j: int|
            0 <= j < old(items)@.len() ==> !chest_item_matches(
                #[trigger] old(items)@[j],
                category_suffix(k as int),
            ),
        r == Err::<usize, MatchFailure>(MatchFailure::Multiple) ==> exists|i: int, j: int|
            #![trigger old(items)@[i], old(items)@[j]]
            0 <= i < j < old(items)@.len() && chest_item_matches(
                old(items)@[i],
                category_suffix(k as int),
            ) && chest_item_matches(old(items)@[j], category_suffix(k as int)),
{
    let i = match find_chest_item(items, category_suffix_str(k)) {
        Ok(i) => i,
        Err(e) => {
            return Err(e);
        },
    };
    let mut it = items.remove(i);
    rewrite_chest_item(&mut it, f, m, t, k);
    items.insert(i, it);
    proof {
        assert(items@ =~= old(items)@.update(i as int, items@[i as int]));
    }
    Ok(i)
}

/// Locates the unique populated armor slot of category `k` and rewrites its
/// piece.
fn rewrite_slot_piece(slots: &mut Vec<ArmorSlot>, f: usize, m: usize, t: usize, k: usize) -> (r:
    Result<usize, MatchFailure>)
    requires
        f < family_count(),
        m < material_count(),
        t < trim_style_count(),
        k < category_count(),
    ensures
        r is Ok ==> {
            let i = r->Ok_0 as int;
            &&& 0 <= i < old(slots)@.len()
            &&& final(slots)@.len() == old(slots)@.len()
            &&& slot_matches(old(slots)@[i], category_suffix(k as int))
            &&& forall|j: int|
                0 <= j < old(slots)@.len() && j != i ==> !slot_matches(
                    #[trigger] old(slots)@[j],
                    category_suffix(k as int),
                )
            &&& final(slots)@[i] is Piece
            &&& piece_rewrite_ok(
                old(slots)@[i]->Piece_0,
                final(slots)@[i]->Piece_0,
                f as int,
                m as int,
                t as int,
                k as int,
            )
            &&& forall|j: int| 0 <= j < final(slots)@.len() && j != i ==> final(slots)@[j] == old(slots)@[j]
        },
        r is Err ==> final(slots)@ == old(slots)@,
        r == Err::<usize, MatchFailure>(MatchFailure::Missing) ==> forall|j: int|
            0 <= j < old(slots)@.len() ==> !slot_matches(
                #[trigger] old(slots)@[j],
                category_suffix(k as int),
            ),
        r == Err::<usize, MatchFailure>(MatchFailure::Multiple) ==> exists|i: int, j: int|
            #![trigger old(slots)@[i], old(slots)@[j]]
            0 <= i < j < old(slots)@.len() && slot_matches(
                old(slots)@[i],
                category_suffix(k as int),
            ) && slot_matches(old(slots)@[j], category_suffix(k as int)),
{
    let i = match find_slot(slots, category_suffix_str(k)) {
        Ok(i) => i,
        Err(e) => {
            return Err(e);
        },
    };
    let s = slots.remove(i);
    let mut piece = match s {
        ArmorSlot::Piece(a) => a,
        ArmorSlot::Empty(_) => vstd::pervasive::unreached(),
    };
    rewrite_armor_piece(&mut piece, f, m, t, k);
    slots.insert(i, ArmorSlot::Piece(piece));
    proof {
        assert(slots@ =~= old(slots)@.update(i as int, slots@[i as int]));
    }
    Ok(i)
}

/// What the slot prune keeps: a populated slot whose piece carries exactly
/// the kept identifier.
pub open spec fn slot_keeps(s: ArmorSlot, id: Seq<char>) -> bool {
    &&& s is Piece
    &&& s->Piece_0.id@ == id
}

/// Clears every armor slot except those holding a piece with the target
/// identifier; cleared slots receive a fresh empty marker.
fn prune_slots(slots: &mut Vec<ArmorSlot>, target: &String)
    ensures
        final(slots)@.len() == old(slots)@.len(),
        forall|j: int|
            0 <= j < old(slots)@.len() && slot_keeps(#[trigger] old(slots)@[j], target@)
                ==> final(slots)@[j] == old(slots)@[j],
        forall|j: int|
            0 <= j < old(slots)@.len() && !slot_keeps(#[trigger] old(slots)@[j], target@)
                ==> final(slots)@[j] is Empty,
{
    let mut out: Vec<ArmorSlot> = Vec::new();
    let mut i: usize = 0;
    while i < slots.len()
        invariant
            i <= slots@.len(),
            slots@ == old(slots)@,
            out@.len() == i,
            forall|j: int|
                0 <= j < i && slot_keeps(#[trigger] slots@[j], target@) ==> out@[j] == slots@[j],
            forall|j: int|
                0 <= j < i && !slot_keeps(#[trigger] slots@[j], target@) ==> out@[j] is Empty,
        decreases slots@.len() - i,
    {
        let keep = match &slots[i] {
            ArmorSlot::Piece(a) => a.id == *target,
            ArmorSlot::Empty(_) => false,
        };
        if keep {
            out.push(clone_slot(&slots[i]));
        } else {
            out.push(ArmorSlot::Empty(new_nbt_compound()));
        }
        i += 1;
    }
    *slots = out;
}

/// Removes every payload item except the unique one carrying the target
/// identifier, preserving that item.
fn prune_items(items: &mut Vec<ChestItem>, target: &String)
    requires
        exists|w: int| 0 <= w < old(items)@.len() && (#[trigger] old(items)@[w]).id@ == target@,
        forall|w1: int, w2: int|
            #![trigger old(items)@[w1], old(items)@[w2]]
            0 <= w1 < old(items)@.len() && 0 <= w2 < old(items)@.len() && old(items)@[w1].id@
                == target@ && old(items)@[w2].id@ == target@ ==> w1 == w2,
    ensures
        final(items)@.len() == 1,
        exists|w: int|
            0 <= w < old(items)@.len() && (#[trigger] old(items)@[w]).id@ == target@
                && final(items)@[0] == old(items)@[w],
{
    let ghost w: int = choose|w: int|
        0 <= w < old(items)@.len() && (#[trigger] old(items)@[w]).id@ == target@;
    let mut out: Vec<ChestItem> = Vec::new();
    let mut i: usize = 0;
    while i < items.len()
        invariant
            i <= items@.len(),
            items@ == old(items)@,
            0 <= w < items@.len(),
            items@[w].id@ == target@,
            forall|w1: int, w2: int|
                #![trigger items@[w1], items@[w2]]
                0 <= w1 < items@.len() && 0 <= w2 < items@.len() && items@[w1].id@ == target@
                    && items@[w2].id@ == target@ ==> w1 == w2,
            w < i ==> (out@.len() == 1 && out@[0] == items@[w]),
            i <= w ==> out@.len() == 0,
        decreases items@.len() - i,
    {
        if items[i].id == *target {
            proof {
                assert(i == w);
            }
            out.push(clone_chest_item(&items[i]));
        }
        i += 1;
    }
    *items = out;
}

/// How many categories a family processes: the pruning family stops after
/// the head piece.
pub open spec fn processed_categories(f: int) -> int {
    if f == pruning_family() {
        1
    } else {
        category_count()
    }
}

pub open spec fn has_finalized_item(items: Seq<ChestItem>, f: int, m: int, t: int, k: int) -> bool {
    exists|i: int| 0 <= i < items.len() && item_finalized(#[trigger] items[i], f, m, t, k)
}

/// Every category's substituted item is present in the payload.
pub open spec fn items_done(items: Seq<ChestItem>, f: int, m: int, t: int) -> bool {
    forall|k: int| 0 <= k < category_count() ==> #[trigger] has_finalized_item(items, f, m, t, k)
}

pub open spec fn has_finalized_piece(slots: Seq<ArmorSlot>, f: int, m: int, t: int, k: int) -> bool {
    exists|i: int|
        0 <= i < slots.len() && (#[trigger] slots[i]) is Piece && piece_finalized(
            slots[i]->Piece_0,
            f,
            m,
            t,
            k,
        )
}

/// Every category's substituted piece is worn in some slot.
pub open spec fn slots_done(slots: Seq<ArmorSlot>, f: int, m: int, t: int) -> bool {
    forall|k: int| 0 <= k < category_count() ==> #[trigger] has_finalized_piece(slots, f, m, t, k)
}

/// The pruned payload: exactly the substituted head item is left.
pub open spec fn items_pruned(items: Seq<ChestItem>, m: int, t: int) -> bool {
    &&& items.len() == 1
    &&& item_finalized(items[0], pruning_family(), m, t, 0)
}

/// The pruned slots: the substituted head piece is worn, every other slot
/// reports empty.
pub open spec fn slots_pruned(slots: Seq<ArmorSlot>, m: int, t: int) -> bool {
    exists|i: int|
        0 <= i < slots.len() && (#[trigger] slots[i]) is Piece && piece_finalized(
            slots[i]->Piece_0,
            pruning_family(),
            m,
            t,
            0,
        ) && (forall|j: int| 0 <= j < slots.len() && j != i ==> !((#[trigger] slots[j]) is Piece))
}

/// Exactly one payload item answers to category `k`.
pub open spec fn unique_item_match(items: Seq<ChestItem>, k: int) -> bool {
    &&& exists|i: int|
        0 <= i < items.len() && chest_item_matches(#[trigger] items[i], category_suffix(k))
    &&& forall|i1: int, i2: int|
        #![trigger items[i1], items[i2]]
        0 <= i1 < items.len() && 0 <= i2 < items.len() && chest_item_matches(
            items[i1],
            category_suffix(k),
        ) && chest_item_matches(items[i2], category_suffix(k)) ==> i1 == i2
}

/// Exactly one populated slot answers to category `k`.
pub open spec fn unique_slot_match(slots: Seq<ArmorSlot>, k: int) -> bool {
    &&& exists|i: int| 0 <= i < slots.len() && slot_matches(#[trigger] slots[i], category_suffix(k))
    &&& forall|i1: int, i2: int|
        #![trigger slots[i1], slots[i2]]
        0 <= i1 < slots.len() && 0 <= i2 < slots.len() && slot_matches(
            slots[i1],
            category_suffix(k),
        ) && slot_matches(slots[i2], category_suffix(k)) ==> i1 == i2
}

/// No payload item answers to two categories at once.
pub open spec fn items_single_category(items: Seq<ChestItem>) -> bool {
    forall|i: int, k1: int, k2: int|
        #![trigger chest_item_matches(items[i], category_suffix(k1)), chest_item_matches(items[i], category_suffix(k2))]
        0 <= i < items.len() && 0 <= k1 < category_count() && 0 <= k2 < category_count()
            && chest_item_matches(items[i], category_suffix(k1)) && chest_item_matches(
            items[i],
            category_suffix(k2),
        ) ==> k1 == k2
}

/// No populated slot answers to two categories at once.
pub open spec fn slots_single_category(slots: Seq<ArmorSlot>) -> bool {
    forall|i: int, k1: int, k2: int|
        #![trigger slot_matches(slots[i], category_suffix(k1)), slot_matches(slots[i], category_suffix(k2))]
        0 <= i < slots.len() && 0 <= k1 < category_count() && 0 <= k2 < category_count()
            && slot_matches(slots[i], category_suffix(k1)) && slot_matches(
            slots[i],
            category_suffix(k2),
        ) ==> k1 == k2
}

/// A well-formed payload: every category the family processes resolves to
/// exactly one item, and no item serves two categories.
pub open spec fn items_ready(items: Seq<ChestItem>, f: int) -> bool {
    &&& forall|k: int| 0 <= k < processed_categories(f) ==> #[trigger] unique_item_match(items, k)
    &&& items_single_category(items)
}

/// A well-formed slot row: every category the family processes resolves to
/// exactly one populated slot, and no slot serves two categories.
pub open spec fn slots_ready(slots: Seq<ArmorSlot>, f: int) -> bool {
    &&& forall|k: int| 0 <= k < processed_categories(f) ==> #[trigger] unique_slot_match(slots, k)
    &&& slots_single_category(slots)
}

/// A well-formed coordinate pair. On such a pair, substitution is owed to
/// succeed.
pub open spec fn pair_ready(items: Seq<ChestItem>, slots: Seq<ArmorSlot>, f: int) -> bool {
    &&& items_ready(items, f)
    &&& slots_ready(slots, f)
}

/// How a payload may differ from its base after the first `upto` categories:
/// an item is either untouched, or it answered to one of those categories
/// and was rewritten for it.
pub open spec fn items_evolved(
    pre: Seq<ChestItem>,
    post: Seq<ChestItem>,
    f: int,
    m: int,
    t: int,
    upto: int,
) -> bool {
    &&& post.len() == pre.len()
    &&& forall|j: int|
        0 <= j < pre.len() ==> ((#[trigger] post[j]) == pre[j] || exists|c: int|
            0 <= c < upto && chest_item_matches(pre[j], category_suffix(c)) && #[trigger]
            item_rewrite_ok(pre[j], post[j], f, m, t, c))
}

/// The slot analogue of `items_evolved`.
pub open spec fn slots_evolved(
    pre: Seq<ArmorSlot>,
    post: Seq<ArmorSlot>,
    f: int,
    m: int,
    t: int,
    upto: int,
) -> bool {
    &&& post.len() == pre.len()
    &&& forall|j: int|
        0 <= j < pre.len() ==> ((#[trigger] post[j]) == pre[j] || exists|c: int|
            0 <= c < upto && slot_matches(pre[j], category_suffix(c)) && post[j] is Piece
                && #[trigger] piece_rewrite_ok(
                pre[j]->Piece_0,
                post[j]->Piece_0,
                f,
                m,
                t,
                c,
            ))
}

/// One category step preserves the evolution invariant and the finished
/// categories: the step's target cannot be an already rewritten item, since
/// a rewritten identifier never answers to another category's suffix.
proof fn lemma_items_step(
    pre: Seq<ChestItem>,
    mid: Seq<ChestItem>,
    post: Seq<ChestItem>,
    f: int,
    m: int,
    t: int,
    k: int,
    i: int,
)
    requires
        0 <= f < family_count(),
        0 <= k < category_count(),
        items_evolved(pre, mid, f, m, t, k),
        forall|c: int| 0 <= c < k ==> #[trigger] has_finalized_item(mid, f, m, t, c),
        0 <= i < mid.len(),
        post.len() == mid.len(),
        chest_item_matches(mid[i], category_suffix(k)),
        item_rewrite_ok(mid[i], post[i], f, m, t, k),
        forall|j: int| 0 <= j < mid.len() && j != i ==> #[trigger] post[j] == mid[j],
    ensures
        items_evolved(pre, post, f, m, t, k + 1),
        forall|c: int| 0 <= c < k + 1 ==> #[trigger] has_finalized_item(post, f, m, t, c),
{
    assert(mid[i] == pre[i]) by {
        if mid[i] != pre[i] {
            let c = choose|c: int|
                0 <= c < k && chest_item_matches(pre[i], category_suffix(c)) && item_rewrite_ok(
                    pre[i],
                    mid[i],
                    f,
                    m,
                    t,
                    c,
                );
            lemma_rewritten_id_unmatched(f, c, k);
            assert(false);
        }
    }
    assert forall|j: int| 0 <= j < pre.len() implies ((#[trigger] post[j]) == pre[j] || exists|
        c: int,
    |
        0 <= c < k + 1 && chest_item_matches(pre[j], category_suffix(c)) && #[trigger]
        item_rewrite_ok(pre[j], post[j], f, m, t, c)) by {
        if j == i {
            assert(chest_item_matches(pre[i], category_suffix(k)));
            assert(item_rewrite_ok(pre[i], post[i], f, m, t, k));
        } else {
            assert(post[j] == mid[j]);
        }
    }
    assert forall|c: int| 0 <= c < k + 1 implies #[trigger] has_finalized_item(post, f, m, t, c) by {
        if c == k {
            assert(item_finalized(post[i], f, m, t, k));
        } else {
            assert(has_finalized_item(mid, f, m, t, c));
            let wc = choose|wc: int|
                0 <= wc < mid.len() && item_finalized(#[trigger] mid[wc], f, m, t, c);
            assert(wc != i) by {
                if wc == i {
                    lemma_rewritten_id_unmatched(f, c, k);
                    assert(false);
                }
            }
            assert(item_finalized(post[wc], f, m, t, c));
        }
    }
}

/// The slot analogue of `lemma_items_step`.
proof fn lemma_slots_step(
    pre: Seq<ArmorSlot>,
    mid: Seq<ArmorSlot>,
    post: Seq<ArmorSlot>,
    f: int,
    m: int,
    t: int,
    k: int,
    i: int,
)
    requires
        0 <= f < family_count(),
        0 <= k < category_count(),
        slots_evolved(pre, mid, f, m, t, k),
        forall|c: int| 0 <= c < k ==> #[trigger] has_finalized_piece(mid, f, m, t, c),
        0 <= i < mid.len(),
        post.len() == mid.len(),
        slot_matches(mid[i], category_suffix(k)),
        post[i] is Piece,
        piece_rewrite_ok(mid[i]->Piece_0, post[i]->Piece_0, f, m, t, k),
        forall|j: int| 0 <= j < mid.len() && j != i ==> #[trigger] post[j] == mid[j],
    ensures
        slots_evolved(pre, post, f, m, t, k + 1),
        forall|c: int| 0 <= c < k + 1 ==> #[trigger] has_finalized_piece(post, f, m, t, c),
{
    assert(mid[i] == pre[i]) by {
        if mid[i] != pre[i] {
            let c = choose|c: int|
                0 <= c < k && slot_matches(pre[i], category_suffix(c)) && mid[i] is Piece
                    && piece_rewrite_ok(pre[i]->Piece_0, mid[i]->Piece_0, f, m, t, c);
            lemma_rewritten_id_unmatched(f, c, k);
            assert(false);
        }
    }
    assert forall|j: int| 0 <= j < pre.len() implies ((#[trigger] post[j]) == pre[j] || exists|
        c: int,
    |
        0 <= c < k + 1 && slot_matches(pre[j], category_suffix(c)) && post[j] is Piece
            && #[trigger] piece_rewrite_ok(pre[j]->Piece_0, post[j]->Piece_0, f, m, t, c)) by {
        if j == i {
            assert(slot_matches(pre[i], category_suffix(k)));
            assert(piece_rewrite_ok(pre[i]->Piece_0, post[i]->Piece_0, f, m, t, k));
        } else {
            assert(post[j] == mid[j]);
        }
    }
    assert forall|c: int| 0 <= c < k + 1 implies #[trigger] has_finalized_piece(post, f, m, t, c) by {
        if c == k {
            assert(piece_finalized(post[i]->Piece_0, f, m, t, k));
        } else {
            assert(has_finalized_piece(mid, f, m, t, c));
            let wc = choose|wc: int|
                0 <= wc < mid.len() && (#[trigger] mid[wc]) is Piece && piece_finalized(
                    mid[wc]->Piece_0,
                    f,
                    m,
                    t,
                    c,
                );
            assert(wc != i) by {
                if wc == i {
                    lemma_rewritten_id_unmatched(f, c, k);
                    assert(false);
                }
            }
            assert(post[wc] is Piece && piece_finalized(post[wc]->Piece_0, f, m, t, c));
        }
    }
}

/// On a ready pair, category `k`'s unique payload match survives the first
/// `k` rewrites, so the lookup still resolves to exactly one item.
proof fn lemma_items_ready_match(
    pre: Seq<ChestItem>,
    mid: Seq<ChestItem>,
    f: int,
    m: int,
    t: int,
    k: int,
)
    requires
        0 <= f < family_count(),
        0 <= k < category_count(),
        unique_item_match(pre, k),
        items_single_category(pre),
        items_evolved(pre, mid, f, m, t, k),
    ensures
        unique_item_match(mid, k),
{
    let w = choose|w: int|
        0 <= w < pre.len() && chest_item_matches(#[trigger] pre[w], category_suffix(k));
    assert(mid[w] == pre[w]) by {
        if mid[w] != pre[w] {
            let c = choose|c: int|
                0 <= c < k && chest_item_matches(pre[w], category_suffix(c)) && item_rewrite_ok(
                    pre[w],
                    mid[w],
                    f,
                    m,
                    t,
                    c,
                );
            assert(false);
        }
    }
    assert(chest_item_matches(mid[w], category_suffix(k)));
    assert forall|i1: int, i2: int|
        #![trigger mid[i1], mid[i2]]
        0 <= i1 < mid.len() && 0 <= i2 < mid.len() && chest_item_matches(
            mid[i1],
            category_suffix(k),
        ) && chest_item_matches(mid[i2], category_suffix(k)) implies i1 == i2 by {
        assert(mid[i1] == pre[i1]) by {
            if mid[i1] != pre[i1] {
                let c = choose|c: int|
                    0 <= c < k && chest_item_matches(pre[i1], category_suffix(c))
                        && item_rewrite_ok(pre[i1], mid[i1], f, m, t, c);
                lemma_rewritten_id_unmatched(f, c, k);
                assert(false);
            }
        }
        assert(mid[i2] == pre[i2]) by {
            if mid[i2] != pre[i2] {
                let c = choose|c: int|
                    0 <= c < k && chest_item_matches(pre[i2], category_suffix(c))
                        && item_rewrite_ok(pre[i2], mid[i2], f, m, t, c);
                lemma_rewritten_id_unmatched(f, c, k);
                assert(false);
            }
        }
    }
}

/// The slot analogue of `lemma_items_ready_match`.
proof fn lemma_slots_ready_match(
    pre: Seq<ArmorSlot>,
    mid: Seq<ArmorSlot>,
    f: int,
    m: int,
    t: int,
    k: int,
)
    requires
        0 <= f < family_count(),
        0 <= k < category_count(),
        unique_slot_match(pre, k),
        slots_single_category(pre),
        slots_evolved(pre, mid, f, m, t, k),
    ensures
        unique_slot_match(mid, k),
{
    let w = choose|w: int|
        0 <= w < pre.len() && slot_matches(#[trigger] pre[w], category_suffix(k));
    assert(mid[w] == pre[w]) by {
        if mid[w] != pre[w] {
            let c = choose|c: int|
                0 <= c < k && slot_matches(pre[w], category_suffix(c)) && mid[w] is Piece
                    && piece_rewrite_ok(pre[w]->Piece_0, mid[w]->Piece_0, f, m, t, c);
            assert(false);
        }
    }
    assert(slot_matches(mid[w], category_suffix(k)));
    assert forall|i1: int, i2: int|
        #![trigger mid[i1], mid[i2]]
        0 <= i1 < mid.len() && 0 <= i2 < mid.len() && slot_matches(mid[i1], category_suffix(k))
            && slot_matches(mid[i2], category_suffix(k)) implies i1 == i2 by {
        assert(mid[i1] == pre[i1]) by {
            if mid[i1] != pre[i1] {
                let c = choose|c: int|
                    0 <= c < k && slot_matches(pre[i1], category_suffix(c)) && mid[i1] is Piece
                        && piece_rewrite_ok(pre[i1]->Piece_0, mid[i1]->Piece_0, f, m, t, c);
                lemma_rewritten_id_unmatched(f, c, k);
                assert(false);
            }
        }
        assert(mid[i2] == pre[i2]) by {
            if mid[i2] != pre[i2] {
                let c = choose|c: int|
                    0 <= c < k && slot_matches(pre[i2], category_suffix(c)) && mid[i2] is Piece
                        && piece_rewrite_ok(pre[i2]->Piece_0, mid[i2]->Piece_0, f, m, t, c);
                lemma_rewritten_id_unmatched(f, c, k);
                assert(false);
            }
        }
    }
}

/// Substitutes one coordinate's block payload and armor-stand slots for
/// family `f`, tier `m`, style `t`: each processed category's item and piece
/// are located by suffix and rewritten; the pruning family then clears every
/// other slot and payload item and stops after the head category.
fn process_pair(
    items: &mut Vec<ChestItem>,
    slots: &mut Vec<ArmorSlot>,
    f: usize,
    m: usize,
    t: usize,
) -> (r: Result<(), (TargetKind, usize, MatchFailure)>)
    requires
        f < family_count(),
        m < material_count(),
        t < trim_style_count(),
    ensures
        r is Ok && f as int != pruning_family() ==> {
            &&& items_evolved(
                old(items)@,
                final(items)@,
                f as int,
                m as int,
                t as int,
                category_count(),
            )
            &&& items_done(final(items)@, f as int, m as int, t as int)
            &&& slots_evolved(
                old(slots)@,
                final(slots)@,
                f as int,
                m as int,
                t as int,
                category_count(),
            )
            &&& slots_done(final(slots)@, f as int, m as int, t as int)
        },
        r is Ok && f as int == pruning_family() ==> {
            &&& items_pruned(final(items)@, m as int, t as int)
            &&& slots_pruned(final(slots)@, m as int, t as int)
        },
        pair_ready(old(items)@, old(slots)@, f as int) ==> r is Ok,
        r is Err ==> (r->Err_0.0 == TargetKind::PayloadItem || r->Err_0.0 == TargetKind::SlotPiece)
            && r->Err_0.1 < category_count(),
{
    let pc: usize = if f == 5 {
        1
    } else {
        4
    };
    let mut k: usize = 0;
    while k < pc
        invariant
            f < family_count(),
            m < material_count(),
            t < trim_style_count(),
            pc == processed_categories(f as int),
            f as int == pruning_family() ==> k == 0,
            k <= pc,
            items_evolved(old(items)@, items@, f as int, m as int, t as int, k as int),
            forall|c: int|
                0 <= c < k ==> #[trigger] has_finalized_item(
                    items@,
                    f as int,
                    m as int,
                    t as int,
                    c,
                ),
            slots_evolved(old(slots)@, slots@, f as int, m as int, t as int, k as int),
            forall|c: int|
                0 <= c < k ==> #[trigger] has_finalized_piece(
                    slots@,
                    f as int,
                    m as int,
                    t as int,
                    c,
                ),
        decreases pc - k,
    {
        let ghost items_mid = items@;
        let ghost slots_mid = slots@;
        let bi = match rewrite_block_item(items, f, m, t, k) {
            Ok(i) => i,
            Err(e) => {
                proof {
                    if pair_ready(old(items)@, old(slots)@, f as int) {
                        assert(unique_item_match(old(items)@, k as int));
                        lemma_items_ready_match(
                            old(items)@,
                            items_mid,
                            f as int,
                            m as int,
                            t as int,
                            k as int,
                        );
                        if e is Missing {
                            let w = choose|w: int|
                                0 <= w < items_mid.len() && chest_item_matches(
                                    #[trigger] items_mid[w],
                                    category_suffix(k as int),
                                );
                            assert(false);
                        } else {
                            let (i1, i2) = choose|i1: int, i2: int|
                                #![trigger items_mid[i1], items_mid[i2]]
                                0 <= i1 < i2 < items_mid.len() && chest_item_matches(
                                    items_mid[i1],
                                    category_suffix(k as int),
                                ) && chest_item_matches(items_mid[i2], category_suffix(k as int));
                            assert(false);
                        }
                    }
                }
                return Err((TargetKind::PayloadItem, k, e));
            },
        };
        let si = match rewrite_slot_piece(slots, f, m, t, k) {
            Ok(i) => i,
            Err(e) => {
                proof {
                    if pair_ready(old(items)@, old(slots)@, f as int) {
                        assert(unique_slot_match(old(slots)@, k as int));
                        lemma_slots_ready_match(
                            old(slots)@,
                            slots_mid,
                            f as int,
                            m as int,
                            t as int,
                            k as int,
                        );
                        if e is Missing {
                            let w = choose|w: int|
                                0 <= w < slots_mid.len() && slot_matches(
                                    #[trigger] slots_mid[w],
                                    category_suffix(k as int),
                                );
                            assert(false);
                        } else {
                            let (i1, i2) = choose|i1: int, i2: int|
                                #![trigger slots_mid[i1], slots_mid[i2]]
                                0 <= i1 < i2 < slots_mid.len() && slot_matches(
                                    slots_mid[i1],
                                    category_suffix(k as int),
                                ) && slot_matches(slots_mid[i2], category_suffix(k as int));
                            assert(false);
                        }
                    }
                }
                return Err((TargetKind::SlotPiece, k, e));
            },
        };
        proof {
            lemma_items_step(
                old(items)@,
                items_mid,
                items@,
                f as int,
                m as int,
                t as int,
                k as int,
                bi as int,
            );
            lemma_slots_step(
                old(slots)@,
                slots_mid,
                slots@,
                f as int,
                m as int,
                t as int,
                k as int,
                si as int,
            );
        }
        if f == 5 {
            let target = make_rewritten_id(f, 0);
            let ghost items_sub = items@;
            let ghost slots_sub = slots@;
            prune_slots(slots, &target);
            proof {
                lemma_rewritten_id_matches(f as int, 0);
                assert(slot_keeps(slots_sub[si as int], target@));
                assert(slots@[si as int] == slots_sub[si as int]);
                assert forall|j: int|
                    0 <= j < slots@.len() && j != si as int implies !((#[trigger] slots@[j])
                    is Piece) by {
                    if slot_keeps(slots_sub[j], target@) {
                        assert(slots_sub[j] == slots_mid[j]);
                        assert(slot_matches(slots_mid[j], category_suffix(0)));
                        assert(false);
                    }
                }
                assert(slots_pruned(slots@, m as int, t as int));
            }
            proof {
                lemma_rewritten_id_matches(f as int, 0);
                assert((#[trigger] items_sub[bi as int]).id@ == target@);
                assert forall|w1: int, w2: int|
                    #![trigger items_sub[w1], items_sub[w2]]
                    0 <= w1 < items_sub.len() && 0 <= w2 < items_sub.len() && items_sub[w1].id@
                        == target@ && items_sub[w2].id@ == target@ implies w1 == w2 by {
                    if w1 != bi as int {
                        assert(items_sub[w1] == items_mid[w1]);
                        assert(chest_item_matches(items_mid[w1], category_suffix(0)));
                        assert(false);
                    }
                    if w2 != bi as int {
                        assert(items_sub[w2] == items_mid[w2]);
                        assert(chest_item_matches(items_mid[w2], category_suffix(0)));
                        assert(false);
                    }
                }
            }
            prune_items(items, &target);
            proof {
                let w = choose|w: int|
                    0 <= w < items_sub.len() && (#[trigger] items_sub[w]).id@ == target@
                        && items@[0] == items_sub[w];
                lemma_rewritten_id_matches(f as int, 0);
                if w != bi as int {
                    assert(items_sub[w] == items_mid[w]);
                    assert(chest_item_matches(items_mid[w], category_suffix(0)));
                    assert(false);
                }
                assert(items@[0] == items_sub[bi as int]);
                assert(items_pruned(items@, m as int, t as int));
            }
            return Ok(());
        }
        k += 1;
    }
    proof {
        assert(f as int != pruning_family());
    }
    Ok(())
}

/// Exactly one block record stands at coordinate (`m`, `t`).
pub open spec fn unique_block_at(blocks: Seq<Block>, m: int, t: int) -> bool {
    &&& exists|i: int| 0 <= i < blocks.len() && block_matches(#[trigger] blocks[i], m, t)
    &&& forall|i1: int, i2: int|
        #![trigger blocks[i1], blocks[i2]]
        0 <= i1 < blocks.len() && 0 <= i2 < blocks.len() && block_matches(blocks[i1], m, t)
            && block_matches(blocks[i2], m, t) ==> i1 == i2
}

/// Exactly one entity record stands at coordinate (`m`, `t`).
pub open spec fn unique_entity_at(entities: Seq<Entity>, m: int, t: int) -> bool {
    &&& exists|i: int| 0 <= i < entities.len() && entity_matches(#[trigger] entities[i], m, t)
    &&& forall|i1: int, i2: int|
        #![trigger entities[i1], entities[i2]]
        0 <= i1 < entities.len() && 0 <= i2 < entities.len() && entity_matches(entities[i1], m, t)
            && entity_matches(entities[i2], m, t) ==> i1 == i2
}

/// What substitution did to the block at a coordinate: position, state and
/// payload type survive; the payload items carry the family's rewrites, or
/// only the kept head item for the pruning family.
pub open spec fn block_substituted(pre: Block, post: Block, f: int, m: int, t: int) -> bool {
    &&& post.pos == pre.pos
    &&& post.state == pre.state
    &&& pre.payload is Some
    &&& post.payload is Some
    &&& post.payload->Some_0.id == pre.payload->Some_0.id
    &&& if f == pruning_family() {
        items_pruned(post.payload->Some_0.items@, m, t)
    } else {
        &&& items_evolved(
            pre.payload->Some_0.items@,
            post.payload->Some_0.items@,
            f,
            m,
            t,
            category_count(),
        )
        &&& items_done(post.payload->Some_0.items@, f, m, t)
    }
}

/// What substitution did to the entity at a coordinate: everything but the
/// armor slots survives; the slots carry the family's rewrites, or only the
/// worn head piece for the pruning family.
pub open spec fn entity_substituted(pre: Entity, post: Entity, f: int, m: int, t: int) -> bool {
    &&& post.block_pos == pre.block_pos
    &&& post.pos == pre.pos
    &&& stand_scalars_eq(pre.state, post.state)
    &&& if f == pruning_family() {
        slots_pruned(post.state.armor_items@, m, t)
    } else {
        &&& slots_evolved(
            pre.state.armor_items@,
            post.state.armor_items@,
            f,
            m,
            t,
            category_count(),
        )
        &&& slots_done(post.state.armor_items@, f, m, t)
    }
}

/// A template coordinate from which the whole substitution is owed to
/// succeed: a unique block and entity, whose payload and slots are ready.
pub open spec fn coordinate_ready(
    blocks: Seq<Block>,
    entities: Seq<Entity>,
    f: int,
    m: int,
    t: int,
) -> bool {
    &&& unique_block_at(blocks, m, t)
    &&& unique_entity_at(entities, m, t)
    &&& forall|i: int|
        0 <= i < blocks.len() && block_matches(#[trigger] blocks[i], m, t) ==> items_ready(
            blocks[i].payload->Some_0.items@,
            f,
        )
    &&& forall|i: int|
        0 <= i < entities.len() && entity_matches(#[trigger] entities[i], m, t) ==> slots_ready(
            entities[i].state.armor_items@,
            f,
        )
}

/// Locates the unique block and entity of a coordinate and substitutes both
/// for family `f`, tier `m`, style `t`.
fn process_coordinate(
    blocks: &mut Vec<Block>,
    entities: &mut Vec<Entity>,
    f: usize,
    m: usize,
    t: usize,
) -> (r: Result<(usize, usize), TemplateError>)
    requires
        f < family_count(),
        m < material_count(),
        t < trim_style_count(),
    ensures
        r is Ok ==> {
            let bi = r->Ok_0.0 as int;
            let ei = r->Ok_0.1 as int;
            &&& final(blocks)@.len() == old(blocks)@.len()
            &&& final(entities)@.len() == old(entities)@.len()
            &&& 0 <= bi < old(blocks)@.len()
            &&& 0 <= ei < old(entities)@.len()
            &&& block_matches(old(blocks)@[bi], m as int, t as int)
            &&& entity_matches(old(entities)@[ei], m as int, t as int)
            &&& forall|j: int|
                0 <= j < old(blocks)@.len() && j != bi ==> !block_matches(
                    #[trigger] old(blocks)@[j],
                    m as int,
                    t as int,
                )
            &&& forall|j: int|
                0 <= j < old(entities)@.len() && j != ei ==> !entity_matches(
                    #[trigger] old(entities)@[j],
                    m as int,
                    t as int,
                )
            &&& forall|j: int|
                0 <= j < old(blocks)@.len() && j != bi ==> final(blocks)@[j] == old(blocks)@[j]
            &&& forall|j: int|
                0 <= j < old(entities)@.len() && j != ei ==> final(entities)@[j] == old(
                    entities,
                )@[j]
            &&& block_substituted(
                old(blocks)@[bi],
                final(blocks)@[bi],
                f as int,
                m as int,
                t as int,
            )
            &&& entity_substituted(
                old(entities)@[ei],
                final(entities)@[ei],
                f as int,
                m as int,
                t as int,
            )
        },
        coordinate_ready(old(blocks)@, old(entities)@, f as int, m as int, t as int) ==> r is Ok,
        r is Err ==> {
            let e = r->Err_0;
            &&& e.family == f
            &&& e.tier == m
            &&& e.trim == t
            &&& (e.kind == TargetKind::Block && e.failure == MatchFailure::Missing ==> forall|
                j: int,
            |
                0 <= j < old(blocks)@.len() ==> !block_matches(
                    #[trigger] old(blocks)@[j],
                    m as int,
                    t as int,
                ))
            &&& (e.kind == TargetKind::Entity && e.failure == MatchFailure::Missing ==> forall|
                j: int,
            |
                0 <= j < old(entities)@.len() ==> !entity_matches(
                    #[trigger] old(entities)@[j],
                    m as int,
                    t as int,
                ))
            &&& (e.kind == TargetKind::PayloadItem || e.kind == TargetKind::SlotPiece
                ==> e.category < category_count())
        },
{
    let bi = match find_block(blocks, m, t) {
        Ok(i) => i,
        Err(e) => {
            proof {
                if coordinate_ready(old(blocks)@, old(entities)@, f as int, m as int, t as int) {
                    if e is Missing {
                        let w = choose|w: int|
                            0 <= w < old(blocks)@.len() && block_matches(
                                #[trigger] old(blocks)@[w],
                                m as int,
                                t as int,
                            );
                        assert(false);
                    } else {
                        let (i1, i2) = choose|i1: int, i2: int|
                            #![trigger old(blocks)@[i1], old(blocks)@[i2]]
                            0 <= i1 < i2 < old(blocks)@.len() && block_matches(
                                old(blocks)@[i1],
                                m as int,
                                t as int,
                            ) && block_matches(old(blocks)@[i2], m as int, t as int);
                        assert(false);
                    }
                }
            }
            return Err(
                TemplateError {
                    kind: TargetKind::Block,
                    failure: e,
                    family: f,
                    tier: m,
                    trim: t,
                    category: 0,
                },
            );
        },
    };
    let ei = match find_entity(entities, m, t) {
        Ok(i) => i,
        Err(e) => {
            proof {
                if coordinate_ready(old(blocks)@, old(entities)@, f as int, m as int, t as int) {
                    if e is Missing {
                        let w = choose|w: int|
                            0 <= w < old(entities)@.len() && entity_matches(
                                #[trigger] old(entities)@[w],
                                m as int,
                                t as int,
                            );
                        assert(false);
                    } else {
                        let (i1, i2) = choose|i1: int, i2: int|
                            #![trigger old(entities)@[i1], old(entities)@[i2]]
                            0 <= i1 < i2 < old(entities)@.len() && entity_matches(
                                old(entities)@[i1],
                                m as int,
                                t as int,
                            ) && entity_matches(old(entities)@[i2], m as int, t as int);
                        assert(false);
                    }
                }
            }
            return Err(
                TemplateError {
                    kind: TargetKind::Entity,
                    failure: e,
                    family: f,
                    tier: m,
                    trim: t,
                    category: 0,
                },
            );
        },
    };
    let blk = blocks.remove(bi);
    let Block { pos: bpos, state: bstate, payload: bpay } = blk;
    let mut pay = match bpay {
        Option::Some(p) => p,
        Option::None => vstd::pervasive::unreached(),
    };
    let ent = entities.remove(ei);
    let Entity { block_pos: e_bp, pos: e_pos, state: mut estate } = ent;
    let step = process_pair(&mut pay.items, &mut estate.armor_items, f, m, t);
    match step {
        Ok(_) => {},
        Err((kind, cat, e)) => {
            proof {
                if coordinate_ready(old(blocks)@, old(entities)@, f as int, m as int, t as int) {
                    assert(items_ready(old(blocks)@[bi as int].payload->Some_0.items@, f as int));
                    assert(slots_ready(
                        old(entities)@[ei as int].state.armor_items@,
                        f as int,
                    ));
                    assert(false);
                }
            }
            return Err(
                TemplateError { kind, failure: e, family: f, tier: m, trim: t, category: cat },
            );
        },
    }
    let blk2 = Block { pos: bpos, state: bstate, payload: Option::Some(pay) };
    blocks.insert(bi, blk2);
    let ent2 = Entity { block_pos: e_bp, pos: e_pos, state: estate };
    entities.insert(ei, ent2);
    proof {
        assert(blocks@ =~= old(blocks)@.update(bi as int, blocks@[bi as int]));
        assert(entities@ =~= old(entities)@.update(ei as int, entities@[ei as int]));
    }
    Ok((bi, ei))
}

/// A block's locating features survive substitution: position, palette
/// state, and whether it carries a payload.
pub open spec fn block_frame(pre: Block, post: Block) -> bool {
    &&& post.pos == pre.pos
    &&& post.state == pre.state
    &&& (post.payload is Some <==> pre.payload is Some)
}

/// An entity's locating features and untouched fields survive substitution.
pub open spec fn entity_frame(pre: Entity, post: Entity) -> bool {
    &&& post.block_pos == pre.block_pos
    &&& post.pos == pre.pos
    &&& stand_scalars_eq(pre.state, post.state)
}

/// Coordinate (`m2`, `t2`) is visited before (`m`, `t`): the generator walks
/// styles outermost, tiers innermost.
pub open spec fn coord_before(m2: int, t2: int, m: int, t: int) -> bool {
    &&& 0 <= m2 < material_count()
    &&& 0 <= t2 < trim_style_count()
    &&& (t2 < t || (t2 == t && m2 < m))
}

/// Every block standing at coordinate (`m`, `t`) in the base has been
/// substituted in the current document.
pub open spec fn blocks_coord_done(base: Seq<Block>, cur: Seq<Block>, f: int, m: int, t: int) -> bool {
    forall|i: int|
        0 <= i < base.len() && block_matches(#[trigger] base[i], m, t) ==> block_substituted(
            base[i],
            cur[i],
            f,
            m,
            t,
        )
}

/// Every entity standing at coordinate (`m`, `t`) in the base has been
/// substituted in the current document.
pub open spec fn entities_coord_done(
    base: Seq<Entity>,
    cur: Seq<Entity>,
    f: int,
    m: int,
    t: int,
) -> bool {
    forall|i: int|
        0 <= i < base.len() && entity_matches(#[trigger] base[i], m, t) ==> entity_substituted(
            base[i],
            cur[i],
            f,
            m,
            t,
        )
}

/// A block is either still equal to its base or it stands at a coordinate
/// already visited.
pub open spec fn blocks_provenance(base: Seq<Block>, cur: Seq<Block>, m: int, t: int) -> bool {
    forall|i: int|
        0 <= i < base.len() ==> (block_eq(base[i], #[trigger] cur[i]) || exists|m2: int, t2: int|
            coord_before(m2, t2, m, t) && #[trigger] block_matches(base[i], m2, t2))
}

/// The entity analogue of `blocks_provenance`.
pub open spec fn entities_provenance(base: Seq<Entity>, cur: Seq<Entity>, m: int, t: int) -> bool {
    forall|i: int|
        0 <= i < base.len() ==> (entity_eq(base[i], #[trigger] cur[i]) || exists|m2: int, t2: int|
            coord_before(m2, t2, m, t) && #[trigger] entity_matches(base[i], m2, t2))
}

/// A template from which a whole family pass is owed to succeed: every
/// coordinate of the grid is ready.
pub open spec fn doc_ready(d: Document, f: int) -> bool {
    forall|m: int, t: int|
        0 <= m < material_count() && 0 <= t < trim_style_count() ==> #[trigger] coordinate_ready(
            d.blocks@,
            d.entities@,
            f,
            m,
            t,
        )
}

/// What a finished variant looks like against its base: version and opaque
/// passthroughs identical, record counts identical, every record's frame
/// preserved, every coordinate substituted, and records at no coordinate
/// untouched.
pub open spec fn variant_ok(base: Document, v: Document, f: int) -> bool {
    &&& v.data_version == base.data_version
    &&& v.palette == base.palette
    &&& v.size == base.size
    &&& v.blocks@.len() == base.blocks@.len()
    &&& v.entities@.len() == base.entities@.len()
    &&& forall|i: int|
        0 <= i < base.blocks@.len() ==> block_frame(#[trigger] base.blocks@[i], v.blocks@[i])
    &&& forall|i: int|
        0 <= i < base.entities@.len() ==> entity_frame(#[trigger] base.entities@[i], v.entities@[i])
    &&& forall|m: int, t: int|
        0 <= m < material_count() && 0 <= t < trim_style_count() ==> #[trigger] blocks_coord_done(
            base.blocks@,
            v.blocks@,
            f,
            m,
            t,
        )
    &&& forall|m: int, t: int|
        0 <= m < material_count() && 0 <= t < trim_style_count()
            ==> #[trigger] entities_coord_done(base.entities@, v.entities@, f, m, t)
    &&& forall|i: int|
        0 <= i < base.blocks@.len() ==> (block_eq(base.blocks@[i], #[trigger] v.blocks@[i])
            || exists|m2: int, t2: int|
            0 <= m2 < material_count() && 0 <= t2 < trim_style_count() && #[trigger] block_matches(
                base.blocks@[i],
                m2,
                t2,
            ))
    &&& forall|i: int|
        0 <= i < base.entities@.len() ==> (entity_eq(base.entities@[i], #[trigger] v.entities@[i])
            || exists|m2: int, t2: int|
            0 <= m2 < material_count() && 0 <= t2 < trim_style_count() && #[trigger] entity_matches(
                base.entities@[i],
                m2,
                t2,
            ))
}

/// Readiness carries over from the base to the current document, since
/// frames are preserved and a visited coordinate never shares a record with
/// a coordinate still to come.
proof fn lemma_coordinate_ready_transfer(
    base_b: Seq<Block>,
    cur_b: Seq<Block>,
    base_e: Seq<Entity>,
    cur_e: Seq<Entity>,
    f: int,
    m: int,
    t: int,
)
    requires
        base_b.len() == cur_b.len(),
        base_e.len() == cur_e.len(),
        coordinate_ready(base_b, base_e, f, m, t),
        forall|i: int| 0 <= i < base_b.len() ==> block_frame(#[trigger] base_b[i], cur_b[i]),
        forall|i: int| 0 <= i < base_e.len() ==> entity_frame(#[trigger] base_e[i], cur_e[i]),
        blocks_provenance(base_b, cur_b, m, t),
        entities_provenance(base_e, cur_e, m, t),
    ensures
        coordinate_ready(cur_b, cur_e, f, m, t),
{
    let w = choose|w: int| 0 <= w < base_b.len() && block_matches(#[trigger] base_b[w], m, t);
    assert(block_matches(cur_b[w], m, t));
    assert forall|i1: int, i2: int|
        #![trigger cur_b[i1], cur_b[i2]]
        0 <= i1 < cur_b.len() && 0 <= i2 < cur_b.len() && block_matches(cur_b[i1], m, t)
            && block_matches(cur_b[i2], m, t) implies i1 == i2 by {
        assert(block_matches(base_b[i1], m, t));
        assert(block_matches(base_b[i2], m, t));
    }
    assert forall|i: int|
        0 <= i < cur_b.len() && block_matches(#[trigger] cur_b[i], m, t) implies items_ready(
        cur_b[i].payload->Some_0.items@,
        f,
    ) by {
        assert(block_matches(base_b[i], m, t));
        assert(block_eq(base_b[i], cur_b[i])) by {
            if !block_eq(base_b[i], cur_b[i]) {
                let (m2, t2) = choose|m2: int, t2: int|
                    coord_before(m2, t2, m, t) && #[trigger] block_matches(base_b[i], m2, t2);
                assert(false);
            }
        }
        assert(cur_b[i].payload->Some_0.items@ == base_b[i].payload->Some_0.items@);
    }
    let we = choose|we: int| 0 <= we < base_e.len() && entity_matches(#[trigger] base_e[we], m, t);
    assert(entity_matches(cur_e[we], m, t));
    assert forall|i1: int, i2: int|
        #![trigger cur_e[i1], cur_e[i2]]
        0 <= i1 < cur_e.len() && 0 <= i2 < cur_e.len() && entity_matches(cur_e[i1], m, t)
            && entity_matches(cur_e[i2], m, t) implies i1 == i2 by {
        assert(entity_matches(base_e[i1], m, t));
        assert(entity_matches(base_e[i2], m, t));
    }
    assert forall|i: int|
        0 <= i < cur_e.len() && entity_matches(#[trigger] cur_e[i], m, t) implies slots_ready(
        cur_e[i].state.armor_items@,
        f,
    ) by {
        assert(entity_matches(base_e[i], m, t));
        assert(entity_eq(base_e[i], cur_e[i])) by {
            if !entity_eq(base_e[i], cur_e[i]) {
                let (m2, t2) = choose|m2: int, t2: int|
                    coord_before(m2, t2, m, t) && #[trigger] entity_matches(base_e[i], m2, t2);
                assert(false);
            }
        }
        assert(cur_e[i].state.armor_items@ == base_e[i].state.armor_items@);
    }
}

/// Produces family `family`'s variant: deep-clones the base document and
/// substitutes every coordinate of the grid, styles outermost, tiers
/// innermost. The base is never changed; each variant works on its own
/// clone.
pub fn make_variant(base: &Document, family: usize) -> (r: Result<Document, TemplateError>)
    requires
        family < family_count(),
    ensures
        r is Ok ==> variant_ok(*base, r->Ok_0, family as int),
        doc_ready(*base, family as int) ==> r is Ok,
        r is Err ==> r->Err_0.family == family && r->Err_0.tier < material_count()
            && r->Err_0.trim < trim_style_count(),
{
    let mut v = clone_document(base);
    let mut t: usize = 0;
    while t < 11
        invariant
            family < family_count(),
            t <= 11,
            v.blocks@.len() == base.blocks@.len(),
            v.entities@.len() == base.entities@.len(),
            v.data_version == base.data_version,
            v.palette == base.palette,
            v.size == base.size,
            forall|i: int|
                0 <= i < base.blocks@.len() ==> block_frame(
                    #[trigger] base.blocks@[i],
                    v.blocks@[i],
                ),
            forall|i: int|
                0 <= i < base.entities@.len() ==> entity_frame(
                    #[trigger] base.entities@[i],
                    v.entities@[i],
                ),
            blocks_provenance(base.blocks@, v.blocks@, 0, t as int),
            entities_provenance(base.entities@, v.entities@, 0, t as int),
            forall|m2: int, t2: int|
                coord_before(m2, t2, 0, t as int) ==> #[trigger] blocks_coord_done(
                    base.blocks@,
                    v.blocks@,
                    family as int,
                    m2,
                    t2,
                ),
            forall|m2: int, t2: int|
                coord_before(m2, t2, 0, t as int) ==> #[trigger] entities_coord_done(
                    base.entities@,
                    v.entities@,
                    family as int,
                    m2,
                    t2,
                ),
        decreases 11 - t,
    {
        let mut m: usize = 0;
        while m < 10
            invariant
                family < family_count(),
                t < 11,
                m <= 10,
                v.blocks@.len() == base.blocks@.len(),
                v.entities@.len() == base.entities@.len(),
                v.data_version == base.data_version,
                v.palette == base.palette,
                v.size == base.size,
                forall|i: int|
                    0 <= i < base.blocks@.len() ==> block_frame(
                        #[trigger] base.blocks@[i],
                        v.blocks@[i],
                    ),
                forall|i: int|
                    0 <= i < base.entities@.len() ==> entity_frame(
                        #[trigger] base.entities@[i],
                        v.entities@[i],
                    ),
                blocks_provenance(base.blocks@, v.blocks@, m as int, t as int),
                entities_provenance(base.entities@, v.entities@, m as int, t as int),
                forall|m2: int, t2: int|
                    coord_before(m2, t2, m as int, t as int) ==> #[trigger] blocks_coord_done(
                        base.blocks@,
                        v.blocks@,
                        family as int,
                        m2,
                        t2,
                    ),
                forall|m2: int, t2: int|
                    coord_before(m2, t2, m as int, t as int) ==> #[trigger] entities_coord_done(
                        base.entities@,
                        v.entities@,
                        family as int,
                        m2,
                        t2,
                    ),
            decreases 10 - m,
        {
            let ghost bpre = v.blocks@;
            let ghost epre = v.entities@;
            let step = process_coordinate(&mut v.blocks, &mut v.entities, family, m, t);
            let (bi, ei) = match step {
                Ok(p) => p,
                Err(e) => {
                    proof {
                        if doc_ready(*base, family as int) {
                            assert(coordinate_ready(
                                base.blocks@,
                                base.entities@,
                                family as int,
                                m as int,
                                t as int,
                            ));
                            lemma_coordinate_ready_transfer(
                                base.blocks@,
                                bpre,
                                base.entities@,
                                epre,
                                family as int,
                                m as int,
                                t as int,
                            );
                            assert(false);
                        }
                    }
                    return Err(e);
                },
            };
            proof {
                let fi = family as int;
                let mi = m as int;
                let ti = t as int;
                // The touched indices stand at (m, t) in the base as well.
                assert(block_matches(base.blocks@[bi as int], mi, ti));
                assert(entity_matches(base.entities@[ei as int], mi, ti));
                // They were untouched before this step.
                assert(block_eq(base.blocks@[bi as int], bpre[bi as int])) by {
                    if !block_eq(base.blocks@[bi as int], bpre[bi as int]) {
                        let (m2, t2) = choose|m2: int, t2: int|
                            coord_before(m2, t2, mi, ti) && #[trigger] block_matches(
                                base.blocks@[bi as int],
                                m2,
                                t2,
                            );
                        assert(false);
                    }
                }
                assert(entity_eq(base.entities@[ei as int], epre[ei as int])) by {
                    if !entity_eq(base.entities@[ei as int], epre[ei as int]) {
                        let (m2, t2) = choose|m2: int, t2: int|
                            coord_before(m2, t2, mi, ti) && #[trigger] entity_matches(
                                base.entities@[ei as int],
                                m2,
                                t2,
                            );
                        assert(false);
                    }
                }
                assert(block_substituted(base.blocks@[bi as int], v.blocks@[bi as int], fi, mi, ti))
                    by {
                    assert(bpre[bi as int].payload->Some_0.items@ == base.blocks@[bi
                        as int].payload->Some_0.items@);
                }
                assert(entity_substituted(
                    base.entities@[ei as int],
                    v.entities@[ei as int],
                    fi,
                    mi,
                    ti,
                )) by {
                    assert(epre[ei as int].state.armor_items@ == base.entities@[ei
                        as int].state.armor_items@);
                }
                // Frames still hold everywhere.
                assert forall|i: int| 0 <= i < base.blocks@.len() implies block_frame(
                    #[trigger] base.blocks@[i],
                    v.blocks@[i],
                ) by {
                    if i != bi as int {
                        assert(v.blocks@[i] == bpre[i]);
                    }
                }
                assert forall|i: int| 0 <= i < base.entities@.len() implies entity_frame(
                    #[trigger] base.entities@[i],
                    v.entities@[i],
                ) by {
                    if i != ei as int {
                        assert(v.entities@[i] == epre[i]);
                    }
                }
                // Provenance advances to (m + 1, t).
                assert forall|i: int| 0 <= i < base.blocks@.len() implies (block_eq(
                    base.blocks@[i],
                    #[trigger] v.blocks@[i],
                ) || exists|m2: int, t2: int|
                    coord_before(m2, t2, mi + 1, ti) && #[trigger] block_matches(
                        base.blocks@[i],
                        m2,
                        t2,
                    )) by {
                    if i == bi as int {
                        assert(coord_before(mi, ti, mi + 1, ti) && block_matches(
                            base.blocks@[i],
                            mi,
                            ti,
                        ));
                    } else {
                        assert(v.blocks@[i] == bpre[i]);
                        if !block_eq(base.blocks@[i], bpre[i]) {
                            let (m2, t2) = choose|m2: int, t2: int|
                                coord_before(m2, t2, mi, ti) && #[trigger] block_matches(
                                    base.blocks@[i],
                                    m2,
                                    t2,
                                );
                            assert(coord_before(m2, t2, mi + 1, ti) && block_matches(
                                base.blocks@[i],
                                m2,
                                t2,
                            ));
                        }
                    }
                }
                assert forall|i: int| 0 <= i < base.entities@.len() implies (entity_eq(
                    base.entities@[i],
                    #[trigger] v.entities@[i],
                ) || exists|m2: int, t2: int|
                    coord_before(m2, t2, mi + 1, ti) && #[trigger] entity_matches(
                        base.entities@[i],
                        m2,
                        t2,
                    )) by {
                    if i == ei as int {
                        assert(coord_before(mi, ti, mi + 1, ti) && entity_matches(
                            base.entities@[i],
                            mi,
                            ti,
                        ));
                    } else {
                        assert(v.entities@[i] == epre[i]);
                        if !entity_eq(base.entities@[i], epre[i]) {
                            let (m2, t2) = choose|m2: int, t2: int|
                                coord_before(m2, t2, mi, ti) && #[trigger] entity_matches(
                                    base.entities@[i],
                                    m2,
                                    t2,
                                );
                            assert(coord_before(m2, t2, mi + 1, ti) && entity_matches(
                                base.entities@[i],
                                m2,
                                t2,
                            ));
                        }
                    }
                }
                // Every coordinate up to and including (m, t) is done.
                assert forall|m2: int, t2: int|
                    coord_before(m2, t2, mi + 1, ti) implies #[trigger] blocks_coord_done(
                    base.blocks@,
                    v.blocks@,
                    fi,
                    m2,
                    t2,
                ) by {
                    assert forall|i: int|
                        0 <= i < base.blocks@.len() && block_matches(
                            #[trigger] base.blocks@[i],
                            m2,
                            t2,
                        ) implies block_substituted(base.blocks@[i], v.blocks@[i], fi, m2, t2) by {
                        if m2 == mi && t2 == ti {
                            assert(block_matches(bpre[i], mi, ti));
                            assert(i == bi as int);
                        } else {
                            assert(coord_before(m2, t2, mi, ti));
                            assert(i != bi as int);
                            assert(v.blocks@[i] == bpre[i]);
                            assert(blocks_coord_done(base.blocks@, bpre, fi, m2, t2));
                            assert(block_substituted(base.blocks@[i], bpre[i], fi, m2, t2));
                        }
                    }
                }
                assert forall|m2: int, t2: int|
                    coord_before(m2, t2, mi + 1, ti) implies #[trigger] entities_coord_done(
                    base.entities@,
                    v.entities@,
                    fi,
                    m2,
                    t2,
                ) by {
                    assert forall|i: int|
                        0 <= i < base.entities@.len() && entity_matches(
                            #[trigger] base.entities@[i],
                            m2,
                            t2,
                        ) implies entity_substituted(base.entities@[i], v.entities@[i], fi, m2, t2) by {
                        if m2 == mi && t2 == ti {
                            assert(entity_matches(epre[i], mi, ti));
                            assert(i == ei as int);
                        } else {
                            assert(coord_before(m2, t2, mi, ti));
                            assert(i != ei as int);
                            assert(v.entities@[i] == epre[i]);
                            assert(entities_coord_done(base.entities@, epre, fi, m2, t2));
                            assert(entity_substituted(base.entities@[i], epre[i], fi, m2, t2));
                        }
                    }
                }
            }
            m += 1;
        }
        proof {
            assert forall|m2: int, t2: int| coord_before(m2, t2, 0, t as int + 1) implies (
            coord_before(m2, t2, 10, t as int)) by {}
        }
        t += 1;
    }
    proof {
        assert forall|m2: int, t2: int|
            0 <= m2 < material_count() && 0 <= t2 < trim_style_count() implies (coord_before(
            m2,
            t2,
            0,
            11,
        )) by {}
    }
    Ok(v)
}

/// Runs every armor family over its own clone of the base, in family order.
/// The base document is borrowed immutably throughout: no family's mutations
/// can reach another family's clone or the base itself.
pub fn make_all_variants(base: &Document) -> (r: Result<Vec<Document>, TemplateError>)
    ensures
        r is Ok ==> {
            &&& r->Ok_0@.len() == family_count()
            &&& forall|f: int|
                0 <= f < family_count() ==> variant_ok(*base, #[trigger] r->Ok_0@[f], f)
        },
        (forall|f: int| 0 <= f < family_count() ==> #[trigger] doc_ready(*base, f)) ==> r is Ok,
        r is Err ==> r->Err_0.family < family_count(),
{
    let mut out: Vec<Document> = Vec::new();
    let mut f: usize = 0;
    while f < 6
        invariant
            f <= 6,
            out@.len() == f,
            forall|f2: int| 0 <= f2 < f ==> variant_ok(*base, #[trigger] out@[f2], f2),
        decreases 6 - f,
    {
        match make_variant(base, f) {
            Ok(v) => {
                out.push(v);
            },
            Err(e) => {
                proof {
                    if forall|f2: int| 0 <= f2 < family_count() ==> #[trigger] doc_ready(
                        *base,
                        f2,
                    ) {
                        assert(doc_ready(*base, f as int));
                        assert(false);
                    }
                }
                return Err(e);
            },
        }
        f += 1;
    }
    Ok(out)
}

} // verus!
