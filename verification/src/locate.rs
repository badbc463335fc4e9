//! The coordinate locator: resolves a (tier, trim) coordinate to its unique
//! block and entity record, and locates items and armor slots by the
//! substring their identifier carries. Zero matches and more than one match
//! are both surfaced, never ignored.

use vstd::prelude::*;

use crate::model::ArmorSlot;
use crate::model::Block;
use crate::model::ChestItem;
use crate::model::Entity;
use crate::names::material_count;
use crate::names::trim_style_count;
use crate::strings::contains_seq;
use crate::strings::contains_str;

verus! {

/// How a lookup that had to match exactly one element failed.
#[derive(Clone, Copy, PartialEq, Eq, Structural, Debug)]
pub enum MatchFailure {
    /// No element matched.
    Missing,
    /// More than one element matched.
    Multiple,
}

/// The grid row a material tier occupies: tiers sit every four blocks, one
/// above the floor.
pub open spec fn tier_row(tier: int) -> int {
    tier * 4 + 1
}

/// Whether a block record stands for the given (tier, trim) coordinate: its
/// row and depth agree and it carries a payload, which excludes the
/// non-container blocks at unrelated positions.
pub open spec fn block_matches(b: Block, tier: int, trim: int) -> bool {
    &&& b.pos.y == tier_row(tier)
    &&& b.pos.z == trim
    &&& b.payload is Some
}

/// Whether an entity record stands for the given (tier, trim) coordinate.
pub open spec fn entity_matches(e: Entity, tier: int, trim: int) -> bool {
    &&& e.block_pos.y == tier_row(tier)
    &&& e.block_pos.z == trim
}

/// Whether a chest item belongs to the category identified by `pat`.
pub open spec fn chest_item_matches(it: ChestItem, pat: Seq<char>) -> bool {
    contains_seq(it.id@, pat)
}

/// Whether an armor slot is populated with a piece of the category
/// identified by `pat`; an empty slot never matches.
pub open spec fn slot_matches(s: ArmorSlot, pat: Seq<char>) -> bool {
    &&& s is Piece
    &&& contains_seq(s->Piece_0.id@, pat)
}

/// Scans for the unique block record at a (tier, trim) coordinate.
pub fn find_block(blocks: &Vec<Block>, tier: usize, trim: usize) -> (r: Result<
    usize,
    MatchFailure,
>)
    requires
        tier < material_count(),
        trim < trim_style_count(),
    ensures
        r is Ok ==> {
            let i = r->Ok_0 as int;
            &&& 0 <= i < blocks@.len()
            &&& block_matches(blocks@[i], tier as int, trim as int)
            &&& forall|j: int|
                0 <= j < blocks@.len() && j != i ==> !block_matches(
                    #[trigger] blocks@[j],
                    tier as int,
                    trim as int,
                )
        },
        r == Err::<usize, MatchFailure>(MatchFailure::Missing) ==> forall|j: int|
            0 <= j < blocks@.len() ==> !block_matches(#[trigger] blocks@[j], tier as int, trim as int),
        r == Err::<usize, MatchFailure>(MatchFailure::Multiple) ==> exists|i: int, j: int|
            #![trigger blocks@[i], blocks@[j]]
            0 <= i < j < blocks@.len() && block_matches(blocks@[i], tier as int, trim as int)
                && block_matches(blocks@[j], tier as int, trim as int),
{
    let row: i32 = (tier as i32) * 4 + 1;
    let depth: i32 = trim as i32;
    let mut found: Option<usize> = Option::None;
    let mut i: usize = 0;
    while i < blocks.len()
        invariant
            i <= blocks@.len(),
            row == tier_row(tier as int),
            depth == trim as int,
            found is None ==> forall|j: int|
                0 <= j < i ==> !block_matches(#[trigger] blocks@[j], tier as int, trim as int),
            found is Some ==> {
                let fi = found->0 as int;
                &&& 0 <= fi < i
                &&& block_matches(blocks@[fi], tier as int, trim as int)
                &&& forall|j: int|
                    0 <= j < i && j != fi ==> !block_matches(
                        #[trigger] blocks@[j],
                        tier as int,
                        trim as int,
                    )
            },
        decreases blocks@.len() - i,
    {
        let b = &blocks[i];
        if b.pos.y == row && b.pos.z == depth && b.payload.is_some() {
            match found {
                Option::None => {
                    found = Option::Some(i);
                },
                Option::Some(_) => {
                    return Err(MatchFailure::Multiple);
                },
            }
        }
        i += 1;
    }
    match found {
        Option::Some(fi) => Ok(fi),
        Option::None => Err(MatchFailure::Missing),
    }
}

/// Scans for the unique entity record at a (tier, trim) coordinate.
pub fn find_entity(entities: &Vec<Entity>, tier: usize, trim: usize) -> (r: Result<
    usize,
    MatchFailure,
>)
    requires
        tier < material_count(),
        trim < trim_style_count(),
    ensures
        r is Ok ==> {
            let i = r->Ok_0 as int;
            &&& 0 <= i < entities@.len()
            &&& entity_matches(entities@[i], tier as int, trim as int)
            &&& forall|j: int|
                0 <= j < entities@.len() && j != i ==> !entity_matches(
                    #[trigger] entities@[j],
                    tier as int,
                    trim as int,
                )
        },
        r == Err::<usize, MatchFailure>(MatchFailure::Missing) ==> forall|j: int|
            0 <= j < entities@.len() ==> !entity_matches(
                #[trigger] entities@[j],
                tier as int,
                trim as int,
            ),
        r == Err::<usize, MatchFailure>(MatchFailure::Multiple) ==> exists|i: int, j: int|
            #![trigger entities@[i], entities@[j]]
            0 <= i < j < entities@.len() && entity_matches(entities@[i], tier as int, trim as int)
                && entity_matches(entities@[j], tier as int, trim as int),
{
    let row: i32 = (tier as i32) * 4 + 1;
    let depth: i32 = trim as i32;
    let mut found: Option<usize> = Option::None;
    let mut i: usize = 0;
    while i < entities.len()
        invariant
            i <= entities@.len(),
            row == tier_row(tier as int),
            depth == trim as int,
            found is None ==> forall|j: int|
                0 <= j < i ==> !entity_matches(#[trigger] entities@[j], tier as int, trim as int),
            found is Some ==> {
                let fi = found->0 as int;
                &&& 0 <= fi < i
                &&& entity_matches(entities@[fi], tier as int, trim as int)
                &&& forall|j: int|
                    0 <= j < i && j != fi ==> !entity_matches(
                        #[trigger] entities@[j],
                        tier as int,
                        trim as int,
                    )
            },
        decreases entities@.len() - i,
    {
        let e = &entities[i];
        if e.block_pos.y == row && e.block_pos.z == depth {
            match found {
                Option::None => {
                    found = Option::Some(i);
                },
                Option::Some(_) => {
                    return Err(MatchFailure::Multiple);
                },
            }
        }
        i += 1;
    }
    match found {
        Option::Some(fi) => Ok(fi),
        Option::None => Err(MatchFailure::Missing),
    }
}

/// Scans a payload for the unique item whose identifier carries `pat`.
pub fn find_chest_item(items: &Vec<ChestItem>, pat: &str) -> (r: Result<usize, MatchFailure>)
    ensures
        r is Ok ==> {
            let i = r->Ok_0 as int;
            &&& 0 <= i < items@.len()
            &&& chest_item_matches(items@[i], pat@)
            &&& forall|j: int|
                0 <= j < items@.len() && j != i ==> !chest_item_matches(#[trigger] items@[j], pat@)
        },
        r == Err::<usize, MatchFailure>(MatchFailure::Missing) ==> forall|j: int|
            0 <= j < items@.len() ==> !chest_item_matches(#[trigger] items@[j], pat@),
        r == Err::<usize, MatchFailure>(MatchFailure::Multiple) ==> exists|i: int, j: int|
            #![trigger items@[i], items@[j]]
            0 <= i < j < items@.len() && chest_item_matches(items@[i], pat@) && chest_item_matches(
                items@[j],
                pat@,
            ),
{
    let mut found: Option<usize> = Option::None;
    let mut i: usize = 0;
    while i < items.len()
        invariant
            i <= items@.len(),
            found is None ==> forall|j: int|
                0 <= j < i ==> !chest_item_matches(#[trigger] items@[j], pat@),
            found is Some ==> {
                let fi = found->0 as int;
                &&& 0 <= fi < i
                &&& chest_item_matches(items@[fi], pat@)
                &&& forall|j: int|
                    0 <= j < i && j != fi ==> !chest_item_matches(#[trigger] items@[j], pat@)
            },
        decreases items@.len() - i,
    {
        if contains_str(items[i].id.as_str(), pat) {
            match found {
                Option::None => {
                    found = Option::Some(i);
                },
                Option::Some(_) => {
                    return Err(MatchFailure::Multiple);
                },
            }
        }
        i += 1;
    }
    match found {
        Option::Some(fi) => Ok(fi),
        Option::None => Err(MatchFailure::Missing),
    }
}

/// Scans the armor slots for the unique populated slot whose piece's
/// identifier carries `pat`.
pub fn find_slot(slots: &Vec<ArmorSlot>, pat: &str) -> (r: Result<usize, MatchFailure>)
    ensures
        r is Ok ==> {
            let i = r->Ok_0 as int;
            &&& 0 <= i < slots@.len()
            &&& slot_matches(slots@[i], pat@)
            &&& forall|j: int|
                0 <= j < slots@.len() && j != i ==> !slot_matches(#[trigger] slots@[j], pat@)
        },
        r == Err::<usize, MatchFailure>(MatchFailure::Missing) ==> forall|j: int|
            0 <= j < slots@.len() ==> !slot_matches(#[trigger] slots@[j], pat@),
        r == Err::<usize, MatchFailure>(MatchFailure::Multiple) ==> exists|i: int, j: int|
            #![trigger slots@[i], slots@[j]]
            0 <= i < j < slots@.len() && slot_matches(slots@[i], pat@) && slot_matches(
                slots@[j],
                pat@,
            ),
{
    let mut found: Option<usize> = Option::None;
    let mut i: usize = 0;
    while i < slots.len()
        invariant
            i <= slots@.len(),
            found is None ==> forall|j: int| 0 <= j < i ==> !slot_matches(#[trigger] slots@[j], pat@),
            found is Some ==> {
                let fi = found->0 as int;
                &&& 0 <= fi < i
                &&& slot_matches(slots@[fi], pat@)
                &&& forall|j: int| 0 <= j < i && j != fi ==> !slot_matches(#[trigger] slots@[j], pat@)
            },
        decreases slots@.len() - i,
    {
        let hit = match &slots[i] {
            ArmorSlot::Piece(a) => contains_str(a.id.as_str(), pat),
            ArmorSlot::Empty(_) => false,
        };
        if hit {
            match found {
                Option::None => {
                    found = Option::Some(i);
                },
                Option::Some(_) => {
                    return Err(MatchFailure::Multiple);
                },
            }
        }
        i += 1;
    }
    match found {
        Option::Some(fi) => Ok(fi),
        Option::None => Err(MatchFailure::Missing),
    }
}

} // verus!
