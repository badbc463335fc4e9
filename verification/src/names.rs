//! The fixed parameter tables of the generator: trim materials, armor
//! families, armor piece suffixes and trim patterns, with the facts about
//! their spellings that the substitution proofs rest on.

use vstd::prelude::*;

use crate::strings::contains_seq;
use crate::strings::lemma_concat_contains_suffix;
use crate::strings::lemma_underscore_blocks;

verus! {

/// Number of trim materials (tiers) on the template grid.
pub open spec fn material_count() -> int {
    10
}

/// Number of trim patterns (styles) on the template grid.
pub open spec fn trim_style_count() -> int {
    11
}

/// Number of armor families, one output document each.
pub open spec fn family_count() -> int {
    6
}

/// Number of armor piece categories: helmet, chestplate, leggings, boots.
pub open spec fn category_count() -> int {
    4
}

/// The one family with a single wearable piece, which prunes the rest.
pub open spec fn pruning_family() -> int {
    5
}

/// The trim material written for a tier.
pub open spec fn material_name(m: int) -> Seq<char> {
    if m == 0 {
        "minecraft:iron"@
    } else if m == 1 {
        "minecraft:copper"@
    } else if m == 2 {
        "minecraft:gold"@
    } else if m == 3 {
        "minecraft:netherite"@
    } else if m == 4 {
        "minecraft:emerald"@
    } else if m == 5 {
        "minecraft:diamond"@
    } else if m == 6 {
        "minecraft:redstone"@
    } else if m == 7 {
        "minecraft:quartz"@
    } else if m == 8 {
        "minecraft:lapis"@
    } else {
        "minecraft:amethyst"@
    }
}

/// The base identifier of an armor family.
pub open spec fn family_name(f: int) -> Seq<char> {
    if f == 0 {
        "minecraft:chainmail"@
    } else if f == 1 {
        "minecraft:iron"@
    } else if f == 2 {
        "minecraft:golden"@
    } else if f == 3 {
        "minecraft:diamond"@
    } else if f == 4 {
        "minecraft:netherite"@
    } else {
        "minecraft:turtle"@
    }
}

/// The identifier suffix of an armor piece category.
pub open spec fn category_suffix(k: int) -> Seq<char> {
    if k == 0 {
        "_helmet"@
    } else if k == 1 {
        "_chestplate"@
    } else if k == 2 {
        "_leggings"@
    } else {
        "_boots"@
    }
}

/// The trim pattern written for a style.
pub open spec fn trim_name(t: int) -> Seq<char> {
    if t == 0 {
        "minecraft:wild"@
    } else if t == 1 {
        "minecraft:ward"@
    } else if t == 2 {
        "minecraft:vex"@
    } else if t == 3 {
        "minecraft:tide"@
    } else if t == 4 {
        "minecraft:spire"@
    } else if t == 5 {
        "minecraft:snout"@
    } else if t == 6 {
        "minecraft:sentry"@
    } else if t == 7 {
        "minecraft:rib"@
    } else if t == 8 {
        "minecraft:eye"@
    } else if t == 9 {
        "minecraft:dune"@
    } else {
        "minecraft:coast"@
    }
}

/// The identifier an item of category `k` receives under family `f`.
pub open spec fn rewritten_id(f: int, k: int) -> Seq<char> {
    family_name(f) + category_suffix(k)
}

pub fn material_str(m: usize) -> (r: &'static str)
    requires
        m < material_count(),
    ensures
        r@ == material_name(m as int),
{
    if m == 0 {
        "minecraft:iron"
    } else if m == 1 {
        "minecraft:copper"
    } else if m == 2 {
        "minecraft:gold"
    } else if m == 3 {
        "minecraft:netherite"
    } else if m == 4 {
        "minecraft:emerald"
    } else if m == 5 {
        "minecraft:diamond"
    } else if m == 6 {
        "minecraft:redstone"
    } else if m == 7 {
        "minecraft:quartz"
    } else if m == 8 {
        "minecraft:lapis"
    } else {
        "minecraft:amethyst"
    }
}

pub fn family_str(f: usize) -> (r: &'static str)
    requires
        f < family_count(),
    ensures
        r@ == family_name(f as int),
{
    if f == 0 {
        "minecraft:chainmail"
    } else if f == 1 {
        "minecraft:iron"
    } else if f == 2 {
        "minecraft:golden"
    } else if f == 3 {
        "minecraft:diamond"
    } else if f == 4 {
        "minecraft:netherite"
    } else {
        "minecraft:turtle"
    }
}

/// The family identifier with its namespace prefix removed: the part after
/// the colon, used to derive an output file name.
pub fn family_short_str(f: usize) -> (r: &'static str)
    requires
        f < family_count(),
    ensures
        family_name(f as int) == "minecraft:"@ + r@,
{
    let r: &'static str = if f == 0 {
        "chainmail"
    } else if f == 1 {
        "iron"
    } else if f == 2 {
        "golden"
    } else if f == 3 {
        "diamond"
    } else if f == 4 {
        "netherite"
    } else {
        "turtle"
    };
    proof {
        reveal_strlit("minecraft:");
        reveal_strlit("chainmail");
        reveal_strlit("iron");
        reveal_strlit("golden");
        reveal_strlit("diamond");
        reveal_strlit("netherite");
        reveal_strlit("turtle");
        reveal_strlit("minecraft:chainmail");
        reveal_strlit("minecraft:iron");
        reveal_strlit("minecraft:golden");
        reveal_strlit("minecraft:diamond");
        reveal_strlit("minecraft:netherite");
        reveal_strlit("minecraft:turtle");
        assert(family_name(f as int) =~= "minecraft:"@ + r@);
    }
    r
}

pub fn category_suffix_str(k: usize) -> (r: &'static str)
    requires
        k < category_count(),
    ensures
        r@ == category_suffix(k as int),
{
    if k == 0 {
        "_helmet"
    } else if k == 1 {
        "_chestplate"
    } else if k == 2 {
        "_leggings"
    } else {
        "_boots"
    }
}

pub fn trim_str(t: usize) -> (r: &'static str)
    requires
        t < trim_style_count(),
    ensures
        r@ == trim_name(t as int),
{
    if t == 0 {
        "minecraft:wild"
    } else if t == 1 {
        "minecraft:ward"
    } else if t == 2 {
        "minecraft:vex"
    } else if t == 3 {
        "minecraft:tide"
    } else if t == 4 {
        "minecraft:spire"
    } else if t == 5 {
        "minecraft:snout"
    } else if t == 6 {
        "minecraft:sentry"
    } else if t == 7 {
        "minecraft:rib"
    } else if t == 8 {
        "minecraft:eye"
    } else if t == 9 {
        "minecraft:dune"
    } else {
        "minecraft:coast"
    }
}

/// No family identifier carries an underscore, and none is empty.
pub proof fn lemma_family_no_underscore(f: int)
    requires
        0 <= f < family_count(),
    ensures
        1 <= family_name(f).len(),
        forall|j: int| 0 <= j < family_name(f).len() ==> family_name(f)[j] != '_',
{
    reveal_strlit("minecraft:chainmail");
    reveal_strlit("minecraft:iron");
    reveal_strlit("minecraft:golden");
    reveal_strlit("minecraft:diamond");
    reveal_strlit("minecraft:netherite");
    reveal_strlit("minecraft:turtle");
}

/// Every category suffix starts with an underscore, carries no other
/// underscore, and has at least two characters.
pub proof fn lemma_suffix_shape(k: int)
    requires
        0 <= k < category_count(),
    ensures
        2 <= category_suffix(k).len(),
        category_suffix(k)[0] == '_',
        forall|j: int| 1 <= j < category_suffix(k).len() ==> category_suffix(k)[j] != '_',
{
    reveal_strlit("_helmet");
    reveal_strlit("_chestplate");
    reveal_strlit("_leggings");
    reveal_strlit("_boots");
}

/// Two distinct category suffixes differ already in their second character.
pub proof fn lemma_suffix_second_distinct(k: int, j: int)
    requires
        0 <= k < category_count(),
        0 <= j < category_count(),
        k != j,
    ensures
        category_suffix(k)[1] != category_suffix(j)[1],
{
    reveal_strlit("_helmet");
    reveal_strlit("_chestplate");
    reveal_strlit("_leggings");
    reveal_strlit("_boots");
}

/// A rewritten identifier still carries its own category's suffix.
pub proof fn lemma_rewritten_id_matches(f: int, k: int)
    ensures
        contains_seq(rewritten_id(f, k), category_suffix(k)),
{
    lemma_concat_contains_suffix(family_name(f), category_suffix(k));
}

/// A rewritten identifier never carries another category's suffix: the only
/// underscore in it opens its own suffix, and the suffixes separate on the
/// character after the underscore.
pub proof fn lemma_rewritten_id_unmatched(f: int, k: int, j: int)
    requires
        0 <= f < family_count(),
        0 <= k < category_count(),
        0 <= j < category_count(),
        k != j,
    ensures
        !contains_seq(rewritten_id(f, k), category_suffix(j)),
{
    let s = rewritten_id(f, k);
    let p = family_name(f).len() as int;
    lemma_family_no_underscore(f);
    lemma_suffix_shape(k);
    lemma_suffix_shape(j);
    lemma_suffix_second_distinct(k, j);
    assert(s[p] == category_suffix(k)[0]);
    assert forall|j2: int| 0 <= j2 < s.len() && j2 != p implies s[j2] != '_' by {
        if j2 < p {
            assert(s[j2] == family_name(f)[j2]);
        } else {
            assert(s[j2] == category_suffix(k)[j2 - p]);
        }
    }
    assert(s[p + 1] == category_suffix(k)[1]);
    lemma_underscore_blocks(s, category_suffix(j), p);
}

} // verus!
