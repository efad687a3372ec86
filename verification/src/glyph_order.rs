//! The map from glyphs back to codepoints, gathered in an ordered map and
//! read in rising order of the glyphs.

use crate::font::FontFace;
use crate::font_embed::{
    all_mappings, holds_first, lemma_rising_is_reverse_map, lemma_within_end, lemma_within_start,
    lemma_within_step, mappings_upto, mappings_within, reverse_map, table_at,
};
use std::collections::BTreeMap;
use std::collections::HashSet;
use vstd::prelude::*;
use vstd::std_specs::cmp::OrdSpec;
use vstd::std_specs::iter::IteratorSpec;

verus! {

broadcast use {
    vstd::std_specs::btree::group_btree_axioms,
    vstd::std_specs::hash::group_hash_axioms,
    vstd::laws_cmp::group_laws_cmp,
};

/// The entries of a map from glyphs to codepoints, in rising order of the
/// glyphs.
pub fn sorted_pairs(mapping: &BTreeMap<u16, char>) -> (pairs: Vec<(u16, char)>)
    ensures
        forall|i: int, j: int| 0 <= i < j < pairs@.len() ==> pairs@[i].0 < pairs@[j].0,
        forall|i: int|
            0 <= i < pairs@.len() ==> mapping@.contains_key(#[trigger] pairs@[i].0)
                && mapping@[pairs@[i].0] == pairs@[i].1,
        forall|glyph: u16| #[trigger]
            mapping@.contains_key(glyph) ==> exists|i: int|
                0 <= i < pairs@.len() && #[trigger] pairs@[i].0 == glyph,
{
    let mut pairs: Vec<(u16, char)> = Vec::new();
    let entries = mapping.iter();
    let ghost all = entries.remaining();
    let ghost keys = all.map_values(|kv: (&u16, &char)| *kv.0);
    proof {
        assert(vstd::laws_cmp::obeys_cmp::<u16>());
        vstd::std_specs::btree::axiom_increasing_seq_meaning::<u16>(keys);
    }
    assert forall|i: int, j: int| 0 <= i < j < keys.len() implies keys[i] < keys[j] by {
        assert(keys[i].cmp_spec(&keys[j]) is Less);
    }
    for entry in it: entries
        invariant
            it.seq() == all,
            pairs@.len() == it.index(),
            forall|i: int| 0 <= i < pairs@.len() ==> pairs@[i] == (*all[i].0, *all[i].1),
    {
        pairs.push((*entry.0, *entry.1));
    }
    assert forall|i: int, j: int| 0 <= i < j < pairs@.len() implies pairs@[i].0 < pairs@[j].0 by {
        assert(keys[i] == pairs@[i].0);
        assert(keys[j] == pairs@[j].0);
    }
    assert forall|glyph: u16| #[trigger] mapping@.contains_key(glyph) implies exists|i: int|
        0 <= i < pairs@.len() && #[trigger] pairs@[i].0 == glyph by {
        assert(all.contains((&glyph, &mapping@[glyph])));
        let i = choose|i: int| 0 <= i < all.len() && all[i] == (&glyph, &mapping@[glyph]);
        assert(pairs@[i].0 == glyph);
    }
    pairs
}

/// The map from the glyphs in use back to codepoints: each glyph in use for
/// which a Unicode table of the face lists a codepoint, with the first such
/// codepoint, in rising order of the glyphs.
pub fn reverse_pairs(face: &FontFace, used: &HashSet<u16>) -> (pairs: Vec<(u16, char)>)
    ensures
        pairs@ == reverse_map(*face, used@),
{
    let mut mapping: BTreeMap<u16, char> = BTreeMap::new();
    let mut i: usize = 0;
    while i < face.cmap.len()
        invariant
            i <= face.cmap.len(),
            holds_first(mapping@, mappings_upto(face.cmap@, i), used@),
        decreases face.cmap.len() - i,
    {
        let table = &face.cmap[i];
        let entries: usize = table.mappings.len();
        proof {
            lemma_within_start(face.cmap@, i);
            lemma_within_end(face.cmap@, i);
        }
        if table.unicode {
            let mut j: usize = 0;
            while j < entries
                invariant
                    i < face.cmap.len(),
                    *table == table_at(face.cmap@, i),
                    entries == table.mappings@.len(),
                    j <= entries,
                    holds_first(mapping@, mappings_within(face.cmap@, i, j), used@),
                decreases entries - j,
            {
                let pair = table.mappings[j];
                proof {
                    lemma_within_step(face.cmap@, i, j, mapping@, used@);
                }
                if used.contains(&pair.1) && !mapping.contains_key(&pair.1) {
                    mapping.insert(pair.1, pair.0);
                }
                j += 1;
            }
        }
        i += 1;
    }
    let pairs = sorted_pairs(&mapping);
    proof {
        lemma_rising_is_reverse_map(pairs@, mapping@, all_mappings(*face), used@);
    }
    pairs
}

} // verus!
