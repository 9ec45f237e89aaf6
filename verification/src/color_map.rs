//! The table that sends source colors to destination colors.

use vstd::prelude::*;
use std::collections::HashMap;
use crate::color::Color;

verus! {

/// What a color becomes under `map`: its image if it is a key, itself
/// otherwise.
pub open spec fn remap_color(map: Map<Color, Color>, c: Color) -> Color {
    if map.contains_key(c) {
        map[c]
    } else {
        c
    }
}

/// The color with the given key.
pub open spec fn color_of_key(k: int) -> Color {
    Color {
        r: (k % 256) as u8,
        g: ((k / 256) % 256) as u8,
        b: ((k / 65536) % 256) as u8,
        a: ((k / 16777216) % 256) as u8,
    }
}

/// Every 32-bit integer is the key of exactly one color.
pub proof fn lemma_color_of_key(k: int)
    requires
        0 <= k < 0x1_0000_0000,
    ensures
        color_of_key(k).key() == k,
{
}

/// A finite mapping from colors to colors with unique keys. Its view is the
/// mathematical map; the order of insertion leaves no trace in it.
#[derive(Clone, Debug)]
pub struct ColorMap {
    table: HashMap<u32, Color>,
}

impl View for ColorMap {
    type V = Map<Color, Color>;

    closed spec fn view(&self) -> Map<Color, Color> {
        Map::new(
            |c: Color| self.table@.contains_key(c.key() as u32),
            |c: Color| self.table@[c.key() as u32],
        )
    }
}

impl ColorMap {
    /// The empty map.
    pub fn new() -> (m: ColorMap)
        ensures
            m@ == Map::<Color, Color>::empty(),
    {
        let m = ColorMap { table: HashMap::new() };
        assert(m@ =~= Map::<Color, Color>::empty());
        m
    }

    /// Binds `from` to `to`, replacing any earlier binding of `from`.
    pub fn insert(&mut self, from: Color, to: Color)
        ensures
            final(self)@ == old(self)@.insert(from, to),
    {
        let k: u32 = from.pack();
        self.table.insert(k, to);
        proof {
            assert forall|c: Color| c.key() == from.key() implies c == from by {
                c.lemma_key_injective(from);
            }
            assert(self@ =~= old(self)@.insert(from, to));
        }
    }

    /// The color bound to `c`, if `c` is a key.
    pub fn get(&self, c: Color) -> (found: Option<Color>)
        ensures
            found == (if self@.contains_key(c) {
                Some(self@[c])
            } else {
                None
            }),
    {
        let k: u32 = c.pack();
        match self.table.get(&k) {
            Some(to) => Some(*to),
            None => None,
        }
    }

    /// Whether `c` is a key.
    pub fn contains(&self, c: Color) -> (found: bool)
        ensures
            found == self@.contains_key(c),
    {
        let k: u32 = c.pack();
        self.table.contains_key(&k)
    }

    /// The color that `c` becomes under this map.
    pub fn apply(&self, c: Color) -> (out: Color)
        ensures
            out == remap_color(self@, c),
    {
        match self.get(c) {
            Some(to) => to,
            None => c,
        }
    }

    /// The domain of a color map is finite.
    pub proof fn lemma_finite(&self)
        ensures
            self@.dom().finite(),
    {
        let keys = self.table@.dom();
        let colors = keys.map(|k: u32| color_of_key(k as int));
        keys.lemma_map_finite(|k: u32| color_of_key(k as int));
        assert forall|c: Color| self@.dom().contains(c) implies colors.contains(c) by {
            let k = c.key() as u32;
            assert(keys.contains(k));
            lemma_color_of_key(k as int);
            color_of_key(k as int).lemma_key_injective(c);
        }
        vstd::set_lib::lemma_len_subset(self@.dom(), colors);
    }

    /// The number of keys.
    pub fn len(&self) -> (n: usize)
        ensures
            n == self@.len(),
    {
        proof {
            self.lemma_len();
        }
        self.table.len()
    }

    /// Whether the map has no key.
    pub fn is_empty(&self) -> (empty: bool)
        ensures
            empty == (self@ == Map::<Color, Color>::empty()),
    {
        let empty = self.table.is_empty();
        proof {
            if empty {
                assert(self@ =~= Map::<Color, Color>::empty());
            } else {
                let k = choose|k: u32| self.table@.contains_key(k);
                lemma_color_of_key(k as int);
                assert(self@.contains_key(color_of_key(k as int)));
            }
        }
        empty
    }

    proof fn lemma_len(&self)
        ensures
            self@.len() == self.table@.len(),
            self@.dom().finite(),
    {
        self.lemma_finite();
        let keys = self.table@.dom();
        let f = |c: Color| c.key() as u32;
        assert forall|a1: Color, a2: Color| #[trigger] f(a1) == #[trigger] f(a2) implies a1 == a2 by {
            a1.lemma_key_injective(a2);
        }
        assert forall|k: u32| keys.contains(k) implies self@.dom().map(f).contains(k) by {
            lemma_color_of_key(k as int);
            let c = color_of_key(k as int);
            assert(self@.dom().contains(c) && f(c) == k);
        }
        assert(self@.dom().map(f) =~= keys);
        vstd::set_lib::lemma_map_size(self@.dom(), keys, f);
    }
}

} // verus!
