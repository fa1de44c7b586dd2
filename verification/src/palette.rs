//! The palette of an image: the set of colours that occur in it.

use crate::color::{dist_squared, dist_squared_spec, lemma_code_injective, Color};
use crate::raster::Image;
use std::collections::HashSet;
use vstd::prelude::*;

verus! {

/// The colours of `s` in the order in which each first occurs, each once.
pub open spec fn distinct(s: Seq<Color>) -> Seq<Color>
    decreases s.len(),
{
    if s.len() == 0 {
        Seq::empty()
    } else {
        let rest = distinct(s.drop_last());
        if rest.contains(s.last()) {
            rest
        } else {
            rest.push(s.last())
        }
    }
}

/// `p` is a colour of `palette` and no colour of `palette` is closer to `c`.
pub open spec fn is_nearest(palette: Set<Color>, c: Color, p: Color) -> bool {
    &&& palette.contains(p)
    &&& forall|q: Color| #[trigger]
        palette.contains(q) ==> dist_squared_spec(p, c) <= dist_squared_spec(q, c)
}

/// `d` is the least squared distance from `c` to a colour of `palette`.
pub open spec fn is_min_distance(palette: Set<Color>, c: Color, d: int) -> bool {
    &&& exists|p: Color| #[trigger] palette.contains(p) && dist_squared_spec(p, c) == d
    &&& forall|q: Color| #[trigger] palette.contains(q) ==> d <= dist_squared_spec(q, c)
}

/// The test that picks out of a palette the colours nearest to `c`.
pub open spec fn nearest_pred(palette: Set<Color>, c: Color) -> spec_fn(Color) -> bool {
    |p: Color| is_nearest(palette, c, p)
}

/// A sequence with one more element holds that element and what it held.
proof fn lemma_push_contains(s: Seq<Color>, x: Color, q: Color)
    ensures
        s.push(x).contains(q) <==> s.contains(q) || q == x,
{
    if s.contains(q) {
        let k = choose|k: int| 0 <= k < s.len() && s[k] == q;
        assert(s.push(x)[k] == q);
    }
    if q == x {
        assert(s.push(x)[s.len() as int] == x);
    }
    if s.push(x).contains(q) && q != x {
        let k = choose|k: int| 0 <= k < s.push(x).len() && s.push(x)[k] == q;
        assert(s[k] == q);
    }
}

/// A colour is listed by `distinct` exactly if it occurs in the sequence.
pub proof fn lemma_distinct_contains(s: Seq<Color>, c: Color)
    ensures
        distinct(s).contains(c) <==> s.contains(c),
    decreases s.len(),
{
    if s.len() > 0 {
        let init = s.drop_last();
        let rest = distinct(init);
        lemma_distinct_contains(init, c);
        assert(init.push(s.last()) =~= s);
        lemma_push_contains(init, s.last(), c);
        lemma_push_contains(rest, s.last(), c);
    }
}

/// `distinct` keeps exactly the colours of the sequence and repeats none.
pub proof fn lemma_distinct(s: Seq<Color>)
    ensures
        distinct(s).no_duplicates(),
        distinct(s).to_set() == s.to_set(),
        forall|c: Color| distinct(s).contains(c) <==> s.contains(c),
    decreases s.len(),
{
    if s.len() > 0 {
        lemma_distinct(s.drop_last());
    }
    assert forall|c: Color| distinct(s).contains(c) <==> s.contains(c) by {
        lemma_distinct_contains(s, c);
    }
}

/// The distinct colours of an image, kept in the order in which each first
/// occurs.
#[derive(Debug)]
pub struct Palette {
    colors: Vec<Color>,
    index: HashSet<u32>,
}

impl View for Palette {
    type V = Set<Color>;

    /// The set of colours of the palette.
    closed spec fn view(&self) -> Set<Color> {
        self.colors@.to_set()
    }
}

impl Palette {
    /// No colour is listed twice, and the lookup table holds the codes of
    /// exactly the listed colours.
    #[verifier::type_invariant]
    pub closed spec fn wf(&self) -> bool {
        &&& self.colors@.no_duplicates()
        &&& forall|c: Color| #[trigger]
            self.index@.contains(c.code_spec()) <==> self.colors@.contains(c)
    }

    /// The colours of the palette in the order in which each first occurred.
    pub closed spec fn order(&self) -> Seq<Color> {
        self.colors@
    }

    /// The order lists the colours of the palette, each once.
    pub proof fn lemma_order(&self)
        requires
            self.wf(),
        ensures
            self.order().no_duplicates(),
            self.order().to_set() == self@,
            self.order().len() == self@.len(),
            self@.finite(),
            forall|c: Color| self.order().contains(c) <==> self@.contains(c),
    {
        self.colors@.unique_seq_to_set();
    }

    /// The palette of a sequence of colours.
    pub fn from_colors(colors: &Vec<Color>) -> (p: Palette)
        ensures
            p.wf(),
            p@ == colors@.to_set(),
            p.order() == distinct(colors@),
    {
        let mut listed: Vec<Color> = Vec::new();
        let mut index: HashSet<u32> = HashSet::new();
        let n: usize = colors.len();
        let mut i: usize = 0;
        while i < n
            invariant
                i <= n,
                n == colors@.len(),
                listed@ == distinct(colors@.take(i as int)),
                forall|c: Color| #[trigger]
                    index@.contains(c.code_spec()) <==> listed@.contains(c),
            decreases n - i,
        {
            let c = colors[i];
            proof {
                assert(colors@.take(i + 1).drop_last() =~= colors@.take(i as int));
                lemma_distinct(colors@.take(i as int));
                assert forall|q: Color| q.code_spec() == c.code_spec() implies q == c by {
                    lemma_code_injective(q, c);
                }
            }
            let ghost before = listed@;
            if index.insert(c.code()) {
                listed.push(c);
                proof {
                    assert forall|q: Color| #[trigger]
                        index@.contains(q.code_spec()) <==> listed@.contains(q) by {
                        lemma_push_contains(before, c, q);
                    }
                }
            }
            i += 1;
        }
        proof {
            assert(colors@.take(n as int) =~= colors@);
            lemma_distinct(colors@);
        }
        Palette { colors: listed, index }
    }

    /// The palette of an image: the colours of its pixels.
    pub fn from_image(image: &Image) -> (p: Palette)
        ensures
            p.wf(),
            p@ == image.colors(),
            p.order() == distinct(image@),
    {
        Palette::from_colors(image.pixels())
    }

    /// The number of colours.
    pub fn len(&self) -> (n: usize)
        ensures
            n == self@.len(),
            n == self.order().len(),
    {
        proof {
            use_type_invariant(self);
            self.lemma_order();
        }
        self.colors.len()
    }

    /// Whether the palette holds no colour.
    pub fn is_empty(&self) -> (b: bool)
        ensures
            b <==> self@.len() == 0,
            b <==> self@ == Set::<Color>::empty(),
    {
        proof {
            use_type_invariant(self);
            self.lemma_order();
            if self.colors@.len() == 0 {
                assert(self@ =~= Set::<Color>::empty());
            }
        }
        self.colors.len() == 0
    }

    /// The colours, each once, in the order in which each first occurred.
    pub fn colors(&self) -> (v: &Vec<Color>)
        ensures
            v@ == self.order(),
            self.wf(),
    {
        proof {
            use_type_invariant(self);
        }
        &self.colors
    }

    /// Whether `c` is a colour of the palette.
    pub fn contains(&self, c: &Color) -> (b: bool)
        ensures
            b == self@.contains(*c),
    {
        proof {
            use_type_invariant(self);
        }
        let code: u32 = c.code();
        self.index.contains(&code)
    }

    /// The least squared distance from `c` to a colour of the palette, if the
    /// palette has a colour.
    pub fn min_distance(&self, c: &Color) -> (r: Option<i32>)
        ensures
            r is None <==> self@.len() == 0,
            r matches Some(d) ==> is_min_distance(self@, *c, d as int),
    {
        proof {
            use_type_invariant(self);
            self.lemma_order();
        }
        let n: usize = self.colors.len();
        if n == 0 {
            return None;
        }
        let mut best: i32 = dist_squared(&self.colors[0], c);
        let mut i: usize = 1;
        while i < n
            invariant
                1 <= i <= n,
                n == self.colors@.len(),
                exists|j: int| 0 <= j < i && dist_squared_spec(#[trigger] self.colors@[j], *c) == best,
                forall|j: int|
                    0 <= j < i ==> best <= dist_squared_spec(#[trigger] self.colors@[j], *c),
            decreases n - i,
        {
            let d: i32 = dist_squared(&self.colors[i], c);
            if d < best {
                best = d;
            }
            i += 1;
        }
        proof {
            let j = choose|j: int|
                0 <= j < n && dist_squared_spec(#[trigger] self.colors@[j], *c) == best;
            assert(self.colors@.contains(self.colors@[j]));
            assert forall|q: Color| #[trigger] self@.contains(q) implies best
                <= dist_squared_spec(q, *c) by {
                assert(self.colors@.contains(q));
            }
        }
        Some(best)
    }

    /// The colours of the palette nearest to `c`, in palette order: every
    /// colour at the least squared distance from `c`, and no other.
    pub fn nearest_colors(&self, c: &Color) -> (v: Vec<Color>)
        ensures
            v@ == self.order().filter(nearest_pred(self@, *c)),
            v@.no_duplicates(),
            forall|p: Color| v@.contains(p) <==> is_nearest(self@, *c, p),
            v@.len() == 0 <==> self@.len() == 0,
    {
        proof {
            use_type_invariant(self);
            self.lemma_order();
        }
        let ghost pred = nearest_pred(self@, *c);
        let mut v: Vec<Color> = Vec::new();
        let n: usize = self.colors.len();
        match self.min_distance(c) {
            None => {
                proof {
                    self.colors@.lemma_filter_len(pred);
                }
            },
            Some(d) => {
                let mut i: usize = 0;
                while i < n
                    invariant
                        i <= n,
                        n == self.colors@.len(),
                        self.colors@.no_duplicates(),
                        self@ == self.colors@.to_set(),
                        pred == nearest_pred(self@, *c),
                        is_min_distance(self@, *c, d as int),
                        v@ == self.colors@.take(i as int).filter(pred),
                        v@.no_duplicates(),
                        forall|p: Color|
                            v@.contains(p) <==> self.colors@.take(i as int).contains(p) && pred(p),
                    decreases n - i,
                {
                    let p: Color = self.colors[i];
                    let ghost seen = self.colors@.take(i as int);
                    let ghost before = v@;
                    proof {
                        assert(self.colors@.take(i + 1) =~= seen.push(p));
                        seen.lemma_filter_push(p, pred);
                    }
                    if dist_squared(&p, c) == d {
                        v.push(p);
                        proof {
                            assert forall|a: int, b: int|
                                0 <= a < v@.len() && 0 <= b < v@.len() && a != b implies v@[a]
                                != v@[b] by {
                                if a < before.len() {
                                    assert(before.contains(before[a]));
                                }
                                if b < before.len() {
                                    assert(before.contains(before[b]));
                                }
                            }
                        }
                    }
                    i += 1;
                    proof {
                        assert forall|q: Color|
                            v@.contains(q) <==> self.colors@.take(i as int).contains(q) && pred(
                                q,
                            ) by {
                            lemma_push_contains(before, p, q);
                            lemma_push_contains(seen, p, q);
                        }
                    }
                }
                proof {
                    assert(self.colors@.take(n as int) =~= self.colors@);
                    let w = choose|w: Color| #[trigger]
                        self@.contains(w) && dist_squared_spec(w, *c) == d;
                    assert(v@.contains(w));
                }
            },
        }
        v
    }
}

} // verus!
