use vstd::prelude::*;
use std::sync::Arc;
use crate::font::{Cow, Glyph, GlyphView};

verus! {

#[verifier::external_type_specification]
#[verifier::external_body]
#[verifier::reject_recursive_types(K)]
#[verifier::reject_recursive_types(V)]
#[verifier::reject_recursive_types(S)]
pub struct ExLruCache<K, V, S>(lru::LruCache<K, V, S>);

#[verifier::external_type_specification]
#[verifier::external_body]
pub struct ExDefaultHasher(lru::DefaultHasher);

/// The key-value pairs that an LRU cache holds.
pub uninterp spec fn lru_entries(c: lru::LruCache<char, usize>) -> Map<char, usize>;

/// The most entries that an LRU cache holds at once.
pub uninterp spec fn lru_cap(c: lru::LruCache<char, usize>) -> nat;

/// The keys of an LRU cache from the least to the most recently used.
pub uninterp spec fn lru_order(c: lru::LruCache<char, usize>) -> Seq<char>;

/// `order` lists each key of `entries` once, and nothing else.
pub open spec fn keys_listed(order: Seq<char>, entries: Map<char, usize>) -> bool {
    &&& order.no_duplicates()
    &&& forall|k: char| #[trigger] order.contains(k) == entries.contains_key(k)
}

/// `order` with `k` moved to the most recently used end.
pub open spec fn used(order: Seq<char>, k: char) -> Seq<char> {
    order.remove(order.index_of(k)).push(k)
}

/// Relies on `lru::LruCache::new`: an empty cache that holds at most `cap`
/// entries.
#[verifier::external_body]
fn lru_new(cap: usize) -> (r: lru::LruCache<char, usize>)
    requires
        cap > 0,
    ensures
        lru_entries(r) =~= Map::empty(),
        lru_cap(r) == cap,
        lru_order(r).len() == 0,
{
    lru::LruCache::new(std::num::NonZeroUsize::new(cap).unwrap())
}

/// Relies on `lru::LruCache::get`: the value cached for `k`, if any; the
/// entries stay the same, and `k` becomes the most recently used.
#[verifier::external_body]
fn lru_get(c: &mut lru::LruCache<char, usize>, k: char) -> (r: Option<usize>)
    ensures
        lru_entries(*final(c)) == lru_entries(*old(c)),
        lru_cap(*final(c)) == lru_cap(*old(c)),
        lru_order(*final(c)) == if lru_entries(*old(c)).contains_key(k) {
            used(lru_order(*old(c)), k)
        } else {
            lru_order(*old(c))
        },
        keys_listed(lru_order(*final(c)), lru_entries(*final(c))),
        r == (if lru_entries(*old(c)).contains_key(k) {
            Some(lru_entries(*old(c))[k])
        } else {
            None
        }),
{
    c.get(&k).copied()
}

/// Relies on `lru::LruCache::push`: maps `k` to `v` and makes `k` the most
/// recently used. Where `k` was cached, its old pair comes back; else,
/// where the cache was full, the least recently used pair is evicted and
/// comes back; else `None`.
#[verifier::external_body]
fn lru_push(c: &mut lru::LruCache<char, usize>, k: char, v: usize) -> (r: Option<(char, usize)>)
    ensures
        lru_cap(*final(c)) == lru_cap(*old(c)),
        keys_listed(lru_order(*final(c)), lru_entries(*final(c))),
        match r {
            None => {
                &&& !lru_entries(*old(c)).contains_key(k)
                &&& lru_entries(*old(c)).len() < lru_cap(*old(c))
                &&& lru_entries(*final(c)) == lru_entries(*old(c)).insert(k, v)
                &&& lru_order(*final(c)) == lru_order(*old(c)).push(k)
            },
            Some((ek, ev)) => {
                &&& lru_entries(*old(c)).contains_key(ek)
                &&& lru_entries(*old(c))[ek] == ev
                &&& lru_entries(*final(c)) == lru_entries(*old(c)).remove(ek).insert(k, v)
                &&& ek == k || (!lru_entries(*old(c)).contains_key(k) && lru_entries(*old(c)).len()
                    == lru_cap(*old(c)))
                &&& lru_order(*final(c)) == if ek == k {
                    used(lru_order(*old(c)), k)
                } else {
                    lru_order(*old(c)).drop_first().push(k)
                }
                &&& ek != k ==> ek == lru_order(*old(c))[0]
            },
        },
{
    c.push(k, v)
}

/// Relies on `Arc::clone`: a second handle to the same bytes.
#[verifier::external_body]
fn share(a: &Arc<Vec<u8>>) -> (r: Arc<Vec<u8>>)
    ensures
        r@ == a@,
{
    a.clone()
}

impl Cow {
    /// Another handle to the same bytes; shared bytes are not copied.
    pub fn share(&self) -> (r: Cow)
        ensures
            r.bytes_spec() == self.bytes_spec(),
    {
        match self {
            Cow::Borrowed(s) => Cow::Borrowed(s),
            Cow::Arc(a) => Cow::Arc(share(a)),
        }
    }
}

impl Glyph {
    /// The same glyph, its bytes shared rather than copied.
    pub fn share(&self) -> (r: Glyph)
        ensures
            r@ == self@,
    {
        Glyph {
            width: self.width,
            height: self.height,
            advance: self.advance,
            x: self.x,
            y: self.y,
            data: self.data.share(),
        }
    }

    /// The glyph of a rasterized outline: `width` by `height` coverage
    /// bytes, drawn `xmin` right of the cursor, with its bottom row `ymin`
    /// above the baseline that lies `line_size` below the top of the line.
    pub fn from_raster(width: usize, height: usize, advance: usize, xmin: usize, ymin: isize, line_size: usize, data: Vec<u8>) -> (g: Glyph)
        requires
            data@.len() == width * height,
            line_size <= isize::MAX,
            height <= isize::MAX,
            isize::MIN <= line_size - ymin <= isize::MAX,
            isize::MIN <= line_size - ymin - height <= isize::MAX,
        ensures
            g.width == width,
            g.height == height,
            g.advance == advance,
            g.x == xmin,
            g.y == line_size - ymin - height,
            g@.data == data@,
    {
        Glyph {
            width,
            height,
            advance,
            x: xmin,
            y: line_size as isize - ymin - height as isize,
            data: Cow::Arc(Arc::new(data)),
        }
    }
}

/// A bounded cache of glyphs keyed by character that evicts the least
/// recently used glyph when full. A hit hands out a glyph that shares its
/// bytes with the cached one.
pub struct GlyphCache {
    slots: lru::LruCache<char, usize>,
    glyphs: Vec<(char, Glyph)>,
}

impl GlyphCache {
    pub closed spec fn wf(&self) -> bool {
        &&& keys_listed(lru_order(self.slots), lru_entries(self.slots))
        &&& lru_entries(self.slots).dom().finite()
        &&& lru_entries(self.slots).len() <= lru_cap(self.slots)
        &&& forall|c: char| #[trigger]
            lru_entries(self.slots).contains_key(c) ==> lru_entries(self.slots)[c]
                < self.glyphs@.len() && self.glyphs@[lru_entries(self.slots)[c] as int].0 == c
    }

    /// The glyph cached for each character.
    pub closed spec fn view(&self) -> Map<char, GlyphView> {
        Map::new(
            |c: char| lru_entries(self.slots).contains_key(c),
            |c: char| self.glyphs@[lru_entries(self.slots)[c] as int].1@,
        )
    }

    /// The cached characters from the least to the most recently used.
    pub closed spec fn recency(&self) -> Seq<char> {
        lru_order(self.slots)
    }

    /// The most glyphs cached at once.
    pub closed spec fn capacity(&self) -> nat {
        lru_cap(self.slots)
    }

    pub fn new(capacity: usize) -> (c: GlyphCache)
        requires
            capacity > 0,
        ensures
            c.wf(),
            c.view() == Map::<char, GlyphView>::empty(),
            c.recency().len() == 0,
            c.capacity() == capacity,
    {
        let c = GlyphCache { slots: lru_new(capacity), glyphs: Vec::new() };
        assert(c.view() =~= Map::<char, GlyphView>::empty());
        c
    }

    /// The glyph cached for `c`, if any, now the most recently used.
    pub fn get(&mut self, c: char) -> (g: Option<Glyph>)
        requires
            old(self).wf(),
        ensures
            final(self).wf(),
            final(self).view() == old(self).view(),
            final(self).capacity() == old(self).capacity(),
            final(self).recency() == if old(self).view().contains_key(c) {
                used(old(self).recency(), c)
            } else {
                old(self).recency()
            },
            match g {
                Some(gl) => old(self).view().contains_key(c) && gl@ == old(self).view()[c],
                None => !old(self).view().contains_key(c),
            },
    {
        match lru_get(&mut self.slots, c) {
            Some(i) => Some(self.glyphs[i].1.share()),
            None => None,
        }
    }

    /// Caches `glyph` for `c` as the most recently used. Where that takes a
    /// glyph beyond the capacity, the least recently used one is evicted.
    pub fn put(&mut self, c: char, glyph: Glyph)
        requires
            old(self).wf(),
        ensures
            final(self).wf(),
            final(self).capacity() == old(self).capacity(),
            final(self).view().contains_key(c),
            final(self).view()[c] == glyph@,
            forall|d: char| #[trigger]
                final(self).view().contains_key(d) && d != c ==> old(self).view().contains_key(d)
                    && final(self).view()[d] == old(self).view()[d],
            final(self).view().dom().len() <= final(self).capacity(),
            old(self).view().contains_key(c) || old(self).view().dom().len() < old(self).capacity()
                ==> final(self).view() == old(self).view().insert(c, glyph@),
            !old(self).view().contains_key(c) && old(self).view().dom().len() >= old(self).capacity()
                ==> final(self).view() == old(self).view().remove(old(self).recency()[0]).insert(
                c,
                glyph@,
            ),
            final(self).recency() == if old(self).view().contains_key(c) {
                used(old(self).recency(), c)
            } else if old(self).view().dom().len() < old(self).capacity() {
                old(self).recency().push(c)
            } else {
                old(self).recency().drop_first().push(c)
            },
    {
        let n = self.glyphs.len();
        match lru_push(&mut self.slots, c, n) {
            None => {
                self.glyphs.push((c, glyph));
            },
            Some((_, slot)) => {
                let ghost order1 = lru_order(self.slots);
                let _ = lru_push(&mut self.slots, c, slot);
                proof {
                    let last = order1.len() - 1;
                    assert(order1[last] == c);
                    let i = order1.index_of(c);
                    assert(0 <= i < order1.len() && order1[i] == c);
                    assert(i == last);
                    assert(lru_order(self.slots) =~= order1);
                }
                self.glyphs.set(slot, (c, glyph));
            },
        }
        assert forall|d: char| #[trigger]
            lru_entries(self.slots).contains_key(d) implies lru_entries(self.slots)[d]
                < self.glyphs@.len() && self.glyphs@[lru_entries(self.slots)[d] as int].0 == d by {
        }
        assert(self.view().dom() =~= lru_entries(self.slots).dom());
        assert(old(self).view().dom() =~= lru_entries(old(self).slots).dom());
        proof {
            if old(self).view().contains_key(c) || old(self).view().dom().len() < old(self).capacity() {
            assert forall|d: char| #[trigger] self.view().contains_key(d) && d != c implies self.view()[d] == old(self).view()[d] by {
                assert(lru_entries(self.slots)[d] == lru_entries(old(self).slots)[d]);
            }
            assert(self.view() =~= old(self).view().insert(c, glyph@));
            } else {
                let ek = old(self).recency()[0];
                assert forall|d: char| #[trigger] self.view().contains_key(d) && d != c implies self.view()[d] == old(self).view()[d] by {
                    assert(lru_entries(self.slots)[d] == lru_entries(old(self).slots)[d]);
                }
                assert(self.view() =~= old(self).view().remove(ek).insert(c, glyph@));
            }
        }
    }
}

} // verus!
