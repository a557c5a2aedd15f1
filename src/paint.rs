//! Paints, their ids and the cache that deduplicates them.
use vstd::prelude::*;

verus! {

#[derive(Clone, Copy, Debug, PartialEq, Eq, Hash)]
pub struct ColorU {
    pub r: u8,
    pub g: u8,
    pub b: u8,
    pub a: u8,
}

impl ColorU {
    pub open spec fn is_opaque_spec(self) -> bool {
        self.a == 255
    }

    pub fn is_opaque(&self) -> (r: bool)
        ensures
            r == self.is_opaque_spec(),
    {
        self.a == 255
    }
}

#[derive(Clone, Copy, Debug, PartialEq, Eq, Hash)]
pub struct Paint {
    pub color: ColorU,
}

/// Index of a paint in its scene's paint table.
#[derive(Clone, Copy, Debug, PartialEq, Eq, Hash)]
pub struct PaintId(pub u16);

#[derive(Clone, Copy, Debug, PartialEq, Eq, Hash)]
pub struct ShaderId(pub u16);

#[derive(Clone, Copy, Debug, PartialEq, Eq)]
pub struct ObjectShader {
    pub fill_color: ColorU,
}

/// The cache key of a paint: its color packed as `0xRRGGBBAA`.
pub open spec fn paint_key(p: Paint) -> u32 {
    ((p.color.r as u32) << 24u32) | ((p.color.g as u32) << 16u32) | ((p.color.b as u32) << 8u32)
        | (p.color.a as u32)
}

pub fn key_of(p: &Paint) -> (r: u32)
    ensures
        r == paint_key(*p),
{
    ((p.color.r as u32) << 24u32) | ((p.color.g as u32) << 16u32) | ((p.color.b as u32) << 8u32)
        | (p.color.a as u32)
}

/// Distinct paints have distinct keys.
pub proof fn lemma_paint_key_injective(p: Paint, q: Paint)
    ensures
        paint_key(p) == paint_key(q) <==> p == q,
{
    let (r1, g1, b1, a1) = (p.color.r as u32, p.color.g as u32, p.color.b as u32, p.color.a as u32);
    let (r2, g2, b2, a2) = (q.color.r as u32, q.color.g as u32, q.color.b as u32, q.color.a as u32);
    assert((((r1 << 24u32) | (g1 << 16u32) | (b1 << 8u32) | a1) == ((r2 << 24u32) | (g2 << 16u32)
        | (b2 << 8u32) | a2)) ==> (r1 == r2 && g1 == g2 && b1 == b2 && a1 == a2)) by (bit_vector)
        requires
            r1 < 256,
            g1 < 256,
            b1 < 256,
            a1 < 256,
            r2 < 256,
            g2 < 256,
            b2 < 256,
            a2 < 256,
    ;
}

/// A map from paint keys to paint ids, held in a `hashbrown::HashMap`.
#[verifier::external_body]
pub struct PaintCache {
    map: hashbrown::HashMap<u32, u16>,
}

/// The entries of a paint cache.
pub uninterp spec fn cache_entries(c: PaintCache) -> Map<u32, u16>;

impl PaintCache {
    /// Relies on `hashbrown::HashMap::new`: the map starts empty.
    #[verifier::external_body]
    pub(crate) fn new() -> (r: PaintCache)
        ensures
            forall|k: u32| !cache_entries(r).contains_key(k),
    {
        PaintCache { map: hashbrown::HashMap::new() }
    }

    /// Relies on `hashbrown::HashMap::get`: the value stored under `key`, if any.
    #[verifier::external_body]
    pub(crate) fn get(&self, key: u32) -> (r: Option<u16>)
        ensures
            r == (if cache_entries(*self).contains_key(key) {
                Some(cache_entries(*self)[key])
            } else {
                None
            }),
    {
        self.map.get(&key).copied()
    }

    /// Relies on `hashbrown::HashMap::insert`: `key` then maps to `value`, the
    /// other entries are kept.
    #[verifier::external_body]
    pub(crate) fn insert(&mut self, key: u32, value: u16)
        ensures
            cache_entries(*final(self)) == cache_entries(*old(self)).insert(key, value),
    {
        self.map.insert(key, value);
    }
}

} // verus!
