use vstd::prelude::*;

verus! {

/// A colour in a fixed-width native encoding.
///
/// `encode_spec` is what `new` builds from four channels, `decode_spec` what
/// `get` reads back.
pub trait Pixel: Sized + Copy {
    spec fn encode_spec(r: u8, g: u8, b: u8, a: u8) -> Self;

    spec fn decode_spec(&self) -> (u8, u8, u8, u8);

    /// Number of bytes of the native value.
    spec fn size_spec() -> nat;

    fn new(r: u8, g: u8, b: u8, a: u8) -> (p: Self)
        ensures
            p == Self::encode_spec(r, g, b, a),
    ;

    fn get(&self) -> (c: (u8, u8, u8, u8))
        ensures
            c == self.decode_spec(),
    ;

    fn size() -> (n: usize)
        ensures
            n as nat == Self::size_spec(),
    ;
}

/// 32-bit pixel whose bytes lie in memory as alpha, blue, green, red.
#[derive(Debug, Copy, Clone, PartialEq, Eq)]
pub struct RGBA8888 {
    pub a: u8,
    pub b: u8,
    pub g: u8,
    pub r: u8,
}

impl Pixel for RGBA8888 {
    open spec fn encode_spec(r: u8, g: u8, b: u8, a: u8) -> Self {
        RGBA8888 { a, b, g, r }
    }

    open spec fn decode_spec(&self) -> (u8, u8, u8, u8) {
        (self.r, self.g, self.b, self.a)
    }

    open spec fn size_spec() -> nat {
        4
    }

    fn new(r: u8, g: u8, b: u8, a: u8) -> (p: Self) {
        RGBA8888 { a, b, g, r }
    }

    fn get(&self) -> (c: (u8, u8, u8, u8)) {
        (self.r, self.g, self.b, self.a)
    }

    fn size() -> (n: usize) {
        4
    }
}

/// 32-bit pixel `0xXXRRGGBB`; the top byte is padding that displays ignore
/// and that carries the alpha channel through unchanged.
#[derive(Debug, Copy, Clone, PartialEq, Eq)]
pub struct XRGB8888 {
    pub value: u32,
}

pub open spec fn xrgb_pack(r: u8, g: u8, b: u8, a: u8) -> u32 {
    ((a as u32) << 24u32) | ((r as u32) << 16u32) | ((g as u32) << 8u32) | (b as u32)
}

impl Pixel for XRGB8888 {
    open spec fn encode_spec(r: u8, g: u8, b: u8, a: u8) -> Self {
        XRGB8888 { value: xrgb_pack(r, g, b, a) }
    }

    open spec fn decode_spec(&self) -> (u8, u8, u8, u8) {
        (
            ((self.value >> 16u32) & 0xffu32) as u8,
            ((self.value >> 8u32) & 0xffu32) as u8,
            (self.value & 0xffu32) as u8,
            (self.value >> 24u32) as u8,
        )
    }

    open spec fn size_spec() -> nat {
        4
    }

    fn new(r: u8, g: u8, b: u8, a: u8) -> (p: Self) {
        XRGB8888 {
            value: ((a as u32) << 24u32) | ((r as u32) << 16u32) | ((g as u32) << 8u32) | (b as u32),
        }
    }

    fn get(&self) -> (c: (u8, u8, u8, u8)) {
        (
            ((self.value >> 16u32) & 0xffu32) as u8,
            ((self.value >> 8u32) & 0xffu32) as u8,
            (self.value & 0xffu32) as u8,
            (self.value >> 24u32) as u8,
        )
    }

    fn size() -> (n: usize) {
        4
    }
}

/// 16-bit pixel with 5 bits of red, 6 of green and 5 of blue; alpha is not
/// stored.
#[derive(Debug, Copy, Clone, PartialEq, Eq)]
pub struct RGB565 {
    pub value: u16,
}

pub open spec fn rgb565_pack(r: u8, g: u8, b: u8) -> u16 {
    (((r as u16) >> 3u16) << 11u16) | (((g as u16) >> 2u16) << 5u16) | ((b as u16) >> 3u16)
}

impl Pixel for RGB565 {
    open spec fn encode_spec(r: u8, g: u8, b: u8, a: u8) -> Self {
        RGB565 { value: rgb565_pack(r, g, b) }
    }

    open spec fn decode_spec(&self) -> (u8, u8, u8, u8) {
        (
            (((self.value >> 11u16) & 0x1fu16) << 3u16) as u8,
            (((self.value >> 5u16) & 0x3fu16) << 2u16) as u8,
            ((self.value & 0x1fu16) << 3u16) as u8,
            0u8,
        )
    }

    open spec fn size_spec() -> nat {
        2
    }

    fn new(r: u8, g: u8, b: u8, a: u8) -> (p: Self) {
        RGB565 {
            value: (((r as u16) >> 3u16) << 11u16) | (((g as u16) >> 2u16) << 5u16) | ((b as u16)
                >> 3u16),
        }
    }

    fn get(&self) -> (c: (u8, u8, u8, u8)) {
        (
            (((self.value >> 11u16) & 0x1fu16) << 3u16) as u8,
            (((self.value >> 5u16) & 0x3fu16) << 2u16) as u8,
            ((self.value & 0x1fu16) << 3u16) as u8,
            0u8,
        )
    }

    fn size() -> (n: usize) {
        2
    }
}

/// Decoding an encoded RGBA8888 pixel gives back all four channels.
pub proof fn lemma_rgba8888_round_trip(r: u8, g: u8, b: u8, a: u8)
    ensures
        RGBA8888::encode_spec(r, g, b, a).decode_spec() == (r, g, b, a),
{
}

/// Decoding an encoded XRGB8888 pixel gives back all four channels.
pub proof fn lemma_xrgb8888_round_trip(r: u8, g: u8, b: u8, a: u8)
    ensures
        XRGB8888::encode_spec(r, g, b, a).decode_spec() == (r, g, b, a),
{
    let v = xrgb_pack(r, g, b, a);
    assert(((v >> 16u32) & 0xffu32) as u8 == r && ((v >> 8u32) & 0xffu32) as u8 == g && (v
        & 0xffu32) as u8 == b && (v >> 24u32) as u8 == a) by (bit_vector)
        requires
            v == ((a as u32) << 24u32) | ((r as u32) << 16u32) | ((g as u32) << 8u32) | (b as u32),
    ;
}

/// Decoding an encoded RGB565 pixel keeps the top five bits of red and blue
/// and the top six of green; alpha comes back as zero.
pub proof fn lemma_rgb565_round_trip(r: u8, g: u8, b: u8, a: u8)
    ensures
        RGB565::encode_spec(r, g, b, a).decode_spec() == (r & 0xf8u8, g & 0xfcu8, b & 0xf8u8, 0u8),
{
    let v = rgb565_pack(r, g, b);
    assert((((v >> 11u16) & 0x1fu16) << 3u16) as u8 == r & 0xf8u8 && (((v >> 5u16) & 0x3fu16)
        << 2u16) as u8 == g & 0xfcu8 && ((v & 0x1fu16) << 3u16) as u8 == b & 0xf8u8)
        by (bit_vector)
        requires
            v == (((r as u16) >> 3u16) << 11u16) | (((g as u16) >> 2u16) << 5u16) | ((b as u16)
                >> 3u16),
    ;
}

/// For the full-depth formats half coverage decodes, in each channel,
/// to within one unit of the midpoint of background and foreground.
pub proof fn lemma_rgba8888_half_coverage(fg: RGBA8888, bg: RGBA8888)
    ensures
        ({
            let p = crate::fb::blend(fg, bg, 128).decode_spec();
            let f = fg.decode_spec();
            let b = bg.decode_spec();
            &&& -1 <= p.0 - (f.0 + b.0) / 2 <= 1
            &&& -1 <= p.1 - (f.1 + b.1) / 2 <= 1
            &&& -1 <= p.2 - (f.2 + b.2) / 2 <= 1
            &&& -1 <= p.3 - (f.3 + b.3) / 2 <= 1
        }),
{
    let f = fg.decode_spec();
    let b = bg.decode_spec();
    crate::fb::lemma_mix_halfway(f.0, b.0);
    crate::fb::lemma_mix_halfway(f.1, b.1);
    crate::fb::lemma_mix_halfway(f.2, b.2);
    crate::fb::lemma_mix_halfway(f.3, b.3);
}

/// The same for XRGB8888, whose pad byte carries alpha through.
pub proof fn lemma_xrgb8888_half_coverage(fg: XRGB8888, bg: XRGB8888)
    ensures
        ({
            let p = crate::fb::blend(fg, bg, 128).decode_spec();
            let f = fg.decode_spec();
            let b = bg.decode_spec();
            &&& -1 <= p.0 - (f.0 + b.0) / 2 <= 1
            &&& -1 <= p.1 - (f.1 + b.1) / 2 <= 1
            &&& -1 <= p.2 - (f.2 + b.2) / 2 <= 1
            &&& -1 <= p.3 - (f.3 + b.3) / 2 <= 1
        }),
{
    let f = fg.decode_spec();
    let b = bg.decode_spec();
    crate::fb::lemma_mix_halfway(f.0, b.0);
    crate::fb::lemma_mix_halfway(f.1, b.1);
    crate::fb::lemma_mix_halfway(f.2, b.2);
    crate::fb::lemma_mix_halfway(f.3, b.3);
    lemma_xrgb8888_round_trip(
        crate::fb::mix(f.0, b.0, 128),
        crate::fb::mix(f.1, b.1, 128),
        crate::fb::mix(f.2, b.2, 128),
        crate::fb::mix(f.3, b.3, 128),
    );
}

} // verus!
