//! Backend-neutral 2D material descriptors and their content keys.

use vstd::prelude::*;
use vstd::string::StringSliceAdditionalSpecFns;

verus! {

#[derive(Debug, Clone, Copy, PartialEq, Eq, Structural, PartialOrd, Ord, Hash)]
pub enum FilterMode {
    Nearest,
    Linear,
}

#[derive(Debug, Clone, Copy, PartialEq, Eq, Structural, PartialOrd, Ord, Hash)]
pub enum AddressMode {
    ClampToEdge,
    Repeat,
    MirrorRepeat,
}

#[derive(Debug, Clone, Copy, PartialEq, Eq, Structural, PartialOrd, Ord, Hash)]
pub struct SamplerDescriptor {
    pub min_filter: FilterMode,
    pub mag_filter: FilterMode,
    pub mipmap_filter: FilterMode,
    pub address_mode_u: AddressMode,
    pub address_mode_v: AddressMode,
}

pub open spec fn linear_clamp() -> SamplerDescriptor {
    SamplerDescriptor {
        min_filter: FilterMode::Linear,
        mag_filter: FilterMode::Linear,
        mipmap_filter: FilterMode::Linear,
        address_mode_u: AddressMode::ClampToEdge,
        address_mode_v: AddressMode::ClampToEdge,
    }
}

pub open spec fn nearest_clamp() -> SamplerDescriptor {
    SamplerDescriptor {
        min_filter: FilterMode::Nearest,
        mag_filter: FilterMode::Nearest,
        mipmap_filter: FilterMode::Nearest,
        address_mode_u: AddressMode::ClampToEdge,
        address_mode_v: AddressMode::ClampToEdge,
    }
}

impl SamplerDescriptor {
    /// Linear filtering, clamped addressing.
    pub fn linear_clamp() -> (r: Self)
        ensures
            r == linear_clamp(),
    {
        SamplerDescriptor {
            min_filter: FilterMode::Linear,
            mag_filter: FilterMode::Linear,
            mipmap_filter: FilterMode::Linear,
            address_mode_u: AddressMode::ClampToEdge,
            address_mode_v: AddressMode::ClampToEdge,
        }
    }

    /// Nearest filtering, clamped addressing.
    pub fn nearest_clamp() -> (r: Self)
        ensures
            r == nearest_clamp(),
    {
        SamplerDescriptor {
            min_filter: FilterMode::Nearest,
            mag_filter: FilterMode::Nearest,
            mipmap_filter: FilterMode::Nearest,
            address_mode_u: AddressMode::ClampToEdge,
            address_mode_v: AddressMode::ClampToEdge,
        }
    }
}

impl Default for SamplerDescriptor {
    fn default() -> (r: Self)
        ensures
            r == linear_clamp(),
    {
        SamplerDescriptor::linear_clamp()
    }
}

#[derive(Debug, Clone, Copy, PartialEq, Eq, Structural, PartialOrd, Ord, Hash)]
pub enum AlphaMode2d {
    Opaque,
    Blend,
}

impl Default for AlphaMode2d {
    fn default() -> (r: Self)
        ensures
            r == AlphaMode2d::Blend,
    {
        AlphaMode2d::Blend
    }
}

/// The image a material samples: a logical asset path, or a stable asset id by its text.
#[derive(Debug, Clone, PartialEq, Eq)]
pub enum MaterialImageRef {
    Path(String),
    StableId(String),
}

/// A 2D material: optional image, sampler, alpha mode and the IEEE-754 bits of its RGBA tint.
#[derive(Debug, Clone, PartialEq, Eq)]
pub struct Material2dDescriptor {
    pub image: Option<MaterialImageRef>,
    pub sampler: SamplerDescriptor,
    pub alpha_mode: AlphaMode2d,
    pub tint_bits: [u32; 4],
}

/// The 32-byte content key of a material.
#[derive(Debug, Clone, Copy, PartialEq, Eq, PartialOrd, Ord, Hash)]
pub struct Material2dKey([u8; 32]);

impl Material2dKey {
    pub closed spec fn bytes(self) -> Seq<u8> {
        self.0@
    }

    pub fn from_bytes(bytes: [u8; 32]) -> (r: Self)
        ensures
            r.bytes() == bytes@,
    {
        Material2dKey(bytes)
    }

    pub fn as_bytes(self) -> (r: [u8; 32])
        ensures
            r@ == self.bytes(),
    {
        self.0
    }
}

/// The BLAKE3 digest of `input`, as `blake3::hash` computes it.
pub uninterp spec fn blake3_digest(input: Seq<u8>) -> Seq<u8>;

/// Calls `blake3::hash` on `input` and returns the 32 digest bytes.
/// Claimed: the digest is `blake3_digest` of the input bytes, which depends on them alone.
#[verifier::external_body]
fn blake3_hash(input: &[u8]) -> (r: [u8; 32])
    ensures
        r@ == blake3_digest(input@),
{
    *blake3::hash(input).as_bytes()
}

pub open spec fn filter_mode_tag(mode: FilterMode) -> u8 {
    match mode {
        FilterMode::Nearest => 1,
        FilterMode::Linear => 2,
    }
}

pub open spec fn address_mode_tag(mode: AddressMode) -> u8 {
    match mode {
        AddressMode::ClampToEdge => 1,
        AddressMode::Repeat => 2,
        AddressMode::MirrorRepeat => 3,
    }
}

pub open spec fn alpha_mode_tag(mode: AlphaMode2d) -> u8 {
    match mode {
        AlphaMode2d::Opaque => 1,
        AlphaMode2d::Blend => 2,
    }
}

/// Little-endian bytes of a `u32`.
pub open spec fn le_u32(v: u32) -> Seq<u8> {
    seq![(v & 0xff) as u8, ((v >> 8) & 0xff) as u8, ((v >> 16) & 0xff) as u8, ((v >> 24) & 0xff) as u8]
}

/// Little-endian bytes of a `u64`.
pub open spec fn le_u64(v: u64) -> Seq<u8> {
    seq![
        (v & 0xff) as u8, ((v >> 8) & 0xff) as u8, ((v >> 16) & 0xff) as u8, ((v >> 24) & 0xff) as u8,
        ((v >> 32) & 0xff) as u8, ((v >> 40) & 0xff) as u8, ((v >> 48) & 0xff) as u8, ((v >> 56) & 0xff) as u8,
    ]
}

/// A text: its byte length as a little-endian `u64`, then its UTF-8 bytes.
pub open spec fn text_encoding(bytes: Seq<u8>) -> Seq<u8> {
    le_u64(bytes.len() as u64) + bytes
}

/// The image part of a material's key input: a tag, then the reference's text.
pub open spec fn image_encoding(image: Option<MaterialImageRef>) -> Seq<u8> {
    match image {
        None => seq![0u8],
        Some(MaterialImageRef::Path(p)) => seq![1u8] + text_encoding(vstd::utf8::encode_utf8(p@)),
        Some(MaterialImageRef::StableId(t)) => seq![2u8] + text_encoding(vstd::utf8::encode_utf8(t@)),
    }
}

/// The bytes a material's key hashes: image, sampler tags, alpha tag, then the tint.
pub open spec fn material_encoding(d: Material2dDescriptor) -> Seq<u8> {
    image_encoding(d.image)
        + seq![
            filter_mode_tag(d.sampler.min_filter),
            filter_mode_tag(d.sampler.mag_filter),
            filter_mode_tag(d.sampler.mipmap_filter),
            address_mode_tag(d.sampler.address_mode_u),
            address_mode_tag(d.sampler.address_mode_v),
        ]
        + seq![alpha_mode_tag(d.alpha_mode)]
        + le_u32(d.tint_bits[0]) + le_u32(d.tint_bits[1]) + le_u32(d.tint_bits[2]) + le_u32(d.tint_bits[3])
}

fn filter_tag(mode: FilterMode) -> (r: u8)
    ensures
        r == filter_mode_tag(mode),
{
    match mode {
        FilterMode::Nearest => 1,
        FilterMode::Linear => 2,
    }
}

fn address_tag(mode: AddressMode) -> (r: u8)
    ensures
        r == address_mode_tag(mode),
{
    match mode {
        AddressMode::ClampToEdge => 1,
        AddressMode::Repeat => 2,
        AddressMode::MirrorRepeat => 3,
    }
}

fn alpha_tag(mode: AlphaMode2d) -> (r: u8)
    ensures
        r == alpha_mode_tag(mode),
{
    match mode {
        AlphaMode2d::Opaque => 1,
        AlphaMode2d::Blend => 2,
    }
}

pub fn push_le_u32(out: &mut Vec<u8>, v: u32)
    ensures
        final(out)@ == old(out)@ + le_u32(v),
{
    out.push((v & 0xff) as u8);
    out.push(((v >> 8) & 0xff) as u8);
    out.push(((v >> 16) & 0xff) as u8);
    out.push(((v >> 24) & 0xff) as u8);
    proof {
        assert(out@ =~= old(out)@ + le_u32(v));
    }
}

pub fn push_le_u64(out: &mut Vec<u8>, v: u64)
    ensures
        final(out)@ == old(out)@ + le_u64(v),
{
    out.push((v & 0xff) as u8);
    out.push(((v >> 8) & 0xff) as u8);
    out.push(((v >> 16) & 0xff) as u8);
    out.push(((v >> 24) & 0xff) as u8);
    out.push(((v >> 32) & 0xff) as u8);
    out.push(((v >> 40) & 0xff) as u8);
    out.push(((v >> 48) & 0xff) as u8);
    out.push(((v >> 56) & 0xff) as u8);
    proof {
        assert(out@ =~= old(out)@ + le_u64(v));
    }
}

fn push_text(out: &mut Vec<u8>, value: &str)
    ensures
        final(out)@ == old(out)@ + text_encoding(vstd::utf8::encode_utf8(value@)),
{
    let bytes = value.as_bytes();
    proof {
        assert(value.spec_bytes() == vstd::utf8::encode_utf8(value@));
    }
    push_le_u64(out, bytes.len() as u64);
    let ghost before = out@;
    let mut i: usize = 0;
    while i < bytes.len()
        invariant
            i <= bytes@.len(),
            out@ == before + bytes@.take(i as int),
        decreases bytes@.len() - i,
    {
        out.push(bytes[i]);
        proof {
            assert(bytes@.take(i + 1) =~= bytes@.take(i as int).push(bytes@[i as int]));
        }
        i = i + 1;
    }
    proof {
        assert(bytes@.take(i as int) =~= bytes@);
        assert(out@ =~= old(out)@ + text_encoding(vstd::utf8::encode_utf8(value@)));
    }
}

fn push_image(out: &mut Vec<u8>, image: &Option<MaterialImageRef>)
    ensures
        final(out)@ == old(out)@ + image_encoding(*image),
{
    match image {
        None => out.push(0),
        Some(MaterialImageRef::Path(p)) => {
            out.push(1);
            push_text(out, p.as_str());
        },
        Some(MaterialImageRef::StableId(t)) => {
            out.push(2);
            push_text(out, t.as_str());
        },
    }
    proof {
        assert(out@ =~= old(out)@ + image_encoding(*image));
    }
}

fn push_tags(out: &mut Vec<u8>, sampler: SamplerDescriptor, alpha_mode: AlphaMode2d)
    ensures
        final(out)@ == old(out)@ + seq![
            filter_mode_tag(sampler.min_filter),
            filter_mode_tag(sampler.mag_filter),
            filter_mode_tag(sampler.mipmap_filter),
            address_mode_tag(sampler.address_mode_u),
            address_mode_tag(sampler.address_mode_v),
        ] + seq![alpha_mode_tag(alpha_mode)],
{
    out.push(filter_tag(sampler.min_filter));
    out.push(filter_tag(sampler.mag_filter));
    out.push(filter_tag(sampler.mipmap_filter));
    out.push(address_tag(sampler.address_mode_u));
    out.push(address_tag(sampler.address_mode_v));
    out.push(alpha_tag(alpha_mode));
    proof {
        assert(out@ =~= old(out)@ + seq![
            filter_mode_tag(sampler.min_filter),
            filter_mode_tag(sampler.mag_filter),
            filter_mode_tag(sampler.mipmap_filter),
            address_mode_tag(sampler.address_mode_u),
            address_mode_tag(sampler.address_mode_v),
        ] + seq![alpha_mode_tag(alpha_mode)]);
    }
}

/// The bytes a material's key hashes.
pub fn material_key_input(descriptor: &Material2dDescriptor) -> (r: Vec<u8>)
    ensures
        r@ == material_encoding(*descriptor),
{
    let mut out: Vec<u8> = Vec::new();
    push_image(&mut out, &descriptor.image);
    push_tags(&mut out, descriptor.sampler, descriptor.alpha_mode);
    push_le_u32(&mut out, descriptor.tint_bits[0]);
    push_le_u32(&mut out, descriptor.tint_bits[1]);
    push_le_u32(&mut out, descriptor.tint_bits[2]);
    push_le_u32(&mut out, descriptor.tint_bits[3]);
    proof {
        assert(out@ =~= material_encoding(*descriptor));
    }
    out
}

/// The content key of a material: the BLAKE3 digest of its key input.
pub fn material2d_descriptor_key(descriptor: &Material2dDescriptor) -> (r: Material2dKey)
    ensures
        r.bytes() == blake3_digest(material_encoding(*descriptor)),
{
    let input = material_key_input(descriptor);
    Material2dKey::from_bytes(blake3_hash(input.as_slice()))
}

impl Material2dDescriptor {
    /// An untextured material of the given tint, linear-clamp sampled and blended.
    pub fn from_tint_bits(tint_bits: [u32; 4]) -> (r: Self)
        ensures
            r.image is None,
            r.sampler == linear_clamp(),
            r.alpha_mode == AlphaMode2d::Blend,
            r.tint_bits == tint_bits,
    {
        Material2dDescriptor { image: None, sampler: SamplerDescriptor::linear_clamp(), alpha_mode: AlphaMode2d::Blend, tint_bits }
    }

    /// A textured material with a white tint, linear-clamp sampled and blended.
    pub fn from_image(image: MaterialImageRef) -> (r: Self)
        ensures
            r.image == Some(image),
            r.sampler == linear_clamp(),
            r.alpha_mode == AlphaMode2d::Blend,
            r.tint_bits@ == seq![0x3f800000u32, 0x3f800000u32, 0x3f800000u32, 0x3f800000u32],
    {
        let tint_bits: [u32; 4] = [0x3f800000, 0x3f800000, 0x3f800000, 0x3f800000];
        proof {
            assert(tint_bits@ =~= seq![0x3f800000u32, 0x3f800000u32, 0x3f800000u32, 0x3f800000u32]);
        }
        Material2dDescriptor { image: Some(image), sampler: SamplerDescriptor::linear_clamp(), alpha_mode: AlphaMode2d::Blend, tint_bits }
    }

    pub fn with_sampler(self, sampler: SamplerDescriptor) -> (r: Self)
        ensures
            r == (Material2dDescriptor { sampler, ..self }),
    {
        Material2dDescriptor { sampler, ..self }
    }

    pub fn with_alpha_mode(self, alpha_mode: AlphaMode2d) -> (r: Self)
        ensures
            r == (Material2dDescriptor { alpha_mode, ..self }),
    {
        Material2dDescriptor { alpha_mode, ..self }
    }

    pub fn with_tint_bits(self, tint_bits: [u32; 4]) -> (r: Self)
        ensures
            r == (Material2dDescriptor { tint_bits, ..self }),
    {
        Material2dDescriptor { tint_bits, ..self }
    }

    pub fn key(&self) -> (r: Material2dKey)
        ensures
            r.bytes() == blake3_digest(material_encoding(*self)),
    {
        material2d_descriptor_key(self)
    }
}

proof fn lemma_le_u32_injective(x: u32, y: u32)
    requires
        le_u32(x) == le_u32(y),
    ensures
        x == y,
{
    assert(le_u32(x)[0] == le_u32(y)[0]);
    assert(le_u32(x)[1] == le_u32(y)[1]);
    assert(le_u32(x)[2] == le_u32(y)[2]);
    assert(le_u32(x)[3] == le_u32(y)[3]);
    assert(x == y) by (bit_vector)
        requires
            (x & 0xff) as u8 == (y & 0xff) as u8,
            ((x >> 8) & 0xff) as u8 == ((y >> 8) & 0xff) as u8,
            ((x >> 16) & 0xff) as u8 == ((y >> 16) & 0xff) as u8,
            ((x >> 24) & 0xff) as u8 == ((y >> 24) & 0xff) as u8;
}

proof fn lemma_le_u64_injective(x: u64, y: u64)
    requires
        le_u64(x) == le_u64(y),
    ensures
        x == y,
{
    assert(le_u64(x)[0] == le_u64(y)[0]);
    assert(le_u64(x)[1] == le_u64(y)[1]);
    assert(le_u64(x)[2] == le_u64(y)[2]);
    assert(le_u64(x)[3] == le_u64(y)[3]);
    assert(le_u64(x)[4] == le_u64(y)[4]);
    assert(le_u64(x)[5] == le_u64(y)[5]);
    assert(le_u64(x)[6] == le_u64(y)[6]);
    assert(le_u64(x)[7] == le_u64(y)[7]);
    assert(x == y) by (bit_vector)
        requires
            (x & 0xff) as u8 == (y & 0xff) as u8,
            ((x >> 8) & 0xff) as u8 == ((y >> 8) & 0xff) as u8,
            ((x >> 16) & 0xff) as u8 == ((y >> 16) & 0xff) as u8,
            ((x >> 24) & 0xff) as u8 == ((y >> 24) & 0xff) as u8,
            ((x >> 32) & 0xff) as u8 == ((y >> 32) & 0xff) as u8,
            ((x >> 40) & 0xff) as u8 == ((y >> 40) & 0xff) as u8,
            ((x >> 48) & 0xff) as u8 == ((y >> 48) & 0xff) as u8,
            ((x >> 56) & 0xff) as u8 == ((y >> 56) & 0xff) as u8;
}

/// A length-prefixed text is read back whole from the front of any longer byte string: two
/// byte strings that each begin with one such text are equal only where the texts are.
proof fn lemma_text_encoding_prefix_injective(x: Seq<u8>, y: Seq<u8>, rx: Seq<u8>, ry: Seq<u8>)
    requires
        x.len() <= u64::MAX,
        y.len() <= u64::MAX,
        text_encoding(x) + rx == text_encoding(y) + ry,
    ensures
        x == y,
{
    let ex = text_encoding(x) + rx;
    let ey = text_encoding(y) + ry;
    assert(ex.take(8) =~= le_u64(x.len() as u64));
    assert(ey.take(8) =~= le_u64(y.len() as u64));
    lemma_le_u64_injective(x.len() as u64, y.len() as u64);
    assert(x.len() == y.len());
    assert(ex.subrange(8, 8 + x.len() as int) =~= x);
    assert(ey.subrange(8, 8 + y.len() as int) =~= y);
}

/// The UTF-8 text of an image reference, where it has one, is short enough for its length to be
/// written as a `u64`.
pub open spec fn image_text_fits(image: Option<MaterialImageRef>) -> bool {
    match image {
        None => true,
        Some(MaterialImageRef::Path(p)) => vstd::utf8::encode_utf8(p@).len() <= u64::MAX,
        Some(MaterialImageRef::StableId(t)) => vstd::utf8::encode_utf8(t@).len() <= u64::MAX,
    }
}

/// Whether two image references name the same image: both absent, or of one kind with the same
/// text.
pub open spec fn same_image_ref(x: Option<MaterialImageRef>, y: Option<MaterialImageRef>) -> bool {
    match (x, y) {
        (None, None) => true,
        (Some(MaterialImageRef::Path(p)), Some(MaterialImageRef::Path(q))) => p@ == q@,
        (Some(MaterialImageRef::StableId(p)), Some(MaterialImageRef::StableId(q))) => p@ == q@,
        _ => false,
    }
}

/// Two materials whose image references differ (one has an image and the other none, one names
/// a path and the other a stable id, or their texts differ, even at equal length) hash different
/// key inputs, whatever their sampler, alpha mode and tint.
#[verifier::rlimit(60)]
#[verifier::spinoff_prover]
pub proof fn lemma_key_input_separates_image(a: Material2dDescriptor, b: Material2dDescriptor)
    requires
        !same_image_ref(a.image, b.image),
        image_text_fits(a.image),
        image_text_fits(b.image),
    ensures
        material_encoding(a) != material_encoding(b),
{
    if material_encoding(a) == material_encoding(b) {
        let ea = material_encoding(a);
        let eb = material_encoding(b);
        let ra = ea.skip(image_encoding(a.image).len() as int);
        let rb = eb.skip(image_encoding(b.image).len() as int);
        assert(ea =~= image_encoding(a.image) + ra);
        assert(eb =~= image_encoding(b.image) + rb);
        assert(ea[0] == image_encoding(a.image)[0]);
        assert(eb[0] == image_encoding(b.image)[0]);
        match (a.image, b.image) {
            (Some(MaterialImageRef::Path(p)), Some(MaterialImageRef::Path(q))) => {
                let bp = vstd::utf8::encode_utf8(p@);
                let bq = vstd::utf8::encode_utf8(q@);
                assert(ea.drop_first() =~= text_encoding(bp) + ra);
                assert(eb.drop_first() =~= text_encoding(bq) + rb);
                lemma_text_encoding_prefix_injective(bp, bq, ra, rb);
                vstd::utf8::encode_utf8_decode_utf8(p@);
                vstd::utf8::encode_utf8_decode_utf8(q@);
            },
            (Some(MaterialImageRef::StableId(p)), Some(MaterialImageRef::StableId(q))) => {
                let bp = vstd::utf8::encode_utf8(p@);
                let bq = vstd::utf8::encode_utf8(q@);
                assert(ea.drop_first() =~= text_encoding(bp) + ra);
                assert(eb.drop_first() =~= text_encoding(bq) + rb);
                lemma_text_encoding_prefix_injective(bp, bq, ra, rb);
                vstd::utf8::encode_utf8_decode_utf8(p@);
                vstd::utf8::encode_utf8_decode_utf8(q@);
            },
            _ => {},
        }
    }
}

/// Two materials with the same image whose sampler, alpha mode or tint differ hash different
/// key inputs.
#[verifier::rlimit(60)]
#[verifier::spinoff_prover]
pub proof fn lemma_key_input_separates_intent(a: Material2dDescriptor, b: Material2dDescriptor)
    requires
        a.image == b.image,
        a.sampler != b.sampler || a.alpha_mode != b.alpha_mode || a.tint_bits@ != b.tint_bits@,
    ensures
        material_encoding(a) != material_encoding(b),
{
    if material_encoding(a) == material_encoding(b) {
        let n = image_encoding(a.image).len() as int;
        let ta = material_encoding(a).skip(n);
        let tb = material_encoding(b).skip(n);
        assert(ta == tb);
        let tags_a = seq![
            filter_mode_tag(a.sampler.min_filter),
            filter_mode_tag(a.sampler.mag_filter),
            filter_mode_tag(a.sampler.mipmap_filter),
            address_mode_tag(a.sampler.address_mode_u),
            address_mode_tag(a.sampler.address_mode_v),
        ] + seq![alpha_mode_tag(a.alpha_mode)];
        let tags_b = seq![
            filter_mode_tag(b.sampler.min_filter),
            filter_mode_tag(b.sampler.mag_filter),
            filter_mode_tag(b.sampler.mipmap_filter),
            address_mode_tag(b.sampler.address_mode_u),
            address_mode_tag(b.sampler.address_mode_v),
        ] + seq![alpha_mode_tag(b.alpha_mode)];
        assert(ta =~= tags_a + le_u32(a.tint_bits[0]) + le_u32(a.tint_bits[1]) + le_u32(a.tint_bits[2]) + le_u32(a.tint_bits[3]));
        assert(tb =~= tags_b + le_u32(b.tint_bits[0]) + le_u32(b.tint_bits[1]) + le_u32(b.tint_bits[2]) + le_u32(b.tint_bits[3]));
        assert(ta.take(6) =~= tags_a);
        assert(tb.take(6) =~= tags_b);
        assert(tags_a[0] == tags_b[0] && tags_a[1] == tags_b[1] && tags_a[2] == tags_b[2]);
        assert(tags_a[3] == tags_b[3] && tags_a[4] == tags_b[4] && tags_a[5] == tags_b[5]);
        assert(a.sampler == b.sampler);
        assert(a.alpha_mode == b.alpha_mode);
        assert(ta.subrange(6, 10) =~= le_u32(a.tint_bits[0]));
        assert(tb.subrange(6, 10) =~= le_u32(b.tint_bits[0]));
        assert(ta.subrange(10, 14) =~= le_u32(a.tint_bits[1]));
        assert(tb.subrange(10, 14) =~= le_u32(b.tint_bits[1]));
        assert(ta.subrange(14, 18) =~= le_u32(a.tint_bits[2]));
        assert(tb.subrange(14, 18) =~= le_u32(b.tint_bits[2]));
        assert(ta.subrange(18, 22) =~= le_u32(a.tint_bits[3]));
        assert(tb.subrange(18, 22) =~= le_u32(b.tint_bits[3]));
        lemma_le_u32_injective(a.tint_bits[0], b.tint_bits[0]);
        lemma_le_u32_injective(a.tint_bits[1], b.tint_bits[1]);
        lemma_le_u32_injective(a.tint_bits[2], b.tint_bits[2]);
        lemma_le_u32_injective(a.tint_bits[3], b.tint_bits[3]);
        assert(a.tint_bits@ =~= b.tint_bits@);
    }
}

} // verus!
