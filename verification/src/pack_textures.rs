//! Packing an image into a texture: the layout of its mip chain, the tiled surfaces of
//! the levels, and the container that holds them.

use crate::cl::write_all;
use crate::encoder::{floor_log2, lemma_floor_log2};
use crate::texture::PackedTextureHeader;
use crate::vc4_image::{
    is_power_of_two, Geometry, TileAddress, Translator, TranslatorTrait, UVec2,
};
use smallvec::SmallVec;
use vstd::arithmetic::power2::*;
use vstd::bits::*;
use vstd::prelude::*;

verus! {

/// One level of a mip chain: its size in texels and the offset of its surface in the
/// chain.
#[derive(Clone, Copy, Debug, PartialEq, Eq, Structural)]
pub struct MipInfo {
    pub size: UVec2,
    pub offset: u32,
}

/// The levels of a mip chain, largest first, in a `smallvec::SmallVec` that holds up to
/// twelve of them in place.
#[verifier::external_body]
pub struct MipInfos {
    levels: SmallVec<[MipInfo; 12]>,
}

/// The levels that the vector holds, in order.
pub uninterp spec fn mip_infos(levels: MipInfos) -> Seq<MipInfo>;

impl MipInfos {
    /// Calls `SmallVec::new`, which gives an empty vector.
    #[verifier::external_body]
    fn new() -> (levels: MipInfos)
        ensures
            mip_infos(levels) == Seq::<MipInfo>::empty(),
    {
        MipInfos { levels: SmallVec::new() }
    }

    /// Calls `SmallVec::resize`, which cuts the vector to `len` items or fills it up to
    /// `len` items with copies of `value`.
    #[verifier::external_body]
    fn resize(&mut self, len: usize, value: MipInfo)
        ensures
            mip_infos(*final(self)).len() == len,
            forall|i: int|
                0 <= i < len ==> #[trigger] mip_infos(*final(self))[i] == if i < mip_infos(
                    *old(self),
                ).len() {
                    mip_infos(*old(self))[i]
                } else {
                    value
                },
    {
        self.levels.resize(len, value)
    }

    /// Calls `SmallVec::len`, which gives the number of items.
    #[verifier::external_body]
    fn len(&self) -> (len: usize)
        ensures
            len == mip_infos(*self).len(),
    {
        self.levels.len()
    }

    /// Indexes the `SmallVec`, which gives the item at `index` of a vector that has
    /// one there.
    #[verifier::external_body]
    fn get(&self, index: usize) -> (level: MipInfo)
        requires
            index < mip_infos(*self).len(),
        ensures
            level == mip_infos(*self)[index as int],
    {
        self.levels[index]
    }

    /// Assigns through the index of the `SmallVec`, which replaces the item at `index`
    /// of a vector that has one there.
    #[verifier::external_body]
    fn set(&mut self, index: usize, level: MipInfo)
        requires
            index < mip_infos(*old(self)).len(),
        ensures
            mip_infos(*final(self)) == mip_infos(*old(self)).update(index as int, level),
    {
        self.levels[index] = level
    }

    /// The number of levels.
    pub fn count(&self) -> (count: usize)
        ensures
            count == mip_infos(*self).len(),
    {
        self.len()
    }

    /// The level with the given number, where there is one.
    pub fn level(&self, level: usize) -> (info: Option<MipInfo>)
        ensures
            info == if level < mip_infos(*self).len() {
                Some(mip_infos(*self)[level as int])
            } else {
                None
            },
    {
        if level < self.len() {
            Some(self.get(level))
        } else {
            None
        }
    }
}

/// The number of levels of the mip chain of an image: one more than the times that
/// its smaller side can be halved.
pub open spec fn mip_count(size: UVec2) -> nat {
    if floor_log2(size.x as int) <= floor_log2(size.y as int) {
        floor_log2(size.x as int) + 1
    } else {
        floor_log2(size.y as int) + 1
    }
}

/// The size of a level of the mip chain: the size of the image halved once for each
/// level.
pub open spec fn level_size(size: UVec2, level: nat) -> UVec2 {
    UVec2 {
        x: (size.x as nat / pow2(level)) as u32,
        y: (size.y as nat / pow2(level)) as u32,
    }
}

/// The tiled surface of a level of the mip chain, in 32-bit colour.
pub open spec fn level_geometry(size: UVec2, level: nat) -> Geometry {
    Geometry { image_size: level_size(size, level), bpp: 32 }
}

/// Bytes of the levels of the mip chain from `level` on.
pub open spec fn chain_size_from(size: UVec2, level: nat) -> int
    decreases mip_count(size) - level,
{
    if level >= mip_count(size) {
        0
    } else {
        chain_size_from(size, level + 1) + level_geometry(size, level).alloc_size()
    }
}

/// The offset in the chain of the surface of a level: the levels are stored from the
/// smallest to the largest, so each follows all that are smaller.
pub open spec fn level_offset(size: UVec2, level: nat) -> int {
    chain_size_from(size, level + 1)
}

/// The levels of the mip chain of an image, each with its size and its offset in the
/// chain.
pub open spec fn mip_levels(size: UVec2) -> Seq<MipInfo> {
    Seq::new(
        mip_count(size),
        |level: int|
            MipInfo {
                size: level_size(size, level as nat),
                offset: level_offset(size, level as nat) as u32,
            },
    )
}

/// An image that can be packed: both sides are powers of two, the chain has at most
/// twelve levels, and its bytes have 32-bit offsets.
pub open spec fn packable(size: UVec2) -> bool {
    &&& is_power_of_two(size.x as int)
    &&& is_power_of_two(size.y as int)
    &&& mip_count(size) <= 12
    &&& chain_size_from(size, 0) <= u32::MAX
}

/// The greatest `e` with `2^e <= v`, for a positive `v`.
pub fn ilog2(v: u32) -> (e: u32)
    requires
        v > 0,
    ensures
        e == floor_log2(v as int),
        e < 32,
        pow2(e as nat) <= v,
{
    let mut e: u32 = 0;
    proof {
        lemma2_to64();
    }
    while e < 31 && (v >> (e + 1)) != 0
        invariant
            e <= 31,
            pow2(e as nat) <= v,
        decreases 31 - e,
    {
        proof {
            lemma_u32_shr_is_div(v, (e + 1) as u32);
            lemma_pow2_pos((e + 1) as nat);
            let p = pow2((e + 1) as nat) as int;
            if v < p {
                vstd::arithmetic::div_mod::lemma_basic_div(v as int, p);
            }
        }
        e += 1;
    }
    proof {
        if e < 31 {
            lemma_u32_shr_is_div(v, (e + 1) as u32);
            lemma_pow2_pos((e + 1) as nat);
            let p = pow2((e + 1) as nat) as int;
            if v >= p {
                vstd::arithmetic::div_mod::lemma_div_is_ordered(p, v as int, p);
                vstd::arithmetic::div_mod::lemma_div_basics(p);
            }
        } else {
            lemma_pow2_unfold(32);
            lemma2_to64_rest();
        }
        lemma_floor_log2(v as int, e as nat);
    }
    e
}

/// Every level of the chain of a power-of-two image has sides that are powers of two,
/// at least one texel each and half those of the level before.
pub proof fn lemma_level_sizes(size: UVec2, level: nat)
    requires
        is_power_of_two(size.x as int),
        is_power_of_two(size.y as int),
        level < mip_count(size),
    ensures
        level_size(size, level).x == pow2((floor_log2(size.x as int) - level) as nat),
        level_size(size, level).y == pow2((floor_log2(size.y as int) - level) as nat),
        level_size(size, level).x >= 1,
        level_size(size, level).y >= 1,
        level > 0 ==> level_size(size, (level - 1) as nat).x == 2 * level_size(size, level).x,
        level > 0 ==> level_size(size, (level - 1) as nat).y == 2 * level_size(size, level).y,
{
    lemma_power_of_two_shifted(size.x, level);
    lemma_power_of_two_shifted(size.y, level);
    if level > 0 {
        let before = (level - 1) as nat;
        let ex = (floor_log2(size.x as int) - level) as nat;
        let ey = (floor_log2(size.y as int) - level) as nat;
        lemma_power_of_two_shifted(size.x, before);
        lemma_power_of_two_shifted(size.y, before);
        assert((floor_log2(size.x as int) - before) as nat == ex + 1);
        assert((floor_log2(size.y as int) - before) as nat == ey + 1);
        lemma_pow2_unfold(ex + 1);
        lemma_pow2_unfold(ey + 1);
    }
}

/// A power of two halved no more often than its exponent is the power of two of what
/// is left of the exponent.
pub proof fn lemma_power_of_two_shifted(v: u32, level: nat)
    requires
        is_power_of_two(v as int),
        level <= floor_log2(v as int),
    ensures
        v as nat / pow2(level) == pow2((floor_log2(v as int) - level) as nat),
        1 <= pow2((floor_log2(v as int) - level) as nat) <= v,
        v == pow2(floor_log2(v as int)),
{
    let k = choose|k: nat| k < 32 && v == #[trigger] pow2(k);
    lemma_pow2_unfold(k + 1);
    lemma_pow2_pos(k);
    lemma_floor_log2(v as int, k);
    lemma_pow2_adds((k - level) as nat, level);
    lemma_pow2_pos(level);
    lemma_pow2_pos((k - level) as nat);
    if level > 0 {
        lemma_pow2_strictly_increases((k - level) as nat, k);
    }
    vstd::arithmetic::div_mod::lemma_div_by_multiple(
        pow2((k - level) as nat) as int,
        pow2(level) as int,
    );
}

/// The bytes of the chain from an earlier level on are at least those from a later one.
pub proof fn lemma_chain_size_grows(size: UVec2, from: nat, to: nat)
    requires
        is_power_of_two(size.x as int),
        is_power_of_two(size.y as int),
        from <= to,
    ensures
        0 <= chain_size_from(size, to) <= chain_size_from(size, from),
        from < mip_count(size) ==> chain_size_from(size, from) >= chain_size_from(
            size,
            from + 1,
        ) + 64,
    decreases mip_count(size) - from,
{
    if from < mip_count(size) {
        lemma_level_alloc(size, from);
        if from < to {
            lemma_chain_size_grows(size, from + 1, to);
        }
        lemma_chain_size_grows(size, from + 1, from + 1);
    }
}

/// The surface of every level has at least the 64 bytes of one micro-tile.
pub proof fn lemma_level_alloc(size: UVec2, level: nat)
    requires
        is_power_of_two(size.x as int),
        is_power_of_two(size.y as int),
        level < mip_count(size),
    ensures
        level_geometry(size, level).alloc_size() >= 64,
{
    let g = level_geometry(size, level);
    lemma_level_sizes(size, level);
    crate::vc4_image::lemma_ceil_div_positive(g.image_size.x as int, 4);
    crate::vc4_image::lemma_ceil_div_positive(g.image_size.y as int, 4);
    crate::vc4_image::lemma_ceil_div_positive(g.image_size.x as int, 32);
    crate::vc4_image::lemma_ceil_div_positive(g.image_size.y as int, 32);
    assert(g.tiles_per_row() * g.tile_rows() >= 1) by (nonlinear_arith)
        requires
            g.tiles_per_row() >= 1,
            g.tile_rows() >= 1,
    ;
    assert(g.utiles_per_row() * g.utile_rows() >= 1) by (nonlinear_arith)
        requires
            g.utiles_per_row() >= 1,
            g.utile_rows() >= 1,
    ;
}

/// The layout of the mip chain of an image and the bytes of the whole chain, where the
/// image can be packed.
pub fn mip_chain_layout(size: UVec2) -> (layout: Option<(MipInfos, u32)>)
    ensures
        layout is Some <==> packable(size),
        layout matches Some((levels, total)) ==> mip_infos(levels) == mip_levels(size) && total
            == chain_size_from(size, 0),
{
    if !crate::vc4_image::u32_is_power_of_two(size.x) || !crate::vc4_image::u32_is_power_of_two(
        size.y,
    ) {
        return None;
    }
    let log_x = ilog2(size.x);
    let log_y = ilog2(size.y);
    let num_mips = if log_x <= log_y {
        log_x + 1
    } else {
        log_y + 1
    };
    if num_mips > 12 {
        return None;
    }
    let empty = MipInfo { size: UVec2 { x: 0, y: 0 }, offset: 0 };
    let mut mip_infos = MipInfos::new();
    mip_infos.resize(num_mips as usize, empty);

    let mut total_size: u32 = 0;
    let mut level: u32 = num_mips;
    while level > 0
        invariant
            is_power_of_two(size.x as int),
            is_power_of_two(size.y as int),
            level <= num_mips == mip_count(size) <= 12,
            crate::pack_textures::mip_infos(mip_infos).len() == num_mips,
            total_size == chain_size_from(size, level as nat),
            forall|l: int|
                level <= l < num_mips ==> #[trigger] crate::pack_textures::mip_infos(mip_infos)[l]
                    == mip_levels(size)[l],
        decreases level,
    {
        level -= 1;
        proof {
            lemma_level_sizes(size, level as nat);
            lemma_u32_shr_is_div(size.x, level);
            lemma_u32_shr_is_div(size.y, level);
            lemma_chain_size_grows(size, 0, level as nat);
        }
        let size_of_level = UVec2 { x: size.x >> level, y: size.y >> level };
        assert(size_of_level == level_size(size, level as nat));
        let alloc_size = match Translator::alloc_size(size_of_level, 32) {
            Some(alloc_size) => alloc_size,
            None => {
                return None;
            },
        };
        if alloc_size > u32::MAX - total_size {
            return None;
        }
        mip_infos.set(level as usize, MipInfo { size: size_of_level, offset: total_size });
        total_size += alloc_size;
    }
    assert(crate::pack_textures::mip_infos(mip_infos) =~= mip_levels(size));
    Some((mip_infos, total_size))
}

/// A channel of a texel of the image as the largest level of the chain holds it. The
/// rows of the image run from the top and those of the surface from the bottom; the
/// image holds red, green, blue and alpha, the surface blue, green, red and alpha.
pub open spec fn source_texel(size: UVec2, rgba: Seq<u8>, x: int, y: int, channel: int) -> int {
    let from = if channel == 0 {
        2
    } else if channel == 2 {
        0
    } else {
        channel
    };
    rgba[((size.y - 1 - y) * size.x + x) * 4 + from] as int
}

/// A channel of a texel of a level of the chain: each texel of a level after the first
/// is the mean, rounded down, of the four texels of the level before that it covers.
pub open spec fn texel(size: UVec2, rgba: Seq<u8>, level: nat, x: int, y: int, channel: int) -> int
    decreases level,
{
    if level == 0 {
        source_texel(size, rgba, x, y, channel)
    } else {
        let before = (level - 1) as nat;
        (texel(size, rgba, before, 2 * x, 2 * y, channel) + texel(
            size,
            rgba,
            before,
            2 * x + 1,
            2 * y,
            channel,
        ) + texel(size, rgba, before, 2 * x, 2 * y + 1, channel) + texel(
            size,
            rgba,
            before,
            2 * x + 1,
            2 * y + 1,
            channel,
        )) / 4
    }
}

/// Every channel of every texel is a byte.
pub proof fn lemma_texel_is_byte(
    size: UVec2,
    rgba: Seq<u8>,
    level: nat,
    x: int,
    y: int,
    channel: int,
)
    ensures
        0 <= texel(size, rgba, level, x, y, channel) <= 255,
    decreases level,
{
    if level > 0 {
        let before = (level - 1) as nat;
        lemma_texel_is_byte(size, rgba, before, 2 * x, 2 * y, channel);
        lemma_texel_is_byte(size, rgba, before, 2 * x + 1, 2 * y, channel);
        lemma_texel_is_byte(size, rgba, before, 2 * x, 2 * y + 1, channel);
        lemma_texel_is_byte(size, rgba, before, 2 * x + 1, 2 * y + 1, channel);
    }
}

/// The texels of a level that have been stored: those of the rows from `from_row` up
/// to `to_row`, and of row `row` those before `up_to`.
pub ghost struct Stored {
    pub from_row: int,
    pub to_row: int,
    pub row: int,
    pub up_to: int,
}

impl Stored {
    /// Whether the texel at `(x, y)` has been stored.
    pub open spec fn holds(self, x: int, y: int) -> bool {
        (self.from_row <= y < self.to_row) || (y == self.row && x < self.up_to)
    }
}

/// The texel of a level that holds the byte at `offset` of the level's surface, where
/// one does: the texel that the address of the byte translates to.
#[verifier::opaque]
pub open spec fn byte_texel(size: UVec2, level: nat, offset: int) -> Option<(int, int)> {
    let g = level_geometry(size, level);
    let address = TileAddress { offset: offset as u32, bit: 0, lt: !g.is_large() };
    if g.decodes(address) {
        Some(g.coordinate_of(address))
    } else {
        None
    }
}

/// The offset in the surface of a level of the first byte of a texel.
#[verifier::opaque]
pub open spec fn texel_offset(size: UVec2, level: nat, coord: UVec2) -> int {
    level_geometry(size, level).offset_of(coord)
}

/// The byte at `offset` of the surface of a level of which some texels have been
/// stored: a channel of the texel that holds the byte, where that is a stored texel of
/// the level, and zero elsewhere.
pub open spec fn stored_byte(
    size: UVec2,
    rgba: Seq<u8>,
    level: nat,
    offset: int,
    stored: Stored,
) -> int {
    match byte_texel(size, level, offset) {
        Some(c) if stored.holds(c.0, c.1) => texel(size, rgba, level, c.0, c.1, offset % 4),
        _ => 0,
    }
}

/// The byte at `offset` of the finished surface of a level: a channel of the texel
/// that holds the byte, and zero where the byte belongs to no texel of the level.
pub open spec fn level_byte(size: UVec2, rgba: Seq<u8>, level: nat, offset: int) -> int {
    match byte_texel(size, level, offset) {
        Some(c) => texel(size, rgba, level, c.0, c.1, offset % 4),
        None => 0,
    }
}

/// The bytes of `buf` from `base` on are those of the surface of a level of which the
/// given texels have been stored.
pub open spec fn region_holds(
    buf: Seq<u8>,
    base: int,
    size: UVec2,
    rgba: Seq<u8>,
    level: nat,
    stored: Stored,
) -> bool {
    &&& 0 <= base
    &&& base + level_geometry(size, level).alloc_size() <= buf.len()
    &&& forall|j: int|
        0 <= j < level_geometry(size, level).alloc_size() ==> #[trigger] buf[base + j]
            == stored_byte(size, rgba, level, j, stored)
}

/// The four bytes of a texel in a 32-bit surface start at a multiple of four and lie
/// within the surface.
pub proof fn lemma_texel_start(g: Geometry, coord: UVec2)
    requires
        g.valid(),
        g.bpp == 32,
        g.contains(coord),
    ensures
        g.bit_of(coord) == 0,
        g.offset_of(coord) % 4 == 0,
        0 <= g.offset_of(coord),
        g.offset_of(coord) + 4 <= g.alloc_size(),
{
    let index = (coord.y as int % 4) * 4 + coord.x as int % 4;
    let bits = g.pixel_bits(coord);
    assert(bits == index * 32 && bits / 8 == index * 4 && bits % 8 == 0) by {
        assert(crate::vc4_image::utile_width(32) == 4 && crate::vc4_image::utile_height(32) == 4);
    }
    let u = coord.x as int / crate::vc4_image::utile_width(g.bpp);
    let v = coord.y as int / crate::vc4_image::utile_height(g.bpp);
    let utile = if g.is_large() {
        crate::vc4_image::t_utile_offset(g.tiles_per_row(), u, v)
    } else {
        crate::vc4_image::lt_utile_offset(g.utiles_per_row(), u, v)
    };
    assert(utile % 64 == 0) by {
        crate::vc4_image::lemma_utile_shape(32);
        crate::vc4_image::lemma_cover(coord.x as int, g.image_size.x as int, 4);
        crate::vc4_image::lemma_cover(coord.y as int, g.image_size.y as int, 4);
        if g.is_large() {
            crate::vc4_image::lemma_t_utile_round_trip(g.tiles_per_row(), u, v, 0);
        } else {
            crate::vc4_image::lemma_lt_utile_round_trip(g.utiles_per_row(), u, v, 0);
        }
    }
    assert(g.offset_of(coord) == utile + bits / 8);
    assert(g.bit_of(coord) == bits % 8);
    assert(0 <= g.offset_of(coord) && g.offset_of(coord) * 8 + g.bit_of(coord) + 32
        <= g.alloc_size() * 8) by {
        g.lemma_offset_in_bounds(coord);
    }
}

/// The four bytes of a texel of a level start at a multiple of four and lie within the
/// surface of the level.
pub proof fn lemma_texel_offset(size: UVec2, level: nat, coord: UVec2)
    requires
        level_geometry(size, level).valid(),
        level_geometry(size, level).contains(coord),
    ensures
        texel_offset(size, level, coord) % 4 == 0,
        0 <= texel_offset(size, level, coord),
        texel_offset(size, level, coord) + 4 <= level_geometry(size, level).alloc_size(),
{
    reveal(texel_offset);
    lemma_texel_start(level_geometry(size, level), coord);
}

/// The bytes of the surface of a level that belong to a texel of the level are its
/// four bytes.
pub proof fn lemma_texel_bytes(size: UVec2, level: nat, coord: UVec2, offset: int)
    requires
        level_geometry(size, level).valid(),
        level_geometry(size, level).contains(coord),
        0 <= offset < level_geometry(size, level).alloc_size(),
    ensures
        texel_offset(size, level, coord) % 4 == 0,
        0 <= texel_offset(size, level, coord),
        texel_offset(size, level, coord) + 4 <= level_geometry(size, level).alloc_size(),
        byte_texel(size, level, offset) == Some((coord.x as int, coord.y as int))
            <==> texel_offset(size, level, coord) <= offset < texel_offset(size, level, coord) + 4,
        byte_texel(size, level, offset) matches Some(c) ==> 0 <= c.0 < level_size(size, level).x
            && 0 <= c.1 < level_size(size, level).y,
{
    reveal(byte_texel);
    reveal(texel_offset);
    let g = level_geometry(size, level);
    let start = g.offset_of(coord);
    let address = TileAddress { offset: offset as u32, bit: 0, lt: !g.is_large() };
    lemma_texel_start(g, coord);
    if start <= offset < start + 4 {
        g.lemma_round_trip_inside(coord, (offset - start) * 8);
        assert((start * 8 + (offset - start) * 8) / 8 == offset);
        assert((start * 8 + (offset - start) * 8) % 8 == 0);
    }
    if g.decodes(address) && g.coordinate_of(address) == (coord.x as int, coord.y as int) {
        g.lemma_decoded_holds_address(address);
    }
}

/// Stores the four bytes of a texel at its place in the surface of a level that starts
/// at `base` of `buf`.
fn store_texel(
    buf: &mut Vec<u8>,
    base: usize,
    translator: &Translator,
    coord: UVec2,
    bytes: (u8, u8, u8, u8),
    Ghost(size): Ghost<UVec2>,
    Ghost(rgba): Ghost<Seq<u8>>,
    Ghost(level): Ghost<nat>,
    Ghost(stored): Ghost<Stored>,
    Ghost(after): Ghost<Stored>,
)
    requires
        translator.wf(),
        translator.geometry() == level_geometry(size, level),
        translator.geometry().contains(coord),
        region_holds(old(buf)@, base as int, size, rgba, level, stored),
        forall|x: int, y: int| #[trigger]
            after.holds(x, y) <==> stored.holds(x, y) || (x == coord.x && y == coord.y),
        bytes.0 == texel(size, rgba, level, coord.x as int, coord.y as int, 0),
        bytes.1 == texel(size, rgba, level, coord.x as int, coord.y as int, 1),
        bytes.2 == texel(size, rgba, level, coord.x as int, coord.y as int, 2),
        bytes.3 == texel(size, rgba, level, coord.x as int, coord.y as int, 3),
    ensures
        final(buf)@.len() == old(buf)@.len(),
        region_holds(final(buf)@, base as int, size, rgba, level, after),
        forall|i: int|
            0 <= i < base || base + level_geometry(size, level).alloc_size() <= i < old(
                buf,
            )@.len() ==> #[trigger] final(buf)@[i] == old(buf)@[i],
{
    let ghost g = level_geometry(size, level);
    let ghost start = texel_offset(size, level, coord);
    proof {
        translator.lemma_geometry_valid();
        lemma_texel_offset(size, level, coord);
        reveal(texel_offset);
    }
    let address = translator.coordinate_to_tile_address(coord);
    let len = buf.len();
    assert(address.offset == start && base + start + 4 <= len);
    let at = base + address.offset as usize;
    buf.set(at, bytes.0);
    buf.set(at + 1, bytes.1);
    buf.set(at + 2, bytes.2);
    buf.set(at + 3, bytes.3);
    proof {
        assert forall|j: int| 0 <= j < g.alloc_size() implies #[trigger] buf@[base + j]
            == stored_byte(size, rgba, level, j, after) by {
            lemma_texel_bytes(size, level, coord, j);
            assert(old(buf)@[base + j] == stored_byte(size, rgba, level, j, stored));
            if start <= j < start + 4 {
                assert(after.holds(coord.x as int, coord.y as int));
                assert(j % 4 == j - start);
            } else {
                match byte_texel(size, level, j) {
                    Some(c) => {
                        assert(after.holds(c.0, c.1) == stored.holds(c.0, c.1));
                    },
                    None => {},
                }
            }
        }
    }
}

/// Loads the four bytes of a texel from its place in the finished surface of a level
/// that starts at `base` of `buf`.
fn load_texel(
    buf: &Vec<u8>,
    base: usize,
    translator: &Translator,
    coord: UVec2,
    Ghost(size): Ghost<UVec2>,
    Ghost(rgba): Ghost<Seq<u8>>,
    Ghost(level): Ghost<nat>,
) -> (bytes: (u8, u8, u8, u8))
    requires
        translator.wf(),
        translator.geometry() == level_geometry(size, level),
        translator.geometry().contains(coord),
        0 <= base,
        base + level_geometry(size, level).alloc_size() <= buf@.len(),
        forall|j: int|
            0 <= j < level_geometry(size, level).alloc_size() ==> #[trigger] buf@[base + j]
                == level_byte(size, rgba, level, j),
    ensures
        bytes.0 == texel(size, rgba, level, coord.x as int, coord.y as int, 0),
        bytes.1 == texel(size, rgba, level, coord.x as int, coord.y as int, 1),
        bytes.2 == texel(size, rgba, level, coord.x as int, coord.y as int, 2),
        bytes.3 == texel(size, rgba, level, coord.x as int, coord.y as int, 3),
{
    let ghost start = texel_offset(size, level, coord);
    proof {
        translator.lemma_geometry_valid();
        lemma_texel_offset(size, level, coord);
        lemma_texel_bytes(size, level, coord, start);
        lemma_texel_bytes(size, level, coord, start + 1);
        lemma_texel_bytes(size, level, coord, start + 2);
        lemma_texel_bytes(size, level, coord, start + 3);
        reveal(texel_offset);
    }
    let address = translator.coordinate_to_tile_address(coord);
    let len = buf.len();
    assert(address.offset == start && base + start + 4 <= len);
    let at = base + address.offset as usize;
    proof {
        assert(buf@[base + (start + 0)] == level_byte(size, rgba, level, start + 0));
        assert(buf@[base + (start + 1)] == level_byte(size, rgba, level, start + 1));
        assert(buf@[base + (start + 2)] == level_byte(size, rgba, level, start + 2));
        assert(buf@[base + (start + 3)] == level_byte(size, rgba, level, start + 3));
    }
    (buf[at], buf[at + 1], buf[at + 2], buf[at + 3])
}

/// No texel of a level has been stored.
pub open spec fn nothing_stored() -> Stored {
    Stored { from_row: 0, to_row: 0, row: -1, up_to: 0 }
}

/// Every texel of a level has been stored.
pub open spec fn all_stored(size: UVec2, level: nat) -> Stored {
    Stored { from_row: 0, to_row: level_size(size, level).y as int, row: -1, up_to: 0 }
}

/// The texel that holds a byte of the surface of a level is a texel of the level.
pub proof fn lemma_byte_texel_in_level(size: UVec2, level: nat, offset: int)
    ensures
        byte_texel(size, level, offset) matches Some(c) ==> 0 <= c.0 < level_size(size, level).x
            && 0 <= c.1 < level_size(size, level).y,
{
    reveal(byte_texel);
}

/// Two records of what has been stored that agree on the texels of the level describe
/// the same bytes.
pub proof fn lemma_same_stored(
    buf: Seq<u8>,
    base: int,
    size: UVec2,
    rgba: Seq<u8>,
    level: nat,
    stored: Stored,
    other: Stored,
)
    requires
        region_holds(buf, base, size, rgba, level, stored),
        forall|x: int, y: int|
            0 <= x < level_size(size, level).x && 0 <= y < level_size(size, level).y ==> (
            #[trigger] stored.holds(x, y) <==> other.holds(x, y)),
    ensures
        region_holds(buf, base, size, rgba, level, other),
{
    assert forall|j: int| 0 <= j < level_geometry(size, level).alloc_size() implies #[trigger] buf[base
        + j] == stored_byte(size, rgba, level, j, other) by {
        lemma_byte_texel_in_level(size, level, j);
        assert(buf[base + j] == stored_byte(size, rgba, level, j, stored));
        match byte_texel(size, level, j) {
            Some(c) => {
                assert(stored.holds(c.0, c.1) <==> other.holds(c.0, c.1));
            },
            None => {},
        }
    }
}

/// Bytes that are not touched still hold what they held.
pub proof fn lemma_region_kept(
    before: Seq<u8>,
    after: Seq<u8>,
    base: int,
    size: UVec2,
    rgba: Seq<u8>,
    level: nat,
    stored: Stored,
)
    requires
        region_holds(before, base, size, rgba, level, stored),
        before.len() == after.len(),
        forall|i: int|
            base <= i < base + level_geometry(size, level).alloc_size() ==> #[trigger] after[i]
                == before[i],
    ensures
        region_holds(after, base, size, rgba, level, stored),
{
    assert forall|j: int| 0 <= j < level_geometry(size, level).alloc_size() implies #[trigger] after[base
        + j] == stored_byte(size, rgba, level, j, stored) by {
        assert(before[base + j] == stored_byte(size, rgba, level, j, stored));
    }
}

/// A region of zeros is the surface of a level of which nothing has been stored.
pub proof fn lemma_zero_region(buf: Seq<u8>, base: int, size: UVec2, rgba: Seq<u8>, level: nat)
    requires
        0 <= base,
        base + level_geometry(size, level).alloc_size() <= buf.len(),
        forall|i: int| 0 <= i < buf.len() ==> #[trigger] buf[i] == 0,
    ensures
        region_holds(buf, base, size, rgba, level, nothing_stored()),
{
    assert forall|j: int| 0 <= j < level_geometry(size, level).alloc_size() implies #[trigger] buf[base
        + j] == stored_byte(size, rgba, level, j, nothing_stored()) by {
        lemma_byte_texel_in_level(size, level, j);
    }
}

/// The surface of a level of which every texel has been stored is finished.
pub proof fn lemma_full_region(
    buf: Seq<u8>,
    base: int,
    size: UVec2,
    rgba: Seq<u8>,
    level: nat,
    offset: int,
)
    requires
        region_holds(buf, base, size, rgba, level, all_stored(size, level)),
        0 <= offset < level_geometry(size, level).alloc_size(),
    ensures
        buf[base + offset] == level_byte(size, rgba, level, offset),
{
    lemma_byte_texel_in_level(size, level, offset);
    assert(buf[base + offset] == stored_byte(
        size,
        rgba,
        level,
        offset,
        all_stored(size, level),
    ));
}

/// Stores row `y` of the largest level of the chain, from row `size.y - 1 - y` of the
/// image.
fn fill_first_row(
    buf: &mut Vec<u8>,
    base: usize,
    translator: &Translator,
    size: UVec2,
    rgba: &[u8],
    y: u32,
)
    requires
        translator.wf(),
        translator.geometry() == level_geometry(size, 0),
        level_size(size, 0) == size,
        y < size.y,
        rgba@.len() == size.x * size.y * 4,
        region_holds(
            old(buf)@,
            base as int,
            size,
            rgba@,
            0,
            Stored { from_row: y + 1, to_row: size.y as int, row: y as int, up_to: 0 },
        ),
    ensures
        final(buf)@.len() == old(buf)@.len(),
        region_holds(
            final(buf)@,
            base as int,
            size,
            rgba@,
            0,
            Stored { from_row: y as int, to_row: size.y as int, row: -1, up_to: 0 },
        ),
        forall|i: int|
            0 <= i < base || base + level_geometry(size, 0).alloc_size() <= i < old(buf)@.len()
                ==> #[trigger] final(buf)@[i] == old(buf)@[i],
{
    let source_row = size.y - 1 - y;
    let width = size.x as usize;
    let mut x: u32 = 0;
    while x < size.x
        invariant
            x <= size.x,
            width == size.x,
            source_row == size.y - 1 - y,
            y < size.y,
            translator.wf(),
            translator.geometry() == level_geometry(size, 0),
            level_size(size, 0) == size,
            rgba@.len() == size.x * size.y * 4,
            buf@.len() == old(buf)@.len(),
            region_holds(
                buf@,
                base as int,
                size,
                rgba@,
                0,
                Stored { from_row: y + 1, to_row: size.y as int, row: y as int, up_to: x as int },
            ),
            forall|i: int|
                0 <= i < base || base + level_geometry(size, 0).alloc_size() <= i < old(
                    buf,
                )@.len() ==> #[trigger] buf@[i] == old(buf)@[i],
        decreases size.x - x,
    {
        let ghost stored = Stored {
            from_row: y + 1,
            to_row: size.y as int,
            row: y as int,
            up_to: x as int,
        };
        let ghost after = Stored {
            from_row: y + 1,
            to_row: size.y as int,
            row: y as int,
            up_to: x + 1,
        };
        let len = rgba.len();
        assert((source_row * size.x + x) * 4 + 4 <= size.x * size.y * 4) by (nonlinear_arith)
            requires
                0 <= source_row < size.y,
                0 <= x < size.x,
        ;
        assert(0 <= source_row * size.x) by (nonlinear_arith)
            requires
                0 <= source_row,
                0 <= size.x,
        ;
        let at = (source_row as usize * width + x as usize) * 4;
        let bytes = (rgba[at + 2], rgba[at + 1], rgba[at], rgba[at + 3]);
        store_texel(
            buf,
            base,
            translator,
            UVec2 { x, y },
            bytes,
            Ghost(size),
            Ghost(rgba@),
            Ghost(0),
            Ghost(stored),
            Ghost(after),
        );
        x += 1;
    }
    proof {
        lemma_same_stored(
            buf@,
            base as int,
            size,
            rgba@,
            0,
            Stored { from_row: y + 1, to_row: size.y as int, row: y as int, up_to: size.x as int },
            Stored { from_row: y as int, to_row: size.y as int, row: -1, up_to: 0 },
        );
    }
}

/// Stores the largest level of the chain: the image, with its rows from the bottom
/// and its texels as blue, green, red and alpha.
fn fill_first_level(
    buf: &mut Vec<u8>,
    base: usize,
    translator: &Translator,
    size: UVec2,
    rgba: &[u8],
)
    requires
        translator.wf(),
        translator.geometry() == level_geometry(size, 0),
        level_size(size, 0) == size,
        rgba@.len() == size.x * size.y * 4,
        region_holds(old(buf)@, base as int, size, rgba@, 0, nothing_stored()),
    ensures
        final(buf)@.len() == old(buf)@.len(),
        region_holds(final(buf)@, base as int, size, rgba@, 0, all_stored(size, 0)),
        forall|i: int|
            0 <= i < base || base + level_geometry(size, 0).alloc_size() <= i < old(buf)@.len()
                ==> #[trigger] final(buf)@[i] == old(buf)@[i],
{
    proof {
        lemma_same_stored(
            buf@,
            base as int,
            size,
            rgba@,
            0,
            nothing_stored(),
            Stored { from_row: size.y as int, to_row: size.y as int, row: -1, up_to: 0 },
        );
    }
    let mut y: u32 = size.y;
    while y > 0
        invariant
            y <= size.y,
            translator.wf(),
            translator.geometry() == level_geometry(size, 0),
            level_size(size, 0) == size,
            rgba@.len() == size.x * size.y * 4,
            buf@.len() == old(buf)@.len(),
            region_holds(
                buf@,
                base as int,
                size,
                rgba@,
                0,
                Stored { from_row: y as int, to_row: size.y as int, row: -1, up_to: 0 },
            ),
            forall|i: int|
                0 <= i < base || base + level_geometry(size, 0).alloc_size() <= i < old(
                    buf,
                )@.len() ==> #[trigger] buf@[i] == old(buf)@[i],
        decreases y,
    {
        y -= 1;
        proof {
            lemma_same_stored(
                buf@,
                base as int,
                size,
                rgba@,
                0,
                Stored { from_row: y + 1, to_row: size.y as int, row: -1, up_to: 0 },
                Stored { from_row: y + 1, to_row: size.y as int, row: y as int, up_to: 0 },
            );
        }
        fill_first_row(buf, base, translator, size, rgba, y);
    }
}

/// The mean, rounded down, of four bytes.
fn mean_of_four(a: u8, b: u8, c: u8, d: u8) -> (mean: u8)
    ensures
        mean == (a + b + c + d) / 4,
{
    let sum: u16 = a as u16 + b as u16 + c as u16 + d as u16;
    assert(sum >> 2 == sum / 4) by (bit_vector);
    (sum >> 2) as u8
}

/// Stores row `y` of a level of the chain, each texel the mean of the four texels of
/// the level before that it covers.
fn fill_row(
    buf: &mut Vec<u8>,
    base_before: usize,
    translator_before: &Translator,
    base: usize,
    translator: &Translator,
    y: u32,
    Ghost(size): Ghost<UVec2>,
    Ghost(rgba): Ghost<Seq<u8>>,
    Ghost(level): Ghost<nat>,
)
    requires
        level > 0,
        translator_before.wf(),
        translator_before.geometry() == level_geometry(size, (level - 1) as nat),
        translator.wf(),
        translator.geometry() == level_geometry(size, level),
        level_size(size, (level - 1) as nat).x == 2 * level_size(size, level).x,
        level_size(size, (level - 1) as nat).y == 2 * level_size(size, level).y,
        y < level_size(size, level).y,
        base + level_geometry(size, level).alloc_size() <= base_before,
        region_holds(
            old(buf)@,
            base_before as int,
            size,
            rgba,
            (level - 1) as nat,
            all_stored(size, (level - 1) as nat),
        ),
        region_holds(
            old(buf)@,
            base as int,
            size,
            rgba,
            level,
            Stored { from_row: 0, to_row: y as int, row: y as int, up_to: 0 },
        ),
    ensures
        final(buf)@.len() == old(buf)@.len(),
        region_holds(
            final(buf)@,
            base as int,
            size,
            rgba,
            level,
            Stored { from_row: 0, to_row: y + 1, row: -1, up_to: 0 },
        ),
        forall|i: int|
            0 <= i < base || base + level_geometry(size, level).alloc_size() <= i < old(
                buf,
            )@.len() ==> #[trigger] final(buf)@[i] == old(buf)@[i],
{
    let ghost before = (level - 1) as nat;
    let width = translator_width(translator);
    let mut x: u32 = 0;
    while x < width
        invariant
            x <= width == level_size(size, level).x,
            level > 0,
            before == level - 1,
            translator_before.wf(),
            translator_before.geometry() == level_geometry(size, before),
            translator.wf(),
            translator.geometry() == level_geometry(size, level),
            level_size(size, before).x == 2 * level_size(size, level).x,
            level_size(size, before).y == 2 * level_size(size, level).y,
            y < level_size(size, level).y,
            base + level_geometry(size, level).alloc_size() <= base_before,
            buf@.len() == old(buf)@.len(),
            region_holds(buf@, base_before as int, size, rgba, before, all_stored(size, before)),
            region_holds(
                buf@,
                base as int,
                size,
                rgba,
                level,
                Stored { from_row: 0, to_row: y as int, row: y as int, up_to: x as int },
            ),
            forall|i: int|
                0 <= i < base || base + level_geometry(size, level).alloc_size() <= i < old(
                    buf,
                )@.len() ==> #[trigger] buf@[i] == old(buf)@[i],
        decreases width - x,
    {
        let ghost stored = Stored { from_row: 0, to_row: y as int, row: y as int, up_to: x as int };
        let ghost after = Stored { from_row: 0, to_row: y as int, row: y as int, up_to: x + 1 };
        let ghost held = buf@;
        proof {
            assert forall|j: int|
                0 <= j < level_geometry(size, before).alloc_size() implies #[trigger] buf@[base_before
                + j] == level_byte(size, rgba, before, j) by {
                lemma_full_region(buf@, base_before as int, size, rgba, before, j);
            }
        }
        let a = load_texel(
            buf,
            base_before,
            translator_before,
            UVec2 { x: 2 * x, y: 2 * y },
            Ghost(size),
            Ghost(rgba),
            Ghost(before),
        );
        let b = load_texel(
            buf,
            base_before,
            translator_before,
            UVec2 { x: 2 * x + 1, y: 2 * y },
            Ghost(size),
            Ghost(rgba),
            Ghost(before),
        );
        let c = load_texel(
            buf,
            base_before,
            translator_before,
            UVec2 { x: 2 * x, y: 2 * y + 1 },
            Ghost(size),
            Ghost(rgba),
            Ghost(before),
        );
        let d = load_texel(
            buf,
            base_before,
            translator_before,
            UVec2 { x: 2 * x + 1, y: 2 * y + 1 },
            Ghost(size),
            Ghost(rgba),
            Ghost(before),
        );
        let bytes = (
            mean_of_four(a.0, b.0, c.0, d.0),
            mean_of_four(a.1, b.1, c.1, d.1),
            mean_of_four(a.2, b.2, c.2, d.2),
            mean_of_four(a.3, b.3, c.3, d.3),
        );
        store_texel(
            buf,
            base,
            translator,
            UVec2 { x, y },
            bytes,
            Ghost(size),
            Ghost(rgba),
            Ghost(level),
            Ghost(stored),
            Ghost(after),
        );
        proof {
            lemma_region_kept(
                held,
                buf@,
                base_before as int,
                size,
                rgba,
                before,
                all_stored(size, before),
            );
        }
        x += 1;
    }
    proof {
        lemma_same_stored(
            buf@,
            base as int,
            size,
            rgba,
            level,
            Stored { from_row: 0, to_row: y as int, row: y as int, up_to: width as int },
            Stored { from_row: 0, to_row: y + 1, row: -1, up_to: 0 },
        );
    }
}

/// The width in texels of the image of a translator of a 32-bit surface.
fn translator_width(translator: &Translator) -> (width: u32)
    requires
        translator.wf(),
    ensures
        width == translator.geometry().image_size.x,
{
    translator.image_size().x
}

/// The height in texels of the image of a translator of a 32-bit surface.
fn translator_height(translator: &Translator) -> (height: u32)
    requires
        translator.wf(),
    ensures
        height == translator.geometry().image_size.y,
{
    translator.image_size().y
}

/// Stores a level of the chain after the first, from the level before it.
fn fill_level(
    buf: &mut Vec<u8>,
    base_before: usize,
    translator_before: &Translator,
    base: usize,
    translator: &Translator,
    Ghost(size): Ghost<UVec2>,
    Ghost(rgba): Ghost<Seq<u8>>,
    Ghost(level): Ghost<nat>,
)
    requires
        level > 0,
        translator_before.wf(),
        translator_before.geometry() == level_geometry(size, (level - 1) as nat),
        translator.wf(),
        translator.geometry() == level_geometry(size, level),
        level_size(size, (level - 1) as nat).x == 2 * level_size(size, level).x,
        level_size(size, (level - 1) as nat).y == 2 * level_size(size, level).y,
        base + level_geometry(size, level).alloc_size() <= base_before,
        region_holds(
            old(buf)@,
            base_before as int,
            size,
            rgba,
            (level - 1) as nat,
            all_stored(size, (level - 1) as nat),
        ),
        region_holds(old(buf)@, base as int, size, rgba, level, nothing_stored()),
    ensures
        final(buf)@.len() == old(buf)@.len(),
        region_holds(final(buf)@, base as int, size, rgba, level, all_stored(size, level)),
        forall|i: int|
            0 <= i < base || base + level_geometry(size, level).alloc_size() <= i < old(
                buf,
            )@.len() ==> #[trigger] final(buf)@[i] == old(buf)@[i],
{
    let ghost before = (level - 1) as nat;
    let height = translator_height(translator);
    let mut y: u32 = 0;
    while y < height
        invariant
            y <= height == level_size(size, level).y,
            level > 0,
            before == level - 1,
            translator_before.wf(),
            translator_before.geometry() == level_geometry(size, before),
            translator.wf(),
            translator.geometry() == level_geometry(size, level),
            level_size(size, before).x == 2 * level_size(size, level).x,
            level_size(size, before).y == 2 * level_size(size, level).y,
            base + level_geometry(size, level).alloc_size() <= base_before,
            buf@.len() == old(buf)@.len(),
            region_holds(buf@, base_before as int, size, rgba, before, all_stored(size, before)),
            region_holds(
                buf@,
                base as int,
                size,
                rgba,
                level,
                Stored { from_row: 0, to_row: y as int, row: -1, up_to: 0 },
            ),
            forall|i: int|
                0 <= i < base || base + level_geometry(size, level).alloc_size() <= i < old(
                    buf,
                )@.len() ==> #[trigger] buf@[i] == old(buf)@[i],
        decreases height - y,
    {
        let ghost held = buf@;
        proof {
            lemma_same_stored(
                buf@,
                base as int,
                size,
                rgba,
                level,
                Stored { from_row: 0, to_row: y as int, row: -1, up_to: 0 },
                Stored { from_row: 0, to_row: y as int, row: y as int, up_to: 0 },
            );
        }
        fill_row(
            buf,
            base_before,
            translator_before,
            base,
            translator,
            y,
            Ghost(size),
            Ghost(rgba),
            Ghost(level),
        );
        proof {
            lemma_region_kept(
                held,
                buf@,
                base_before as int,
                size,
                rgba,
                before,
                all_stored(size, before),
            );
        }
        y += 1;
    }
}

/// The bytes of the finished surface of a level.
pub open spec fn level_bytes(size: UVec2, rgba: Seq<u8>, level: nat) -> Seq<u8> {
    Seq::new(
        level_geometry(size, level).alloc_size() as nat,
        |offset: int| level_byte(size, rgba, level, offset) as u8,
    )
}

/// The bytes of the levels of the chain from `level` on: the smaller levels first.
pub open spec fn chain_from(size: UVec2, rgba: Seq<u8>, level: nat) -> Seq<u8>
    decreases mip_count(size) - level,
{
    if level >= mip_count(size) {
        Seq::empty()
    } else {
        chain_from(size, rgba, level + 1) + level_bytes(size, rgba, level)
    }
}

/// The mip chain of an image: the tiled surfaces of its levels, from the smallest to
/// the image itself.
pub open spec fn mip_chain(size: UVec2, rgba: Seq<u8>) -> Seq<u8> {
    chain_from(size, rgba, 0)
}

/// A buffer in which the surface of every level from `level` on is finished starts
/// with the bytes of those levels.
pub proof fn lemma_chain_built(buf: Seq<u8>, size: UVec2, rgba: Seq<u8>, level: nat)
    requires
        is_power_of_two(size.x as int),
        is_power_of_two(size.y as int),
        chain_size_from(size, level) <= buf.len(),
        forall|l: nat|
            level <= l < mip_count(size) ==> #[trigger] region_holds(
                buf,
                level_offset(size, l),
                size,
                rgba,
                l,
                all_stored(size, l),
            ),
    ensures
        chain_from(size, rgba, level).len() == chain_size_from(size, level),
        buf.subrange(0, chain_size_from(size, level)) == chain_from(size, rgba, level),
    decreases mip_count(size) - level,
{
    lemma_chain_size_grows(size, level, level);
    if level < mip_count(size) {
        lemma_chain_size_grows(size, level, level + 1);
        lemma_chain_built(buf, size, rgba, level + 1);
        let base = level_offset(size, level);
        let part = buf.subrange(0, chain_size_from(size, level));
        let whole = chain_from(size, rgba, level);
        assert(region_holds(buf, base, size, rgba, level, all_stored(size, level)));
        assert forall|i: int| 0 <= i < part.len() implies part[i] == whole[i] by {
            if i < base {
                assert(buf.subrange(0, base)[i] == buf[i]);
            } else {
                lemma_full_region(buf, base, size, rgba, level, i - base);
                lemma_level_byte_is_byte(size, rgba, level, i - base);
                assert(buf[base + (i - base)] == level_byte(size, rgba, level, i - base));
            }
        }
        assert(part =~= whole);
    } else {
        assert(buf.subrange(0, 0) =~= Seq::<u8>::empty());
    }
}

/// Every byte of the finished surface of a level is a byte.
pub proof fn lemma_level_byte_is_byte(size: UVec2, rgba: Seq<u8>, level: nat, offset: int)
    ensures
        0 <= level_byte(size, rgba, level, offset) <= 255,
{
    match byte_texel(size, level, offset) {
        Some(c) => {
            lemma_texel_is_byte(size, rgba, level, c.0, c.1, offset % 4);
        },
        None => {},
    }
}

/// Builds the mip chain of an image from its layout.
pub fn build_mip_chain(size: UVec2, rgba: &[u8], levels: &MipInfos, total_size: u32) -> (chain:
    Vec<u8>)
    requires
        packable(size),
        rgba@.len() == size.x * size.y * 4,
        mip_infos(*levels) == mip_levels(size),
        total_size == chain_size_from(size, 0),
    ensures
        chain@ == mip_chain(size, rgba@),
        chain@.len() == total_size,
{
    let count = levels.len();
    let mut buf: Vec<u8> = vec![0u8; total_size as usize];
    proof {
        lemma2_to64();
        lemma_level_sizes(size, 0);
        assert forall|l: nat| l < mip_count(size) implies #[trigger] region_holds(
            buf@,
            level_offset(size, l),
            size,
            rgba@,
            l,
            nothing_stored(),
        ) by {
            lemma_chain_size_grows(size, 0, l);
            lemma_chain_size_grows(size, l, l + 1);
            lemma_zero_region(buf@, level_offset(size, l), size, rgba@, l);
        }
        lemma_chain_size_grows(size, 0, 1);
        lemma_level_valid(size, 0);
    }
    let first = levels.get(0);
    assert(first == mip_levels(size)[0]);
    let mut translator_before = Translator::new(first.size, 32);
    let mut base_before = first.offset as usize;
    let ghost zeros = buf@;
    assert(region_holds(zeros, level_offset(size, 0), size, rgba@, 0, nothing_stored()));
    fill_first_level(&mut buf, base_before, &translator_before, size, rgba);
    proof {
        assert forall|l: nat| 1 <= l < mip_count(size) implies #[trigger] region_holds(
            buf@,
            level_offset(size, l),
            size,
            rgba@,
            l,
            nothing_stored(),
        ) by {
            lemma_chain_size_grows(size, 0, l);
            lemma_chain_size_grows(size, l, l + 1);
            lemma_chain_size_grows(size, 1, l);
            lemma_chain_size_grows(size, 1, l + 1);
            assert(region_holds(zeros, level_offset(size, l), size, rgba@, l, nothing_stored()));
            lemma_region_kept(
                zeros,
                buf@,
                level_offset(size, l),
                size,
                rgba@,
                l,
                nothing_stored(),
            );
        }
    }

    let mut level: usize = 1;
    while level < count
        invariant
            1 <= level <= count == mip_count(size),
            packable(size),
            mip_infos(*levels) == mip_levels(size),
            buf@.len() == total_size == chain_size_from(size, 0),
            translator_before.wf(),
            translator_before.geometry() == level_geometry(size, (level - 1) as nat),
            base_before == level_offset(size, (level - 1) as nat),
            forall|l: nat|
                l < level ==> #[trigger] region_holds(
                    buf@,
                    level_offset(size, l),
                    size,
                    rgba@,
                    l,
                    all_stored(size, l),
                ),
            forall|l: nat|
                level <= l < mip_count(size) ==> #[trigger] region_holds(
                    buf@,
                    level_offset(size, l),
                    size,
                    rgba@,
                    l,
                    nothing_stored(),
                ),
        decreases count - level,
    {
        let ghost held = buf@;
        proof {
            lemma_level_sizes(size, level as nat);
            lemma_level_valid(size, level as nat);
            lemma_chain_size_grows(size, 0, level as nat);
            lemma_chain_size_grows(size, level as nat, level as nat + 1);
            assert(region_holds(
                buf@,
                level_offset(size, level as nat),
                size,
                rgba@,
                level as nat,
                nothing_stored(),
            ));
            assert(region_holds(
                buf@,
                level_offset(size, (level - 1) as nat),
                size,
                rgba@,
                (level - 1) as nat,
                all_stored(size, (level - 1) as nat),
            ));
        }
        let info = levels.get(level);
        assert(info == mip_levels(size)[level as int]);
        let translator = Translator::new(info.size, 32);
        let base = info.offset as usize;
        fill_level(
            &mut buf,
            base_before,
            &translator_before,
            base,
            &translator,
            Ghost(size),
            Ghost(rgba@),
            Ghost(level as nat),
        );
        proof {
            let here = level as nat;
            assert forall|l: nat| l < level + 1 implies #[trigger] region_holds(
                buf@,
                level_offset(size, l),
                size,
                rgba@,
                l,
                all_stored(size, l),
            ) by {
                if l < here {
                    lemma_chain_size_grows(size, l, l + 1);
                    lemma_chain_size_grows(size, l + 1, here);
                    assert(region_holds(
                        held,
                        level_offset(size, l),
                        size,
                        rgba@,
                        l,
                        all_stored(size, l),
                    ));
                    lemma_region_kept(
                        held,
                        buf@,
                        level_offset(size, l),
                        size,
                        rgba@,
                        l,
                        all_stored(size, l),
                    );
                }
            }
            assert forall|l: nat| level + 1 <= l < mip_count(size) implies #[trigger] region_holds(
                buf@,
                level_offset(size, l),
                size,
                rgba@,
                l,
                nothing_stored(),
            ) by {
                lemma_chain_size_grows(size, l, l + 1);
                lemma_chain_size_grows(size, here + 1, l);
                lemma_chain_size_grows(size, here + 1, l + 1);
                assert(region_holds(
                    held,
                    level_offset(size, l),
                    size,
                    rgba@,
                    l,
                    nothing_stored(),
                ));
                lemma_region_kept(
                    held,
                    buf@,
                    level_offset(size, l),
                    size,
                    rgba@,
                    l,
                    nothing_stored(),
                );
            }
        }
        translator_before = translator;
        base_before = base;
        level += 1;
    }
    proof {
        lemma_chain_built(buf@, size, rgba@, 0);
        assert(buf@.subrange(0, buf@.len() as int) =~= buf@);
    }
    buf
}

/// The surface of every level of the chain of an image that can be packed has a valid
/// geometry.
pub proof fn lemma_level_valid(size: UVec2, level: nat)
    requires
        packable(size),
        level < mip_count(size),
    ensures
        level_geometry(size, level).valid(),
        level_offset(size, level) + level_geometry(size, level).alloc_size() <= chain_size_from(
            size,
            0,
        ),
        0 <= level_offset(size, level),
{
    lemma_level_sizes(size, level);
    lemma_chain_size_grows(size, 0, level);
    lemma_chain_size_grows(size, level, level + 1);
    lemma_chain_size_grows(size, level + 1, level + 1);
}

/// The zlib stream that `data` deflates to at the best compression level, where
/// deflating succeeds.
pub uninterp spec fn zlib_deflated(data: Seq<u8>) -> Option<Seq<u8>>;

/// Writes `data` to a `flate2::write::ZlibEncoder` over an empty vector, made with
/// `Compression::best()`, and finishes the encoder. What comes out depends on the data
/// alone.
#[verifier::external_body]
fn zlib_deflate(data: &[u8]) -> (out: Option<Vec<u8>>)
    ensures
        out matches Some(stream) ==> zlib_deflated(data@) == Some(stream@),
        out is None ==> zlib_deflated(data@) is None,
{
    let mut encoder = flate2::write::ZlibEncoder::new(Vec::new(), flate2::Compression::best());
    match std::io::Write::write_all(&mut encoder, data) {
        Ok(()) => match encoder.finish() {
            Ok(stream) => Some(stream),
            Err(_) => None,
        },
        Err(_) => None,
    }
}

/// The page of 4096 bytes at which the largest level starts, once the chain is padded
/// so that it starts at the start of a page.
pub open spec fn first_level_page(size: UVec2) -> int {
    (level_offset(size, 0) + 4095) / 4096
}

/// The bytes of padding before the chain that put the largest level at the start of
/// a page.
pub open spec fn chain_padding(size: UVec2) -> int {
    first_level_page(size) * 4096 - level_offset(size, 0)
}

/// The header of the packed texture of an image: the bytes of the chain without its
/// padding, the number of levels, the page of the largest level, and the size of the
/// image, each cut to the width of its field.
pub open spec fn packed_header(size: UVec2) -> PackedTextureHeader {
    PackedTextureHeader {
        total_size: chain_size_from(size, 0) as u32,
        num_mips: mip_count(size) as u16,
        mip0_page_offset: (first_level_page(size) % 0x1_0000) as u16,
        width: (size.x % 0x1_0000) as u16,
        height: (size.y % 0x1_0000) as u16,
    }
}

/// The padded mip chain of an image: zeros up to the page boundary, then the chain.
pub open spec fn padded_chain(size: UVec2, rgba: Seq<u8>) -> Seq<u8> {
    Seq::new(chain_padding(size) as nat, |i: int| 0u8) + mip_chain(size, rgba)
}

/// The packed texture of an image: the header, then the zlib stream of the padded mip
/// chain, where deflating it succeeds.
pub open spec fn packed_texture(size: UVec2, rgba: Seq<u8>) -> Option<Seq<u8>> {
    match zlib_deflated(padded_chain(size, rgba)) {
        Some(stream) => Some(packed_header(size).bytes() + stream),
        None => None,
    }
}

/// The packed texture with the given header, from what deflating the padded chain
/// gave.
pub fn packed(header: PackedTextureHeader, deflated: Option<Vec<u8>>) -> (container: Option<
    Vec<u8>,
>)
    ensures
        match deflated {
            Some(stream) => container matches Some(bytes) && bytes@ == header.bytes() + stream@,
            None => container is None,
        },
{
    match deflated {
        Some(stream) => {
            let mut container: Vec<u8> = Vec::new();
            header.encode(&mut container);
            write_all(&mut container, stream.as_slice());
            assert(container@ =~= header.bytes() + stream@);
            Some(container)
        },
        None => None,
    }
}

/// Packs an image of 8-bit red, green, blue and alpha, whose rows run from the top,
/// into a packed texture: the header, then the zlib stream of the padded mip chain.
pub fn pack_texture(size: UVec2, rgba: &[u8]) -> (container: Option<Vec<u8>>)
    requires
        packable(size),
        rgba@.len() == size.x * size.y * 4,
    ensures
        match packed_texture(size, rgba@) {
            Some(bytes) => container matches Some(packed) && packed@ == bytes,
            None => container is None,
        },
{
    let (levels, total_size) = match mip_chain_layout(size) {
        Some(layout) => layout,
        None => {
            return None;
        },
    };
    proof {
        lemma_level_valid(size, 0);
        lemma2_to64();
    }
    let chain = build_mip_chain(size, rgba, &levels, total_size);
    let first = levels.get(0);
    assert(first == mip_levels(size)[0]);
    let num_mips = levels.len();

    let mip0_page_offset: u64 = (first.offset as u64 + 4095) / 4096;
    let mip_padding: u64 = mip0_page_offset * 4096 - first.offset as u64;
    let width = size.x;
    let height = size.y;
    assert(mip0_page_offset & 0xffff == mip0_page_offset % 0x1_0000) by (bit_vector);
    assert(width & 0xffff == width % 0x1_0000 && height & 0xffff == height % 0x1_0000)
        by (bit_vector);
    let header = PackedTextureHeader {
        total_size,
        num_mips: num_mips as u16,
        mip0_page_offset: (mip0_page_offset & 0xffff) as u16,
        width: (width & 0xffff) as u16,
        height: (height & 0xffff) as u16,
    };
    assert(header == packed_header(size));

    let mut padded: Vec<u8> = Vec::new();
    let mut i: u64 = 0;
    while i < mip_padding
        invariant
            i <= mip_padding == chain_padding(size),
            padded@ == Seq::new(i as nat, |k: int| 0u8),
        decreases mip_padding - i,
    {
        padded.push(0);
        i += 1;
        assert(padded@ =~= Seq::new(i as nat, |k: int| 0u8));
    }
    write_all(&mut padded, chain.as_slice());
    assert(padded@ == padded_chain(size, rgba@));
    packed(header, zlib_deflate(padded.as_slice()))
}

} // verus!
