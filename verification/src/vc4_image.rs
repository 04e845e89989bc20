//! The tiled memory layouts of VideoCore IV surfaces: the translation between the
//! coordinate of a pixel and the address of its bits, both ways, for every supported
//! pixel depth and any image size.

use vstd::arithmetic::power2::*;
use vstd::bits::*;
use vstd::prelude::*;

verus! {

/// A pair of unsigned 32-bit components: a pixel coordinate or an image size.
#[derive(Clone, Copy, Debug, PartialEq, Eq, Structural)]
pub struct UVec2 {
    pub x: u32,
    pub y: u32,
}

impl UVec2 {
    /// The pair `(x, y)`.
    pub fn new(x: u32, y: u32) -> (v: UVec2)
        ensures
            v == (UVec2 { x, y }),
    {
        UVec2 { x, y }
    }
}

impl From<(u32, u32)> for UVec2 {
    fn from(value: (u32, u32)) -> (v: UVec2) {
        UVec2 { x: value.0, y: value.1 }
    }
}

impl vstd::std_specs::convert::FromSpecImpl<(u32, u32)> for UVec2 {
    open spec fn obeys_from_spec() -> bool {
        true
    }

    open spec fn from_spec(value: (u32, u32)) -> UVec2 {
        UVec2 { x: value.0, y: value.1 }
    }
}

/// `1 << shift` is `2^shift` for every shift that fits the word.
pub proof fn lemma_one_shl_is_pow2(shift: u32)
    requires
        shift < 32,
    ensures
        (1u32 << shift) == pow2(shift as nat),
        0 < pow2(shift as nat) <= 0x8000_0000,
{
    lemma_u32_pow2_no_overflow(shift as nat);
    lemma_u32_shl_is_mul(1u32, shift);
    lemma2_to64();
    if shift < 31 {
        lemma_pow2_strictly_increases(shift as nat, 31);
    }
}

/// Shifting left and or-ing a remainder below the factor is multiply-and-add.
pub proof fn lemma_shl_or_is_mul_add(mul: u32, add: u32, shift: u32)
    requires
        shift < 32,
        add < pow2(shift as nat),
        mul * pow2(shift as nat) + add <= u32::MAX,
    ensures
        ((mul << shift) | add) == mul * pow2(shift as nat) + add,
{
    lemma_one_shl_is_pow2(shift);
    lemma_u32_shl_is_mul(mul, shift);
    let hi = mul << shift;
    let one = 1u32 << shift;
    assert(hi == (hi >> shift) << shift) by (bit_vector)
        requires
            hi == mul << shift,
            shift < 32,
    ;
    assert((hi | add) == hi + add) by (bit_vector)
        requires
            hi == (hi >> shift) << shift,
            add < (1u32 << shift),
            shift < 32,
    ;
}

/// Quotient of `n` by `d`, rounded towards positive infinity.
pub open spec fn ceil_div(n: int, d: int) -> int
    recommends
        d > 0,
{
    (n + d - 1) / d
}

/// Calls `num::Integer::div_rem` on two `u32` values. For the unsigned types that
/// method is the pair of the truncated quotient and the remainder; it divides by its
/// argument, so a zero divisor is left out.
#[verifier::external_body]
pub(crate) fn div_rem_u32(val: u32, divisor: u32) -> (r: (u32, u32))
    requires
        divisor != 0,
    ensures
        r.0 == val / divisor,
        r.1 == val % divisor,
{
    num::Integer::div_rem(&val, &divisor)
}

/// A pair of power-of-two factors, one per axis, held as shift counts and bit masks.
pub struct UVec2PowerOfTwoFactor {
    shift: UVec2,
    mask: UVec2,
}

impl UVec2PowerOfTwoFactor {
    /// The shifts fit the word and each mask covers exactly the bits below its factor.
    pub closed spec fn wf(&self) -> bool {
        &&& self.shift.x < 32
        &&& self.shift.y < 32
        &&& self.mask.x == low_bits_mask(self.shift.x as nat)
        &&& self.mask.y == low_bits_mask(self.shift.y as nat)
    }

    /// The factor along x.
    pub closed spec fn factor_x(&self) -> nat {
        pow2(self.shift.x as nat)
    }

    /// The factor along y.
    pub closed spec fn factor_y(&self) -> nat {
        pow2(self.shift.y as nat)
    }

    /// Both factors are positive and fit the word.
    pub proof fn lemma_factor_bounds(&self)
        requires
            self.wf(),
        ensures
            0 < self.factor_x() <= 0x8000_0000,
            0 < self.factor_y() <= 0x8000_0000,
    {
        lemma_one_shl_is_pow2(self.shift.x);
        lemma_one_shl_is_pow2(self.shift.y);
    }

    /// The factor pair `(2^shift_x, 2^shift_y)`.
    pub fn new(shift_x: u32, shift_y: u32) -> (f: Self)
        requires
            shift_x < 32,
            shift_y < 32,
        ensures
            f.wf(),
            f.factor_x() == pow2(shift_x as nat),
            f.factor_y() == pow2(shift_y as nat),
    {
        proof {
            lemma_one_shl_is_pow2(shift_x);
            lemma_one_shl_is_pow2(shift_y);
        }
        UVec2PowerOfTwoFactor {
            shift: UVec2 { x: shift_x, y: shift_y },
            mask: UVec2 { x: (1u32 << shift_x) - 1, y: (1u32 << shift_y) - 1 },
        }
    }

    /// Quotient and remainder of each component by the factor of its axis.
    pub fn div_rem(&self, coord: UVec2) -> (r: (UVec2, UVec2))
        requires
            self.wf(),
        ensures
            r.0.x == coord.x as nat / self.factor_x(),
            r.0.y == coord.y as nat / self.factor_y(),
            r.1.x == coord.x as nat % self.factor_x(),
            r.1.y == coord.y as nat % self.factor_y(),
    {
        let (div_x, rem_x) = self.div_rem_x(coord.x);
        proof {
            self.lemma_factor_bounds();
            lemma_u32_shr_is_div(coord.y, self.shift.y);
            lemma_u32_low_bits_mask_is_mod(coord.y, self.shift.y as nat);
        }
        let div = UVec2 { x: div_x, y: coord.y >> self.shift.y };
        let rem = UVec2 { x: rem_x, y: coord.y & self.mask.y };
        (div, rem)
    }

    /// Quotient and remainder of `val` by the factor along x.
    pub fn div_rem_x(&self, val: u32) -> (r: (u32, u32))
        requires
            self.wf(),
        ensures
            r.0 == val as nat / self.factor_x(),
            r.1 == val as nat % self.factor_x(),
    {
        proof {
            self.lemma_factor_bounds();
            lemma_u32_shr_is_div(val, self.shift.x);
            lemma_u32_low_bits_mask_is_mod(val, self.shift.x as nat);
        }
        let div = val >> self.shift.x;
        let rem = val & self.mask.x;
        (div, rem)
    }

    /// `mul * factor + add` along each axis, for remainders `add` below the factors.
    pub fn mul_add(&self, mul: UVec2, add: UVec2) -> (r: UVec2)
        requires
            self.wf(),
            add.x < self.factor_x(),
            add.y < self.factor_y(),
            mul.x * self.factor_x() + add.x <= u32::MAX,
            mul.y * self.factor_y() + add.y <= u32::MAX,
        ensures
            r.x == mul.x * self.factor_x() + add.x,
            r.y == mul.y * self.factor_y() + add.y,
    {
        let x = self.mul_add_x(mul.x, add.x);
        proof {
            lemma_shl_or_is_mul_add(mul.y, add.y, self.shift.y);
        }
        UVec2 { x, y: (mul.y << self.shift.y) | add.y }
    }

    /// `mul * factor + add` along x, for a remainder `add` below the factor.
    pub fn mul_add_x(&self, mul: u32, add: u32) -> (r: u32)
        requires
            self.wf(),
            add < self.factor_x(),
            mul * self.factor_x() + add <= u32::MAX,
        ensures
            r == mul * self.factor_x() + add,
    {
        proof {
            lemma_shl_or_is_mul_add(mul, add, self.shift.x);
        }
        (mul << self.shift.x) | add
    }

    /// The number of whole or partial units of the x factor that cover `val`.
    pub fn round_up_div_x(&self, val: u32) -> (r: u32)
        requires
            self.wf(),
        ensures
            r == ceil_div(val as int, self.factor_x() as int),
    {
        let (div, rem) = self.div_rem_x(val);
        proof {
            self.lemma_factor_bounds();
            let f = self.factor_x() as int;
            vstd::arithmetic::div_mod::lemma_fundamental_div_mod(val as int, f);
            vstd::arithmetic::mul::lemma_mul_is_commutative(f, div as int);
            assert(val == div * f + rem);
            if rem == 0 {
                vstd::arithmetic::div_mod::lemma_fundamental_div_mod_converse(
                    val as int + f - 1,
                    f,
                    div as int,
                    f - 1,
                );
            } else {
                assert(div * f + f == (div + 1) * f) by (nonlinear_arith);
                vstd::arithmetic::div_mod::lemma_fundamental_div_mod_converse(
                    val as int + f - 1,
                    f,
                    div as int + 1,
                    rem as int - 1,
                );
                assert(div * 2 <= div * f) by (nonlinear_arith)
                    requires
                        f >= 2,
                        div >= 0,
                ;
            }
        }
        if rem != 0 {
            div + 1
        } else {
            div
        }
    }
}

/// A factor by which `u32` values are multiplied and divided.
pub trait U32Factor {
    /// The representation is consistent.
    spec fn wf(&self) -> bool;

    /// The factor itself.
    spec fn value(&self) -> nat;

    proof fn lemma_value_bounds(&self)
        requires
            self.wf(),
        ensures
            0 < self.value() <= u32::MAX,
    ;

    /// `mul * factor + add`, for a remainder `add` below the factor.
    fn mul_add(&self, mul: u32, add: u32) -> (r: u32)
        requires
            self.wf(),
            add < self.value(),
            mul * self.value() + add <= u32::MAX,
        ensures
            r == mul * self.value() + add,
    ;

    /// Quotient and remainder of `val` by the factor.
    fn div_rem(&self, val: u32) -> (r: (u32, u32))
        requires
            self.wf(),
        ensures
            r.0 == val as nat / self.value(),
            r.1 == val as nat % self.value(),
    ;

    /// Quotient of `val` by the factor.
    fn div(&self, val: u32) -> (r: u32)
        requires
            self.wf(),
        ensures
            r == val as nat / self.value(),
    ;

    /// The factor as a machine word.
    fn factor(&self) -> (r: u32)
        requires
            self.wf(),
        ensures
            r == self.value(),
    ;
}

/// A factor that is a power of two: products and quotients are shifts and masks.
pub struct U32PowerOfTwoFactor {
    shift: u32,
    mask: u32,
}

impl U32PowerOfTwoFactor {
    /// The factor `2^shift`.
    pub fn new(shift: u32) -> (f: Self)
        requires
            shift < 32,
        ensures
            f.wf(),
            f.value() == pow2(shift as nat),
    {
        proof {
            lemma_one_shl_is_pow2(shift);
        }
        U32PowerOfTwoFactor { shift, mask: (1u32 << shift) - 1 }
    }
}

impl U32Factor for U32PowerOfTwoFactor {
    closed spec fn wf(&self) -> bool {
        &&& self.shift < 32
        &&& self.mask == low_bits_mask(self.shift as nat)
    }

    closed spec fn value(&self) -> nat {
        pow2(self.shift as nat)
    }

    proof fn lemma_value_bounds(&self) {
        lemma_one_shl_is_pow2(self.shift);
    }

    fn mul_add(&self, mul: u32, add: u32) -> (r: u32) {
        proof {
            lemma_shl_or_is_mul_add(mul, add, self.shift);
        }
        (mul << self.shift) | add
    }

    fn div_rem(&self, val: u32) -> (r: (u32, u32)) {
        proof {
            lemma_one_shl_is_pow2(self.shift);
            lemma_u32_shr_is_div(val, self.shift);
            lemma_u32_low_bits_mask_is_mod(val, self.shift as nat);
        }
        let div = val >> self.shift;
        let rem = val & self.mask;
        (div, rem)
    }

    fn div(&self, val: u32) -> (r: u32) {
        proof {
            lemma_u32_shr_is_div(val, self.shift);
        }
        val >> self.shift
    }

    fn factor(&self) -> (r: u32) {
        proof {
            lemma_one_shl_is_pow2(self.shift);
        }
        1 << self.shift
    }
}

/// A factor of any positive value: products and quotients are computed in full.
pub struct U32NonPowerOfTwoFactor(u32);

impl U32NonPowerOfTwoFactor {
    /// The factor `value`.
    pub fn new(value: u32) -> (f: Self)
        requires
            value > 0,
        ensures
            f.wf(),
            f.value() == value,
    {
        U32NonPowerOfTwoFactor(value)
    }
}

impl U32Factor for U32NonPowerOfTwoFactor {
    closed spec fn wf(&self) -> bool {
        self.0 > 0
    }

    closed spec fn value(&self) -> nat {
        self.0 as nat
    }

    proof fn lemma_value_bounds(&self) {
    }

    fn mul_add(&self, mul: u32, add: u32) -> (r: u32) {
        assert(mul * self.0 <= u32::MAX) by (nonlinear_arith)
            requires
                mul * self.0 + add <= u32::MAX,
        ;
        mul * self.0 + add
    }

    fn div_rem(&self, val: u32) -> (r: (u32, u32)) {
        div_rem_u32(val, self.0)
    }

    fn div(&self, val: u32) -> (r: u32) {
        val / self.0
    }

    fn factor(&self) -> (r: u32) {
        self.0
    }
}

/// The place of one pixel in a tiled surface: the byte that holds its first bit, the
/// position of that bit in the byte, and whether the surface is laid out in linear
/// tiles.
#[derive(Clone, Copy, Debug, PartialEq, Eq, Structural)]
pub struct TileAddress {
    pub offset: u32,
    pub bit: u8,
    pub lt: bool,
}

/// The pixel depths that the tiled layouts are defined for.
pub open spec fn supported_bpp(bpp: u32) -> bool {
    bpp == 1 || bpp == 4 || bpp == 8 || bpp == 16 || bpp == 32 || bpp == 64
}

/// Width in pixels of a micro-tile at the given depth.
pub open spec fn utile_width(bpp: u32) -> int {
    if bpp == 64 {
        2
    } else if bpp == 32 {
        4
    } else if bpp == 16 || bpp == 8 {
        8
    } else if bpp == 4 {
        16
    } else {
        32
    }
}

/// Height in pixels of a micro-tile at the given depth.
pub open spec fn utile_height(bpp: u32) -> int {
    if bpp == 64 || bpp == 32 || bpp == 16 {
        4
    } else if bpp == 8 || bpp == 4 {
        8
    } else {
        16
    }
}

/// Width in pixels of a tile, which is eight micro-tiles wide.
pub open spec fn tile_width(bpp: u32) -> int {
    if bpp == 64 {
        16
    } else if bpp == 32 {
        32
    } else if bpp == 16 || bpp == 8 {
        64
    } else if bpp == 4 {
        128
    } else {
        256
    }
}

/// Height in pixels of a tile, which is eight micro-tiles high.
pub open spec fn tile_height(bpp: u32) -> int {
    if bpp == 64 || bpp == 32 || bpp == 16 {
        32
    } else if bpp == 8 || bpp == 4 {
        64
    } else {
        128
    }
}

/// Index of a sub-tile-group within its tile, by the parity of the tile row and the
/// group's column and row in the tile.
pub open spec fn subtile_index(odd_row: bool, sx: int, sy: int) -> int {
    if odd_row {
        if sx == 0 {
            if sy == 0 {
                2
            } else {
                3
            }
        } else {
            if sy == 0 {
                1
            } else {
                0
            }
        }
    } else {
        if sx == 0 {
            if sy == 0 {
                0
            } else {
                1
            }
        } else {
            if sy == 0 {
                3
            } else {
                2
            }
        }
    }
}

/// Column and row within its tile of the sub-tile-group with the given index.
pub open spec fn subtile_position(odd_row: bool, index: int) -> (int, int) {
    if odd_row {
        if index == 0 {
            (1, 1)
        } else if index == 1 {
            (1, 0)
        } else if index == 2 {
            (0, 0)
        } else {
            (0, 1)
        }
    } else {
        if index == 0 {
            (0, 0)
        } else if index == 1 {
            (0, 1)
        } else if index == 2 {
            (1, 1)
        } else {
            (1, 0)
        }
    }
}

/// Byte offset of the micro-tile in column `u` and row `v` of a surface in the tiled
/// layout with `tiles_per_row` tiles in each row. Tiles are eight micro-tiles wide and
/// high; odd tile rows run from right to left.
#[verifier::opaque]
pub open spec fn t_utile_offset(tiles_per_row: int, u: int, v: int) -> int {
    let tile_row = v / 8;
    let tile_col = u / 8;
    let odd = tile_row % 2 == 1;
    let tile_index = tile_row * tiles_per_row + if odd {
        tiles_per_row - 1 - tile_col
    } else {
        tile_col
    };
    let utile_index = (v % 4) * 4 + u % 4;
    tile_index * 4096 + subtile_index(odd, (u / 4) % 2, (v / 4) % 2) * 1024 + utile_index * 64
}

/// Column and row of the micro-tile that holds byte `offset` in the tiled layout.
#[verifier::opaque]
pub open spec fn t_utile_position(tiles_per_row: int, offset: int) -> (int, int) {
    let tile_index = offset / 4096;
    let tile_row = tile_index / tiles_per_row;
    let odd = tile_row % 2 == 1;
    let tile_col = if odd {
        tiles_per_row - 1 - tile_index % tiles_per_row
    } else {
        tile_index % tiles_per_row
    };
    let sub = subtile_position(odd, (offset / 1024) % 4);
    let utile_index = (offset / 64) % 16;
    (
        (tile_col * 2 + sub.0) * 4 + utile_index % 4,
        (tile_row * 2 + sub.1) * 4 + utile_index / 4,
    )
}

/// Byte offset of the micro-tile in column `u` and row `v` of a surface in the linear
/// tile layout with `utiles_per_row` micro-tiles in each row.
pub open spec fn lt_utile_offset(utiles_per_row: int, u: int, v: int) -> int {
    (v * utiles_per_row + u) * 64
}

/// Column and row of the micro-tile that holds byte `offset` in the linear tile layout.
pub open spec fn lt_utile_position(utiles_per_row: int, offset: int) -> (int, int) {
    ((offset / 64) % utiles_per_row, (offset / 64) / utiles_per_row)
}

/// An image size together with a pixel depth.
pub struct Geometry {
    pub image_size: UVec2,
    pub bpp: u32,
}

impl Geometry {
    /// Micro-tiles that cover one row of pixels.
    pub open spec fn utiles_per_row(self) -> int {
        ceil_div(self.image_size.x as int, utile_width(self.bpp))
    }

    /// Rows of micro-tiles that cover the image.
    pub open spec fn utile_rows(self) -> int {
        ceil_div(self.image_size.y as int, utile_height(self.bpp))
    }

    /// Tiles that cover one row of pixels.
    pub open spec fn tiles_per_row(self) -> int {
        ceil_div(self.image_size.x as int, tile_width(self.bpp))
    }

    /// Rows of tiles that cover the image.
    pub open spec fn tile_rows(self) -> int {
        ceil_div(self.image_size.y as int, tile_height(self.bpp))
    }

    /// Both dimensions reach four micro-tiles: the image is laid out in tiles. A
    /// smaller image is laid out in linear tiles.
    pub open spec fn is_large(self) -> bool {
        &&& self.image_size.x as int / utile_width(self.bpp) >= 4
        &&& self.image_size.y as int / utile_height(self.bpp) >= 4
    }

    /// Bytes that the surface occupies: whole tiles of 4096 bytes for a large image,
    /// whole micro-tiles of 64 bytes for a small one.
    pub open spec fn alloc_size(self) -> int {
        if self.is_large() {
            self.tiles_per_row() * self.tile_rows() * 4096
        } else {
            self.utiles_per_row() * self.utile_rows() * 64
        }
    }

    /// The depth is supported, no dimension is zero, and every byte of the surface has
    /// a 32-bit offset.
    pub open spec fn valid(self) -> bool {
        &&& supported_bpp(self.bpp)
        &&& self.image_size.x > 0
        &&& self.image_size.y > 0
        &&& self.alloc_size() <= u32::MAX
    }

    /// The coordinate lies within the image.
    pub open spec fn contains(self, coord: UVec2) -> bool {
        coord.x < self.image_size.x && coord.y < self.image_size.y
    }

    /// Offset in bits of a pixel from the start of its micro-tile, whose pixels are
    /// stored row by row.
    pub open spec fn pixel_bits(self, coord: UVec2) -> int {
        let w = utile_width(self.bpp);
        ((coord.y as int % utile_height(self.bpp)) * w + coord.x as int % w) * (self.bpp as int)
    }

    /// Byte offset of the pixel at `coord`.
    pub open spec fn offset_of(self, coord: UVec2) -> int {
        let u = coord.x as int / utile_width(self.bpp);
        let v = coord.y as int / utile_height(self.bpp);
        let utile = if self.is_large() {
            t_utile_offset(self.tiles_per_row(), u, v)
        } else {
            lt_utile_offset(self.utiles_per_row(), u, v)
        };
        utile + self.pixel_bits(coord) / 8
    }

    /// Position in its byte of the first bit of the pixel at `coord`.
    pub open spec fn bit_of(self, coord: UVec2) -> int {
        self.pixel_bits(coord) % 8
    }

    /// The tile address of the pixel at `coord`.
    pub open spec fn address_of(self, coord: UVec2) -> TileAddress {
        TileAddress {
            offset: self.offset_of(coord) as u32,
            bit: self.bit_of(coord) as u8,
            lt: !self.is_large(),
        }
    }

    /// The coordinate of the pixel that holds the addressed bit.
    pub open spec fn coordinate_of(self, address: TileAddress) -> (int, int) {
        let w = utile_width(self.bpp);
        let utile = if self.is_large() {
            t_utile_position(self.tiles_per_row(), address.offset as int)
        } else {
            lt_utile_position(self.utiles_per_row(), address.offset as int)
        };
        let pixel_index = ((address.offset as int % 64) * 8 + address.bit as int) / (self.bpp as int);
        (utile.0 * w + pixel_index % w, utile.1 * utile_height(self.bpp) + pixel_index / w)
    }

    /// The address names a bit of a byte, and the pixel that holds it lies within the
    /// image.
    pub open spec fn decodes(self, address: TileAddress) -> bool {
        let c = self.coordinate_of(address);
        &&& address.bit < 8
        &&& 0 <= c.0 < self.image_size.x
        &&& 0 <= c.1 < self.image_size.y
    }
}

/// A byte offset made of a tile index, the index of a sub-tile-group, the index of a
/// micro-tile and a byte within it gives each of the four back.
proof fn lemma_offset_parts(tile_index: int, sub: int, utile_index: int, byte: int)
    requires
        0 <= tile_index,
        0 <= sub < 4,
        0 <= utile_index < 16,
        0 <= byte < 64,
    ensures
        ({
            let offset = tile_index * 4096 + sub * 1024 + utile_index * 64 + byte;
            &&& offset / 4096 == tile_index
            &&& (offset / 1024) % 4 == sub
            &&& (offset / 64) % 16 == utile_index
            &&& offset % 64 == byte
        }),
{
    let offset = tile_index * 4096 + sub * 1024 + utile_index * 64 + byte;
    let in_tile = sub * 1024 + utile_index * 64 + byte;
    vstd::arithmetic::div_mod::lemma_fundamental_div_mod_converse(
        offset,
        4096,
        tile_index,
        in_tile,
    );
    let subtiles = tile_index * 4 + sub;
    vstd::arithmetic::div_mod::lemma_fundamental_div_mod_converse(
        offset,
        1024,
        subtiles,
        utile_index * 64 + byte,
    );
    vstd::arithmetic::div_mod::lemma_fundamental_div_mod_converse(subtiles, 4, tile_index, sub);
    let utiles = subtiles * 16 + utile_index;
    vstd::arithmetic::div_mod::lemma_fundamental_div_mod_converse(offset, 64, utiles, byte);
    vstd::arithmetic::div_mod::lemma_fundamental_div_mod_converse(
        utiles,
        16,
        subtiles,
        utile_index,
    );
}

/// A micro-tile column (or row) is made of its tile, its sub-tile-group in the tile
/// and its place in the group.
proof fn lemma_utile_parts(u: int)
    requires
        0 <= u,
    ensures
        ((u / 8) * 2 + (u / 4) % 2) * 4 + u % 4 == u,
        0 <= (u / 4) % 2 < 2,
        0 <= u % 4 < 4,
        0 <= u / 8,
{
    let groups = u / 4;
    vstd::arithmetic::div_mod::lemma_fundamental_div_mod(u, 4);
    vstd::arithmetic::div_mod::lemma_mod_pos_bound(u, 4);
    vstd::arithmetic::div_mod::lemma_div_pos_is_pos(u, 4);
    vstd::arithmetic::div_mod::lemma_fundamental_div_mod(groups, 2);
    vstd::arithmetic::div_mod::lemma_mod_pos_bound(groups, 2);
    vstd::arithmetic::div_mod::lemma_div_pos_is_pos(groups, 2);
    vstd::arithmetic::div_mod::lemma_div_denominator(u, 4, 2);
    assert(groups / 2 == u / 8);
}

/// A micro-tile column (or row) that is made of a tile, a sub-tile-group in the tile
/// and a place in the group gives each of the three back.
proof fn lemma_utile_composed(tile: int, group: int, place: int)
    requires
        0 <= tile,
        0 <= group < 2,
        0 <= place < 4,
    ensures
        ({
            let u = (tile * 2 + group) * 4 + place;
            &&& 0 <= u < 8 * (tile + 1)
            &&& u / 8 == tile
            &&& (u / 4) % 2 == group
            &&& u % 4 == place
        }),
{
    let groups = tile * 2 + group;
    let u = groups * 4 + place;
    vstd::arithmetic::div_mod::lemma_fundamental_div_mod_converse(u, 4, groups, place);
    vstd::arithmetic::div_mod::lemma_fundamental_div_mod_converse(groups, 2, tile, group);
    vstd::arithmetic::div_mod::lemma_fundamental_div_mod_converse(
        u,
        8,
        tile,
        group * 4 + place,
    );
}

/// A byte offset is made of its tile index, the index of its sub-tile-group, the index
/// of its micro-tile and its byte within the micro-tile.
proof fn lemma_offset_split(offset: int)
    requires
        0 <= offset,
    ensures
        ({
            let tile_index = offset / 4096;
            let sub = (offset / 1024) % 4;
            let utile_index = (offset / 64) % 16;
            let byte = offset % 64;
            &&& offset == tile_index * 4096 + sub * 1024 + utile_index * 64 + byte
            &&& 0 <= tile_index
            &&& 0 <= sub < 4
            &&& 0 <= utile_index < 16
            &&& 0 <= byte < 64
            &&& 0 <= utile_index % 4 < 4
            &&& 0 <= utile_index / 4 < 4
            &&& (utile_index / 4) * 4 + utile_index % 4 == utile_index
        }),
{
    let utiles = offset / 64;
    let subtiles = offset / 1024;
    let utile_index = utiles % 16;
    vstd::arithmetic::div_mod::lemma_fundamental_div_mod(offset, 64);
    vstd::arithmetic::div_mod::lemma_mod_pos_bound(offset, 64);
    vstd::arithmetic::div_mod::lemma_div_pos_is_pos(offset, 64);
    vstd::arithmetic::div_mod::lemma_fundamental_div_mod(utiles, 16);
    vstd::arithmetic::div_mod::lemma_mod_pos_bound(utiles, 16);
    vstd::arithmetic::div_mod::lemma_div_pos_is_pos(utiles, 16);
    vstd::arithmetic::div_mod::lemma_div_denominator(offset, 64, 16);
    assert(utiles / 16 == subtiles);
    vstd::arithmetic::div_mod::lemma_fundamental_div_mod(subtiles, 4);
    vstd::arithmetic::div_mod::lemma_mod_pos_bound(subtiles, 4);
    vstd::arithmetic::div_mod::lemma_div_pos_is_pos(subtiles, 4);
    vstd::arithmetic::div_mod::lemma_div_denominator(offset, 1024, 4);
    assert(subtiles / 4 == offset / 4096);
    vstd::arithmetic::div_mod::lemma_fundamental_div_mod(utile_index, 4);
    vstd::arithmetic::div_mod::lemma_mod_pos_bound(utile_index, 4);
    vstd::arithmetic::div_mod::lemma_div_pos_is_pos(utile_index, 4);
    vstd::arithmetic::div_mod::lemma_div_is_ordered(utile_index, 15, 4);
}

/// The two sub-tile-group tables are inverse to each other.
proof fn lemma_subtile_round_trip(odd: bool, sx: int, sy: int)
    requires
        0 <= sx < 2,
        0 <= sy < 2,
    ensures
        0 <= subtile_index(odd, sx, sy) < 4,
        subtile_position(odd, subtile_index(odd, sx, sy)) == (sx, sy),
{
}

/// In the tiled layout a micro-tile is found again from the offset of any of its bytes.
pub proof fn lemma_t_utile_round_trip(tiles_per_row: int, u: int, v: int, byte: int)
    requires
        0 <= u < 8 * tiles_per_row,
        0 <= v,
        0 <= byte < 64,
    ensures
        t_utile_position(tiles_per_row, t_utile_offset(tiles_per_row, u, v) + byte) == (u, v),
        0 <= t_utile_offset(tiles_per_row, u, v) <= ((v / 8 + 1) * tiles_per_row) * 4096 - 64,
        t_utile_offset(tiles_per_row, u, v) % 64 == 0,
        (t_utile_offset(tiles_per_row, u, v) + byte) % 64 == byte,
{
    reveal(t_utile_offset);
    reveal(t_utile_position);
    let n = tiles_per_row;
    let tile_row = v / 8;
    let tile_col = u / 8;
    let odd = tile_row % 2 == 1;
    let col = if odd {
        n - 1 - tile_col
    } else {
        tile_col
    };
    let tile_index = tile_row * n + col;
    let sx = (u / 4) % 2;
    let sy = (v / 4) % 2;
    let sub = subtile_index(odd, sx, sy);
    let utile_index = (v % 4) * 4 + u % 4;
    let offset = t_utile_offset(n, u, v) + byte;
    lemma_utile_parts(u);
    lemma_utile_parts(v);
    lemma_subtile_round_trip(odd, sx, sy);
    assert(0 <= col < n);
    assert(0 <= tile_row * n) by (nonlinear_arith)
        requires
            0 <= tile_row,
            0 <= n,
    ;
    assert((tile_row + 1) * n == tile_row * n + n) by (nonlinear_arith);
    assert(offset == tile_index * 4096 + sub * 1024 + utile_index * 64 + byte);
    lemma_offset_parts(tile_index, sub, utile_index, byte);
    lemma_offset_parts(tile_index, sub, utile_index, 0);
    vstd::arithmetic::div_mod::lemma_fundamental_div_mod_converse(tile_index, n, tile_row, col);
    assert(utile_index % 4 == u % 4 && utile_index / 4 == v % 4);
    let back_col = if odd {
        n - 1 - tile_index % n
    } else {
        tile_index % n
    };
    assert(back_col == tile_col);
    assert(t_utile_position(n, offset) == (
        (back_col * 2 + sx) * 4 + utile_index % 4,
        (tile_row * 2 + sy) * 4 + utile_index / 4,
    ));
}

/// The tiles of a row of tiles are stored one after the other: from left to right in
/// an even row, from right to left in an odd one.
pub proof fn lemma_serpentine(tiles_per_row: int, u: int, v: int)
    requires
        0 <= u < 8 * tiles_per_row,
        0 <= v,
    ensures
        (v / 8) % 2 == 0 ==> t_utile_offset(tiles_per_row, u, v) / 4096 == (v / 8) * tiles_per_row
            + u / 8,
        (v / 8) % 2 == 1 ==> t_utile_offset(tiles_per_row, u, v) / 4096 == (v / 8) * tiles_per_row
            + (tiles_per_row - 1 - u / 8),
{
    reveal(t_utile_offset);
    let n = tiles_per_row;
    let tile_row = v / 8;
    let odd = tile_row % 2 == 1;
    let col = if odd {
        n - 1 - u / 8
    } else {
        u / 8
    };
    lemma_utile_parts(u);
    lemma_utile_parts(v);
    lemma_subtile_round_trip(odd, (u / 4) % 2, (v / 4) % 2);
    assert(0 <= tile_row * n) by (nonlinear_arith)
        requires
            0 <= tile_row,
            0 <= n,
    ;
    lemma_offset_parts(
        tile_row * n + col,
        subtile_index(odd, (u / 4) % 2, (v / 4) % 2),
        (v % 4) * 4 + u % 4,
        0,
    );
}

/// In the linear tile layout a micro-tile is found again from the offset of any of its
/// bytes.
pub proof fn lemma_lt_utile_round_trip(utiles_per_row: int, u: int, v: int, byte: int)
    requires
        0 <= u < utiles_per_row,
        0 <= v,
        0 <= byte < 64,
    ensures
        lt_utile_position(utiles_per_row, lt_utile_offset(utiles_per_row, u, v) + byte) == (u, v),
        0 <= lt_utile_offset(utiles_per_row, u, v) <= ((v + 1) * utiles_per_row) * 64 - 64,
        lt_utile_offset(utiles_per_row, u, v) % 64 == 0,
{
    let n = utiles_per_row;
    let index = v * n + u;
    assert(0 <= v * n) by (nonlinear_arith)
        requires
            0 <= v,
            0 <= n,
    ;
    assert((v + 1) * n == v * n + n) by (nonlinear_arith);
    assert((index * 64 + byte) / 64 == index);
    vstd::arithmetic::div_mod::lemma_fundamental_div_mod_converse(index, n, v, u);
}

/// A micro-tile holds 512 bits at every supported depth.
pub proof fn lemma_utile_shape(bpp: u32)
    requires
        supported_bpp(bpp),
    ensures
        utile_width(bpp) * utile_height(bpp) * bpp == 512,
        2 <= utile_width(bpp) <= 32,
        4 <= utile_height(bpp) <= 16,
        tile_width(bpp) == 8 * utile_width(bpp),
        tile_height(bpp) == 8 * utile_height(bpp),
{
    if bpp == 64 {
        assert(utile_width(bpp) * utile_height(bpp) * bpp == 2 * 4 * 64);
    } else if bpp == 32 {
        assert(utile_width(bpp) * utile_height(bpp) * bpp == 4 * 4 * 32);
    } else if bpp == 16 {
        assert(utile_width(bpp) * utile_height(bpp) * bpp == 8 * 4 * 16);
    } else if bpp == 8 {
        assert(utile_width(bpp) * utile_height(bpp) * bpp == 8 * 8 * 8);
    } else if bpp == 4 {
        assert(utile_width(bpp) * utile_height(bpp) * bpp == 16 * 8 * 4);
    } else {
        assert(utile_width(bpp) * utile_height(bpp) * bpp == 32 * 16 * 1);
    }
}

/// Units of `d` that cover `total` hold every position below `total`, and so do
/// groups of eight units.
pub proof fn lemma_cover(x: int, total: int, d: int)
    requires
        0 <= x < total,
        0 < d,
    ensures
        0 <= x / d < ceil_div(total, d),
        0 <= (x / d) / 8 < ceil_div(total, 8 * d),
        x / d < 8 * ceil_div(total, 8 * d),
{
    vstd::arithmetic::div_mod::lemma_div_is_ordered(x, total - 1, d);
    vstd::arithmetic::div_mod::lemma_div_plus_one(total - 1, d);
    vstd::arithmetic::div_mod::lemma_div_pos_is_pos(x, d);
    vstd::arithmetic::div_mod::lemma_div_is_ordered(x, total - 1, 8 * d);
    vstd::arithmetic::div_mod::lemma_div_plus_one(total - 1, 8 * d);
    vstd::arithmetic::div_mod::lemma_div_denominator(x, d, 8);
    assert(d * 8 == 8 * d);
}

/// The pixels of a micro-tile fill its 64 bytes row by row, and a pixel is found again
/// from the byte and bit at which it starts.
pub proof fn lemma_pixel_round_trip(bpp: u32, px: int, py: int)
    requires
        supported_bpp(bpp),
        0 <= px < utile_width(bpp),
        0 <= py < utile_height(bpp),
    ensures
        ({
            let w = utile_width(bpp);
            let bits = (py * w + px) * (bpp as int);
            let index = ((bits / 8) * 8 + bits % 8) / (bpp as int);
            &&& 0 <= bits
            &&& bits + bpp <= 512
            &&& index % w == px
            &&& index / w == py
        }),
{
    let w = utile_width(bpp);
    let index = py * w + px;
    assert(0 <= index < w * utile_height(bpp)) by (nonlinear_arith)
        requires
            0 <= px < w,
            0 <= py < utile_height(bpp),
            index == py * w + px,
    ;
    lemma_utile_shape(bpp);
    let bits = index * (bpp as int);
    assert(0 <= bits && bits + bpp <= 512) by (nonlinear_arith)
        requires
            0 <= index < w * utile_height(bpp),
            w * utile_height(bpp) * bpp == 512,
            bits == index * (bpp as int),
            bpp > 0,
    ;
    assert((bits / 8) * 8 + bits % 8 == bits);
    vstd::arithmetic::div_mod::lemma_div_by_multiple(index, bpp as int);
    vstd::arithmetic::div_mod::lemma_fundamental_div_mod_converse(index, w, py, px);
}

/// A pixel is found again from the position of any of its bits: the arithmetic of the
/// two layouts, for micro-tiles of `w` by `h` pixels of `bpp` bits and rows of `n`
/// tiles (or, in the linear tile layout, of `n` micro-tiles).
pub proof fn lemma_address_round_trip(
    large: bool,
    n: int,
    w: int,
    h: int,
    bpp: int,
    x: int,
    y: int,
    inside: int,
)
    requires
        0 < w,
        0 < h,
        0 < bpp,
        w * h * bpp == 512,
        0 <= x,
        0 <= y,
        if large {
            x / w < 8 * n
        } else {
            x / w < n
        },
        0 <= inside < bpp,
    ensures
        ({
            let start = ((y % h) * w + x % w) * bpp;
            let utile = if large {
                t_utile_offset(n, x / w, y / h)
            } else {
                lt_utile_offset(n, x / w, y / h)
            };
            let bits = (utile + start / 8) * 8 + start % 8 + inside;
            let offset = bits / 8;
            let bit = bits % 8;
            let position = if large {
                t_utile_position(n, offset)
            } else {
                lt_utile_position(n, offset)
            };
            let index = ((offset % 64) * 8 + bit) / bpp;
            &&& 0 <= bits
            &&& position.0 * w + index % w == x
            &&& position.1 * h + index / w == y
        }),
{
    let u = x / w;
    let v = y / h;
    let px = x % w;
    let py = y % h;
    assert(0 <= px < w && 0 <= py < h && u * w + px == x && v * h + py == y && 0 <= u && 0 <= v)
        by {
        vstd::arithmetic::div_mod::lemma_fundamental_div_mod(x, w);
        vstd::arithmetic::div_mod::lemma_fundamental_div_mod(y, h);
        vstd::arithmetic::mul::lemma_mul_is_commutative(u, w);
        vstd::arithmetic::mul::lemma_mul_is_commutative(v, h);
        vstd::arithmetic::div_mod::lemma_mod_pos_bound(x, w);
        vstd::arithmetic::div_mod::lemma_mod_pos_bound(y, h);
        vstd::arithmetic::div_mod::lemma_div_pos_is_pos(x, w);
        vstd::arithmetic::div_mod::lemma_div_pos_is_pos(y, h);
    }
    let pixel = py * w + px;
    let start = pixel * bpp;
    assert(0 <= pixel < w * h) by (nonlinear_arith)
        requires
            0 <= px < w,
            0 <= py < h,
            pixel == py * w + px,
    ;
    assert(0 <= start && start + bpp <= 512) by (nonlinear_arith)
        requires
            0 <= pixel < w * h,
            w * h * bpp == 512,
            start == pixel * bpp,
            bpp > 0,
    ;
    let in_utile = start + inside;
    let byte = in_utile / 8;
    assert(0 <= byte < 64 && byte * 8 + in_utile % 8 == in_utile && 0 <= in_utile % 8 < 8) by {
        vstd::arithmetic::div_mod::lemma_fundamental_div_mod(in_utile, 8);
        vstd::arithmetic::div_mod::lemma_mod_pos_bound(in_utile, 8);
    }
    let utile = if large {
        t_utile_offset(n, u, v)
    } else {
        lt_utile_offset(n, u, v)
    };
    let position = if large {
        t_utile_position(n, utile + byte)
    } else {
        lt_utile_position(n, utile + byte)
    };
    assert(position == (u, v) && (utile + byte) % 64 == byte && utile % 64 == 0 && 0 <= utile)
        by {
        if large {
            lemma_t_utile_round_trip(n, u, v, byte);
        } else {
            lemma_lt_utile_round_trip(n, u, v, byte);
            vstd::arithmetic::div_mod::lemma_fundamental_div_mod_converse(
                utile + byte,
                64,
                v * n + u,
                byte,
            );
        }
    }
    let bits = (utile + start / 8) * 8 + start % 8 + inside;
    assert(bits == utile * 8 + in_utile) by {
        vstd::arithmetic::div_mod::lemma_fundamental_div_mod(start, 8);
    }
    assert(bits / 8 == utile + byte && bits % 8 == in_utile % 8) by {
        vstd::arithmetic::div_mod::lemma_fundamental_div_mod_converse(
            bits,
            8,
            utile + byte,
            in_utile % 8,
        );
    }
    let index = (byte * 8 + in_utile % 8) / bpp;
    assert(index == pixel) by {
        vstd::arithmetic::div_mod::lemma_fundamental_div_mod_converse(
            in_utile,
            bpp,
            pixel,
            inside,
        );
    }
    assert(index % w == px && index / w == py) by {
        vstd::arithmetic::div_mod::lemma_fundamental_div_mod_converse(pixel, w, py, px);
    }
}

impl Geometry {
    /// Every pixel of the image lies within the bytes that the surface occupies.
    pub proof fn lemma_offset_in_bounds(self, coord: UVec2)
        requires
            self.valid(),
            self.contains(coord),
        ensures
            0 <= self.offset_of(coord),
            self.offset_of(coord) * 8 + self.bit_of(coord) + self.bpp <= self.alloc_size() * 8,
            0 <= self.bit_of(coord) < 8,
            self.address_of(coord).offset == self.offset_of(coord),
            self.address_of(coord).bit == self.bit_of(coord),
    {
        let w = utile_width(self.bpp);
        let h = utile_height(self.bpp);
        let u = coord.x as int / w;
        let v = coord.y as int / h;
        lemma_utile_shape(self.bpp);
        lemma_cover(coord.x as int, self.image_size.x as int, w);
        lemma_cover(coord.y as int, self.image_size.y as int, h);
        lemma_pixel_round_trip(self.bpp, coord.x as int % w, coord.y as int % h);
        if self.is_large() {
            let n = self.tiles_per_row();
            lemma_t_utile_round_trip(n, u, v, 0);
            assert(v / 8 + 1 <= self.tile_rows());
            assert((v / 8 + 1) * n <= self.tile_rows() * n) by (nonlinear_arith)
                requires
                    v / 8 + 1 <= self.tile_rows(),
                    0 <= n,
            ;
            assert(self.tile_rows() * n == n * self.tile_rows()) by (nonlinear_arith);
        } else {
            let n = self.utiles_per_row();
            lemma_lt_utile_round_trip(n, u, v, 0);
            assert(v + 1 <= self.utile_rows());
            assert((v + 1) * n <= self.utile_rows() * n) by (nonlinear_arith)
                requires
                    v + 1 <= self.utile_rows(),
                    0 <= n,
            ;
            assert(self.utile_rows() * n == n * self.utile_rows()) by (nonlinear_arith);
        }
    }

}

/// The two sub-tile-group tables are inverse to each other, the other way round.
proof fn lemma_subtile_position_index(odd: bool, index: int)
    requires
        0 <= index < 4,
    ensures
        0 <= subtile_position(odd, index).0 < 2,
        0 <= subtile_position(odd, index).1 < 2,
        subtile_index(odd, subtile_position(odd, index).0, subtile_position(odd, index).1)
            == index,
{
}

/// In the tiled layout every byte lies in the micro-tile that is found from its
/// offset.
pub proof fn lemma_t_utile_position_offset(tiles_per_row: int, offset: int)
    requires
        0 < tiles_per_row,
        0 <= offset,
    ensures
        ({
            let position = t_utile_position(tiles_per_row, offset);
            &&& 0 <= position.0 < 8 * tiles_per_row
            &&& 0 <= position.1
            &&& t_utile_offset(tiles_per_row, position.0, position.1) == offset - offset % 64
        }),
{
    let n = tiles_per_row;
    let tile_index = offset / 4096;
    let sub = (offset / 1024) % 4;
    let utile_index = (offset / 64) % 16;
    let byte = offset % 64;
    lemma_offset_split(offset);
    let tile_row = tile_index / n;
    let col = tile_index % n;
    assert(0 <= col < n && 0 <= tile_row && tile_row * n + col == tile_index) by {
        vstd::arithmetic::div_mod::lemma_fundamental_div_mod(tile_index, n);
        vstd::arithmetic::div_mod::lemma_mod_pos_bound(tile_index, n);
        vstd::arithmetic::div_mod::lemma_div_pos_is_pos(tile_index, n);
        vstd::arithmetic::mul::lemma_mul_is_commutative(n, tile_row);
    }
    let odd = tile_row % 2 == 1;
    let tile_col = if odd {
        n - 1 - col
    } else {
        col
    };
    let position = subtile_position(odd, sub);
    lemma_subtile_position_index(odd, sub);
    let u = (tile_col * 2 + position.0) * 4 + utile_index % 4;
    let v = (tile_row * 2 + position.1) * 4 + utile_index / 4;
    assert(t_utile_position(n, offset) == (u, v)) by {
        reveal(t_utile_position);
    }
    lemma_utile_composed(tile_col, position.0, utile_index % 4);
    lemma_utile_composed(tile_row, position.1, utile_index / 4);
    let back_col = if odd {
        n - 1 - tile_col
    } else {
        tile_col
    };
    assert(back_col == col);
    assert(t_utile_offset(n, u, v) == (tile_row * n + back_col) * 4096 + subtile_index(
        odd,
        position.0,
        position.1,
    ) * 1024 + ((utile_index / 4) * 4 + utile_index % 4) * 64) by {
        reveal(t_utile_offset);
    }
}

/// In the linear tile layout every byte lies in the micro-tile that is found from its
/// offset.
pub proof fn lemma_lt_utile_position_offset(utiles_per_row: int, offset: int)
    requires
        0 < utiles_per_row,
        0 <= offset,
    ensures
        ({
            let position = lt_utile_position(utiles_per_row, offset);
            &&& 0 <= position.0 < utiles_per_row
            &&& 0 <= position.1
            &&& lt_utile_offset(utiles_per_row, position.0, position.1) == offset - offset % 64
        }),
{
    let n = utiles_per_row;
    let index = offset / 64;
    vstd::arithmetic::div_mod::lemma_fundamental_div_mod(index, n);
    vstd::arithmetic::div_mod::lemma_mod_pos_bound(index, n);
    vstd::arithmetic::div_mod::lemma_div_pos_is_pos(index, n);
    vstd::arithmetic::mul::lemma_mul_is_commutative(n, index / n);
}

/// Every bit of a micro-tile lies in the pixel that is found from its position.
pub proof fn lemma_pixel_position_bits(bpp: u32, bits: int)
    requires
        supported_bpp(bpp),
        0 <= bits < 512,
    ensures
        ({
            let w = utile_width(bpp);
            let index = bits / (bpp as int);
            let px = index % w;
            let py = index / w;
            &&& 0 <= px < w
            &&& 0 <= py < utile_height(bpp)
            &&& (py * w + px) * bpp <= bits < (py * w + px) * bpp + bpp
        }),
{
    let w = utile_width(bpp);
    let h = utile_height(bpp);
    let index = bits / (bpp as int);
    lemma_utile_shape(bpp);
    vstd::arithmetic::div_mod::lemma_fundamental_div_mod(bits, bpp as int);
    vstd::arithmetic::div_mod::lemma_mod_pos_bound(bits, bpp as int);
    vstd::arithmetic::div_mod::lemma_div_pos_is_pos(bits, bpp as int);
    vstd::arithmetic::mul::lemma_mul_is_commutative(bpp as int, index);
    assert(index < w * h) by (nonlinear_arith)
        requires
            index * bpp <= bits,
            bits < 512,
            w * h * bpp == 512,
            bpp > 0,
    ;
    vstd::arithmetic::div_mod::lemma_fundamental_div_mod(index, w);
    vstd::arithmetic::div_mod::lemma_mod_pos_bound(index, w);
    vstd::arithmetic::div_mod::lemma_div_pos_is_pos(index, w);
    vstd::arithmetic::mul::lemma_mul_is_commutative(w, index / w);
    assert(index / w < h) by (nonlinear_arith)
        requires
            (index / w) * w <= index,
            index < w * h,
            w > 0,
    ;
}

impl Geometry {
    /// Every bit of a pixel of the image, not only its first, has a tile address that
    /// translates back to the pixel.
    pub proof fn lemma_round_trip_inside(self, coord: UVec2, inside: int)
        requires
            self.valid(),
            self.contains(coord),
            0 <= inside < self.bpp,
        ensures
            ({
                let bits = self.offset_of(coord) * 8 + self.bit_of(coord) + inside;
                let address = TileAddress {
                    offset: (bits / 8) as u32,
                    bit: (bits % 8) as u8,
                    lt: !self.is_large(),
                };
                &&& 0 <= bits < self.alloc_size() * 8
                &&& self.coordinate_of(address) == (coord.x as int, coord.y as int)
                &&& self.decodes(address)
            }),
    {
        let w = utile_width(self.bpp);
        let h = utile_height(self.bpp);
        let bpp = self.bpp as int;
        let x = coord.x as int;
        let y = coord.y as int;
        let n = if self.is_large() {
            self.tiles_per_row()
        } else {
            self.utiles_per_row()
        };
        let start = ((y % h) * w + x % w) * bpp;
        let utile = if self.is_large() {
            t_utile_offset(n, x / w, y / h)
        } else {
            lt_utile_offset(n, x / w, y / h)
        };
        let bits = (utile + start / 8) * 8 + start % 8 + inside;
        assert(self.pixel_bits(coord) == start);
        assert(self.offset_of(coord) == utile + start / 8);
        assert(self.bit_of(coord) == start % 8);
        assert(bits + bpp - inside <= self.alloc_size() * 8 && 0 <= utile + start / 8) by {
            self.lemma_offset_in_bounds(coord);
        }
        assert(w > 0 && h > 0 && w * h * bpp == 512) by {
            lemma_utile_shape(self.bpp);
        }
        assert(0 <= x / w && if self.is_large() {
            x / w < 8 * n
        } else {
            x / w < n
        }) by {
            lemma_utile_shape(self.bpp);
            lemma_cover(x, self.image_size.x as int, w);
        }
        lemma_address_round_trip(self.is_large(), n, w, h, bpp, x, y, inside);
        let offset = bits / 8;
        let bit = bits % 8;
        let address = TileAddress { offset: offset as u32, bit: bit as u8, lt: !self.is_large() };
        let position = if self.is_large() {
            t_utile_position(n, offset)
        } else {
            lt_utile_position(n, offset)
        };
        let index = ((offset % 64) * 8 + bit) / bpp;
        assert(address.offset == offset && address.bit == bit);
        assert(self.coordinate_of(address) == (
            position.0 * w + index % w,
            position.1 * h + index / w,
        ));
    }

    /// Translating a coordinate of the image to its tile address and that address
    /// back gives the coordinate again.
    pub proof fn lemma_round_trip(self, coord: UVec2)
        requires
            self.valid(),
            self.contains(coord),
        ensures
            self.coordinate_of(self.address_of(coord)) == (coord.x as int, coord.y as int),
            self.decodes(self.address_of(coord)),
    {
        self.lemma_offset_in_bounds(coord);
        self.lemma_round_trip_inside(coord, 0);
        let bits = self.offset_of(coord) * 8 + self.bit_of(coord);
        assert(bits / 8 == self.offset_of(coord) && bits % 8 == self.bit_of(coord));
    }

    /// An address that translates to a pixel of the image names a bit of that pixel.
    pub proof fn lemma_decoded_holds_address(self, address: TileAddress)
        requires
            self.valid(),
            self.decodes(address),
        ensures
            ({
                let c = self.coordinate_of(address);
                let coord = UVec2 { x: c.0 as u32, y: c.1 as u32 };
                let start = self.offset_of(coord) * 8 + self.bit_of(coord);
                let bits = address.offset * 8 + address.bit;
                &&& self.contains(coord)
                &&& start <= bits < start + self.bpp
            }),
    {
        let w = utile_width(self.bpp);
        let h = utile_height(self.bpp);
        let bpp = self.bpp as int;
        let offset = address.offset as int;
        let in_utile = (offset % 64) * 8 + address.bit;
        let index = in_utile / bpp;
        let px = index % w;
        let py = index / w;
        lemma_utile_shape(self.bpp);
        lemma_pixel_position_bits(self.bpp, in_utile);
        lemma_ceil_div_positive(self.image_size.x as int, w);
        lemma_ceil_div_positive(self.image_size.x as int, tile_width(self.bpp));
        let utile = if self.is_large() {
            t_utile_position(self.tiles_per_row(), offset)
        } else {
            lt_utile_position(self.utiles_per_row(), offset)
        };
        if self.is_large() {
            lemma_t_utile_position_offset(self.tiles_per_row(), offset);
        } else {
            lemma_lt_utile_position_offset(self.utiles_per_row(), offset);
        }
        let c = self.coordinate_of(address);
        assert(c == (utile.0 * w + px, utile.1 * h + py));
        let coord = UVec2 { x: c.0 as u32, y: c.1 as u32 };
        assert(coord.x as int / w == utile.0 && coord.x as int % w == px) by {
            vstd::arithmetic::div_mod::lemma_fundamental_div_mod_converse(c.0, w, utile.0, px);
        }
        assert(coord.y as int / h == utile.1 && coord.y as int % h == py) by {
            vstd::arithmetic::div_mod::lemma_fundamental_div_mod_converse(c.1, h, utile.1, py);
        }
        let start = self.pixel_bits(coord);
        assert(start == (py * w + px) * bpp);
        assert(start <= in_utile < start + bpp);
        lemma_pixel_round_trip(self.bpp, px, py);
        assert(self.offset_of(coord) == offset - offset % 64 + start / 8);
        assert(self.bit_of(coord) == start % 8);
    }
}

/// The units that cover a positive length are at least one.
pub proof fn lemma_ceil_div_positive(total: int, d: int)
    requires
        0 < total,
        0 < d,
    ensures
        0 < ceil_div(total, d),
{
    lemma_cover(0, total, d);
}

/// A translation between the pixel coordinates of one image and the tile addresses of
/// its surface.
pub trait TranslatorTrait {
    /// The translator was made for a valid geometry and is consistent with it.
    spec fn wf(&self) -> bool;

    /// The geometry that the translator was made for.
    spec fn geometry(&self) -> Geometry;

    proof fn lemma_geometry_valid(&self)
        requires
            self.wf(),
        ensures
            self.geometry().valid(),
    ;

    /// The tile address of a pixel of the image.
    fn coordinate_to_tile_address(&self, coord: UVec2) -> (address: TileAddress)
        requires
            self.wf(),
            self.geometry().contains(coord),
        ensures
            address == self.geometry().address_of(coord),
            address.offset == self.geometry().offset_of(coord),
            address.bit == self.geometry().bit_of(coord),
    ;

    /// The coordinate of the pixel that holds an addressed bit.
    fn tile_address_to_coordinate(&self, address: TileAddress) -> (coord: UVec2)
        requires
            self.wf(),
            self.geometry().decodes(address),
        ensures
            (coord.x as int, coord.y as int) == self.geometry().coordinate_of(address),
    ;
}

/// Index of a sub-tile-group within its tile.
fn subtile_index_of(odd_row: bool, subtile_in_tile: UVec2) -> (index: u32)
    requires
        subtile_in_tile.x < 2,
        subtile_in_tile.y < 2,
    ensures
        index == subtile_index(odd_row, subtile_in_tile.x as int, subtile_in_tile.y as int),
        index < 4,
{
    if odd_row {
        if subtile_in_tile.x == 0 {
            if subtile_in_tile.y == 0 {
                2
            } else {
                3
            }
        } else {
            if subtile_in_tile.y == 0 {
                1
            } else {
                0
            }
        }
    } else {
        if subtile_in_tile.x == 0 {
            if subtile_in_tile.y == 0 {
                0
            } else {
                1
            }
        } else {
            if subtile_in_tile.y == 0 {
                3
            } else {
                2
            }
        }
    }
}

/// Column and row within its tile of a sub-tile-group.
fn subtile_position_of(odd_row: bool, index: u32) -> (position: UVec2)
    requires
        index < 4,
    ensures
        (position.x as int, position.y as int) == subtile_position(odd_row, index as int),
        position.x < 2,
        position.y < 2,
{
    if odd_row {
        if index == 0 {
            UVec2 { x: 1, y: 1 }
        } else if index == 1 {
            UVec2 { x: 1, y: 0 }
        } else if index == 2 {
            UVec2 { x: 0, y: 0 }
        } else {
            UVec2 { x: 0, y: 1 }
        }
    } else {
        if index == 0 {
            UVec2 { x: 0, y: 0 }
        } else if index == 1 {
            UVec2 { x: 0, y: 1 }
        } else if index == 2 {
            UVec2 { x: 1, y: 1 }
        } else {
            UVec2 { x: 1, y: 0 }
        }
    }
}

/// Whether the low bit of `val` is set.
fn is_odd(val: u32) -> (odd: bool)
    ensures
        odd == (val % 2 == 1),
{
    assert(val & 1 == val % 2) by (bit_vector);
    (val & 0x1) != 0
}

/// Byte and bit at which the pixel with the given index starts in its micro-tile.
fn pixel_byte_and_bit(pixel_index: u32, bpp_shift: u32) -> (r: (u32, u32))
    requires
        bpp_shift <= 6,
        pixel_index * pow2(bpp_shift as nat) < 512,
    ensures
        r.0 == (pixel_index * pow2(bpp_shift as nat)) / 8,
        r.1 == (pixel_index * pow2(bpp_shift as nat)) % 8,
{
    proof {
        lemma_u32_shl_is_mul(pixel_index, bpp_shift);
    }
    div_rem_u32(pixel_index << bpp_shift, 8)
}

/// Index in its micro-tile of the pixel that holds the given bit of the given byte.
fn pixel_index_at(pixel_byte: u32, bit: u8, bpp_shift: u32) -> (index: u32)
    requires
        bpp_shift <= 6,
        pixel_byte < 64,
        bit < 8,
    ensures
        index == (pixel_byte * 8 + bit) / (pow2(bpp_shift as nat) as int),
{
    proof {
        lemma_u32_shr_is_div((pixel_byte * 8 + bit as u32) as u32, bpp_shift);
    }
    (pixel_byte * 8 + bit as u32) >> bpp_shift
}

/// The translator of a large image, laid out in tiles.
pub struct TTranslator<Fac: U32Factor> {
    image_size: UVec2,
    utile_size: UVec2PowerOfTwoFactor,
    size_in_tile_x: Fac,
    bpp_shift: u32,
}

impl<Fac: U32Factor> TranslatorTrait for TTranslator<Fac> {
    closed spec fn wf(&self) -> bool {
        let g = self.geometry();
        &&& self.bpp_shift <= 6
        &&& g.valid()
        &&& g.is_large()
        &&& self.utile_size.wf()
        &&& self.utile_size.factor_x() == utile_width(g.bpp)
        &&& self.utile_size.factor_y() == utile_height(g.bpp)
        &&& self.size_in_tile_x.wf()
        &&& self.size_in_tile_x.value() == g.tiles_per_row()
    }

    closed spec fn geometry(&self) -> Geometry {
        Geometry { image_size: self.image_size, bpp: pow2(self.bpp_shift as nat) as u32 }
    }

    proof fn lemma_geometry_valid(&self) {
    }

    fn coordinate_to_tile_address(&self, coord: UVec2) -> (address: TileAddress) {
        let ghost g = self.geometry();
        let ghost n = g.tiles_per_row();
        proof {
            lemma2_to64();
            lemma_utile_shape(g.bpp);
            lemma_cover(coord.x as int, g.image_size.x as int, utile_width(g.bpp));
            lemma_cover(coord.y as int, g.image_size.y as int, utile_height(g.bpp));
            g.lemma_offset_in_bounds(coord);
        }
        let (utile_coord, pixel_in_utile) = self.utile_size.div_rem(coord);
        let (subtile_coord, utile_in_subtile) = UVec2PowerOfTwoFactor::new(2, 2).div_rem(
            utile_coord,
        );
        let (tile_coord, subtile_in_tile) = UVec2PowerOfTwoFactor::new(1, 1).div_rem(
            subtile_coord,
        );
        let ghost u = utile_coord.x as int;
        let ghost v = utile_coord.y as int;
        assert(tile_coord.x == u / 8 && tile_coord.y == v / 8);
        assert(subtile_in_tile.x == (u / 4) % 2 && subtile_in_tile.y == (v / 4) % 2);
        assert(utile_in_subtile.x == u % 4 && utile_in_subtile.y == v % 4);

        let odd = is_odd(tile_coord.y);
        let flipped_tile_coord_x = if odd {
            self.size_in_tile_x.factor() - tile_coord.x - 1
        } else {
            tile_coord.x
        };
        proof {
            lemma_t_utile_round_trip(n, u, v, 0);
            assert(tile_coord.y * n + flipped_tile_coord_x < (v / 8 + 1) * n) by (nonlinear_arith)
                requires
                    0 <= flipped_tile_coord_x < n,
                    tile_coord.y == v / 8,
            ;
            assert(0 <= tile_coord.y * n) by (nonlinear_arith)
                requires
                    0 <= n,
            ;
            assert((v / 8 + 1) * n <= g.tile_rows() * n) by (nonlinear_arith)
                requires
                    v / 8 + 1 <= g.tile_rows(),
                    0 <= n,
            ;
            assert(g.tile_rows() * n == n * g.tile_rows()) by (nonlinear_arith);
            assert(g.alloc_size() == (n * g.tile_rows()) * 4096);
        }
        let tile_index = self.size_in_tile_x.mul_add(tile_coord.y, flipped_tile_coord_x);
        let subtile_index = subtile_index_of(odd, subtile_in_tile);
        let utile_index = utile_in_subtile.y * 4 + utile_in_subtile.x;

        proof {
            lemma_pixel_round_trip(g.bpp, pixel_in_utile.x as int, pixel_in_utile.y as int);
        }
        let pixel_index = self.utile_size.mul_add_x(pixel_in_utile.y, pixel_in_utile.x);
        let (pixel_byte, pixel_bit) = pixel_byte_and_bit(pixel_index, self.bpp_shift);
        assert(tile_index * 4096 + subtile_index * 1024 + utile_index * 64 == t_utile_offset(
            n,
            u,
            v,
        )) by {
            reveal(t_utile_offset);
        }

        TileAddress {
            offset: tile_index * 4096 + subtile_index * 1024 + utile_index * 64 + pixel_byte,
            bit: pixel_bit as u8,
            lt: false,
        }
    }

    fn tile_address_to_coordinate(&self, address: TileAddress) -> (coord: UVec2) {
        let ghost g = self.geometry();
        let ghost n = g.tiles_per_row();
        let ghost w = utile_width(g.bpp);
        let ghost h = utile_height(g.bpp);
        let ghost target = g.coordinate_of(address);
        proof {
            lemma2_to64();
            lemma_utile_shape(g.bpp);
            self.size_in_tile_x.lemma_value_bounds();
        }
        let (abs_utile_index, pixel_byte) = div_rem_u32(address.offset, 64);
        let (abs_subtile_index, utile_index) = div_rem_u32(abs_utile_index, 16);
        let (tile_index, subtile_index) = div_rem_u32(abs_subtile_index, 4);
        assert(tile_index == address.offset / 4096);
        assert(subtile_index == (address.offset / 1024) % 4);

        let tile_row = self.size_in_tile_x.div(tile_index);
        let odd = is_odd(tile_row);
        let subtile_in_tile = subtile_position_of(odd, subtile_index);

        let (row, col) = self.size_in_tile_x.div_rem(tile_index);
        proof {
            vstd::arithmetic::div_mod::lemma_mod_pos_bound(tile_index as int, n);
        }
        let tile_coord = if odd {
            UVec2 { x: self.size_in_tile_x.factor() - col - 1, y: row }
        } else {
            UVec2 { x: col, y: row }
        };

        let (utile_y, utile_x) = div_rem_u32(utile_index, 4);
        let utile_in_subtile = UVec2 { x: utile_x, y: utile_y };

        let pixel_index = pixel_index_at(pixel_byte, address.bit, self.bpp_shift);
        let (pixel_y, pixel_x) = self.utile_size.div_rem_x(pixel_index);
        let pixel_in_utile = UVec2 { x: pixel_x, y: pixel_y };
        let ghost ux = (tile_coord.x * 2 + subtile_in_tile.x) * 4 + utile_x;
        let ghost uy = (tile_coord.y * 2 + subtile_in_tile.y) * 4 + utile_y;
        proof {
            assert(t_utile_position(n, address.offset as int) == (ux, uy)) by {
                reveal(t_utile_position);
            }
            assert(pixel_index < w * h) by (nonlinear_arith)
                requires
                    pixel_index == (pixel_byte * 8 + address.bit) / (g.bpp as int),
                    pixel_byte * 8 + address.bit < 512,
                    w * h * g.bpp == 512,
                    g.bpp > 0,
            ;
            vstd::arithmetic::div_mod::lemma_mod_pos_bound(pixel_index as int, w);
            vstd::arithmetic::div_mod::lemma_div_pos_is_pos(pixel_index as int, w);
            assert(pixel_y < h) by {
                vstd::arithmetic::div_mod::lemma_div_is_ordered(pixel_index as int, w * h - 1, w);
                vstd::arithmetic::div_mod::lemma_fundamental_div_mod_converse(
                    w * h - 1,
                    w,
                    h - 1,
                    w - 1,
                );
                assert(w * (h - 1) + (w - 1) == w * h - 1) by (nonlinear_arith);
            }
            assert(target == (ux * w + pixel_x, uy * h + pixel_y));
            assert(0 <= ux * w && 0 <= uy * h) by (nonlinear_arith)
                requires
                    0 <= ux,
                    0 <= uy,
                    0 < w,
                    0 < h,
            ;
            assert(ux <= ux * w && uy <= uy * h) by (nonlinear_arith)
                requires
                    0 <= ux,
                    0 <= uy,
                    0 < w,
                    0 < h,
            ;
        }

        let subtile_coord = UVec2PowerOfTwoFactor::new(1, 1).mul_add(tile_coord, subtile_in_tile);
        let utile_coord = UVec2PowerOfTwoFactor::new(2, 2).mul_add(subtile_coord, utile_in_subtile);
        self.utile_size.mul_add(utile_coord, pixel_in_utile)
    }
}

/// The translator of a small image, laid out in linear tiles.
pub struct LTTranslator<Fac: U32Factor> {
    image_size: UVec2,
    utile_size: UVec2PowerOfTwoFactor,
    size_in_utile_x: Fac,
    bpp_shift: u32,
}

impl<Fac: U32Factor> TranslatorTrait for LTTranslator<Fac> {
    closed spec fn wf(&self) -> bool {
        let g = self.geometry();
        &&& self.bpp_shift <= 6
        &&& g.valid()
        &&& !g.is_large()
        &&& self.utile_size.wf()
        &&& self.utile_size.factor_x() == utile_width(g.bpp)
        &&& self.utile_size.factor_y() == utile_height(g.bpp)
        &&& self.size_in_utile_x.wf()
        &&& self.size_in_utile_x.value() == g.utiles_per_row()
    }

    closed spec fn geometry(&self) -> Geometry {
        Geometry { image_size: self.image_size, bpp: pow2(self.bpp_shift as nat) as u32 }
    }

    proof fn lemma_geometry_valid(&self) {
    }

    fn coordinate_to_tile_address(&self, coord: UVec2) -> (address: TileAddress) {
        let ghost g = self.geometry();
        let ghost n = g.utiles_per_row();
        proof {
            lemma2_to64();
            lemma_utile_shape(g.bpp);
            lemma_cover(coord.x as int, g.image_size.x as int, utile_width(g.bpp));
            lemma_cover(coord.y as int, g.image_size.y as int, utile_height(g.bpp));
            g.lemma_offset_in_bounds(coord);
        }
        let (utile_coord, pixel_in_utile) = self.utile_size.div_rem(coord);
        proof {
            lemma_lt_utile_round_trip(n, utile_coord.x as int, utile_coord.y as int, 0);
            assert((utile_coord.y + 1) * n == utile_coord.y * n + n) by (nonlinear_arith);
            assert(0 <= utile_coord.y * n) by (nonlinear_arith)
                requires
                    0 <= n,
            ;
        }
        let utile_index = self.size_in_utile_x.mul_add(utile_coord.y, utile_coord.x);

        proof {
            lemma_pixel_round_trip(g.bpp, pixel_in_utile.x as int, pixel_in_utile.y as int);
        }
        let pixel_index = self.utile_size.mul_add_x(pixel_in_utile.y, pixel_in_utile.x);
        let (pixel_byte, pixel_bit) = pixel_byte_and_bit(pixel_index, self.bpp_shift);

        TileAddress { offset: utile_index * 64 + pixel_byte, bit: pixel_bit as u8, lt: true }
    }

    fn tile_address_to_coordinate(&self, address: TileAddress) -> (coord: UVec2) {
        let ghost g = self.geometry();
        let ghost n = g.utiles_per_row();
        let ghost w = utile_width(g.bpp);
        let ghost h = utile_height(g.bpp);
        let ghost target = g.coordinate_of(address);
        proof {
            lemma2_to64();
            lemma_utile_shape(g.bpp);
            self.size_in_utile_x.lemma_value_bounds();
        }
        let (utile_index, pixel_byte) = div_rem_u32(address.offset, 64);

        let pixel_index = pixel_index_at(pixel_byte, address.bit, self.bpp_shift);
        let (pixel_y, pixel_x) = self.utile_size.div_rem_x(pixel_index);
        let pixel_in_utile = UVec2 { x: pixel_x, y: pixel_y };

        let (utile_y, utile_x) = self.size_in_utile_x.div_rem(utile_index);
        let utile_coord = UVec2 { x: utile_x, y: utile_y };
        proof {
            assert(lt_utile_position(n, address.offset as int) == (
                utile_x as int,
                utile_y as int,
            ));
            assert(pixel_index < w * h) by (nonlinear_arith)
                requires
                    pixel_index == (pixel_byte * 8 + address.bit) / (g.bpp as int),
                    pixel_byte * 8 + address.bit < 512,
                    w * h * g.bpp == 512,
                    g.bpp > 0,
            ;
            vstd::arithmetic::div_mod::lemma_mod_pos_bound(pixel_index as int, w);
            vstd::arithmetic::div_mod::lemma_div_pos_is_pos(pixel_index as int, w);
            assert(pixel_y < h) by {
                vstd::arithmetic::div_mod::lemma_div_is_ordered(pixel_index as int, w * h - 1, w);
                vstd::arithmetic::div_mod::lemma_fundamental_div_mod_converse(
                    w * h - 1,
                    w,
                    h - 1,
                    w - 1,
                );
                assert(w * (h - 1) + (w - 1) == w * h - 1) by (nonlinear_arith);
            }
            assert(target == (utile_x * w + pixel_x, utile_y * h + pixel_y));
            assert(0 <= utile_x * w && 0 <= utile_y * h) by (nonlinear_arith)
                requires
                    0 < w,
                    0 < h,
            ;
        }

        self.utile_size.mul_add(utile_coord, pixel_in_utile)
    }
}

/// A positive power of two below `2^32`.
pub open spec fn is_power_of_two(val: int) -> bool {
    exists|k: nat| k < 32 && val == #[trigger] pow2(k)
}

/// Whether `val` is a power of two.
pub fn u32_is_power_of_two(val: u32) -> (r: bool)
    ensures
        r == is_power_of_two(val as int),
        r ==> val == pow2(val.trailing_zeros() as nat) && val.trailing_zeros() < 32,
{
    let r = val != 0 && (val & (val - 1)) == 0;
    proof {
        let tz = val.trailing_zeros();
        vstd::std_specs::bits::axiom_u32_trailing_zeros(val);
        if r {
            assert(val == 1u32 << tz) by (bit_vector)
                requires
                    tz < 32,
                    val != 0,
                    (val >> tz) & 1u32 == 1u32,
                    val & ((val - 1) as u32) == 0,
                    val << ((32 - tz) as u32) == 0 || tz == 0,
            ;
            lemma_one_shl_is_pow2(tz);
            assert(val == pow2(tz as nat));
        }
        if is_power_of_two(val as int) {
            let k = choose|k: nat| k < 32 && val == #[trigger] pow2(k);
            let k32 = k as u32;
            lemma_one_shl_is_pow2(k32);
            assert(val != 0 && val & ((val - 1) as u32) == 0) by (bit_vector)
                requires
                    val == 1u32 << k32,
                    k32 < 32,
            ;
        }
    }
    r
}

/// The translator of one image: one of four variants, picked when it is made.
pub enum Translator {
    TTranslatorPOT(TTranslator<U32PowerOfTwoFactor>),
    TTranslatorNPOT(TTranslator<U32NonPowerOfTwoFactor>),
    LTTranslatorPOT(LTTranslator<U32PowerOfTwoFactor>),
    LTTranslatorNPOT(LTTranslator<U32NonPowerOfTwoFactor>),
}

impl TranslatorTrait for Translator {
    /// The variant's own consistency; the tiled variants hold a large image, and the
    /// power-of-two variants a row length that is a power of two.
    open spec fn wf(&self) -> bool {
        match self {
            Translator::TTranslatorPOT(t) => t.wf() && is_power_of_two(
                t.geometry().tiles_per_row(),
            ),
            Translator::TTranslatorNPOT(t) => t.wf() && !is_power_of_two(
                t.geometry().tiles_per_row(),
            ),
            Translator::LTTranslatorPOT(t) => t.wf() && is_power_of_two(
                t.geometry().utiles_per_row(),
            ),
            Translator::LTTranslatorNPOT(t) => t.wf() && !is_power_of_two(
                t.geometry().utiles_per_row(),
            ),
        }
    }

    open spec fn geometry(&self) -> Geometry {
        match self {
            Translator::TTranslatorPOT(t) => t.geometry(),
            Translator::TTranslatorNPOT(t) => t.geometry(),
            Translator::LTTranslatorPOT(t) => t.geometry(),
            Translator::LTTranslatorNPOT(t) => t.geometry(),
        }
    }

    proof fn lemma_geometry_valid(&self) {
        match self {
            Translator::TTranslatorPOT(t) => t.lemma_geometry_valid(),
            Translator::TTranslatorNPOT(t) => t.lemma_geometry_valid(),
            Translator::LTTranslatorPOT(t) => t.lemma_geometry_valid(),
            Translator::LTTranslatorNPOT(t) => t.lemma_geometry_valid(),
        }
    }

    fn coordinate_to_tile_address(&self, coord: UVec2) -> (address: TileAddress) {
        match self {
            Translator::TTranslatorPOT(t) => t.coordinate_to_tile_address(coord),
            Translator::TTranslatorNPOT(t) => t.coordinate_to_tile_address(coord),
            Translator::LTTranslatorPOT(t) => t.coordinate_to_tile_address(coord),
            Translator::LTTranslatorNPOT(t) => t.coordinate_to_tile_address(coord),
        }
    }

    fn tile_address_to_coordinate(&self, address: TileAddress) -> (coord: UVec2) {
        match self {
            Translator::TTranslatorPOT(t) => t.tile_address_to_coordinate(address),
            Translator::TTranslatorNPOT(t) => t.tile_address_to_coordinate(address),
            Translator::LTTranslatorPOT(t) => t.tile_address_to_coordinate(address),
            Translator::LTTranslatorNPOT(t) => t.tile_address_to_coordinate(address),
        }
    }
}

/// The rounded-up quotient is the quotient, and one more where a remainder is left.
pub proof fn lemma_ceil_div_parts(a: int, d: int)
    requires
        0 <= a,
        0 < d,
    ensures
        ceil_div(a, d) == a / d + if a % d != 0 {
            1int
        } else {
            0int
        },
{
    vstd::arithmetic::div_mod::lemma_fundamental_div_mod(a, d);
    vstd::arithmetic::div_mod::lemma_mod_pos_bound(a, d);
    vstd::arithmetic::mul::lemma_mul_is_commutative(d, a / d);
    if a % d == 0 {
        vstd::arithmetic::div_mod::lemma_fundamental_div_mod_converse(a + d - 1, d, a / d, d - 1);
    } else {
        assert((a / d) * d + d == (a / d + 1) * d) by (nonlinear_arith);
        vstd::arithmetic::div_mod::lemma_fundamental_div_mod_converse(
            a + d - 1,
            d,
            a / d + 1,
            a % d - 1,
        );
    }
}

/// Rounding up through two granularities is rounding up through their product.
pub proof fn lemma_ceil_div_twice(a: int, b: int, c: int)
    requires
        0 < a,
        0 < b,
        0 < c,
    ensures
        ceil_div(ceil_div(a, b), c) == ceil_div(a, b * c),
        0 < ceil_div(a, b) <= a,
{
    vstd::arithmetic::div_mod::lemma_div_plus_one(a - 1, b);
    vstd::arithmetic::div_mod::lemma_div_pos_is_pos(a - 1, b);
    let first = ceil_div(a, b);
    assert(first == (a - 1) / b + 1);
    vstd::arithmetic::div_mod::lemma_div_plus_one(first - 1, c);
    vstd::arithmetic::div_mod::lemma_div_denominator(a - 1, b, c);
    vstd::arithmetic::mul::lemma_mul_strictly_positive(b, c);
    vstd::arithmetic::div_mod::lemma_div_plus_one(a - 1, b * c);
    vstd::arithmetic::div_mod::lemma_div_is_ordered_by_denominator(a - 1, 1, b);
    vstd::arithmetic::div_mod::lemma_div_basics(a - 1);
}

impl Translator {
    /// The size of the image that the translator was made for.
    pub fn image_size(&self) -> (size: UVec2)
        ensures
            size == self.geometry().image_size,
    {
        match self {
            Translator::TTranslatorPOT(t) => t.image_size,
            Translator::TTranslatorNPOT(t) => t.image_size,
            Translator::LTTranslatorPOT(t) => t.image_size,
            Translator::LTTranslatorNPOT(t) => t.image_size,
        }
    }

    /// Bytes that the surface of an image of the given size and depth occupies, where
    /// the geometry is valid: a supported depth, no zero dimension, and a size that
    /// fits 32 bits.
    pub fn alloc_size(image_size: UVec2, bpp: u32) -> (size: Option<u32>)
        ensures
            size.is_some() <==> (Geometry { image_size, bpp }).valid(),
            size matches Some(n) ==> n == (Geometry { image_size, bpp }).alloc_size(),
    {
        let ghost g = Geometry { image_size, bpp };
        let (shift_x, shift_y): (u32, u32) = if bpp == 64 {
            (1, 2)
        } else if bpp == 32 {
            (2, 2)
        } else if bpp == 16 {
            (3, 2)
        } else if bpp == 8 {
            (3, 3)
        } else if bpp == 4 {
            (4, 3)
        } else if bpp == 1 {
            (5, 4)
        } else {
            return None;
        };
        if image_size.x == 0 || image_size.y == 0 {
            return None;
        }
        proof {
            lemma2_to64();
            lemma_utile_shape(bpp);
        }
        let utile_size = UVec2PowerOfTwoFactor::new(shift_x, shift_y);
        let (size_in_utile, _) = utile_size.div_rem(image_size);
        let large = size_in_utile.x >= 4 && size_in_utile.y >= 4;
        let (unit_size, unit_bytes): (UVec2PowerOfTwoFactor, u64) = if large {
            (UVec2PowerOfTwoFactor::new(shift_x + 3, shift_y + 3), 4096)
        } else {
            (utile_size, 64)
        };
        let (whole, rest) = unit_size.div_rem(image_size);
        let columns: u64 = if rest.x != 0 {
            whole.x as u64 + 1
        } else {
            whole.x as u64
        };
        let rows: u64 = if rest.y != 0 {
            whole.y as u64 + 1
        } else {
            whole.y as u64
        };
        proof {
            let fx = unit_size.factor_x() as int;
            let fy = unit_size.factor_y() as int;
            assert(fx == if large {
                tile_width(bpp)
            } else {
                utile_width(bpp)
            });
            assert(fy == if large {
                tile_height(bpp)
            } else {
                utile_height(bpp)
            });
            lemma_ceil_div_parts(image_size.x as int, fx);
            lemma_ceil_div_parts(image_size.y as int, fy);
            assert(columns == ceil_div(image_size.x as int, fx));
            assert(rows == ceil_div(image_size.y as int, fy));
            assert(g.alloc_size() == columns * rows * unit_bytes);
            assert(columns * rows <= 0x1_0000_0000 * 0x1_0000_0000) by (nonlinear_arith)
                requires
                    0 <= columns <= 0x1_0000_0000,
                    0 <= rows <= 0x1_0000_0000,
            ;
            assert(0 <= columns * rows) by (nonlinear_arith)
                requires
                    0 <= columns,
                    0 <= rows,
            ;
            assert(rows <= columns * rows) by (nonlinear_arith)
                requires
                    1 <= columns,
                    0 <= rows,
            ;
        }
        if rows > 0xffff_ffff || columns > 0xffff_ffff / rows {
            proof {
                if rows <= 0xffff_ffff {
                    assert(columns * rows > 0xffff_ffff) by (nonlinear_arith)
                        requires
                            columns > 0xffff_ffffu64 / rows,
                            rows > 0,
                    ;
                }
            }
            return None;
        }
        assert(columns * rows <= 0xffff_ffff) by (nonlinear_arith)
            requires
                columns <= 0xffff_ffffu64 / rows,
                rows > 0,
                columns >= 0,
        ;
        let units: u64 = columns * rows;
        if units > 0xffff_ffff / unit_bytes {
            return None;
        }
        Some((units * unit_bytes) as u32)
    }

    /// The translator for an image of the given size and depth. A large image gets a
    /// tiled translator, a small one a linear-tile translator; either divides by shifts
    /// where the length of its rows is a power of two.
    pub fn new(image_size: UVec2, bpp: u32) -> (t: Translator)
        requires
            (Geometry { image_size, bpp }).valid(),
        ensures
            t.wf(),
            t.geometry() == (Geometry { image_size, bpp }),
            (t is TTranslatorPOT || t is TTranslatorNPOT) <==> t.geometry().is_large(),
            (t is TTranslatorPOT) ==> is_power_of_two(t.geometry().tiles_per_row()),
            (t is TTranslatorNPOT) ==> !is_power_of_two(t.geometry().tiles_per_row()),
            (t is LTTranslatorPOT) ==> is_power_of_two(t.geometry().utiles_per_row()),
            (t is LTTranslatorNPOT) ==> !is_power_of_two(t.geometry().utiles_per_row()),
    {
        let ghost g = Geometry { image_size, bpp };
        proof {
            lemma2_to64();
            lemma_utile_shape(bpp);
        }
        let (shift_x, shift_y, bpp_shift): (u32, u32, u32) = if bpp == 64 {
            (1, 2, 6)
        } else if bpp == 32 {
            (2, 2, 5)
        } else if bpp == 16 {
            (3, 2, 4)
        } else if bpp == 8 {
            (3, 3, 3)
        } else if bpp == 4 {
            (4, 3, 2)
        } else {
            (5, 4, 0)
        };
        let utile_size = UVec2PowerOfTwoFactor::new(shift_x, shift_y);
        assert(bpp == pow2(bpp_shift as nat));
        assert(utile_size.factor_x() == utile_width(bpp));
        assert(utile_size.factor_y() == utile_height(bpp));
        proof {
            lemma_u32_shl_is_mul(4, shift_x);
            lemma_u32_shl_is_mul(4, shift_y);
        }
        let size_in_utile_x = utile_size.round_up_div_x(image_size.x);
        proof {
            lemma_ceil_div_twice(image_size.x as int, utile_width(bpp), 8);
            assert(utile_width(bpp) * 8 == 8 * utile_width(bpp));
        }

        if image_size.x < (4u32 << shift_x) || image_size.y < (4u32 << shift_y) {
            if u32_is_power_of_two(size_in_utile_x) {
                Translator::LTTranslatorPOT(
                    LTTranslator {
                        image_size,
                        utile_size,
                        size_in_utile_x: U32PowerOfTwoFactor {
                            shift: size_in_utile_x.trailing_zeros(),
                            mask: size_in_utile_x - 1,
                        },
                        bpp_shift,
                    },
                )
            } else {
                Translator::LTTranslatorNPOT(
                    LTTranslator {
                        image_size,
                        utile_size,
                        size_in_utile_x: U32NonPowerOfTwoFactor(size_in_utile_x),
                        bpp_shift,
                    },
                )
            }
        } else {
            let size_in_subtile_x = UVec2PowerOfTwoFactor::new(2, 2).round_up_div_x(
                size_in_utile_x,
            );
            let size_in_tile_x = UVec2PowerOfTwoFactor::new(1, 1).round_up_div_x(
                size_in_subtile_x,
            );
            proof {
                lemma_ceil_div_twice(size_in_utile_x as int, 4, 2);
                assert(size_in_tile_x == g.tiles_per_row());
            }
            if u32_is_power_of_two(size_in_tile_x) {
                Translator::TTranslatorPOT(
                    TTranslator {
                        image_size,
                        utile_size,
                        size_in_tile_x: U32PowerOfTwoFactor {
                            shift: size_in_tile_x.trailing_zeros(),
                            mask: size_in_tile_x - 1,
                        },
                        bpp_shift,
                    },
                )
            } else {
                Translator::TTranslatorNPOT(
                    TTranslator {
                        image_size,
                        utile_size,
                        size_in_tile_x: U32NonPowerOfTwoFactor(size_in_tile_x),
                        bpp_shift,
                    },
                )
            }
        }
    }
}

} // verus!
