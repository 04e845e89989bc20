//! The records of the control lists: the packets of the binning list, the shader and
//! attribute records, and the configuration words of textures, each with its bytes.

use vstd::arithmetic::power2::*;
use vstd::bits::*;
use vstd::prelude::*;

verus! {

/// The two bytes of `v`, least significant first.
pub open spec fn le_bytes_u16(v: u16) -> Seq<u8> {
    seq![(v % 256) as u8, (v / 256) as u8]
}

/// The four bytes of `v`, least significant first.
pub open spec fn le_bytes_u32(v: u32) -> Seq<u8> {
    seq![
        (v % 256) as u8,
        ((v / 0x100) % 256) as u8,
        ((v / 0x1_0000) % 256) as u8,
        (v / 0x100_0000) as u8,
    ]
}

/// Appends the two bytes of `v`, least significant first.
pub fn write_u16_le(writer: &mut Vec<u8>, v: u16)
    ensures
        final(writer)@ == old(writer)@ + le_bytes_u16(v),
{
    assert(v & 0xff == v % 256 && v >> 8 == v / 256) by (bit_vector);
    writer.push((v & 0xff) as u8);
    writer.push((v >> 8) as u8);
    assert(writer@ =~= old(writer)@ + le_bytes_u16(v));
}

/// Appends the four bytes of `v`, least significant first.
pub fn write_u32_le(writer: &mut Vec<u8>, v: u32)
    ensures
        final(writer)@ == old(writer)@ + le_bytes_u32(v),
{
    assert(v & 0xff == v % 256 && (v >> 8) & 0xff == (v / 0x100) % 256 && (v >> 16) & 0xff == (v
        / 0x1_0000) % 256 && v >> 24 == v / 0x100_0000) by (bit_vector);
    writer.push((v & 0xff) as u8);
    writer.push(((v >> 8) & 0xff) as u8);
    writer.push(((v >> 16) & 0xff) as u8);
    writer.push((v >> 24) as u8);
    assert(writer@ =~= old(writer)@ + le_bytes_u32(v));
}

/// Appends the bytes of `bytes` in order.
pub fn write_all(writer: &mut Vec<u8>, bytes: &[u8])
    ensures
        final(writer)@ == old(writer)@ + bytes@,
{
    let mut i: usize = 0;
    while i < bytes.len()
        invariant
            i <= bytes.len(),
            writer@ == old(writer)@ + bytes@.subrange(0, i as int),
        decreases bytes.len() - i,
    {
        writer.push(bytes[i]);
        i += 1;
        assert(writer@ =~= old(writer)@ + bytes@.subrange(0, i as int));
    }
    assert(bytes@.subrange(0, i as int) =~= bytes@);
}

/// The value `v` placed in the bit field that runs from bit `start` to bit `end` of a
/// byte. The field is narrower than the byte and holds `v` whole.
pub fn gen_u8(v: u8, start: usize, end: usize) -> (r: u8)
    requires
        start <= end < 8,
        end - start + 1 < 8,
        v < pow2((end - start + 1) as nat),
    ensures
        r == v * pow2(start as nat),
        r == v << start,
{
    proof {
        let width = (end - start + 1) as nat;
        lemma_pow2_adds(width, start as nat);
        lemma2_to64();
        if end + 1 < 8 {
            lemma_pow2_strictly_increases((end + 1) as nat, 8);
        }
        assert(v * pow2(start as nat) < pow2(width) * pow2(start as nat)) by (nonlinear_arith)
            requires
                v < pow2(width),
                0 < pow2(start as nat),
        ;
        lemma_u8_shl_is_mul(v, start as u8);
    }
    v << start
}

/// The value `v` placed in the bit field that runs from bit `start` to bit `end` of a
/// word. The field is narrower than the word and holds `v` whole.
pub fn gen_u32(v: u32, start: usize, end: usize) -> (r: u32)
    requires
        start <= end < 32,
        end - start + 1 < 32,
        v < pow2((end - start + 1) as nat),
    ensures
        r == v * pow2(start as nat),
{
    proof {
        let width = (end - start + 1) as nat;
        lemma_pow2_adds(width, start as nat);
        lemma2_to64();
        if end + 1 < 32 {
            lemma_pow2_strictly_increases((end + 1) as nat, 32);
        }
        assert(v * pow2(start as nat) < pow2(width) * pow2(start as nat)) by (nonlinear_arith)
            requires
                v < pow2(width),
                0 < pow2(start as nat),
        ;
        lemma_u32_shl_is_mul(v, start as u32);
    }
    v << start
}

/// Quotient of `n` by `d`, rounded towards positive infinity.
pub open spec fn spec_div_round_up(n: int, d: int) -> int
    recommends
        d > 0,
{
    (n + d - 1) / d
}

/// A number whose rounded-up quotient by `d` is at most `q` is at most `q * d`.
pub proof fn lemma_div_round_up_bound(n: int, d: int, q: int)
    requires
        0 <= n,
        0 < d,
        spec_div_round_up(n, d) <= q,
    ensures
        n <= q * d,
{
    let m = n + d - 1;
    vstd::arithmetic::div_mod::lemma_fundamental_div_mod(m, d);
    vstd::arithmetic::div_mod::lemma_mod_pos_bound(m, d);
    assert(d * (m / d) <= d * q) by (nonlinear_arith)
        requires
            m / d <= q,
            0 < d,
    ;
    assert(d * q == q * d) by (nonlinear_arith);
}

/// Quotient of `n` by `d`, rounded up, for operands whose sum fits 16 bits.
pub fn div_round_up(n: u16, d: u16) -> (r: u16)
    requires
        d > 0,
        n + d <= u16::MAX,
    ensures
        r == spec_div_round_up(n as int, d as int),
{
    (n + d - 1) / d
}

/// The value of `v` as a byte, for a value that is one.
pub fn checked_into(v: u16) -> (r: u8)
    requires
        v <= u8::MAX,
    ensures
        r == v,
{
    v as u8
}

/// One for a flag that is set, zero for one that is not.
pub open spec fn bit(flag: bool) -> int {
    if flag {
        1
    } else {
        0
    }
}

/// One for a flag that is set, zero for one that is not.
pub fn bit_u8(flag: bool) -> (r: u8)
    ensures
        r == bit(flag),
{
    if flag {
        1
    } else {
        0
    }
}

/// The opcodes of the packets of the binning list.
pub const V3D21_FLUSH: u8 = 4;

pub const V3D21_START_TILE_BINNING: u8 = 6;

pub const V3D21_INCREMENT_SEMAPHORE: u8 = 7;

pub const V3D21_INDEXED_PRIMITIVE_LIST: u8 = 32;

pub const V3D21_VERTEX_ARRAY_PRIMITIVES: u8 = 33;

pub const V3D21_GL_SHADER_STATE: u8 = 64;

pub const V3D21_CONFIGURATION_BITS: u8 = 96;

pub const V3D21_FLAT_SHADE_FLAGS: u8 = 97;

pub const V3D21_POINT_SIZE: u8 = 98;

pub const V3D21_LINE_WIDTH: u8 = 99;

pub const V3D21_DEPTH_OFFSET: u8 = 101;

pub const V3D21_CLIP_WINDOW: u8 = 102;

pub const V3D21_VIEWPORT_OFFSET: u8 = 103;

pub const V3D21_CLIPPER_XY_SCALING: u8 = 105;

pub const V3D21_CLIPPER_Z_SCALE_AND_OFFSET: u8 = 106;

pub const V3D21_TILE_BINNING_MODE_CONFIGURATION: u8 = 112;

pub const V3D21_GEM_RELOCATIONS: u8 = 254;

/// A record with a fixed byte layout in one of the control streams.
pub trait BinClStructure {
    /// Every field fits the width that the layout gives it.
    spec fn encodable(&self) -> bool;

    /// The bytes of the record.
    spec fn packet(&self) -> Seq<u8>;

    /// Appends the bytes of the record to `writer`.
    fn encode(&self, writer: &mut Vec<u8>)
        requires
            self.encodable(),
        ensures
            final(writer)@ == old(writer)@ + self.packet(),
    ;
}

/// Size of the blocks in which tile allocation memory is handed out.
#[derive(Clone, Copy, Debug, PartialEq, Eq, Structural)]
pub enum TileBlockSize {
    Size32,
    Size64,
    Size128,
    Size256,
}

impl TileBlockSize {
    /// The two-bit code of the block size.
    pub open spec fn spec_code(self) -> u8 {
        match self {
            TileBlockSize::Size32 => 0,
            TileBlockSize::Size64 => 1,
            TileBlockSize::Size128 => 2,
            TileBlockSize::Size256 => 3,
        }
    }

    /// The two-bit code of the block size.
    pub fn code(self) -> (r: u8)
        ensures
            r == self.spec_code(),
    {
        match self {
            TileBlockSize::Size32 => 0,
            TileBlockSize::Size64 => 1,
            TileBlockSize::Size128 => 2,
            TileBlockSize::Size256 => 3,
        }
    }
}

/// The packet that configures tile binning for a render target.
#[derive(Clone, Copy, Debug, PartialEq, Eq, Structural)]
pub struct TileBinningModeConfiguration {
    pub tile_allocation_memory_address: u32,
    pub tile_allocation_memory_size: u32,
    pub tile_state_data_array_address: u32,
    pub width_in_tiles: u8,
    pub height_in_tiles: u8,
    pub multisample_mode_4x: bool,
    pub tile_buffer_64_bit_color_depth: bool,
    pub auto_initialise_tile_state_data_array: bool,
    pub tile_allocation_initial_block_size: TileBlockSize,
    pub tile_allocation_block_size: TileBlockSize,
    pub double_buffer_in_non_ms_mode: bool,
}

impl TileBinningModeConfiguration {
    /// Width in pixels of a tile of the render target: 64, halved by multisampling.
    pub open spec fn tile_width(&self) -> int {
        if self.multisample_mode_4x {
            32
        } else {
            64
        }
    }

    /// Height in pixels of a tile of the render target: 64, halved by multisampling
    /// and halved again by 64-bit colour.
    pub open spec fn tile_height(&self) -> int {
        let h: int = if self.multisample_mode_4x {
            32
        } else {
            64
        };
        if self.tile_buffer_64_bit_color_depth {
            h / 2
        } else {
            h
        }
    }

    /// Whether the tiles that cover a target of the given size can be counted in a
    /// byte along each axis.
    pub open spec fn fits(&self, width: u16, height: u16) -> bool {
        &&& spec_div_round_up(width as int, self.tile_width()) <= u8::MAX
        &&& spec_div_round_up(height as int, self.tile_height()) <= u8::MAX
    }

    /// The flag byte that ends the packet.
    pub open spec fn flags(&self) -> int {
        bit(self.double_buffer_in_non_ms_mode) * 128 + self.tile_allocation_block_size.spec_code()
            * 32 + self.tile_allocation_initial_block_size.spec_code() * 8 + bit(
            self.auto_initialise_tile_state_data_array,
        ) * 4 + bit(self.tile_buffer_64_bit_color_depth) * 2 + bit(self.multisample_mode_4x)
    }

    /// Sets the size of the target in tiles from its size in pixels.
    pub fn set_size_in_pixels(&mut self, width: u16, height: u16)
        requires
            old(self).fits(width, height),
        ensures
            final(self).width_in_tiles == spec_div_round_up(
                width as int,
                old(self).tile_width(),
            ),
            final(self).height_in_tiles == spec_div_round_up(
                height as int,
                old(self).tile_height(),
            ),
            *final(self) == (TileBinningModeConfiguration {
                width_in_tiles: final(self).width_in_tiles,
                height_in_tiles: final(self).height_in_tiles,
                ..*old(self)
            }),
    {
        let mut tile_size_w: u16 = 64;
        let mut tile_size_h: u16 = 64;

        if self.multisample_mode_4x {
            tile_size_w = tile_size_w / 2;
            tile_size_h = tile_size_h / 2;
        }
        if self.tile_buffer_64_bit_color_depth {
            tile_size_h = tile_size_h / 2;
        }
        proof {
            assert(tile_size_w == self.tile_width() && tile_size_h == self.tile_height());
            lemma_div_round_up_bound(width as int, tile_size_w as int, 255);
            lemma_div_round_up_bound(height as int, tile_size_h as int, 255);
        }
        self.width_in_tiles = checked_into(div_round_up(width, tile_size_w));
        self.height_in_tiles = checked_into(div_round_up(height, tile_size_h));
    }
}

impl TileBinningModeConfiguration {
    /// The configuration with every address and size zero, every flag off and blocks
    /// of 32 bytes.
    pub open spec fn spec_default() -> TileBinningModeConfiguration {
        TileBinningModeConfiguration {
            tile_allocation_memory_address: 0,
            tile_allocation_memory_size: 0,
            tile_state_data_array_address: 0,
            width_in_tiles: 0,
            height_in_tiles: 0,
            multisample_mode_4x: false,
            tile_buffer_64_bit_color_depth: false,
            auto_initialise_tile_state_data_array: false,
            tile_allocation_initial_block_size: TileBlockSize::Size32,
            tile_allocation_block_size: TileBlockSize::Size32,
            double_buffer_in_non_ms_mode: false,
        }
    }
}

impl Default for TileBinningModeConfiguration {
    fn default() -> (config: Self)
        ensures
            config == Self::spec_default(),
    {
        TileBinningModeConfiguration {
            tile_allocation_memory_address: 0,
            tile_allocation_memory_size: 0,
            tile_state_data_array_address: 0,
            width_in_tiles: 0,
            height_in_tiles: 0,
            multisample_mode_4x: false,
            tile_buffer_64_bit_color_depth: false,
            auto_initialise_tile_state_data_array: false,
            tile_allocation_initial_block_size: TileBlockSize::Size32,
            tile_allocation_block_size: TileBlockSize::Size32,
            double_buffer_in_non_ms_mode: false,
        }
    }
}

impl BinClStructure for TileBinningModeConfiguration {
    open spec fn encodable(&self) -> bool {
        true
    }

    open spec fn packet(&self) -> Seq<u8> {
        seq![V3D21_TILE_BINNING_MODE_CONFIGURATION] + le_bytes_u32(
            self.tile_allocation_memory_address,
        ) + le_bytes_u32(self.tile_allocation_memory_size) + le_bytes_u32(
            self.tile_state_data_array_address,
        ) + seq![self.width_in_tiles, self.height_in_tiles, self.flags() as u8]
    }

    fn encode(&self, writer: &mut Vec<u8>) {
        proof {
            lemma2_to64();
        }
        writer.push(V3D21_TILE_BINNING_MODE_CONFIGURATION);
        write_u32_le(writer, self.tile_allocation_memory_address);
        write_u32_le(writer, self.tile_allocation_memory_size);
        write_u32_le(writer, self.tile_state_data_array_address);
        writer.push(self.width_in_tiles);
        writer.push(self.height_in_tiles);
        let f7 = gen_u8(bit_u8(self.double_buffer_in_non_ms_mode), 7, 7);
        let f5 = gen_u8(self.tile_allocation_block_size.code(), 5, 6);
        let f3 = gen_u8(self.tile_allocation_initial_block_size.code(), 3, 4);
        let f2 = gen_u8(bit_u8(self.auto_initialise_tile_state_data_array), 2, 2);
        let f1 = gen_u8(bit_u8(self.tile_buffer_64_bit_color_depth), 1, 1);
        let f0 = gen_u8(bit_u8(self.multisample_mode_4x), 0, 0);
        assert((f7 | f5 | f3 | f2 | f1 | f0) == f7 + f5 + f3 + f2 + f1 + f0) by (bit_vector)
            requires
                f7 == 0 || f7 == 128,
                f5 == 0 || f5 == 32 || f5 == 64 || f5 == 96,
                f3 == 0 || f3 == 8 || f3 == 16 || f3 == 24,
                f2 == 0 || f2 == 4,
                f1 == 0 || f1 == 2,
                f0 == 0 || f0 == 1,
        ;
        writer.push(f7 | f5 | f3 | f2 | f1 | f0);
        assert(writer@ =~= old(writer)@ + self.packet());
    }
}

/// The packet that starts tile binning. The hardware forgets on it which state it has seen.
#[derive(Clone, Copy, Debug, PartialEq, Eq, Structural)]
pub struct StartTileBinning;

impl BinClStructure for StartTileBinning {
    open spec fn encodable(&self) -> bool {
        true
    }

    open spec fn packet(&self) -> Seq<u8> {
        seq![V3D21_START_TILE_BINNING]
    }

    fn encode(&self, writer: &mut Vec<u8>) {
        writer.push(V3D21_START_TILE_BINNING);
        assert(writer@ =~= old(writer)@ + self.packet());
    }
}

/// The packet that tells the render stage that binning is done, once the flush that
/// follows it lands.
#[derive(Clone, Copy, Debug, PartialEq, Eq, Structural)]
pub struct IncrementSemaphore;

impl BinClStructure for IncrementSemaphore {
    open spec fn encodable(&self) -> bool {
        true
    }

    open spec fn packet(&self) -> Seq<u8> {
        seq![V3D21_INCREMENT_SEMAPHORE]
    }

    fn encode(&self, writer: &mut Vec<u8>) {
        writer.push(V3D21_INCREMENT_SEMAPHORE);
        assert(writer@ =~= old(writer)@ + self.packet());
    }
}

/// The packet that ends every per-tile command list.
#[derive(Clone, Copy, Debug, PartialEq, Eq, Structural)]
pub struct Flush;

impl BinClStructure for Flush {
    open spec fn encodable(&self) -> bool {
        true
    }

    open spec fn packet(&self) -> Seq<u8> {
        seq![V3D21_FLUSH]
    }

    fn encode(&self, writer: &mut Vec<u8>) {
        writer.push(V3D21_FLUSH);
        assert(writer@ =~= old(writer)@ + self.packet());
    }
}

/// The width of lines.
#[derive(Clone, Copy, Debug, PartialEq, Eq, Structural)]
pub struct LineWidth {
    /// The bits of the value in IEEE 754 single precision.
    pub line_width: u32,
}

impl BinClStructure for LineWidth {
    open spec fn encodable(&self) -> bool {
        true
    }

    open spec fn packet(&self) -> Seq<u8> {
        seq![V3D21_LINE_WIDTH] + le_bytes_u32(self.line_width)
    }

    fn encode(&self, writer: &mut Vec<u8>) {
        writer.push(V3D21_LINE_WIDTH);
        write_u32_le(writer, self.line_width);
        assert(writer@ =~= old(writer)@ + self.packet());
    }
}

/// The clip window, in pixels.
#[derive(Clone, Copy, Debug, PartialEq, Eq, Structural)]
pub struct ClipWindow {
    pub clip_window_left_pixel_coordinate: u16,
    pub clip_window_bottom_pixel_coordinate: u16,
    pub clip_window_width_in_pixels: u16,
    pub clip_window_height_in_pixels: u16,
}

impl BinClStructure for ClipWindow {
    open spec fn encodable(&self) -> bool {
        true
    }

    open spec fn packet(&self) -> Seq<u8> {
        seq![V3D21_CLIP_WINDOW]
            + le_bytes_u16(self.clip_window_left_pixel_coordinate)
            + le_bytes_u16(self.clip_window_bottom_pixel_coordinate)
            + le_bytes_u16(self.clip_window_width_in_pixels)
            + le_bytes_u16(self.clip_window_height_in_pixels)
    }

    fn encode(&self, writer: &mut Vec<u8>) {
        writer.push(V3D21_CLIP_WINDOW);
        write_u16_le(writer, self.clip_window_left_pixel_coordinate);
        write_u16_le(writer, self.clip_window_bottom_pixel_coordinate);
        write_u16_le(writer, self.clip_window_width_in_pixels);
        write_u16_le(writer, self.clip_window_height_in_pixels);
        assert(writer@ =~= old(writer)@ + self.packet());
    }
}

/// Half the size of the viewport, in sixteenths of a pixel.
#[derive(Clone, Copy, Debug, PartialEq, Eq, Structural)]
pub struct ClipperXYScaling {
    /// The bits of the value in IEEE 754 single precision.
    pub viewport_half_width_in_1_16th_of_pixel: u32,
    /// The bits of the value in IEEE 754 single precision.
    pub viewport_half_height_in_1_16th_of_pixel: u32,
}

impl BinClStructure for ClipperXYScaling {
    open spec fn encodable(&self) -> bool {
        true
    }

    open spec fn packet(&self) -> Seq<u8> {
        seq![V3D21_CLIPPER_XY_SCALING]
            + le_bytes_u32(self.viewport_half_width_in_1_16th_of_pixel)
            + le_bytes_u32(self.viewport_half_height_in_1_16th_of_pixel)
    }

    fn encode(&self, writer: &mut Vec<u8>) {
        writer.push(V3D21_CLIPPER_XY_SCALING);
        write_u32_le(writer, self.viewport_half_width_in_1_16th_of_pixel);
        write_u32_le(writer, self.viewport_half_height_in_1_16th_of_pixel);
        assert(writer@ =~= old(writer)@ + self.packet());
    }
}

/// The centre of the viewport, in 12.4 fixed point.
#[derive(Clone, Copy, Debug, PartialEq, Eq, Structural)]
pub struct ViewportOffset {
    pub viewport_centre_x_coordinate_12_4: u16,
    pub viewport_centre_y_coordinate_12_4: u16,
}

impl BinClStructure for ViewportOffset {
    open spec fn encodable(&self) -> bool {
        true
    }

    open spec fn packet(&self) -> Seq<u8> {
        seq![V3D21_VIEWPORT_OFFSET]
            + le_bytes_u16(self.viewport_centre_x_coordinate_12_4)
            + le_bytes_u16(self.viewport_centre_y_coordinate_12_4)
    }

    fn encode(&self, writer: &mut Vec<u8>) {
        writer.push(V3D21_VIEWPORT_OFFSET);
        write_u16_le(writer, self.viewport_centre_x_coordinate_12_4);
        write_u16_le(writer, self.viewport_centre_y_coordinate_12_4);
        assert(writer@ =~= old(writer)@ + self.packet());
    }
}

/// The comparison of the depth test.
#[derive(Clone, Copy, Debug, PartialEq, Eq, Structural)]
pub enum CompareFunction {
    Never,
    Less,
    Equal,
    LEqual,
    Greater,
    NotEqual,
    GEqual,
    Always,
}

impl CompareFunction {
    /// The three-bit code of the comparison.
    pub open spec fn spec_code(self) -> u8 {
        match self {
            CompareFunction::Never => 0,
            CompareFunction::Less => 1,
            CompareFunction::Equal => 2,
            CompareFunction::LEqual => 3,
            CompareFunction::Greater => 4,
            CompareFunction::NotEqual => 5,
            CompareFunction::GEqual => 6,
            CompareFunction::Always => 7,
        }
    }

    /// The three-bit code of the comparison.
    pub fn code(self) -> (r: u8)
        ensures
            r == self.spec_code(),
    {
        match self {
            CompareFunction::Never => 0,
            CompareFunction::Less => 1,
            CompareFunction::Equal => 2,
            CompareFunction::LEqual => 3,
            CompareFunction::Greater => 4,
            CompareFunction::NotEqual => 5,
            CompareFunction::GEqual => 6,
            CompareFunction::Always => 7,
        }
    }
}

/// The configuration bits of the rasteriser: culling, depth test and coverage.
#[derive(Clone, Copy, Debug, PartialEq, Eq, Structural)]
pub struct ConfigurationBits {
    pub enable_forward_facing_primitive: bool,
    pub enable_reverse_facing_primitive: bool,
    pub clockwise_primitives: bool,
    pub enable_depth_offset: bool,
    pub antialiased_points_and_lines: bool,
    pub coverage_read_type: bool,
    pub rasteriser_oversample_mode: u8,
    pub coverage_pipe_select: bool,
    pub coverage_update_mode: u8,
    pub coverage_read_mode: bool,
    pub depth_test_function: CompareFunction,
    pub z_updates_enable: bool,
    pub early_z_enable: bool,
    pub early_z_updates_enable: bool,
}

impl ConfigurationBits {
    /// The first byte after the opcode: oversampling, coverage read type,
    /// antialiasing, depth offset, winding and the two culling flags.
    pub open spec fn byte_0(&self) -> int {
        self.rasteriser_oversample_mode * 64 + bit(self.coverage_read_type) * 32 + bit(
            self.antialiased_points_and_lines,
        ) * 16 + bit(self.enable_depth_offset) * 8 + bit(self.clockwise_primitives) * 4 + bit(
            self.enable_reverse_facing_primitive,
        ) * 2 + bit(self.enable_forward_facing_primitive)
    }

    /// The second byte: depth writes, the depth test and coverage.
    pub open spec fn byte_1(&self) -> int {
        bit(self.z_updates_enable) * 128 + self.depth_test_function.spec_code() * 16 + bit(
            self.coverage_read_mode,
        ) * 8 + self.coverage_update_mode * 2 + bit(self.coverage_pipe_select)
    }

    /// The third byte: early depth updates and the early depth test.
    pub open spec fn byte_2(&self) -> int {
        bit(self.early_z_updates_enable) * 2 + bit(self.early_z_enable)
    }
}

impl ConfigurationBits {
    /// The configuration with every flag off, both modes zero and a depth test that
    /// never passes.
    pub open spec fn spec_default() -> ConfigurationBits {
        ConfigurationBits {
            enable_forward_facing_primitive: false,
            enable_reverse_facing_primitive: false,
            clockwise_primitives: false,
            enable_depth_offset: false,
            antialiased_points_and_lines: false,
            coverage_read_type: false,
            rasteriser_oversample_mode: 0,
            coverage_pipe_select: false,
            coverage_update_mode: 0,
            coverage_read_mode: false,
            depth_test_function: CompareFunction::Never,
            z_updates_enable: false,
            early_z_enable: false,
            early_z_updates_enable: false,
        }
    }
}

impl Default for ConfigurationBits {
    fn default() -> (bits: Self)
        ensures
            bits == Self::spec_default(),
    {
        ConfigurationBits {
            enable_forward_facing_primitive: false,
            enable_reverse_facing_primitive: false,
            clockwise_primitives: false,
            enable_depth_offset: false,
            antialiased_points_and_lines: false,
            coverage_read_type: false,
            rasteriser_oversample_mode: 0,
            coverage_pipe_select: false,
            coverage_update_mode: 0,
            coverage_read_mode: false,
            depth_test_function: CompareFunction::Never,
            z_updates_enable: false,
            early_z_enable: false,
            early_z_updates_enable: false,
        }
    }
}

impl BinClStructure for ConfigurationBits {
    /// The two modes are two-bit fields.
    open spec fn encodable(&self) -> bool {
        self.rasteriser_oversample_mode <= 3 && self.coverage_update_mode <= 3
    }

    open spec fn packet(&self) -> Seq<u8> {
        seq![
            V3D21_CONFIGURATION_BITS,
            self.byte_0() as u8,
            self.byte_1() as u8,
            self.byte_2() as u8,
        ]
    }

    fn encode(&self, writer: &mut Vec<u8>) {
        writer.push(V3D21_CONFIGURATION_BITS);
        writer.push(self.first_byte());
        writer.push(self.second_byte());
        writer.push(self.third_byte());
        assert(writer@ =~= old(writer)@ + self.packet());
    }
}

impl ConfigurationBits {
    fn first_byte(&self) -> (r: u8)
        requires
            self.encodable(),
        ensures
            r == self.byte_0(),
    {
        proof {
            lemma2_to64();
        }
        let v6 = self.rasteriser_oversample_mode;
        let v5 = bit_u8(self.coverage_read_type);
        let v4 = bit_u8(self.antialiased_points_and_lines);
        let v3 = bit_u8(self.enable_depth_offset);
        let v2 = bit_u8(self.clockwise_primitives);
        let v1 = bit_u8(self.enable_reverse_facing_primitive);
        let v0 = bit_u8(self.enable_forward_facing_primitive);
        let a6 = gen_u8(v6, 6, 7);
        let a5 = gen_u8(v5, 5, 5);
        let a4 = gen_u8(v4, 4, 4);
        let a3 = gen_u8(v3, 3, 3);
        let a2 = gen_u8(v2, 2, 2);
        let a1 = gen_u8(v1, 1, 1);
        let a0 = gen_u8(v0, 0, 0);
        assert((a6 | a5 | a4 | a3 | a2 | a1 | a0) == v6 * 64 + v5 * 32 + v4 * 16 + v3 * 8 + v2 * 4
            + v1 * 2 + v0) by (bit_vector)
            requires
                a6 == v6 << 6usize && v6 <= 3,
                a5 == v5 << 5usize && v5 <= 1,
                a4 == v4 << 4usize && v4 <= 1,
                a3 == v3 << 3usize && v3 <= 1,
                a2 == v2 << 2usize && v2 <= 1,
                a1 == v1 << 1usize && v1 <= 1,
                a0 == v0 << 0usize && v0 <= 1,
        ;
        a6 | a5 | a4 | a3 | a2 | a1 | a0
    }

    fn second_byte(&self) -> (r: u8)
        requires
            self.encodable(),
        ensures
            r == self.byte_1(),
    {
        proof {
            lemma2_to64();
        }
        let v7 = bit_u8(self.z_updates_enable);
        let v4 = self.depth_test_function.code();
        let v3 = bit_u8(self.coverage_read_mode);
        let v1 = self.coverage_update_mode;
        let v0 = bit_u8(self.coverage_pipe_select);
        let b7 = gen_u8(v7, 7, 7);
        let b4 = gen_u8(v4, 4, 6);
        let b3 = gen_u8(v3, 3, 3);
        let b1 = gen_u8(v1, 1, 2);
        let b0 = gen_u8(v0, 0, 0);
        assert((b7 | b4 | b3 | b1 | b0) == v7 * 128 + v4 * 16 + v3 * 8 + v1 * 2 + v0)
            by (bit_vector)
            requires
                b7 == v7 << 7usize && v7 <= 1,
                b4 == v4 << 4usize && v4 <= 7,
                b3 == v3 << 3usize && v3 <= 1,
                b1 == v1 << 1usize && v1 <= 3,
                b0 == v0 << 0usize && v0 <= 1,
        ;
        b7 | b4 | b3 | b1 | b0
    }

    fn third_byte(&self) -> (r: u8)
        requires
            self.encodable(),
        ensures
            r == self.byte_2(),
    {
        proof {
            lemma2_to64();
        }
        let v1 = bit_u8(self.early_z_updates_enable);
        let v0 = bit_u8(self.early_z_enable);
        let c1 = gen_u8(v1, 1, 1);
        let c0 = gen_u8(v0, 0, 0);
        assert((c1 | c0) == v1 * 2 + v0) by (bit_vector)
            requires
                c1 == v1 << 1usize && v1 <= 1,
                c0 == v0 << 0usize && v0 <= 1,
        ;
        c1 | c0
    }
}

/// The depth offset bias.
#[derive(Clone, Copy, Debug, PartialEq, Eq, Structural)]
pub struct DepthOffset {
    pub depth_offset_factor: u16,
    pub depth_offset_units: u16,
}

impl BinClStructure for DepthOffset {
    open spec fn encodable(&self) -> bool {
        true
    }

    open spec fn packet(&self) -> Seq<u8> {
        seq![V3D21_DEPTH_OFFSET]
            + le_bytes_u16(self.depth_offset_factor)
            + le_bytes_u16(self.depth_offset_units)
    }

    fn encode(&self, writer: &mut Vec<u8>) {
        writer.push(V3D21_DEPTH_OFFSET);
        write_u16_le(writer, self.depth_offset_factor);
        write_u16_le(writer, self.depth_offset_units);
        assert(writer@ =~= old(writer)@ + self.packet());
    }
}

/// Scale and offset of the depth range.
#[derive(Clone, Copy, Debug, PartialEq, Eq, Structural)]
pub struct ClipperZScaleAndOffset {
    /// The bits of the value in IEEE 754 single precision.
    pub viewport_z_scale_zc_to_zs: u32,
    /// The bits of the value in IEEE 754 single precision.
    pub viewport_z_offset_zc_to_zs: u32,
}

impl BinClStructure for ClipperZScaleAndOffset {
    open spec fn encodable(&self) -> bool {
        true
    }

    open spec fn packet(&self) -> Seq<u8> {
        seq![V3D21_CLIPPER_Z_SCALE_AND_OFFSET]
            + le_bytes_u32(self.viewport_z_scale_zc_to_zs)
            + le_bytes_u32(self.viewport_z_offset_zc_to_zs)
    }

    fn encode(&self, writer: &mut Vec<u8>) {
        writer.push(V3D21_CLIPPER_Z_SCALE_AND_OFFSET);
        write_u32_le(writer, self.viewport_z_scale_zc_to_zs);
        write_u32_le(writer, self.viewport_z_offset_zc_to_zs);
        assert(writer@ =~= old(writer)@ + self.packet());
    }
}

/// The size of points.
#[derive(Clone, Copy, Debug, PartialEq, Eq, Structural)]
pub struct PointSize {
    /// The bits of the value in IEEE 754 single precision.
    pub point_size: u32,
}

impl BinClStructure for PointSize {
    open spec fn encodable(&self) -> bool {
        true
    }

    open spec fn packet(&self) -> Seq<u8> {
        seq![V3D21_POINT_SIZE] + le_bytes_u32(self.point_size)
    }

    fn encode(&self, writer: &mut Vec<u8>) {
        writer.push(V3D21_POINT_SIZE);
        write_u32_le(writer, self.point_size);
        assert(writer@ =~= old(writer)@ + self.packet());
    }
}

/// The varyings that are shaded flat, one bit each.
#[derive(Clone, Copy, Debug, PartialEq, Eq, Structural)]
pub struct FlatShadeFlags {
    pub flat_shading_flags: u32,
}

impl BinClStructure for FlatShadeFlags {
    open spec fn encodable(&self) -> bool {
        true
    }

    open spec fn packet(&self) -> Seq<u8> {
        seq![V3D21_FLAT_SHADE_FLAGS] + le_bytes_u32(self.flat_shading_flags)
    }

    fn encode(&self, writer: &mut Vec<u8>) {
        writer.push(V3D21_FLAT_SHADE_FLAGS);
        write_u32_le(writer, self.flat_shading_flags);
        assert(writer@ =~= old(writer)@ + self.packet());
    }
}

/// The kind of primitive that a draw assembles.
#[derive(Clone, Copy, Debug, PartialEq, Eq, Structural)]
pub enum PrimitiveMode {
    Points,
    Lines,
    LineLoop,
    LineStrip,
    Triangles,
    TriangleStrip,
    TriangleFan,
}

impl PrimitiveMode {
    /// The code of the primitive kind.
    pub open spec fn spec_code(self) -> u8 {
        match self {
            PrimitiveMode::Points => 0,
            PrimitiveMode::Lines => 1,
            PrimitiveMode::LineLoop => 2,
            PrimitiveMode::LineStrip => 3,
            PrimitiveMode::Triangles => 4,
            PrimitiveMode::TriangleStrip => 5,
            PrimitiveMode::TriangleFan => 6,
        }
    }

    /// The code of the primitive kind.
    pub fn code(self) -> (r: u8)
        ensures
            r == self.spec_code(),
    {
        match self {
            PrimitiveMode::Points => 0,
            PrimitiveMode::Lines => 1,
            PrimitiveMode::LineLoop => 2,
            PrimitiveMode::LineStrip => 3,
            PrimitiveMode::Triangles => 4,
            PrimitiveMode::TriangleStrip => 5,
            PrimitiveMode::TriangleFan => 6,
        }
    }
}

/// The width of the elements of an index buffer.
#[allow(non_camel_case_types)]
#[derive(Clone, Copy, Debug, PartialEq, Eq, Structural)]
pub enum IndexType {
    _8bit,
    _16bit,
}

impl IndexType {
    /// The code of the index width: one less than the bytes of an index.
    pub open spec fn spec_code(self) -> u8 {
        match self {
            IndexType::_8bit => 0,
            IndexType::_16bit => 1,
        }
    }

    /// The code of the index width: one less than the bytes of an index.
    pub fn code(self) -> (r: u8)
        ensures
            r == self.spec_code(),
    {
        match self {
            IndexType::_8bit => 0,
            IndexType::_16bit => 1,
        }
    }
}

/// The packet that draws primitives from consecutive vertices.
#[derive(Clone, Copy, Debug, PartialEq, Eq, Structural)]
pub struct VertexArrayPrimitives {
    pub primitive_mode: PrimitiveMode,
    pub length: u32,
    pub index_of_first_vertex: u32,
}

impl BinClStructure for VertexArrayPrimitives {
    open spec fn encodable(&self) -> bool {
        true
    }

    open spec fn packet(&self) -> Seq<u8> {
        seq![V3D21_VERTEX_ARRAY_PRIMITIVES, self.primitive_mode.spec_code()] + le_bytes_u32(
            self.length,
        ) + le_bytes_u32(self.index_of_first_vertex)
    }

    fn encode(&self, writer: &mut Vec<u8>) {
        writer.push(V3D21_VERTEX_ARRAY_PRIMITIVES);
        writer.push(self.primitive_mode.code());
        write_u32_le(writer, self.length);
        write_u32_le(writer, self.index_of_first_vertex);
        assert(writer@ =~= old(writer)@ + self.packet());
    }
}

/// The packet that draws primitives from the vertices that an index buffer names.
#[derive(Clone, Copy, Debug, PartialEq, Eq, Structural)]
pub struct IndexedPrimitiveList {
    pub index_type: IndexType,
    pub primitive_mode: PrimitiveMode,
    pub length: u32,
    pub address_of_indices_list: u32,
    pub maximum_index: u32,
}

impl BinClStructure for IndexedPrimitiveList {
    open spec fn encodable(&self) -> bool {
        true
    }

    open spec fn packet(&self) -> Seq<u8> {
        seq![
            V3D21_INDEXED_PRIMITIVE_LIST,
            self.index_type.spec_code(),
            self.primitive_mode.spec_code(),
        ] + le_bytes_u32(self.length) + le_bytes_u32(self.address_of_indices_list)
            + le_bytes_u32(self.maximum_index)
    }

    fn encode(&self, writer: &mut Vec<u8>) {
        writer.push(V3D21_INDEXED_PRIMITIVE_LIST);
        writer.push(self.index_type.code());
        writer.push(self.primitive_mode.code());
        write_u32_le(writer, self.length);
        write_u32_le(writer, self.address_of_indices_list);
        write_u32_le(writer, self.maximum_index);
        assert(writer@ =~= old(writer)@ + self.packet());
    }
}

/// The packet that names, by their relocation indices, the two buffers that the next
/// packet's addresses refer to.
#[derive(Clone, Copy, Debug, PartialEq, Eq, Structural)]
pub struct GemRelocations {
    pub buffer0: u32,
    pub buffer1: u32,
}

impl BinClStructure for GemRelocations {
    open spec fn encodable(&self) -> bool {
        true
    }

    open spec fn packet(&self) -> Seq<u8> {
        seq![V3D21_GEM_RELOCATIONS] + le_bytes_u32(self.buffer0) + le_bytes_u32(self.buffer1)
    }

    fn encode(&self, writer: &mut Vec<u8>) {
        writer.push(V3D21_GEM_RELOCATIONS);
        write_u32_le(writer, self.buffer0);
        write_u32_le(writer, self.buffer1);
        assert(writer@ =~= old(writer)@ + self.packet());
    }
}

/// The packet that binds the next shader record.
#[derive(Clone, Copy, Debug, PartialEq, Eq, Structural)]
pub struct GlShaderState {
    pub address: u32,
    pub extended_shader_record: bool,
    pub number_of_attribute_arrays: u8,
}

impl GlShaderState {
    /// The address word, with the flag of an extended record in bit 3 and the number of
    /// attribute arrays in the bits below.
    pub open spec fn word(&self) -> u32 {
        self.address | (if self.extended_shader_record {
            8u32
        } else {
            0u32
        }) | (self.number_of_attribute_arrays as u32)
    }
}

impl BinClStructure for GlShaderState {
    open spec fn encodable(&self) -> bool {
        true
    }

    open spec fn packet(&self) -> Seq<u8> {
        seq![V3D21_GL_SHADER_STATE] + le_bytes_u32(self.word())
    }

    fn encode(&self, writer: &mut Vec<u8>) {
        let extended: u32 = if self.extended_shader_record {
            8
        } else {
            0
        };
        writer.push(V3D21_GL_SHADER_STATE);
        write_u32_le(
            writer,
            self.address | extended | (self.number_of_attribute_arrays as u32),
        );
        assert(writer@ =~= old(writer)@ + self.packet());
    }
}

/// The record that describes a bound triple of fragment, vertex and coordinate shader.
#[derive(Clone, Copy, Debug, PartialEq, Eq, Structural)]
pub struct GlShaderRecord {
    pub fragment_shader_is_single_threaded: bool,
    pub point_size_included_in_shaded_vertex_data: bool,
    pub enable_clipping: bool,
    pub fragment_shader_number_of_uniforms_not_used_currently: u16,
    pub fragment_shader_number_of_varyings: u8,
    pub fragment_shader_code_address_offset: u32,
    pub fragment_shader_uniforms_address: u32,
    pub vertex_shader_number_of_uniforms_not_used_currently: u16,
    pub vertex_shader_attribute_array_select_bits: u8,
    pub vertex_shader_total_attributes_size: u8,
    /// Not part of the record's bytes.
    pub vertex_shader_code_address_offset: u32,
    pub vertex_shader_uniforms_address: u32,
    pub coordinate_shader_number_of_uniforms_not_used_currently: u16,
    pub coordinate_shader_attribute_array_select_bits: u8,
    pub coordinate_shader_total_attributes_size: u8,
    pub coordinate_shader_code_address_offset: u32,
    pub coordinate_shader_uniforms_address: u32,
}

impl GlShaderRecord {
    /// The flag byte that starts the record.
    pub open spec fn flags(&self) -> int {
        bit(self.enable_clipping) * 4 + bit(self.point_size_included_in_shaded_vertex_data) * 2
            + bit(self.fragment_shader_is_single_threaded)
    }
}

impl BinClStructure for GlShaderRecord {
    open spec fn encodable(&self) -> bool {
        true
    }

    /// 36 bytes. The fragment shader's count of uniforms is cut to its low byte; the
    /// four bytes after the vertex shader's uniforms address are reserved and zero.
    open spec fn packet(&self) -> Seq<u8> {
        seq![
            self.flags() as u8,
            0u8,
            (self.fragment_shader_number_of_uniforms_not_used_currently % 256) as u8,
            self.fragment_shader_number_of_varyings,
        ] + le_bytes_u32(self.fragment_shader_code_address_offset) + le_bytes_u32(
            self.fragment_shader_uniforms_address,
        ) + le_bytes_u16(self.vertex_shader_number_of_uniforms_not_used_currently) + seq![
            self.vertex_shader_attribute_array_select_bits,
            self.vertex_shader_total_attributes_size,
        ] + le_bytes_u32(self.vertex_shader_uniforms_address) + seq![0u8, 0u8, 0u8, 0u8]
            + le_bytes_u16(self.coordinate_shader_number_of_uniforms_not_used_currently) + seq![
            self.coordinate_shader_attribute_array_select_bits,
            self.coordinate_shader_total_attributes_size,
        ] + le_bytes_u32(self.coordinate_shader_code_address_offset) + le_bytes_u32(
            self.coordinate_shader_uniforms_address,
        )
    }

    fn encode(&self, writer: &mut Vec<u8>) {
        proof {
            lemma2_to64();
        }
        let f0 = gen_u8(bit_u8(self.fragment_shader_is_single_threaded), 0, 0);
        let f1 = gen_u8(bit_u8(self.point_size_included_in_shaded_vertex_data), 1, 1);
        let f2 = gen_u8(bit_u8(self.enable_clipping), 2, 2);
        assert((f0 | f1 | f2) == f0 + f1 + f2) by (bit_vector)
            requires
                f0 == 0 || f0 == 1,
                f1 == 0 || f1 == 2,
                f2 == 0 || f2 == 4,
        ;
        let n = self.fragment_shader_number_of_uniforms_not_used_currently;
        assert(n & 0xff == n % 256) by (bit_vector);
        writer.push(f0 | f1 | f2);
        writer.push(0);
        writer.push((n & 0xff) as u8);
        writer.push(self.fragment_shader_number_of_varyings);
        write_u32_le(writer, self.fragment_shader_code_address_offset);
        write_u32_le(writer, self.fragment_shader_uniforms_address);
        write_u16_le(writer, self.vertex_shader_number_of_uniforms_not_used_currently);
        writer.push(self.vertex_shader_attribute_array_select_bits);
        writer.push(self.vertex_shader_total_attributes_size);
        write_u32_le(writer, self.vertex_shader_uniforms_address);
        write_u32_le(writer, 0);
        write_u16_le(writer, self.coordinate_shader_number_of_uniforms_not_used_currently);
        writer.push(self.coordinate_shader_attribute_array_select_bits);
        writer.push(self.coordinate_shader_total_attributes_size);
        write_u32_le(writer, self.coordinate_shader_code_address_offset);
        write_u32_le(writer, self.coordinate_shader_uniforms_address);
        assert(le_bytes_u32(0) =~= seq![0u8, 0u8, 0u8, 0u8]);
        assert(writer@ =~= old(writer)@ + self.packet());
    }
}

/// The record that describes one attribute array of a bound shader.
#[derive(Clone, Copy, Debug, PartialEq, Eq, Structural)]
pub struct AttributeRecord {
    pub address: u32,
    pub number_of_bytes_minus_1: u8,
    pub stride: u8,
    pub vertex_shader_vpm_offset: u8,
    pub coordinate_shader_vpm_offset: u8,
}

impl BinClStructure for AttributeRecord {
    open spec fn encodable(&self) -> bool {
        true
    }

    open spec fn packet(&self) -> Seq<u8> {
        le_bytes_u32(self.address) + seq![
            self.number_of_bytes_minus_1,
            self.stride,
            self.vertex_shader_vpm_offset,
            self.coordinate_shader_vpm_offset,
        ]
    }

    fn encode(&self, writer: &mut Vec<u8>) {
        write_u32_le(writer, self.address);
        writer.push(self.number_of_bytes_minus_1);
        writer.push(self.stride);
        writer.push(self.vertex_shader_vpm_offset);
        writer.push(self.coordinate_shader_vpm_offset);
        assert(writer@ =~= old(writer)@ + self.packet());
    }
}

/// The format of the texels of a texture.
#[derive(Clone, Copy, Debug, PartialEq, Eq, Structural)]
pub enum TextureDataType {
    RGBA8888,
    RGBX8888,
    RGBA4444,
    RGBA5551,
    RGB565,
    Luminance,
    Alpha,
    LumAlpha,
    ETC1,
    S16F,
    S8,
    S16,
    BW1,
    A4,
    A1,
    RGBA64,
    RGBA32R,
    YUYV422R,
}

impl TextureDataType {
    /// The five-bit code of the format.
    pub open spec fn spec_code(self) -> u8 {
        match self {
            TextureDataType::RGBA8888 => 0,
            TextureDataType::RGBX8888 => 1,
            TextureDataType::RGBA4444 => 2,
            TextureDataType::RGBA5551 => 3,
            TextureDataType::RGB565 => 4,
            TextureDataType::Luminance => 5,
            TextureDataType::Alpha => 6,
            TextureDataType::LumAlpha => 7,
            TextureDataType::ETC1 => 8,
            TextureDataType::S16F => 9,
            TextureDataType::S8 => 10,
            TextureDataType::S16 => 11,
            TextureDataType::BW1 => 12,
            TextureDataType::A4 => 13,
            TextureDataType::A1 => 14,
            TextureDataType::RGBA64 => 15,
            TextureDataType::RGBA32R => 16,
            TextureDataType::YUYV422R => 17,
        }
    }

    /// The five-bit code of the format.
    pub fn code(self) -> (r: u8)
        ensures
            r == self.spec_code(),
    {
        match self {
            TextureDataType::RGBA8888 => 0,
            TextureDataType::RGBX8888 => 1,
            TextureDataType::RGBA4444 => 2,
            TextureDataType::RGBA5551 => 3,
            TextureDataType::RGB565 => 4,
            TextureDataType::Luminance => 5,
            TextureDataType::Alpha => 6,
            TextureDataType::LumAlpha => 7,
            TextureDataType::ETC1 => 8,
            TextureDataType::S16F => 9,
            TextureDataType::S8 => 10,
            TextureDataType::S16 => 11,
            TextureDataType::BW1 => 12,
            TextureDataType::A4 => 13,
            TextureDataType::A1 => 14,
            TextureDataType::RGBA64 => 15,
            TextureDataType::RGBA32R => 16,
            TextureDataType::YUYV422R => 17,
        }
    }
}

/// The filter of a magnified texture.
#[derive(Clone, Copy, Debug, PartialEq, Eq, Structural)]
pub enum TextureMagFilterType {
    Linear,
    Nearest,
}

impl TextureMagFilterType {
    /// The one-bit code of the filter.
    pub open spec fn spec_code(self) -> u8 {
        match self {
            TextureMagFilterType::Linear => 0,
            TextureMagFilterType::Nearest => 1,
        }
    }

    /// The one-bit code of the filter.
    pub fn code(self) -> (r: u8)
        ensures
            r == self.spec_code(),
    {
        match self {
            TextureMagFilterType::Linear => 0,
            TextureMagFilterType::Nearest => 1,
        }
    }
}

/// The filter of a minified texture.
#[derive(Clone, Copy, Debug, PartialEq, Eq, Structural)]
pub enum TextureMinFilterType {
    Linear,
    Nearest,
    NearestMipNearest,
    NearestMipLinear,
    LinearMipNearest,
    LinearMipLinear,
}

impl TextureMinFilterType {
    /// The three-bit code of the filter.
    pub open spec fn spec_code(self) -> u8 {
        match self {
            TextureMinFilterType::Linear => 0,
            TextureMinFilterType::Nearest => 1,
            TextureMinFilterType::NearestMipNearest => 2,
            TextureMinFilterType::NearestMipLinear => 3,
            TextureMinFilterType::LinearMipNearest => 4,
            TextureMinFilterType::LinearMipLinear => 5,
        }
    }

    /// The three-bit code of the filter.
    pub fn code(self) -> (r: u8)
        ensures
            r == self.spec_code(),
    {
        match self {
            TextureMinFilterType::Linear => 0,
            TextureMinFilterType::Nearest => 1,
            TextureMinFilterType::NearestMipNearest => 2,
            TextureMinFilterType::NearestMipLinear => 3,
            TextureMinFilterType::LinearMipNearest => 4,
            TextureMinFilterType::LinearMipLinear => 5,
        }
    }
}

/// What a texture coordinate outside the texture reads.
#[derive(Clone, Copy, Debug, PartialEq, Eq, Structural)]
pub enum TextureWrapType {
    Repeat,
    Clamp,
    Mirror,
    Border,
}

impl TextureWrapType {
    /// The two-bit code of the wrap mode.
    pub open spec fn spec_code(self) -> u8 {
        match self {
            TextureWrapType::Repeat => 0,
            TextureWrapType::Clamp => 1,
            TextureWrapType::Mirror => 2,
            TextureWrapType::Border => 3,
        }
    }

    /// The two-bit code of the wrap mode.
    pub fn code(self) -> (r: u8)
        ensures
            r == self.spec_code(),
    {
        match self {
            TextureWrapType::Repeat => 0,
            TextureWrapType::Clamp => 1,
            TextureWrapType::Mirror => 2,
            TextureWrapType::Border => 3,
        }
    }
}

/// The configuration of a texture, which a shader reads as one or two uniform words.
#[derive(Clone, Copy, Debug, PartialEq, Eq, Structural)]
pub struct TextureConfigUniform {
    pub base_address: u32,
    pub cache_swizzle: u8,
    pub cube_map: bool,
    pub flip_y: bool,
    pub data_type: TextureDataType,
    pub num_mips: u8,
    pub height: u16,
    pub etc_flip: bool,
    pub width: u16,
    pub mag_filt: TextureMagFilterType,
    pub min_filt: TextureMinFilterType,
    pub wrap_t: TextureWrapType,
    pub wrap_s: TextureWrapType,
}

impl TextureConfigUniform {
    /// The first word: the number of mip levels less one in four bits, the low four
    /// bits of the data type, the cube map flag in bit 9, and the page number of the
    /// base address in the twenty bits from bit 12.
    pub open spec fn word_1d(&self) -> int {
        (self.num_mips - 1) % 16 + (self.data_type.spec_code() % 16) * 0x10 + bit(self.cube_map)
            * 0x200 + (self.base_address % 0x10_0000) * 0x1000
    }

    /// The second word: the two wrap modes, the two filters, width and height in
    /// eleven bits each from bits 8 and 20, and the high bit of the data type in bit 31.
    pub open spec fn word_2d(&self) -> int {
        self.wrap_s.spec_code() + self.wrap_t.spec_code() * 4 + self.min_filt.spec_code() * 0x10
            + self.mag_filt.spec_code() * 0x80 + (self.width % 0x800) * 0x100 + (self.height
            % 0x800) * 0x10_0000 + (self.data_type.spec_code() / 16) * 0x8000_0000
    }

    /// The first configuration word of the texture.
    pub fn get_1d_word(&self) -> (word: u32)
        requires
            self.num_mips >= 1,
        ensures
            word == self.word_1d(),
    {
        let mips = (self.num_mips - 1) as u32;
        let data_type = self.data_type.code() as u32;
        let cube: u32 = if self.cube_map {
            1
        } else {
            0
        };
        let base = self.base_address;
        assert(((mips & 0xf) | ((data_type & 0xf) << 4) | (cube << 9) | ((base & 0xfffff) << 12))
            == mips % 16 + (data_type % 16) * 0x10 + cube * 0x200 + (base % 0x10_0000) * 0x1000)
            by (bit_vector)
            requires
                cube <= 1,
        ;
        (mips & 0xf) | ((data_type & 0xf) << 4) | (cube << 9) | ((base & 0xfffff) << 12)
    }

    /// The second configuration word of the texture.
    pub fn get_2d_word(&self) -> (word: u32)
        ensures
            word == self.word_2d(),
    {
        let wrap_s = self.wrap_s.code() as u32;
        let wrap_t = self.wrap_t.code() as u32;
        let min_filt = self.min_filt.code() as u32;
        let mag_filt = self.mag_filt.code() as u32;
        let width = self.width as u32;
        let height = self.height as u32;
        let data_type = self.data_type.code() as u32;
        assert(((wrap_s & 0x3) | ((wrap_t & 0x3) << 2) | ((min_filt & 0x7) << 4) | ((mag_filt
            & 0x1) << 7) | ((width & 0x7ff) << 8) | ((height & 0x7ff) << 20) | (((data_type & 0x10)
            >> 4) << 31)) == wrap_s + wrap_t * 4 + min_filt * 0x10 + mag_filt * 0x80 + (width
            % 0x800) * 0x100 + (height % 0x800) * 0x10_0000 + (data_type / 16) * 0x8000_0000)
            by (bit_vector)
            requires
                wrap_s <= 3,
                wrap_t <= 3,
                min_filt <= 5,
                mag_filt <= 1,
                data_type <= 17,
        ;
        (wrap_s & 0x3) | ((wrap_t & 0x3) << 2) | ((min_filt & 0x7) << 4) | ((mag_filt & 0x1) << 7)
            | ((width & 0x7ff) << 8) | ((height & 0x7ff) << 20) | (((data_type & 0x10) >> 4) << 31)
    }
}

} // verus!
