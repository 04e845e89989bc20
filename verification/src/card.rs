//! What is handed to the kernel with a command list: the surfaces of the render stage
//! and the arguments of a submission.

use crate::cl::bit;
use vstd::prelude::*;

verus! {

/// The format in which the render stage stores colour.
#[derive(Clone, Copy, Debug, PartialEq, Eq, Structural)]
pub enum VC4RenderConfigFormat {
    BGR565Dithered,
    RGBA8888,
    BGR565,
}

impl VC4RenderConfigFormat {
    /// The two-bit code of the format.
    pub open spec fn spec_code(self) -> u16 {
        match self {
            VC4RenderConfigFormat::BGR565Dithered => 0,
            VC4RenderConfigFormat::RGBA8888 => 1,
            VC4RenderConfigFormat::BGR565 => 2,
        }
    }

    /// The two-bit code of the format.
    pub fn code(self) -> (r: u16)
        ensures
            r == self.spec_code(),
    {
        match self {
            VC4RenderConfigFormat::BGR565Dithered => 0,
            VC4RenderConfigFormat::RGBA8888 => 1,
            VC4RenderConfigFormat::BGR565 => 2,
        }
    }
}

/// The memory layout of a surface.
#[derive(Clone, Copy, Debug, PartialEq, Eq, Structural)]
pub enum VC4TilingFormat {
    Linear,
    T,
    LT,
}

impl VC4TilingFormat {
    /// The two-bit code of the layout.
    pub open spec fn spec_code(self) -> u16 {
        match self {
            VC4TilingFormat::Linear => 0,
            VC4TilingFormat::T => 1,
            VC4TilingFormat::LT => 2,
        }
    }

    /// The two-bit code of the layout.
    pub fn code(self) -> (r: u16)
        ensures
            r == self.spec_code(),
    {
        match self {
            VC4TilingFormat::Linear => 0,
            VC4TilingFormat::T => 1,
            VC4TilingFormat::LT => 2,
        }
    }
}

/// The value of `bits` with the two-bit field whose low bit weighs `unit` replaced by
/// `code`.
pub open spec fn with_field(bits: u16, unit: int, code: u16) -> int {
    bits - ((bits as int / unit) % 4) * unit + code * unit
}

/// A surface that the render stage reads or writes: the relocation index of its
/// buffer, the offset of the surface in the buffer, and the bits that describe it.
#[allow(non_camel_case_types)]
#[derive(Clone, Copy, Debug, PartialEq, Eq, Structural)]
pub struct drm_vc4_submit_rcl_surface {
    pub hindex: u32,
    pub offset: u32,
    pub bits: u16,
    pub flags: u16,
}

impl drm_vc4_submit_rcl_surface {
    /// No surface: the index that stands for none, and nothing else set.
    pub open spec fn spec_default() -> Self {
        drm_vc4_submit_rcl_surface { hindex: u32::MAX, offset: 0, bits: 0, flags: 0 }
    }

    /// A tiled surface of 32-bit colour at the start of the buffer with the given
    /// relocation index.
    pub fn new_tiled_rgba8(hindex: u32) -> (surface: Self)
        ensures
            surface == (drm_vc4_submit_rcl_surface { hindex, offset: 0, bits: 68, flags: 0 }),
    {
        (drm_vc4_submit_rcl_surface { hindex, offset: 0, bits: 0, flags: 0 }).format(
            VC4RenderConfigFormat::RGBA8888,
        ).tiling(VC4TilingFormat::T)
    }

    /// The surface with the given colour format, which bits 2 and 3 hold.
    pub fn format(self, format: VC4RenderConfigFormat) -> (surface: Self)
        ensures
            surface.bits == with_field(self.bits, 4, format.spec_code()),
            surface == (drm_vc4_submit_rcl_surface { bits: surface.bits, ..self }),
    {
        let bits = self.bits;
        let code = format.code();
        assert(((bits & !(0x3u16 << 2)) | (code << 2)) == bits - ((bits / 4) % 4) * 4 + code * 4)
            by (bit_vector)
            requires
                code <= 3,
        ;
        drm_vc4_submit_rcl_surface { bits: (bits & !(0x3u16 << 2)) | (code << 2), ..self }
    }

    /// The surface with the given memory layout, which bits 6 and 7 hold.
    pub fn tiling(self, tiling: VC4TilingFormat) -> (surface: Self)
        ensures
            surface.bits == with_field(self.bits, 64, tiling.spec_code()),
            surface == (drm_vc4_submit_rcl_surface { bits: surface.bits, ..self }),
    {
        let bits = self.bits;
        let code = tiling.code();
        assert(((bits & !(0x3u16 << 6)) | (code << 6)) == bits - ((bits / 64) % 4) * 64 + code
            * 64) by (bit_vector)
            requires
                code <= 3,
        ;
        drm_vc4_submit_rcl_surface { bits: (bits & !(0x3u16 << 6)) | (code << 6), ..self }
    }
}

impl Default for drm_vc4_submit_rcl_surface {
    fn default() -> (surface: Self)
        ensures
            surface == Self::spec_default(),
    {
        drm_vc4_submit_rcl_surface { hindex: u32::MAX, offset: 0, bits: 0, flags: 0 }
    }
}

/// What the kernel is handed with a command list: the three streams and the handles of
/// the relocated buffers, the size of the target and the range of its tiles, the
/// surfaces, and what to clear them to.
pub struct SubmitClArgs<'a> {
    pub bin_cl: &'a [u8],
    pub shader_rec: &'a [u8],
    pub uniforms: &'a [u32],
    pub bo_handles: &'a [u32],
    pub shader_rec_count: u32,
    pub width: u16,
    pub height: u16,
    pub min_x_tile: u8,
    pub min_y_tile: u8,
    pub max_x_tile: u8,
    pub max_y_tile: u8,
    pub color_read: drm_vc4_submit_rcl_surface,
    pub color_write: drm_vc4_submit_rcl_surface,
    pub zs_read: drm_vc4_submit_rcl_surface,
    pub zs_write: drm_vc4_submit_rcl_surface,
    pub msaa_color_write: drm_vc4_submit_rcl_surface,
    pub msaa_zs_write: drm_vc4_submit_rcl_surface,
    pub clear_color: [u32; 2],
    pub clear_z: u32,
    pub clear_s: u8,
    pub use_clear_color: bool,
    pub fixed_rcl_order: bool,
    pub rcl_order_increasing_x: bool,
    pub rcl_order_increasing_y: bool,
}

impl<'a> SubmitClArgs<'a> {
    /// The flag word of the submission: one bit each for the use of the clear colour,
    /// a fixed order of the tiles, and that order's direction in x and in y.
    pub open spec fn spec_flags(&self) -> int {
        bit(self.use_clear_color) + bit(self.fixed_rcl_order) * 2 + bit(
            self.rcl_order_increasing_x,
        ) * 4 + bit(self.rcl_order_increasing_y) * 8
    }

    /// The flag word of the submission.
    pub fn flags(&self) -> (flags: u32)
        ensures
            flags == self.spec_flags(),
    {
        let f0: u32 = if self.use_clear_color {
            1 << 0
        } else {
            0
        };
        let f1: u32 = if self.fixed_rcl_order {
            1 << 1
        } else {
            0
        };
        let f2: u32 = if self.rcl_order_increasing_x {
            1 << 2
        } else {
            0
        };
        let f3: u32 = if self.rcl_order_increasing_y {
            1 << 3
        } else {
            0
        };
        assert((f0 | f1 | f2 | f3) == f0 + f1 + f2 + f3 && (1u32 << 0) == 1 && (1u32 << 1) == 2 && (
        1u32 << 2) == 4 && (1u32 << 3) == 8) by (bit_vector)
            requires
                f0 == 0 || f0 == (1u32 << 0),
                f1 == 0 || f1 == (1u32 << 1),
                f2 == 0 || f2 == (1u32 << 2),
                f3 == 0 || f3 == (1u32 << 3),
        ;
        f0 | f1 | f2 | f3
    }
}

} // verus!
