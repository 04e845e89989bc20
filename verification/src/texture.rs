//! The packed texture container: a header of 16 bytes and the zlib stream of a padded
//! mip chain.

use crate::cl::{
    le_bytes_u16, le_bytes_u32, write_u16_le, write_u32_le, TextureConfigUniform,
    TextureDataType, TextureMagFilterType, TextureMinFilterType, TextureWrapType,
};
use crate::encoder::{Buffer, TextureUniform};
use vstd::prelude::*;
use vstd::slice::slice_subrange;

verus! {

/// The word that starts a packed texture.
pub const PACKED_TEXTURE_MAGIC: u32 = 0x0050_72C2;

/// The length in bytes of the header of a packed texture.
pub const PACKED_TEXTURE_HEADER_SIZE: usize = 16;

/// The 16-bit number whose bytes, least significant first, stand at `at`.
pub open spec fn le_u16_at(bytes: Seq<u8>, at: int) -> u16 {
    (bytes[at] + bytes[at + 1] * 0x100) as u16
}

/// The 32-bit number whose bytes, least significant first, stand at `at`.
pub open spec fn le_u32_at(bytes: Seq<u8>, at: int) -> u32 {
    (bytes[at] + bytes[at + 1] * 0x100 + bytes[at + 2] * 0x1_0000 + bytes[at + 3] * 0x100_0000) as u32
}

/// Reading the bytes of a number back gives the number.
pub proof fn lemma_le_round_trip(v16: u16, v32: u32)
    ensures
        le_bytes_u16(v16).len() == 2,
        le_bytes_u32(v32).len() == 4,
        le_u16_at(le_bytes_u16(v16), 0) == v16,
        le_u32_at(le_bytes_u32(v32), 0) == v32,
{
}

/// The 16-bit number whose bytes, least significant first, stand at `at`.
pub fn read_u16_le(bytes: &[u8], at: usize) -> (v: u16)
    requires
        at + 2 <= bytes@.len(),
    ensures
        v == le_u16_at(bytes@, at as int),
{
    let b0 = bytes[at] as u16;
    let b1 = bytes[at + 1] as u16;
    b0 + b1 * 0x100
}

/// The 32-bit number whose bytes, least significant first, stand at `at`.
pub fn read_u32_le(bytes: &[u8], at: usize) -> (v: u32)
    requires
        at + 4 <= bytes@.len(),
    ensures
        v == le_u32_at(bytes@, at as int),
{
    let b0 = bytes[at] as u32;
    let b1 = bytes[at + 1] as u32;
    let b2 = bytes[at + 2] as u32;
    let b3 = bytes[at + 3] as u32;
    b0 + b1 * 0x100 + b2 * 0x1_0000 + b3 * 0x100_0000
}

/// The header of a packed texture: the size in bytes of the unpacked mip chain, the
/// number of mip levels, the page at which the largest level starts, and the size of
/// that level in texels.
#[derive(Clone, Copy, Debug, PartialEq, Eq, Structural)]
pub struct PackedTextureHeader {
    pub total_size: u32,
    pub num_mips: u16,
    pub mip0_page_offset: u16,
    pub width: u16,
    pub height: u16,
}

impl PackedTextureHeader {
    /// The 16 bytes of the header: the magic word, then the fields in order.
    pub open spec fn bytes(self) -> Seq<u8> {
        le_bytes_u32(PACKED_TEXTURE_MAGIC) + le_bytes_u32(self.total_size) + le_bytes_u16(
            self.num_mips,
        ) + le_bytes_u16(self.mip0_page_offset) + le_bytes_u16(self.width) + le_bytes_u16(
            self.height,
        )
    }

    /// The header that the first 16 bytes hold, where there are as many and they start
    /// with the magic word.
    pub open spec fn parsed(bytes: Seq<u8>) -> Option<PackedTextureHeader> {
        if bytes.len() >= 16 && le_u32_at(bytes, 0) == PACKED_TEXTURE_MAGIC {
            Some(
                PackedTextureHeader {
                    total_size: le_u32_at(bytes, 4),
                    num_mips: le_u16_at(bytes, 8),
                    mip0_page_offset: le_u16_at(bytes, 10),
                    width: le_u16_at(bytes, 12),
                    height: le_u16_at(bytes, 14),
                },
            )
        } else {
            None
        }
    }

    /// A header parses to itself, whatever follows it.
    pub proof fn lemma_parse_bytes(self, rest: Seq<u8>)
        ensures
            self.bytes().len() == 16,
            Self::parsed(self.bytes() + rest) == Some(self),
    {
        let bytes = self.bytes() + rest;
        lemma_le_round_trip(self.num_mips, PACKED_TEXTURE_MAGIC);
        lemma_le_round_trip(self.mip0_page_offset, self.total_size);
        lemma_le_round_trip(self.width, 0);
        lemma_le_round_trip(self.height, 0);
        assert(bytes.subrange(0, 4) =~= le_bytes_u32(PACKED_TEXTURE_MAGIC));
        assert(bytes.subrange(4, 8) =~= le_bytes_u32(self.total_size));
        assert(bytes.subrange(8, 10) =~= le_bytes_u16(self.num_mips));
        assert(bytes.subrange(10, 12) =~= le_bytes_u16(self.mip0_page_offset));
        assert(bytes.subrange(12, 14) =~= le_bytes_u16(self.width));
        assert(bytes.subrange(14, 16) =~= le_bytes_u16(self.height));
        assert(le_u32_at(bytes, 0) == le_u32_at(bytes.subrange(0, 4), 0));
        assert(le_u32_at(bytes, 4) == le_u32_at(bytes.subrange(4, 8), 0));
        assert(le_u16_at(bytes, 8) == le_u16_at(bytes.subrange(8, 10), 0));
        assert(le_u16_at(bytes, 10) == le_u16_at(bytes.subrange(10, 12), 0));
        assert(le_u16_at(bytes, 12) == le_u16_at(bytes.subrange(12, 14), 0));
        assert(le_u16_at(bytes, 14) == le_u16_at(bytes.subrange(14, 16), 0));
    }

    /// Appends the 16 bytes of the header.
    pub fn encode(&self, writer: &mut Vec<u8>)
        ensures
            final(writer)@ == old(writer)@ + self.bytes(),
    {
        write_u32_le(writer, PACKED_TEXTURE_MAGIC);
        write_u32_le(writer, self.total_size);
        write_u16_le(writer, self.num_mips);
        write_u16_le(writer, self.mip0_page_offset);
        write_u16_le(writer, self.width);
        write_u16_le(writer, self.height);
        assert(writer@ =~= old(writer)@ + self.bytes());
    }

    /// Reads the header that starts `bytes`.
    pub fn parse(bytes: &[u8]) -> (header: Option<PackedTextureHeader>)
        ensures
            header == Self::parsed(bytes@),
    {
        if bytes.len() < PACKED_TEXTURE_HEADER_SIZE {
            return None;
        }
        if read_u32_le(bytes, 0) != PACKED_TEXTURE_MAGIC {
            return None;
        }
        Some(
            PackedTextureHeader {
                total_size: read_u32_le(bytes, 4),
                num_mips: read_u16_le(bytes, 8),
                mip0_page_offset: read_u16_le(bytes, 10),
                width: read_u16_le(bytes, 12),
                height: read_u16_le(bytes, 14),
            },
        )
    }

    /// The configuration of the texture: 32-bit colour whose largest level starts at
    /// the header's page, with the header's size and levels (the low byte of their
    /// number), filtered linearly between and within levels when minified and linearly
    /// when magnified, and repeated outside its bounds.
    pub open spec fn spec_texture_config(self) -> TextureConfigUniform {
        TextureConfigUniform {
            base_address: self.mip0_page_offset as u32,
            cache_swizzle: 0,
            cube_map: false,
            flip_y: false,
            data_type: TextureDataType::RGBA8888,
            num_mips: (self.num_mips % 256) as u8,
            height: self.height,
            etc_flip: false,
            width: self.width,
            mag_filt: TextureMagFilterType::Linear,
            min_filt: TextureMinFilterType::LinearMipLinear,
            wrap_t: TextureWrapType::Repeat,
            wrap_s: TextureWrapType::Repeat,
        }
    }

    /// The configuration of the texture.
    pub fn texture_config(&self) -> (config: TextureConfigUniform)
        ensures
            config == self.spec_texture_config(),
    {
        let mips = self.num_mips;
        assert(mips & 0xff == mips % 256) by (bit_vector);
        TextureConfigUniform {
            base_address: self.mip0_page_offset as u32,
            cache_swizzle: 0,
            cube_map: false,
            flip_y: false,
            data_type: TextureDataType::RGBA8888,
            num_mips: (mips & 0xff) as u8,
            height: self.height,
            etc_flip: false,
            width: self.width,
            mag_filt: TextureMagFilterType::Linear,
            min_filt: TextureMinFilterType::LinearMipLinear,
            wrap_t: TextureWrapType::Repeat,
            wrap_s: TextureWrapType::Repeat,
        }
    }

    /// The texture uniform of the texture, once its mip chain is in `buffer`.
    pub fn texture_uniform(&self, buffer: Buffer) -> (uniform: TextureUniform)
        ensures
            uniform == (TextureUniform { buffer, config: self.spec_texture_config() }),
    {
        TextureUniform { buffer, config: self.texture_config() }
    }
}

/// The most bytes that a mip chain is unpacked to: what one allocation can hold on a
/// machine with 32-bit addresses.
pub const MAX_UNPACKED_SIZE: u32 = 0x7fff_ffff;

/// The first `len` bytes of what the zlib stream `stream` inflates to, where it
/// inflates to as many.
pub uninterp spec fn zlib_inflated(stream: Seq<u8>, len: nat) -> Option<Seq<u8>>;

/// Reads `len` bytes from a `flate2::read::ZlibDecoder` over `stream` with
/// `read_exact`, into a buffer of that length. What comes out depends on the stream
/// and the length alone. `read_exact` fills the whole buffer or fails, so a result has
/// `len` bytes. The length is one that a buffer can have on every machine.
#[verifier::external_body]
fn zlib_read_exact(stream: &[u8], len: usize) -> (out: Option<Vec<u8>>)
    requires
        len <= MAX_UNPACKED_SIZE,
    ensures
        out matches Some(data) ==> zlib_inflated(stream@, len as nat) == Some(data@)
            && data@.len() == len,
        out is None ==> zlib_inflated(stream@, len as nat) is None,
{
    let mut data = vec![0u8; len];
    let mut decoder = flate2::read::ZlibDecoder::new(stream);
    match std::io::Read::read_exact(&mut decoder, &mut data) {
        Ok(()) => Some(data),
        Err(_) => None,
    }
}

/// Why a packed texture could not be unpacked.
#[derive(Clone, Copy, Debug, PartialEq, Eq, Structural)]
pub enum UnpackError {
    /// There are fewer than 16 bytes, or they do not start with the magic word.
    Header,
    /// The header gives the mip chain more than `MAX_UNPACKED_SIZE` bytes.
    TooLarge,
    /// What follows the header does not inflate to the bytes of the mip chain.
    Data,
}

/// The outcome of unpacking, from the header and from what inflating gave.
pub fn unpacked(header: PackedTextureHeader, inflated: Option<Vec<u8>>) -> (r: Result<
    (PackedTextureHeader, Vec<u8>),
    UnpackError,
>)
    ensures
        match inflated {
            Some(data) => r == Ok::<(PackedTextureHeader, Vec<u8>), UnpackError>((header, data)),
            None => r == Err::<(PackedTextureHeader, Vec<u8>), UnpackError>(UnpackError::Data),
        },
{
    match inflated {
        Some(data) => Ok((header, data)),
        None => Err(UnpackError::Data),
    }
}

/// Unpacks a packed texture: its header, and the mip chain that the zlib stream after
/// the header inflates to, which has as many bytes as the header says.
pub fn unpack_texture(container: &[u8]) -> (r: Result<(PackedTextureHeader, Vec<u8>), UnpackError>)
    ensures
        match PackedTextureHeader::parsed(container@) {
            None => r == Err::<(PackedTextureHeader, Vec<u8>), UnpackError>(UnpackError::Header),
            Some(header) => if header.total_size > MAX_UNPACKED_SIZE {
                r == Err::<(PackedTextureHeader, Vec<u8>), UnpackError>(UnpackError::TooLarge)
            } else {
                match zlib_inflated(container@.skip(16), header.total_size as nat) {
                    Some(data) => r matches Ok((h, d)) && h == header && d@ == data,
                    None => r == Err::<(PackedTextureHeader, Vec<u8>), UnpackError>(
                        UnpackError::Data,
                    ),
                }
            },
        },
{
    match PackedTextureHeader::parse(container) {
        None => Err(UnpackError::Header),
        Some(header) => {
            if header.total_size > MAX_UNPACKED_SIZE {
                return Err(UnpackError::TooLarge);
            }
            let stream = slice_subrange(container, PACKED_TEXTURE_HEADER_SIZE, container.len());
            assert(stream@ =~= container@.skip(16));
            unpacked(header, zlib_read_exact(stream, header.total_size as usize))
        },
    }
}

} // verus!
