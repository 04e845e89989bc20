use rpi_drm::cl::{TextureDataType, TextureMagFilterType, TextureMinFilterType, TextureWrapType};
use rpi_drm::encoder::Buffer;
use rpi_drm::shaders::test_model::{BufferView, Model, ModelHeader};
use rpi_drm::shaders::ShaderNode;
use rpi_drm::texture::{
    read_u16_le, read_u32_le, unpack_texture, PackedTextureHeader, UnpackError,
};
use std::io::Write;

fn header() -> PackedTextureHeader {
    PackedTextureHeader {
        total_size: 0x0001_5540,
        num_mips: 9,
        mip0_page_offset: 6,
        width: 256,
        height: 128,
    }
}

const HEADER_BYTES: [u8; 16] =
    [0xc2, 0x72, 0x50, 0x00, 0x40, 0x55, 0x01, 0x00, 9, 0, 6, 0, 0, 1, 128, 0];

fn deflated(data: &[u8]) -> Vec<u8> {
    let mut encoder = flate2::write::ZlibEncoder::new(Vec::new(), flate2::Compression::best());
    encoder.write_all(data).unwrap();
    encoder.finish().unwrap()
}

fn container(total_size: u32, data: &[u8]) -> Vec<u8> {
    let mut bytes = Vec::new();
    PackedTextureHeader { total_size, ..header() }.encode(&mut bytes);
    bytes.extend_from_slice(&deflated(data));
    bytes
}

#[test]
fn little_endian_readers() {
    let bytes = [0xff, 0x34, 0x12, 0xef, 0xbe, 0xad, 0xde];
    assert_eq!(read_u16_le(&bytes, 1), 0x1234);
    assert_eq!(read_u32_le(&bytes, 3), 0xdead_beef);
    assert_eq!(read_u16_le(&bytes, 5), 0xdead);
}

#[test]
fn header_bytes() {
    let mut bytes = vec![1, 2];
    header().encode(&mut bytes);
    assert_eq!(&bytes[..2], &[1, 2]);
    assert_eq!(&bytes[2..], &HEADER_BYTES);
}

#[test]
fn header_parses_back() {
    assert_eq!(PackedTextureHeader::parse(&HEADER_BYTES), Some(header()));
    let mut longer = HEADER_BYTES.to_vec();
    longer.extend_from_slice(&[1, 2, 3]);
    assert_eq!(PackedTextureHeader::parse(&longer), Some(header()));
    let all_ones = PackedTextureHeader {
        total_size: u32::MAX,
        num_mips: u16::MAX,
        mip0_page_offset: u16::MAX,
        width: u16::MAX,
        height: u16::MAX,
    };
    let mut bytes = Vec::new();
    all_ones.encode(&mut bytes);
    assert_eq!(PackedTextureHeader::parse(&bytes), Some(all_ones));
}

#[test]
fn header_is_refused() {
    assert_eq!(PackedTextureHeader::parse(&[]), None);
    assert_eq!(PackedTextureHeader::parse(&HEADER_BYTES[..15]), None);
    for byte in 0..4 {
        let mut wrong = HEADER_BYTES;
        wrong[byte] ^= 1;
        assert_eq!(PackedTextureHeader::parse(&wrong), None);
    }
    let mut model_magic = HEADER_BYTES;
    model_magic[0] = 0xc1;
    assert_eq!(PackedTextureHeader::parse(&model_magic), None);
}

#[test]
fn texture_configuration_of_a_header() {
    let config = header().texture_config();
    assert_eq!(config.base_address, 6);
    assert_eq!(config.num_mips, 9);
    assert_eq!((config.width, config.height), (256, 128));
    assert_eq!(config.data_type, TextureDataType::RGBA8888);
    assert_eq!(config.min_filt, TextureMinFilterType::LinearMipLinear);
    assert_eq!(config.mag_filt, TextureMagFilterType::Linear);
    assert_eq!((config.wrap_s, config.wrap_t), (TextureWrapType::Repeat, TextureWrapType::Repeat));
    assert!(!config.cube_map && !config.flip_y && !config.etc_flip);
    assert_eq!(config.cache_swizzle, 0);
    assert_eq!(config.get_1d_word(), 8 | (6 << 12));
    let many = PackedTextureHeader { num_mips: 0x0103, ..header() };
    assert_eq!(many.texture_config().num_mips, 3);
    let uniform = header().texture_uniform(Buffer::new(12, 0x15540));
    assert_eq!(uniform.buffer, Buffer::new(12, 0x15540));
    assert_eq!(uniform.config, config);
}

#[test]
fn unpack_inflates_the_mip_chain() {
    let data: Vec<u8> = (0..5000u32).map(|i| (i * 7 % 251) as u8).collect();
    let (unpacked_header, unpacked_data) = unpack_texture(&container(5000, &data)).unwrap();
    assert_eq!(unpacked_header, PackedTextureHeader { total_size: 5000, ..header() });
    assert_eq!(unpacked_data, data);
    assert_ne!(deflated(&data), data);
}

#[test]
fn unpack_takes_as_many_bytes_as_the_header_says() {
    let data: Vec<u8> = (0..200u32).map(|i| i as u8).collect();
    let (_, part) = unpack_texture(&container(120, &data)).unwrap();
    assert_eq!(part, &data[..120]);
    let (_, none) = unpack_texture(&container(0, &data)).unwrap();
    assert!(none.is_empty());
    let (_, empty) = unpack_texture(&container(0, &[])).unwrap();
    assert!(empty.is_empty());
}

#[test]
fn unpack_refuses_a_bad_header() {
    assert_eq!(unpack_texture(&[]), Err(UnpackError::Header));
    assert_eq!(unpack_texture(&HEADER_BYTES[..12]), Err(UnpackError::Header));
    let mut wrong = container(4, &[1, 2, 3, 4]);
    wrong[3] = 1;
    assert_eq!(unpack_texture(&wrong), Err(UnpackError::Header));
}

#[test]
fn unpack_refuses_a_chain_that_is_too_large() {
    let mut bytes = Vec::new();
    PackedTextureHeader { total_size: 0x8000_0000, ..header() }.encode(&mut bytes);
    bytes.extend_from_slice(&deflated(&[1, 2, 3]));
    assert_eq!(unpack_texture(&bytes), Err(UnpackError::TooLarge));
    let mut bytes = Vec::new();
    PackedTextureHeader { total_size: u32::MAX, ..header() }.encode(&mut bytes);
    assert_eq!(unpack_texture(&bytes), Err(UnpackError::TooLarge));
}

#[test]
fn unpack_refuses_bad_data() {
    let data = [1u8, 2, 3, 4];
    assert_eq!(unpack_texture(&container(5, &data)), Err(UnpackError::Data));
    assert_eq!(unpack_texture(&HEADER_BYTES), Err(UnpackError::Data));
    let mut raw = HEADER_BYTES.to_vec();
    raw[4..8].copy_from_slice(&4u32.to_le_bytes());
    raw.extend_from_slice(&data);
    assert_eq!(unpack_texture(&raw), Err(UnpackError::Data));
    let whole = container(4, &data);
    assert_eq!(unpack_texture(&whole[..whole.len() - 6]), Err(UnpackError::Data));
}

#[test]
fn model_header() {
    let mut bytes = vec![0xc1, 0x72, 0x50, 0x00];
    bytes.extend_from_slice(&100u32.to_le_bytes());
    bytes.extend_from_slice(&600u32.to_le_bytes());
    bytes.extend_from_slice(&[9, 9, 9]);
    let header = ModelHeader::parse(&bytes).unwrap();
    assert_eq!(header, ModelHeader { num_vertices: 100, num_indices: 600 });
    assert_eq!(header.size(), Some(100 * 12 + 100 * 56 + 600 * 2));
    assert_eq!(ModelHeader::parse(&bytes[..11]), None);
    bytes[0] = 0xc2;
    assert_eq!(ModelHeader::parse(&bytes), None);
    assert_eq!(ModelHeader { num_vertices: 63_161_283, num_indices: 25 }.size(), Some(4_294_967_294));
    assert_eq!(ModelHeader { num_vertices: 63_161_283, num_indices: 26 }.size(), None);
    assert_eq!(ModelHeader { num_vertices: u32::MAX, num_indices: u32::MAX }.size(), None);
    assert_eq!(ModelHeader { num_vertices: 0, num_indices: 0 }.size(), Some(0));
}

#[test]
fn model_views() {
    let buffer = Buffer::new(4, 8000);
    let model = Model::new(ModelHeader { num_vertices: 100, num_indices: 600 }, buffer);
    assert_eq!(model.cs_vbo, BufferView { buffer, start: 0, end: 1200 });
    assert_eq!(model.vs_vbo, BufferView { buffer, start: 1200, end: 6800 });
    assert_eq!(model.ibo, BufferView::from_buffer_and_range(buffer, 6800, 8000));
    assert_eq!((model.num_vertices, model.num_indices), (100, 600));
}

static CODE: [u64; 3] = [0x1000_0000_0000_0001, 2, 3];

#[test]
fn shader_handle_is_set_once() {
    let mut node = ShaderNode::new(&CODE);
    assert_eq!(node.code(), &CODE);
    assert_eq!(node.handle(), None);
    assert_eq!(node.set_handle(7), Ok(()));
    assert_eq!(node.handle(), Some(7));
    assert_eq!(node.set_handle(8), Err(8));
    assert_eq!(node.handle(), Some(7));
    assert_eq!(node.set_handle(7), Err(7));
    assert_eq!(node.code(), &CODE);
}
