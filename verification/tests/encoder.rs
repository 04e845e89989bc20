use rpi_drm::card::drm_vc4_submit_rcl_surface;
use rpi_drm::cl::{
    AttributeRecord, ClipWindow, CompareFunction, ConfigurationBits, DepthOffset,
    FlatShadeFlags, IndexType, LineWidth, PointSize, PrimitiveMode, TextureConfigUniform,
    TextureDataType, TextureMagFilterType, TextureMinFilterType, TextureWrapType,
    ViewportOffset,
};
use rpi_drm::encoder::{
    single_precision_bits_of, Buffer, CommandEncoder, ShaderAttribute, ShaderUniform,
    TextureUniform, SINGLE_PRECISION_ONE,
};

const HEAD_640_480: [u8; 17] = [112, 0, 0, 0, 0, 0, 0, 0, 0, 0, 0, 0, 0, 10, 8, 0, 6];

fn pass_defaults_640_480() -> Vec<u8> {
    [
        vec![99, 0, 0, 0, 0],
        vec![102, 0, 0, 0, 0, 0x80, 0x02, 0xe0, 0x01],
        vec![105],
        5120.0f32.to_le_bytes().to_vec(),
        3840.0f32.to_le_bytes().to_vec(),
        vec![103, 0x00, 0x14, 0x00, 0x0f],
        vec![96, 0x03, 0x70, 0x02],
        vec![101, 0, 0, 0, 0],
        vec![106],
        1.0f32.to_le_bytes().to_vec(),
        0.0f32.to_le_bytes().to_vec(),
        vec![98],
        1.0f32.to_le_bytes().to_vec(),
        vec![97, 0, 0, 0, 0],
    ]
    .concat()
}

fn begun() -> CommandEncoder {
    let mut encoder = CommandEncoder::new((640, 480));
    encoder.clear();
    encoder.begin_pass();
    encoder
}

/// An encoder in a pass whose defaults have been flushed by a first draw, and how
/// long its binning stream is.
fn drawn() -> (CommandEncoder, usize) {
    let mut encoder = begun();
    encoder.draw_array_primitives(PrimitiveMode::Points, 0, 1);
    let len = encoder.bin_cl().len();
    (encoder, len)
}

const DRAW_3_TRIANGLES: [u8; 10] = [33, 4, 3, 0, 0, 0, 0, 0, 0, 0];

#[test]
fn single_precision_of_every_integer() {
    for v in 0..=u16::MAX {
        assert_eq!(single_precision_bits_of(v), (v as f32).to_bits());
    }
    assert_eq!(single_precision_bits_of(0), 0);
    assert_eq!(single_precision_bits_of(1), 0x3f80_0000);
    assert_eq!(single_precision_bits_of(5120), 0x45a0_0000);
    assert_eq!(SINGLE_PRECISION_ONE, 1.0f32.to_bits());
}

#[test]
fn new_encoder_is_empty() {
    let encoder = CommandEncoder::new((640, 480));
    assert_eq!(encoder.window_size(), (640, 480));
    assert!(encoder.bin_cl().is_empty());
    assert!(encoder.shader_rec().is_empty());
    assert!(encoder.uniforms().is_empty());
    assert!(encoder.bo_handles().is_empty());
    assert_eq!(encoder.shader_rec_count(), 0);
}

#[test]
fn begin_pass_configures_binning() {
    let encoder = begun();
    assert_eq!(encoder.bin_cl().as_slice(), &HEAD_640_480);
    let mut small = CommandEncoder::new((1, 65));
    small.begin_pass();
    assert_eq!(&small.bin_cl()[13..], &[1, 2, 0, 6]);
    let mut large = CommandEncoder::new((4095, 4095));
    large.begin_pass();
    assert_eq!(&large.bin_cl()[13..], &[64, 64, 0, 6]);
}

#[test]
fn first_draw_writes_every_default() {
    let mut encoder = begun();
    encoder.draw_array_primitives(PrimitiveMode::Triangles, 0, 3);
    let expected =
        [HEAD_640_480.to_vec(), pass_defaults_640_480(), DRAW_3_TRIANGLES.to_vec()].concat();
    assert_eq!(encoder.bin_cl(), &expected);
}

#[test]
fn second_draw_writes_no_state() {
    let (mut encoder, len) = drawn();
    encoder.draw_array_primitives(PrimitiveMode::Triangles, 0, 3);
    assert_eq!(&encoder.bin_cl()[len..], &DRAW_3_TRIANGLES);
    encoder.draw_array_primitives(PrimitiveMode::Lines, 0x0102_0304, 0x0a0b_0c0d);
    assert_eq!(
        &encoder.bin_cl()[len + 10..],
        &[33, 1, 0x0d, 0x0c, 0x0b, 0x0a, 4, 3, 2, 1]
    );
}

#[test]
fn same_state_twice_is_one_packet() {
    let (mut encoder, len) = drawn();
    let width = LineWidth { line_width: 2.0f32.to_bits() };
    encoder.set_line_width(width);
    encoder.set_line_width(width);
    assert_eq!(encoder.bin_cl().len(), len);
    encoder.draw_array_primitives(PrimitiveMode::Triangles, 0, 3);
    let expected = [vec![99, 0, 0, 0, 0x40], DRAW_3_TRIANGLES.to_vec()].concat();
    assert_eq!(&encoder.bin_cl()[len..], expected.as_slice());
}

#[test]
fn changed_state_is_never_missing() {
    let (mut encoder, len) = drawn();
    let two = PointSize { point_size: 2.0f32.to_bits() };
    let one = PointSize { point_size: 1.0f32.to_bits() };
    encoder.set_point_size(two);
    encoder.draw_array_primitives(PrimitiveMode::Triangles, 0, 3);
    encoder.set_point_size(one);
    encoder.draw_array_primitives(PrimitiveMode::Triangles, 0, 3);
    let expected = [
        vec![98, 0, 0, 0, 0x40],
        DRAW_3_TRIANGLES.to_vec(),
        vec![98, 0, 0, 0x80, 0x3f],
        DRAW_3_TRIANGLES.to_vec(),
    ]
    .concat();
    assert_eq!(&encoder.bin_cl()[len..], expected.as_slice());
}

#[test]
fn last_value_set_before_a_draw_is_written() {
    let (mut encoder, len) = drawn();
    encoder.set_flat_shade_flags(FlatShadeFlags { flat_shading_flags: 5 });
    encoder.set_flat_shade_flags(FlatShadeFlags { flat_shading_flags: 0 });
    encoder.draw_array_primitives(PrimitiveMode::Triangles, 0, 3);
    let expected = [vec![97, 0, 0, 0, 0], DRAW_3_TRIANGLES.to_vec()].concat();
    assert_eq!(&encoder.bin_cl()[len..], expected.as_slice());
}

#[test]
fn dirty_slots_flush_in_slot_order() {
    let (mut encoder, len) = drawn();
    encoder.set_flat_shade_flags(FlatShadeFlags { flat_shading_flags: 1 });
    encoder.set_depth_offset(DepthOffset { depth_offset_factor: 2, depth_offset_units: 3 });
    encoder.set_viewport_offset(ViewportOffset {
        viewport_centre_x_coordinate_12_4: 4,
        viewport_centre_y_coordinate_12_4: 5,
    });
    encoder.set_clip_window(ClipWindow {
        clip_window_left_pixel_coordinate: 6,
        clip_window_bottom_pixel_coordinate: 7,
        clip_window_width_in_pixels: 8,
        clip_window_height_in_pixels: 9,
    });
    encoder.draw_array_primitives(PrimitiveMode::Triangles, 0, 3);
    let expected = [
        vec![102, 6, 0, 7, 0, 8, 0, 9, 0],
        vec![103, 4, 0, 5, 0],
        vec![101, 2, 0, 3, 0],
        vec![97, 1, 0, 0, 0],
        DRAW_3_TRIANGLES.to_vec(),
    ]
    .concat();
    assert_eq!(&encoder.bin_cl()[len..], expected.as_slice());
}

#[test]
fn depth_and_cull_tests_edit_the_configuration() {
    let (mut encoder, len) = drawn();
    encoder.set_depth_test(true, CompareFunction::LEqual, true);
    encoder.draw_array_primitives(PrimitiveMode::Triangles, 0, 3);
    encoder.set_cull_test(true, false);
    encoder.draw_array_primitives(PrimitiveMode::Triangles, 0, 3);
    encoder.set_depth_test(false, CompareFunction::Less, true);
    encoder.draw_array_primitives(PrimitiveMode::Triangles, 0, 3);
    encoder.set_depth_test(true, CompareFunction::Greater, false);
    encoder.draw_array_primitives(PrimitiveMode::Triangles, 0, 3);
    let expected = [
        vec![96, 0x03, 0x80 | 0x30, 0x03],
        DRAW_3_TRIANGLES.to_vec(),
        vec![96, 0x01, 0x80 | 0x30, 0x03],
        DRAW_3_TRIANGLES.to_vec(),
        vec![96, 0x01, 0x70, 0x02],
        DRAW_3_TRIANGLES.to_vec(),
        vec![96, 0x01, 0x40, 0x03],
        DRAW_3_TRIANGLES.to_vec(),
    ]
    .concat();
    assert_eq!(&encoder.bin_cl()[len..], expected.as_slice());
}

#[test]
fn depth_test_before_any_pass_starts_from_the_default() {
    let mut encoder = CommandEncoder::new((64, 64));
    encoder.set_depth_test(true, CompareFunction::Equal, true);
    encoder.draw_array_primitives(PrimitiveMode::Points, 0, 1);
    assert_eq!(&encoder.bin_cl()[..4], &[96, 0x00, 0x80 | 0x20, 0x01]);
    let mut culled = CommandEncoder::new((64, 64));
    culled.set_cull_test(false, true);
    culled.set_configuration_bits(ConfigurationBits {
        clockwise_primitives: true,
        ..ConfigurationBits::default()
    });
    culled.set_cull_test(false, true);
    culled.draw_array_primitives(PrimitiveMode::Points, 0, 1);
    assert_eq!(&culled.bin_cl()[..4], &[96, 0x06, 0x00, 0x00]);
}

#[test]
fn relocation_is_idempotent() {
    let mut encoder = begun();
    let a = Buffer::new(17, 4096);
    let b = Buffer::new(5, 64);
    assert_eq!(encoder.relocate_buffer(a), 0);
    assert_eq!(encoder.relocate_buffer(b), 1);
    for _ in 0..10 {
        assert_eq!(encoder.relocate_buffer(a), 0);
        assert_eq!(encoder.relocate_handle(5), 1);
        assert_eq!(encoder.relocate_handle(17), 0);
    }
    assert_eq!(encoder.relocate_handle(99), 2);
    assert_eq!(encoder.relocate_buffer(Buffer::new(17, 1)), 0);
    assert_eq!(encoder.bo_handles(), &vec![17, 5, 99]);
    assert_eq!(a.handle(), 17);
    assert_eq!(a.size(), 4096);
}

#[test]
fn clear_isolates_sessions() {
    let mut encoder = begun();
    let a = Buffer::new(17, 4096);
    let b = Buffer::new(5, 64);
    encoder.relocate_buffer(a);
    assert_eq!(encoder.relocate_buffer(b), 1);
    encoder.set_line_width(LineWidth { line_width: 7 });
    encoder.bind_shader(true, 1, 30, 31, 32, &[], &[ShaderUniform::Constant(3)], &[], &[]);
    encoder.draw_array_primitives(PrimitiveMode::Triangles, 0, 3);
    encoder.set_point_size(PointSize { point_size: 9 });
    encoder.end_pass();

    encoder.clear();
    assert_eq!(encoder.window_size(), (640, 480));
    assert!(encoder.bin_cl().is_empty());
    assert!(encoder.shader_rec().is_empty());
    assert!(encoder.uniforms().is_empty());
    assert!(encoder.bo_handles().is_empty());
    assert_eq!(encoder.shader_rec_count(), 0);
    encoder.draw_array_primitives(PrimitiveMode::Triangles, 0, 3);
    assert_eq!(encoder.bin_cl().as_slice(), &DRAW_3_TRIANGLES);
    assert_eq!(encoder.relocate_buffer(b), 0);
    assert_eq!(encoder.relocate_buffer(a), 1);

    encoder.clear();
    encoder.begin_pass();
    encoder.draw_array_primitives(PrimitiveMode::Triangles, 0, 3);
    let expected =
        [HEAD_640_480.to_vec(), pass_defaults_640_480(), DRAW_3_TRIANGLES.to_vec()].concat();
    assert_eq!(encoder.bin_cl(), &expected);
}

#[test]
fn pass_is_framed() {
    let mut encoder = begun();
    encoder.end_pass();
    assert_eq!(encoder.bin_cl(), &[HEAD_640_480.to_vec(), vec![7, 4]].concat());

    let mut busy = begun();
    busy.bind_shader(false, 0, 1, 2, 3, &[], &[], &[], &[]);
    busy.set_depth_test(true, CompareFunction::Less, true);
    busy.draw_array_primitives(PrimitiveMode::Triangles, 0, 3);
    busy.draw_indexed_primitives(
        Buffer::new(9, 64),
        IndexType::_8bit,
        PrimitiveMode::Lines,
        1,
        2,
        3,
    );
    busy.set_line_width(LineWidth { line_width: 1 });
    busy.end_pass();
    let stream = busy.bin_cl();
    assert_eq!(&stream[..17], &HEAD_640_480);
    assert_eq!(&stream[stream.len() - 2..], &[7, 4]);
}

#[test]
fn indexed_draw_relocates_the_index_buffer() {
    let (mut encoder, len) = drawn();
    encoder.relocate_handle(40);
    encoder.relocate_handle(41);
    let indices = Buffer::new(42, 1024);
    encoder.draw_indexed_primitives(
        indices,
        IndexType::_16bit,
        PrimitiveMode::Triangles,
        0x100,
        36,
        23,
    );
    assert_eq!(encoder.bo_handles(), &vec![40, 41, 42]);
    assert_eq!(
        &encoder.bin_cl()[len..],
        &[254, 2, 0, 0, 0, 0, 0, 0, 0, 32, 1, 4, 36, 0, 0, 0, 0, 2, 0, 0, 23, 0, 0, 0]
    );
    encoder.draw_indexed_primitives(
        indices,
        IndexType::_8bit,
        PrimitiveMode::TriangleFan,
        0x100,
        5,
        4,
    );
    assert_eq!(encoder.bo_handles(), &vec![40, 41, 42]);
    assert_eq!(
        &encoder.bin_cl()[len + 24..],
        &[254, 2, 0, 0, 0, 0, 0, 0, 0, 32, 0, 6, 5, 0, 0, 0, 0, 1, 0, 0, 4, 0, 0, 0]
    );
}

#[test]
fn indexed_draw_flushes_state_first() {
    let (mut encoder, len) = drawn();
    encoder.set_line_width(LineWidth { line_width: 0x0403_0201 });
    encoder.draw_indexed_primitives(
        Buffer::new(1, 2),
        IndexType::_16bit,
        PrimitiveMode::Points,
        0x7fff_ffff,
        0,
        0,
    );
    assert_eq!(&encoder.bin_cl()[len..len + 6], &[99, 1, 2, 3, 4, 254]);
    assert_eq!(&encoder.bin_cl()[len + 21..len + 25], &[0xfe, 0xff, 0xff, 0xff]);
}

fn texture(handle: u32, base_address: u32, width: u16, height: u16) -> TextureUniform {
    TextureUniform {
        buffer: Buffer::new(handle, 0),
        config: TextureConfigUniform {
            base_address,
            cache_swizzle: 0,
            cube_map: false,
            flip_y: false,
            data_type: TextureDataType::RGBA8888,
            num_mips: 3,
            height,
            etc_flip: false,
            width,
            mag_filt: TextureMagFilterType::Linear,
            min_filt: TextureMinFilterType::LinearMipLinear,
            wrap_t: TextureWrapType::Repeat,
            wrap_s: TextureWrapType::Repeat,
        },
    }
}

fn attribute(handle: u32, address: u32, bytes: u8, vs: bool, cs: bool) -> ShaderAttribute {
    ShaderAttribute {
        buffer: Buffer::new(handle, 4096),
        record: AttributeRecord {
            address,
            number_of_bytes_minus_1: bytes - 1,
            stride: 32,
            vertex_shader_vpm_offset: address as u8,
            coordinate_shader_vpm_offset: 0,
        },
        vs,
        cs,
    }
}

#[test]
fn bind_shader_writes_the_record_stream() {
    let mut encoder = begun();
    encoder.relocate_handle(200);
    encoder.bind_shader(
        true,
        5,
        100,
        101,
        200,
        &[
            attribute(300, 0, 12, false, true),
            attribute(301, 0, 12, true, false),
            attribute(301, 12, 12, true, false),
            attribute(301, 24, 8, true, true),
        ],
        &[],
        &[],
        &[],
    );
    assert_eq!(encoder.bin_cl()[17..], [64, 4, 0, 0, 0]);
    assert_eq!(encoder.bo_handles(), &vec![200, 100, 101, 300, 301]);
    assert_eq!(encoder.shader_rec_count(), 1);
    let expected: Vec<u8> = [
        vec![1, 0, 0, 0, 2, 0, 0, 0, 0, 0, 0, 0],
        vec![3, 0, 0, 0, 4, 0, 0, 0, 4, 0, 0, 0, 4, 0, 0, 0],
        vec![0x05, 0, 0, 5, 0, 0, 0, 0, 0, 0, 0, 0],
        vec![0, 0, 0x0e, 32, 0, 0, 0, 0, 0, 0, 0, 0],
        vec![0, 0, 0x09, 20, 0, 0, 0, 0, 0, 0, 0, 0],
        vec![0, 0, 0, 0, 11, 32, 0, 0],
        vec![0, 0, 0, 0, 11, 32, 0, 0],
        vec![12, 0, 0, 0, 11, 32, 12, 0],
        vec![24, 0, 0, 0, 7, 32, 24, 0],
    ]
    .concat();
    assert_eq!(encoder.shader_rec(), &expected);
    assert!(encoder.uniforms().is_empty());

    encoder.bind_shader(false, 0, 100, 100, 100, &[], &[], &[], &[]);
    assert_eq!(encoder.bin_cl()[22..], [64, 0, 0, 0, 0]);
    assert_eq!(encoder.shader_rec_count(), 2);
    assert_eq!(encoder.bo_handles().len(), 5);
    let second: Vec<u8> = [
        vec![1, 0, 0, 0, 1, 0, 0, 0, 1, 0, 0, 0],
        vec![0x04, 0, 0, 0, 0, 0, 0, 0, 0, 0, 0, 0],
        vec![0; 24],
    ]
    .concat();
    assert_eq!(&encoder.shader_rec()[expected.len()..], second.as_slice());
}

#[test]
fn bind_shader_with_eight_attributes() {
    let mut encoder = begun();
    let attributes: Vec<ShaderAttribute> =
        (0..8).map(|i| attribute(10 + i, 0, 31, i % 2 == 0, true)).collect();
    encoder.bind_shader(false, 0, 1, 2, 3, &attributes, &[], &[], &[]);
    assert_eq!(encoder.bin_cl()[17..], [64, 8, 0, 0, 0]);
    let record = &encoder.shader_rec()[12 + 32..12 + 32 + 36];
    assert_eq!(record[14], 0x55);
    assert_eq!(record[15], 124);
    assert_eq!(record[26], 0xff);
    assert_eq!(record[27], 248);
    assert_eq!(encoder.shader_rec().len(), 12 + 32 + 36 + 64);
}

#[test]
fn bind_shader_puts_texture_relocations_before_uniform_words() {
    let mut encoder = begun();
    let one_row = texture(50, 0x10, 256, 1);
    let image = texture(51, 0x20, 64, 32);
    let again = texture(50, 0x30, 8, 2);
    encoder.bind_shader(
        false,
        2,
        1,
        2,
        3,
        &[],
        &[ShaderUniform::Constant(0xaaaa), ShaderUniform::Texture(one_row)],
        &[
            ShaderUniform::Texture(image),
            ShaderUniform::Constant(0xbbbb),
            ShaderUniform::Texture(again),
        ],
        &[ShaderUniform::Constant(0xcccc)],
    );
    assert_eq!(encoder.bo_handles(), &vec![1, 2, 3, 50, 51]);
    let expected: Vec<u32> = vec![
        3,
        4,
        3,
        0xaaaa,
        one_row.config.get_1d_word(),
        image.config.get_1d_word(),
        image.config.get_2d_word(),
        0xbbbb,
        again.config.get_1d_word(),
        again.config.get_2d_word(),
        0xcccc,
    ];
    assert_eq!(encoder.uniforms(), &expected);
    assert_eq!(one_row.config.get_1d_word(), 2 | (0x10 << 12));
    assert_eq!(image.config.get_2d_word(), (5 << 4) | (64 << 8) | (32 << 20));
}

#[test]
fn submit_args_describe_the_frame() {
    let mut encoder = begun();
    encoder.bind_shader(false, 0, 1, 2, 3, &[], &[ShaderUniform::Constant(5)], &[], &[]);
    encoder.draw_array_primitives(PrimitiveMode::Triangles, 0, 3);
    encoder.end_pass();
    let bin_cl = encoder.bin_cl().clone();
    let shader_rec = encoder.shader_rec().clone();
    let args = encoder.submit_args(0xff00_0000, Buffer::new(77, 640 * 480 * 4));
    assert_eq!(args.bin_cl, bin_cl.as_slice());
    assert_eq!(args.shader_rec, shader_rec.as_slice());
    assert_eq!(args.uniforms, &[5]);
    assert_eq!(args.bo_handles, &[1, 2, 3, 77]);
    assert_eq!(args.shader_rec_count, 1);
    assert_eq!((args.width, args.height), (640, 480));
    assert_eq!((args.min_x_tile, args.min_y_tile), (0, 0));
    assert_eq!((args.max_x_tile, args.max_y_tile), (9, 7));
    assert_eq!(
        args.color_write,
        drm_vc4_submit_rcl_surface { hindex: 3, offset: 0, bits: 0x44, flags: 0 }
    );
    let none = drm_vc4_submit_rcl_surface { hindex: u32::MAX, offset: 0, bits: 0, flags: 0 };
    assert_eq!(args.color_read, none);
    assert_eq!(args.zs_read, none);
    assert_eq!(args.zs_write, none);
    assert_eq!(args.msaa_color_write, none);
    assert_eq!(args.msaa_zs_write, none);
    assert_eq!(args.clear_color, [0xff00_0000, 0xff00_0000]);
    assert_eq!((args.clear_z, args.clear_s), (0, 0));
    assert!(args.use_clear_color);
    assert!(!args.fixed_rcl_order && !args.rcl_order_increasing_x && !args.rcl_order_increasing_y);
    assert_eq!(args.flags(), 1);
}
