use rpi_drm::cl::{
    checked_into, div_round_up, gen_u32, gen_u8, write_all, write_u16_le, write_u32_le,
    AttributeRecord, BinClStructure, ClipWindow, ClipperXYScaling, ClipperZScaleAndOffset,
    CompareFunction, ConfigurationBits, DepthOffset, FlatShadeFlags, Flush, GemRelocations,
    GlShaderRecord, GlShaderState, IncrementSemaphore, IndexType, IndexedPrimitiveList,
    LineWidth, PointSize, PrimitiveMode, StartTileBinning, TextureConfigUniform,
    TextureDataType, TextureMagFilterType, TextureMinFilterType, TextureWrapType,
    TileBinningModeConfiguration, TileBlockSize, VertexArrayPrimitives, ViewportOffset,
};

fn encoded<T: BinClStructure>(record: &T) -> Vec<u8> {
    let mut bytes = vec![0xaa];
    record.encode(&mut bytes);
    assert_eq!(bytes[0], 0xaa);
    bytes.remove(0);
    bytes
}

#[test]
fn little_endian_writers() {
    let mut bytes = vec![9];
    write_u16_le(&mut bytes, 0x1234);
    write_u32_le(&mut bytes, 0xdead_beef);
    write_all(&mut bytes, &[1, 2, 3]);
    write_all(&mut bytes, &[]);
    assert_eq!(bytes, vec![9, 0x34, 0x12, 0xef, 0xbe, 0xad, 0xde, 1, 2, 3]);
}

#[test]
fn bit_fields() {
    assert_eq!(gen_u8(1, 7, 7), 0x80);
    assert_eq!(gen_u8(3, 5, 6), 0x60);
    assert_eq!(gen_u8(5, 4, 6), 0x50);
    assert_eq!(gen_u8(0x7f, 0, 6), 0x7f);
    assert_eq!(gen_u8(0, 3, 3), 0);
    assert_eq!(gen_u32(1, 31, 31), 0x8000_0000);
    assert_eq!(gen_u32(0xfffff, 12, 31), 0xffff_f000);
    assert_eq!(gen_u32(0x7ff, 8, 18), 0x7ff00);
}

#[test]
fn rounded_up_quotients() {
    assert_eq!(div_round_up(0, 64), 0);
    assert_eq!(div_round_up(1, 64), 1);
    assert_eq!(div_round_up(64, 64), 1);
    assert_eq!(div_round_up(65, 64), 2);
    assert_eq!(div_round_up(640, 64), 10);
    assert_eq!(div_round_up(480, 64), 8);
    assert_eq!(div_round_up(65534, 1), 65534);
    assert_eq!(checked_into(0), 0);
    assert_eq!(checked_into(255), 255);
}

#[test]
fn tile_binning_size_in_pixels() {
    let mut config = TileBinningModeConfiguration::default();
    config.set_size_in_pixels(640, 480);
    assert_eq!((config.width_in_tiles, config.height_in_tiles), (10, 8));
    config.set_size_in_pixels(1, 1);
    assert_eq!((config.width_in_tiles, config.height_in_tiles), (1, 1));
    config.set_size_in_pixels(16320, 16320);
    assert_eq!((config.width_in_tiles, config.height_in_tiles), (255, 255));
    config.multisample_mode_4x = true;
    config.set_size_in_pixels(640, 480);
    assert_eq!((config.width_in_tiles, config.height_in_tiles), (20, 15));
    config.tile_buffer_64_bit_color_depth = true;
    config.set_size_in_pixels(640, 480);
    assert_eq!((config.width_in_tiles, config.height_in_tiles), (20, 30));
    config.multisample_mode_4x = false;
    config.set_size_in_pixels(640, 480);
    assert_eq!((config.width_in_tiles, config.height_in_tiles), (10, 15));
    assert!(config.tile_buffer_64_bit_color_depth);
    assert_eq!(config.tile_allocation_memory_address, 0);
}

#[test]
fn tile_binning_packet() {
    let config = TileBinningModeConfiguration {
        tile_allocation_memory_address: 0x0102_0304,
        tile_allocation_memory_size: 0x1000,
        tile_state_data_array_address: 0xa0b0_c0d0,
        width_in_tiles: 10,
        height_in_tiles: 8,
        multisample_mode_4x: true,
        tile_buffer_64_bit_color_depth: false,
        auto_initialise_tile_state_data_array: true,
        tile_allocation_initial_block_size: TileBlockSize::Size128,
        tile_allocation_block_size: TileBlockSize::Size256,
        double_buffer_in_non_ms_mode: true,
    };
    assert_eq!(
        encoded(&config),
        vec![112, 4, 3, 2, 1, 0, 0x10, 0, 0, 0xd0, 0xc0, 0xb0, 0xa0, 10, 8, 0x80 | 0x60 | 0x10 | 0x04 | 0x01]
    );
    let plain = TileBinningModeConfiguration::default();
    assert_eq!(encoded(&plain), vec![112, 0, 0, 0, 0, 0, 0, 0, 0, 0, 0, 0, 0, 0, 0, 0]);
    let sixty_four = TileBinningModeConfiguration {
        tile_buffer_64_bit_color_depth: true,
        tile_allocation_block_size: TileBlockSize::Size64,
        tile_allocation_initial_block_size: TileBlockSize::Size64,
        ..plain
    };
    assert_eq!(encoded(&sixty_four)[15], 0x20 | 0x08 | 0x02);
}

#[test]
fn packets_without_fields() {
    assert_eq!(encoded(&StartTileBinning), vec![6]);
    assert_eq!(encoded(&IncrementSemaphore), vec![7]);
    assert_eq!(encoded(&Flush), vec![4]);
}

#[test]
fn state_packets() {
    assert_eq!(
        encoded(&LineWidth { line_width: 2.5f32.to_bits() }),
        [vec![99], 2.5f32.to_le_bytes().to_vec()].concat()
    );
    assert_eq!(
        encoded(&ClipWindow {
            clip_window_left_pixel_coordinate: 1,
            clip_window_bottom_pixel_coordinate: 0x0203,
            clip_window_width_in_pixels: 640,
            clip_window_height_in_pixels: 480,
        }),
        vec![102, 1, 0, 3, 2, 0x80, 0x02, 0xe0, 0x01]
    );
    assert_eq!(
        encoded(&ClipperXYScaling {
            viewport_half_width_in_1_16th_of_pixel: 5120.0f32.to_bits(),
            viewport_half_height_in_1_16th_of_pixel: 3840.0f32.to_bits(),
        }),
        [vec![105], 5120.0f32.to_le_bytes().to_vec(), 3840.0f32.to_le_bytes().to_vec()].concat()
    );
    assert_eq!(
        encoded(&ViewportOffset {
            viewport_centre_x_coordinate_12_4: 5120,
            viewport_centre_y_coordinate_12_4: 3840,
        }),
        vec![103, 0x00, 0x14, 0x00, 0x0f]
    );
    assert_eq!(
        encoded(&DepthOffset { depth_offset_factor: 0x0102, depth_offset_units: 0xfffe }),
        vec![101, 2, 1, 0xfe, 0xff]
    );
    assert_eq!(
        encoded(&ClipperZScaleAndOffset {
            viewport_z_scale_zc_to_zs: 1.0f32.to_bits(),
            viewport_z_offset_zc_to_zs: 0.5f32.to_bits(),
        }),
        vec![106, 0, 0, 0x80, 0x3f, 0, 0, 0, 0x3f]
    );
    assert_eq!(encoded(&PointSize { point_size: 1.0f32.to_bits() }), vec![98, 0, 0, 0x80, 0x3f]);
    assert_eq!(
        encoded(&FlatShadeFlags { flat_shading_flags: 0x8000_0001 }),
        vec![97, 1, 0, 0, 0x80]
    );
}

fn no_bits() -> ConfigurationBits {
    ConfigurationBits::default()
}

#[test]
fn configuration_bits_packet() {
    assert_eq!(encoded(&no_bits()), vec![96, 0, 0, 0]);
    let all = ConfigurationBits {
        enable_forward_facing_primitive: true,
        enable_reverse_facing_primitive: true,
        clockwise_primitives: true,
        enable_depth_offset: true,
        antialiased_points_and_lines: true,
        coverage_read_type: true,
        rasteriser_oversample_mode: 3,
        coverage_pipe_select: true,
        coverage_update_mode: 3,
        coverage_read_mode: true,
        depth_test_function: CompareFunction::Always,
        z_updates_enable: true,
        early_z_enable: true,
        early_z_updates_enable: true,
    };
    assert_eq!(encoded(&all), vec![96, 0xff, 0xff, 0x03]);
    let each: [(ConfigurationBits, [u8; 3]); 14] = [
        (ConfigurationBits { enable_forward_facing_primitive: true, ..no_bits() }, [0x01, 0, 0]),
        (ConfigurationBits { enable_reverse_facing_primitive: true, ..no_bits() }, [0x02, 0, 0]),
        (ConfigurationBits { clockwise_primitives: true, ..no_bits() }, [0x04, 0, 0]),
        (ConfigurationBits { enable_depth_offset: true, ..no_bits() }, [0x08, 0, 0]),
        (ConfigurationBits { antialiased_points_and_lines: true, ..no_bits() }, [0x10, 0, 0]),
        (ConfigurationBits { coverage_read_type: true, ..no_bits() }, [0x20, 0, 0]),
        (ConfigurationBits { rasteriser_oversample_mode: 2, ..no_bits() }, [0x80, 0, 0]),
        (ConfigurationBits { coverage_pipe_select: true, ..no_bits() }, [0, 0x01, 0]),
        (ConfigurationBits { coverage_update_mode: 1, ..no_bits() }, [0, 0x02, 0]),
        (ConfigurationBits { coverage_read_mode: true, ..no_bits() }, [0, 0x08, 0]),
        (
            ConfigurationBits { depth_test_function: CompareFunction::LEqual, ..no_bits() },
            [0, 0x30, 0],
        ),
        (ConfigurationBits { z_updates_enable: true, ..no_bits() }, [0, 0x80, 0]),
        (ConfigurationBits { early_z_enable: true, ..no_bits() }, [0, 0, 0x01]),
        (ConfigurationBits { early_z_updates_enable: true, ..no_bits() }, [0, 0, 0x02]),
    ];
    for (bits, bytes) in each {
        assert_eq!(encoded(&bits), vec![96, bytes[0], bytes[1], bytes[2]]);
    }
}

#[test]
fn codes_of_the_enumerations() {
    let compare = [
        CompareFunction::Never,
        CompareFunction::Less,
        CompareFunction::Equal,
        CompareFunction::LEqual,
        CompareFunction::Greater,
        CompareFunction::NotEqual,
        CompareFunction::GEqual,
        CompareFunction::Always,
    ];
    for (code, function) in compare.into_iter().enumerate() {
        assert_eq!(function.code() as usize, code);
    }
    let modes = [
        PrimitiveMode::Points,
        PrimitiveMode::Lines,
        PrimitiveMode::LineLoop,
        PrimitiveMode::LineStrip,
        PrimitiveMode::Triangles,
        PrimitiveMode::TriangleStrip,
        PrimitiveMode::TriangleFan,
    ];
    for (code, mode) in modes.into_iter().enumerate() {
        assert_eq!(mode.code() as usize, code);
    }
    assert_eq!(TileBlockSize::Size32.code(), 0);
    assert_eq!(TileBlockSize::Size256.code(), 3);
    assert_eq!(IndexType::_8bit.code(), 0);
    assert_eq!(IndexType::_16bit.code(), 1);
    assert_eq!(TextureDataType::RGBA8888.code(), 0);
    assert_eq!(TextureDataType::ETC1.code(), 8);
    assert_eq!(TextureDataType::RGBA64.code(), 15);
    assert_eq!(TextureDataType::RGBA32R.code(), 16);
    assert_eq!(TextureDataType::YUYV422R.code(), 17);
    assert_eq!(TextureMagFilterType::Nearest.code(), 1);
    assert_eq!(TextureMinFilterType::LinearMipLinear.code(), 5);
    assert_eq!(TextureWrapType::Border.code(), 3);
}

#[test]
fn draw_packets() {
    assert_eq!(
        encoded(&VertexArrayPrimitives {
            primitive_mode: PrimitiveMode::TriangleStrip,
            length: 0x0102_0304,
            index_of_first_vertex: 7,
        }),
        vec![33, 5, 4, 3, 2, 1, 7, 0, 0, 0]
    );
    assert_eq!(
        encoded(&IndexedPrimitiveList {
            index_type: IndexType::_16bit,
            primitive_mode: PrimitiveMode::Triangles,
            length: 36,
            address_of_indices_list: 0x200,
            maximum_index: 23,
        }),
        vec![32, 1, 4, 36, 0, 0, 0, 0, 2, 0, 0, 23, 0, 0, 0]
    );
    assert_eq!(
        encoded(&GemRelocations { buffer0: 5, buffer1: 0x0100_0000 }),
        vec![254, 5, 0, 0, 0, 0, 0, 0, 1]
    );
}

#[test]
fn shader_state_packet() {
    assert_eq!(
        encoded(&GlShaderState {
            address: 0,
            extended_shader_record: false,
            number_of_attribute_arrays: 4,
        }),
        vec![64, 4, 0, 0, 0]
    );
    assert_eq!(
        encoded(&GlShaderState {
            address: 0x1234_5670,
            extended_shader_record: true,
            number_of_attribute_arrays: 7,
        }),
        vec![64, 0x7f, 0x56, 0x34, 0x12]
    );
}

#[test]
fn shader_record_layout() {
    let record = GlShaderRecord {
        fragment_shader_is_single_threaded: true,
        point_size_included_in_shaded_vertex_data: false,
        enable_clipping: true,
        fragment_shader_number_of_uniforms_not_used_currently: 0x1234,
        fragment_shader_number_of_varyings: 5,
        fragment_shader_code_address_offset: 0x0a0b_0c0d,
        fragment_shader_uniforms_address: 0x1a1b_1c1d,
        vertex_shader_number_of_uniforms_not_used_currently: 0x2122,
        vertex_shader_attribute_array_select_bits: 0x0e,
        vertex_shader_total_attributes_size: 32,
        vertex_shader_code_address_offset: 0x7777_7777,
        vertex_shader_uniforms_address: 0x3a3b_3c3d,
        coordinate_shader_number_of_uniforms_not_used_currently: 0x4142,
        coordinate_shader_attribute_array_select_bits: 0x01,
        coordinate_shader_total_attributes_size: 12,
        coordinate_shader_code_address_offset: 0x5a5b_5c5d,
        coordinate_shader_uniforms_address: 0x6a6b_6c6d,
    };
    let bytes = encoded(&record);
    assert_eq!(bytes.len(), 36);
    assert_eq!(
        bytes,
        vec![
            0x05, 0, 0x34, 5, 0x0d, 0x0c, 0x0b, 0x0a, 0x1d, 0x1c, 0x1b, 0x1a, 0x22, 0x21, 0x0e, 32,
            0x3d, 0x3c, 0x3b, 0x3a, 0, 0, 0, 0, 0x42, 0x41, 0x01, 12, 0x5d, 0x5c, 0x5b, 0x5a, 0x6d,
            0x6c, 0x6b, 0x6a,
        ]
    );
    let point_size = GlShaderRecord {
        fragment_shader_is_single_threaded: false,
        point_size_included_in_shaded_vertex_data: true,
        enable_clipping: false,
        ..record
    };
    assert_eq!(encoded(&point_size)[0], 0x02);
}

#[test]
fn attribute_record_layout() {
    assert_eq!(
        encoded(&AttributeRecord {
            address: 0x0102_0304,
            number_of_bytes_minus_1: 11,
            stride: 32,
            vertex_shader_vpm_offset: 12,
            coordinate_shader_vpm_offset: 3,
        }),
        vec![4, 3, 2, 1, 11, 32, 12, 3]
    );
}

fn texture(data_type: TextureDataType, num_mips: u8, width: u16, height: u16) -> TextureConfigUniform {
    TextureConfigUniform {
        base_address: 0x12345,
        cache_swizzle: 0,
        cube_map: false,
        flip_y: false,
        data_type,
        num_mips,
        height,
        etc_flip: false,
        width,
        mag_filt: TextureMagFilterType::Linear,
        min_filt: TextureMinFilterType::LinearMipLinear,
        wrap_t: TextureWrapType::Repeat,
        wrap_s: TextureWrapType::Repeat,
    }
}

#[test]
fn texture_configuration_words() {
    let plain = texture(TextureDataType::RGBA8888, 10, 512, 256);
    assert_eq!(plain.get_1d_word(), 9 | (0x12345 << 12));
    assert_eq!(plain.get_2d_word(), (5 << 4) | (512 << 8) | (256 << 20));
    let high = TextureConfigUniform {
        cube_map: true,
        base_address: 0xfff0_0001,
        mag_filt: TextureMagFilterType::Nearest,
        min_filt: TextureMinFilterType::Nearest,
        wrap_t: TextureWrapType::Mirror,
        wrap_s: TextureWrapType::Border,
        ..texture(TextureDataType::YUYV422R, 1, 2047, 2048)
    };
    assert_eq!(high.get_1d_word(), 0 | (1 << 4) | (1 << 9) | (0x00001 << 12));
    assert_eq!(
        high.get_2d_word(),
        3 | (2 << 2) | (1 << 4) | (1 << 7) | (2047 << 8) | (0 << 20) | (1 << 31)
    );
    let wide = texture(TextureDataType::RGBA64, 17, 0xffff, 0xffff);
    assert_eq!(wide.get_1d_word(), 0 | (15 << 4) | (0x12345 << 12));
    assert_eq!(wide.get_2d_word(), (5 << 4) | (0x7ff << 8) | (0x7ff << 20));
    let ignored = TextureConfigUniform { cache_swizzle: 3, flip_y: true, etc_flip: true, ..plain };
    assert_eq!(ignored.get_1d_word(), plain.get_1d_word());
    assert_eq!(ignored.get_2d_word(), plain.get_2d_word());
}
