use rpi_drm::cl::{
    ClipWindow, ConfigurationBits, DepthOffset, FlatShadeFlags, LineWidth, PointSize,
    TextureConfigUniform, TextureDataType, TextureMagFilterType, TextureMinFilterType,
    TextureWrapType, AttributeRecord,
};
use rpi_drm::encoder::{FixedFunctionState, StateTracker};
use rpi_drm::relocation::RelocationTable;
use rpi_drm::vc4_image::{Translator, UVec2};
use rpi_drm::{Buffer, CommandEncoder, ShaderAttribute, ShaderUniform, TextureUniform};

#[test]
fn relocation_table() {
    let mut table = RelocationTable::new();
    assert!(table.handles().is_empty());
    assert_eq!(table.relocate(9), 0);
    assert_eq!(table.relocate(4), 1);
    assert_eq!(table.relocate(9), 0);
    assert_eq!(table.relocate(0), 2);
    assert_eq!(table.relocate(u32::MAX), 3);
    assert_eq!(table.relocate(4), 1);
    assert_eq!(table.handles(), &vec![9, 4, 0, u32::MAX]);
    table.clear();
    assert!(table.handles().is_empty());
    assert_eq!(table.relocate(4), 0);
    assert_eq!(table.handles(), &vec![4]);
}

#[test]
fn relocation_list_holds_each_handle_once() {
    let mut table = RelocationTable::new();
    let seen = [5u32, 7, 5, 5, 9, 7, 1, 9, 5, 1000, 1];
    let mut first_index = std::collections::BTreeMap::new();
    for handle in seen {
        let index = table.relocate(handle);
        assert_eq!(*first_index.entry(handle).or_insert(index), index);
        assert_eq!(table.handles()[index as usize], handle);
    }
    assert_eq!(table.handles().len(), first_index.len());
    assert_eq!(table.handles(), &vec![5, 7, 9, 1, 1000]);
}

#[test]
fn state_tracker() {
    let mut tracker: StateTracker<LineWidth, 3> = StateTracker(None);
    let mut dirty = 0x0100;
    let mut stream = vec![1];
    tracker.flush(dirty, &mut stream);
    assert_eq!(stream, vec![1]);
    tracker.set(&mut dirty, LineWidth { line_width: 0x0403_0201 });
    assert_eq!(dirty, 0x0108);
    assert_eq!(tracker.0, Some(LineWidth { line_width: 0x0403_0201 }));
    tracker.flush(0x0100, &mut stream);
    assert_eq!(stream, vec![1]);
    tracker.flush(dirty, &mut stream);
    assert_eq!(stream, vec![1, 99, 1, 2, 3, 4]);
    tracker.set(&mut dirty, LineWidth { line_width: 0 });
    assert_eq!(dirty, 0x0108);
    tracker.clear();
    assert_eq!(tracker.0, None);
    tracker.flush(0, &mut stream);
    assert_eq!(stream.len(), 6);
}

#[test]
fn fixed_function_state() {
    let mut state = FixedFunctionState::new();
    assert_eq!(state.dirty_bits, 0);
    let mut stream = Vec::new();
    state.flush(&mut stream);
    assert!(stream.is_empty());
    state.set_point_size(PointSize { point_size: 1 });
    state.set_line_width(LineWidth { line_width: 2 });
    state.set_configuration_bits(ConfigurationBits::default());
    assert_eq!(state.dirty_bits, 0b1001_0001);
    state.flush(&mut stream);
    assert_eq!(stream, vec![99, 2, 0, 0, 0, 96, 0, 0, 0, 98, 1, 0, 0, 0]);
    assert_eq!(state.dirty_bits, 0);
    assert_eq!(state.point_size.0, Some(PointSize { point_size: 1 }));
    state.flush(&mut stream);
    assert_eq!(stream.len(), 14);
    state.set_clip_window(ClipWindow {
        clip_window_left_pixel_coordinate: 0,
        clip_window_bottom_pixel_coordinate: 0,
        clip_window_width_in_pixels: 1,
        clip_window_height_in_pixels: 1,
    });
    state.set_depth_offset(DepthOffset { depth_offset_factor: 1, depth_offset_units: 1 });
    state.set_flat_shade_flags(FlatShadeFlags { flat_shading_flags: 1 });
    assert_eq!(state.dirty_bits, 0b1_0010_0010);
    state.clear();
    assert_eq!(state.dirty_bits, 0);
    assert_eq!(state.clip_window.0, None);
    assert_eq!(state.point_size.0, None);
    state.flush(&mut stream);
    assert_eq!(stream.len(), 14);
}

fn attribute(bytes: u8, vs: bool, cs: bool) -> ShaderAttribute {
    ShaderAttribute {
        buffer: Buffer::new(1, 1),
        record: AttributeRecord {
            address: 0,
            number_of_bytes_minus_1: bytes - 1,
            stride: 0,
            vertex_shader_vpm_offset: 0,
            coordinate_shader_vpm_offset: 0,
        },
        vs,
        cs,
    }
}

fn texture(num_mips: u8) -> ShaderUniform {
    ShaderUniform::Texture(TextureUniform {
        buffer: Buffer::new(2, 2),
        config: TextureConfigUniform {
            base_address: 0,
            cache_swizzle: 0,
            cube_map: false,
            flip_y: false,
            data_type: TextureDataType::RGBA8888,
            num_mips,
            height: 1,
            etc_flip: false,
            width: 1,
            mag_filt: TextureMagFilterType::Linear,
            min_filt: TextureMinFilterType::Linear,
            wrap_t: TextureWrapType::Repeat,
            wrap_s: TextureWrapType::Repeat,
        },
    })
}

#[test]
fn bindings_that_fit() {
    let encoder = CommandEncoder::new((64, 64));
    assert!(encoder.fits_bind_shader(&[], &[], &[], &[]));
    let eight: Vec<ShaderAttribute> = (0..8).map(|_| attribute(31, true, true)).collect();
    assert!(encoder.fits_bind_shader(&eight, &[texture(1)], &[texture(12)], &[texture(255)]));
    let nine: Vec<ShaderAttribute> = (0..9).map(|_| attribute(1, true, true)).collect();
    assert!(!encoder.fits_bind_shader(&nine, &[], &[], &[]));
    let full = [attribute(255, true, false), attribute(255, false, true)];
    assert!(encoder.fits_bind_shader(&full, &[], &[], &[]));
    let vertex = [attribute(255, true, false), attribute(1, true, false)];
    assert!(!encoder.fits_bind_shader(&vertex, &[], &[], &[]));
    let coordinate = [attribute(128, false, true), attribute(128, true, true)];
    assert!(!encoder.fits_bind_shader(&coordinate, &[], &[], &[]));
    let unread = [attribute(255, false, false), attribute(255, false, false)];
    assert!(encoder.fits_bind_shader(&unread, &[], &[], &[]));
    assert!(!encoder.fits_bind_shader(&[], &[texture(0)], &[], &[]));
    assert!(!encoder.fits_bind_shader(&[], &[], &[ShaderUniform::Constant(1), texture(0)], &[]));
    assert!(!encoder.fits_bind_shader(&[], &[], &[], &[texture(0)]));
}

#[test]
fn tiles_of_the_target() {
    let mut encoder = CommandEncoder::new((640, 480));
    assert_eq!(encoder.size_in_tiles(), (0, 0));
    encoder.begin_pass();
    assert_eq!(encoder.size_in_tiles(), (10, 8));
    encoder.clear();
    assert_eq!(encoder.size_in_tiles(), (10, 8));
}

#[test]
fn translator_keeps_its_size() {
    for size in [UVec2::new(1024, 512), UVec2::new(992, 17), UVec2::new(8, 8), UVec2::new(12, 3)] {
        assert_eq!(Translator::new(size, 32).image_size(), size);
    }
}
