use rpi_drm::card::{
    drm_vc4_submit_rcl_surface, SubmitClArgs, VC4RenderConfigFormat, VC4TilingFormat,
};

#[test]
fn surface_bits() {
    let none = drm_vc4_submit_rcl_surface::default();
    assert_eq!(none, drm_vc4_submit_rcl_surface { hindex: u32::MAX, offset: 0, bits: 0, flags: 0 });
    let tiled = drm_vc4_submit_rcl_surface::new_tiled_rgba8(3);
    assert_eq!(tiled, drm_vc4_submit_rcl_surface { hindex: 3, offset: 0, bits: 0x44, flags: 0 });
    let full = drm_vc4_submit_rcl_surface { hindex: 1, offset: 2, bits: 0xffff, flags: 9 };
    assert_eq!(full.format(VC4RenderConfigFormat::BGR565Dithered).bits, 0xfff3);
    assert_eq!(full.format(VC4RenderConfigFormat::RGBA8888).bits, 0xfff7);
    assert_eq!(full.format(VC4RenderConfigFormat::BGR565).bits, 0xfffb);
    assert_eq!(full.tiling(VC4TilingFormat::Linear).bits, 0xff3f);
    assert_eq!(full.tiling(VC4TilingFormat::T).bits, 0xff7f);
    assert_eq!(full.tiling(VC4TilingFormat::LT).bits, 0xffbf);
    let changed = full.tiling(VC4TilingFormat::LT).format(VC4RenderConfigFormat::BGR565);
    assert_eq!(changed, drm_vc4_submit_rcl_surface { hindex: 1, offset: 2, bits: 0xffbb, flags: 9 });
    assert_eq!(tiled.tiling(VC4TilingFormat::LT).format(VC4RenderConfigFormat::BGR565).bits, 0x88);
}

fn args(flags: [bool; 4]) -> SubmitClArgs<'static> {
    let none = drm_vc4_submit_rcl_surface::default();
    SubmitClArgs {
        bin_cl: &[],
        shader_rec: &[],
        uniforms: &[],
        bo_handles: &[],
        shader_rec_count: 0,
        width: 0,
        height: 0,
        min_x_tile: 0,
        min_y_tile: 0,
        max_x_tile: 0,
        max_y_tile: 0,
        color_read: none,
        color_write: none,
        zs_read: none,
        zs_write: none,
        msaa_color_write: none,
        msaa_zs_write: none,
        clear_color: [0, 0],
        clear_z: 0,
        clear_s: 0,
        use_clear_color: flags[0],
        fixed_rcl_order: flags[1],
        rcl_order_increasing_x: flags[2],
        rcl_order_increasing_y: flags[3],
    }
}

#[test]
fn submit_flags() {
    assert_eq!(args([false, false, false, false]).flags(), 0);
    assert_eq!(args([true, false, false, false]).flags(), 1);
    assert_eq!(args([false, true, false, false]).flags(), 2);
    assert_eq!(args([false, false, true, false]).flags(), 4);
    assert_eq!(args([false, false, false, true]).flags(), 8);
    assert_eq!(args([true, true, true, true]).flags(), 15);
}
