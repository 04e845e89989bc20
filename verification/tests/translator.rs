use rpi_drm::vc4_image::{
    u32_is_power_of_two, TileAddress, Translator, TranslatorTrait, U32Factor, U32NonPowerOfTwoFactor,
    U32PowerOfTwoFactor, UVec2, UVec2PowerOfTwoFactor,
};

const DEPTHS: [u32; 6] = [1, 4, 8, 16, 32, 64];

fn utile_size(bpp: u32) -> (u32, u32) {
    match bpp {
        64 => (2, 4),
        32 => (4, 4),
        16 => (8, 4),
        8 => (8, 8),
        4 => (16, 8),
        _ => (32, 16),
    }
}

fn check_round_trip(width: u32, height: u32, bpp: u32) {
    let translator = Translator::new(UVec2::new(width, height), bpp);
    let size = Translator::alloc_size(UVec2::new(width, height), bpp).unwrap();
    let mut seen = vec![false; size as usize * 8 / bpp as usize];
    for y in 0..height {
        for x in 0..width {
            let coord = UVec2::new(x, y);
            let address = translator.coordinate_to_tile_address(coord);
            let bit = address.offset as u64 * 8 + address.bit as u64;
            assert!(address.bit < 8);
            assert_eq!(bit % bpp as u64, 0);
            assert!(bit + bpp as u64 <= size as u64 * 8);
            let pixel = (bit / bpp as u64) as usize;
            assert!(!seen[pixel]);
            seen[pixel] = true;
            assert_eq!(translator.tile_address_to_coordinate(address), coord);
        }
    }
}

#[test]
fn round_trip_power_of_two_sizes() {
    for bpp in DEPTHS {
        check_round_trip(256, 256, bpp);
        check_round_trip(512, 128, bpp);
        check_round_trip(8, 8, bpp);
        check_round_trip(1, 1, bpp);
    }
}

#[test]
fn round_trip_other_sizes() {
    for bpp in DEPTHS {
        check_round_trip(257, 131, bpp);
        check_round_trip(97, 300, bpp);
        check_round_trip(1008, 40, bpp);
        check_round_trip(13, 7, bpp);
        check_round_trip(3, 200, bpp);
        check_round_trip(200, 3, bpp);
    }
}

#[test]
fn round_trip_at_the_small_image_boundary() {
    for bpp in DEPTHS {
        let (w, h) = utile_size(bpp);
        for width in [4 * w - 1, 4 * w, 4 * w + 1] {
            for height in [4 * h - 1, 4 * h, 4 * h + 1] {
                check_round_trip(width, height, bpp);
                let address = Translator::new(UVec2::new(width, height), bpp)
                    .coordinate_to_tile_address(UVec2::new(0, 0));
                assert_eq!(address.lt, width < 4 * w || height < 4 * h);
            }
        }
    }
}

#[test]
fn literal_offsets_of_a_large_image() {
    let translator = Translator::new(UVec2::new(1024, 1024), 32);
    let offset = |x: u32, y: u32| translator.coordinate_to_tile_address(UVec2::new(x, y)).offset;
    assert_eq!(offset(0, 0), 0);
    assert_eq!(offset(3, 0), 12);
    assert_eq!(offset(0, 3), 48);
    assert_eq!(offset(3, 3), 60);
    assert_eq!(offset(4, 0), 64);
    assert_eq!(offset(12, 0), 192);
    assert_eq!(offset(0, 16), 1024);
    assert_eq!(offset(16, 16), 2048);
    assert_eq!(offset(16, 0), 3072);
}

#[test]
fn literal_offsets_of_a_small_image() {
    let translator = Translator::new(UVec2::new(8, 8), 32);
    let offset = |x: u32, y: u32| translator.coordinate_to_tile_address(UVec2::new(x, y)).offset;
    assert_eq!(offset(0, 0), 0);
    assert_eq!(offset(3, 0), 12);
    assert_eq!(offset(0, 3), 48);
    assert_eq!(offset(3, 3), 60);
    assert_eq!(offset(4, 0), 64);
    assert_eq!(offset(0, 7), 176);
    assert_eq!(offset(7, 7), 252);
    assert!(translator.coordinate_to_tile_address(UVec2::new(7, 7)).lt);
}

#[test]
fn serpentine_row_flip() {
    let translator = Translator::new(UVec2::new(1024, 1024), 32);
    let offset = |x: u32, y: u32| translator.coordinate_to_tile_address(UVec2::new(x, y)).offset;
    assert!(offset(0, 16) < offset(16, 16));
    assert!(offset(16, 16) < offset(16, 0));
    for tile in 0..32 {
        assert_eq!(offset(tile * 32, 0) / 4096, tile);
        assert_eq!(offset(tile * 32, 32) / 4096, 32 + 31 - tile);
        assert_eq!(offset(tile * 32, 64) / 4096, 64 + tile);
    }
    assert!(offset(0, 32) > offset(32, 32));
    assert!(offset(0, 0) < offset(32, 0));
}

#[test]
fn sub_byte_depths_address_bits() {
    let one = Translator::new(UVec2::new(128, 64), 1);
    let address = one.coordinate_to_tile_address(UVec2::new(11, 0));
    assert_eq!((address.offset, address.bit, address.lt), (1, 3, false));
    let address = one.coordinate_to_tile_address(UVec2::new(0, 1));
    assert_eq!((address.offset, address.bit), (4, 0));
    assert_eq!(
        one.tile_address_to_coordinate(TileAddress { offset: 1, bit: 3, lt: false }),
        UVec2::new(11, 0)
    );
    let four = Translator::new(UVec2::new(64, 32), 4);
    let address = four.coordinate_to_tile_address(UVec2::new(3, 2));
    assert_eq!((address.offset, address.bit), (17, 4));
    let eight = Translator::new(UVec2::new(32, 32), 8);
    let address = eight.coordinate_to_tile_address(UVec2::new(9, 1));
    assert_eq!((address.offset, address.bit), (64 + 8 + 1, 0));
    let sixty_four = Translator::new(UVec2::new(8, 16), 64);
    let address = sixty_four.coordinate_to_tile_address(UVec2::new(1, 1));
    assert_eq!((address.offset, address.bit), (24, 0));
}

#[test]
fn an_address_inside_a_pixel_decodes_to_the_pixel() {
    let translator = Translator::new(UVec2::new(64, 64), 32);
    let at = translator.coordinate_to_tile_address(UVec2::new(37, 21));
    for byte in 0..4 {
        let inside = TileAddress { offset: at.offset + byte, bit: 5, lt: false };
        assert_eq!(translator.tile_address_to_coordinate(inside), UVec2::new(37, 21));
    }
}

#[test]
fn variant_follows_size() {
    assert!(matches!(Translator::new(UVec2::new(1024, 1024), 32), Translator::TTranslatorPOT(_)));
    assert!(matches!(Translator::new(UVec2::new(992, 992), 32), Translator::TTranslatorNPOT(_)));
    assert!(matches!(Translator::new(UVec2::new(1008, 64), 32), Translator::TTranslatorPOT(_)));
    assert!(matches!(Translator::new(UVec2::new(8, 8), 32), Translator::LTTranslatorPOT(_)));
    assert!(matches!(Translator::new(UVec2::new(12, 12), 32), Translator::LTTranslatorNPOT(_)));
    assert!(matches!(Translator::new(UVec2::new(16, 16), 32), Translator::TTranslatorPOT(_)));
    assert!(matches!(Translator::new(UVec2::new(4096, 15), 32), Translator::LTTranslatorPOT(_)));
    assert!(matches!(Translator::new(UVec2::new(16, 15), 32), Translator::LTTranslatorPOT(_)));
}

#[test]
fn alloc_size_counts_whole_tiles() {
    assert_eq!(Translator::alloc_size(UVec2::new(1024, 1024), 32), Some(4 * 1024 * 1024));
    assert_eq!(Translator::alloc_size(UVec2::new(992, 992), 32), Some(31 * 31 * 4096));
    assert_eq!(Translator::alloc_size(UVec2::new(1008, 64), 32), Some(32 * 2 * 4096));
    assert_eq!(Translator::alloc_size(UVec2::new(33, 33), 32), Some(2 * 2 * 4096));
    assert_eq!(Translator::alloc_size(UVec2::new(8, 8), 32), Some(4 * 64));
    assert_eq!(Translator::alloc_size(UVec2::new(1, 1), 32), Some(64));
    assert_eq!(Translator::alloc_size(UVec2::new(12, 12), 32), Some(9 * 64));
    assert_eq!(Translator::alloc_size(UVec2::new(128, 64), 1), Some(4096));
    assert_eq!(Translator::alloc_size(UVec2::new(256, 128), 1), Some(4096));
    assert_eq!(Translator::alloc_size(UVec2::new(257, 64), 1), Some(2 * 4096));
}

#[test]
fn alloc_size_refuses_invalid_geometry() {
    assert_eq!(Translator::alloc_size(UVec2::new(0, 16), 32), None);
    assert_eq!(Translator::alloc_size(UVec2::new(16, 0), 32), None);
    assert_eq!(Translator::alloc_size(UVec2::new(16, 16), 24), None);
    assert_eq!(Translator::alloc_size(UVec2::new(16, 16), 0), None);
    assert_eq!(Translator::alloc_size(UVec2::new(32768, 32768), 32), None);
    assert_eq!(Translator::alloc_size(UVec2::new(32768, 32736), 32), Some(4290772992));
    assert_eq!(Translator::alloc_size(UVec2::new(u32::MAX, u32::MAX), 1), None);
    assert_eq!(Translator::alloc_size(UVec2::new(u32::MAX, 1), 64), None);
    assert_eq!(Translator::alloc_size(UVec2::new(1, u32::MAX), 1), None);
    assert_eq!(Translator::alloc_size(UVec2::new(1, 60_000_000), 32), Some(960_000_000));
}

#[test]
fn last_pixel_of_the_largest_image() {
    let size = UVec2::new(32768, 32736);
    let translator = Translator::new(size, 32);
    let last = UVec2::new(size.x - 1, size.y - 1);
    let address = translator.coordinate_to_tile_address(last);
    assert_eq!(translator.tile_address_to_coordinate(address), last);
    assert!(address.offset as u64 + 4 <= 4290772992);
}

#[test]
fn factors_agree() {
    let pot = U32PowerOfTwoFactor::new(5);
    let npot = U32NonPowerOfTwoFactor::new(32);
    assert_eq!(pot.factor(), 32);
    assert_eq!(npot.factor(), 32);
    for val in [0u32, 1, 31, 32, 33, 1000, 4_000_000_000, u32::MAX] {
        assert_eq!(pot.div_rem(val), (val / 32, val % 32));
        assert_eq!(npot.div_rem(val), (val / 32, val % 32));
        assert_eq!(pot.div(val), npot.div(val));
    }
    assert_eq!(pot.mul_add(7, 31), 7 * 32 + 31);
    assert_eq!(npot.mul_add(7, 31), 7 * 32 + 31);
    let odd = U32NonPowerOfTwoFactor::new(31);
    assert_eq!(odd.div_rem(1000), (32, 8));
    assert_eq!(odd.mul_add(32, 8), 1000);
    assert_eq!(odd.div(61), 1);
}

#[test]
fn pair_factor() {
    let factor = UVec2PowerOfTwoFactor::new(3, 2);
    assert_eq!(
        factor.div_rem(UVec2::new(29, 14)),
        (UVec2::new(3, 3), UVec2::new(5, 2))
    );
    assert_eq!(factor.div_rem_x(29), (3, 5));
    assert_eq!(factor.mul_add(UVec2::new(3, 3), UVec2::new(5, 2)), UVec2::new(29, 14));
    assert_eq!(factor.mul_add_x(3, 5), 29);
    assert_eq!(factor.round_up_div_x(0), 0);
    assert_eq!(factor.round_up_div_x(1), 1);
    assert_eq!(factor.round_up_div_x(8), 1);
    assert_eq!(factor.round_up_div_x(9), 2);
    assert_eq!(factor.round_up_div_x(u32::MAX), 1 << 29);
}

#[test]
fn power_of_two_test() {
    assert!(!u32_is_power_of_two(0));
    assert!(u32_is_power_of_two(1));
    assert!(u32_is_power_of_two(2));
    assert!(!u32_is_power_of_two(3));
    assert!(u32_is_power_of_two(1 << 31));
    assert!(!u32_is_power_of_two(u32::MAX));
    assert!(!u32_is_power_of_two(96));
}

#[test]
fn coordinates_convert_from_pairs() {
    let v: UVec2 = (3, 4).into();
    assert_eq!(v, UVec2 { x: 3, y: 4 });
    assert_eq!(UVec2::from((7, 9)), UVec2::new(7, 9));
}

/// The address of a pixel of a large image by shifts and masks alone, for an image
/// whose width is a whole number of tiles.
fn by_shifts_and_masks(width: u32, bpp: u32, x: u32, y: u32) -> (u32, u32) {
    let (shift_x, shift_y, bpp_shift) = match bpp {
        64 => (1, 2, 6),
        32 => (2, 2, 5),
        16 => (3, 2, 4),
        8 => (3, 3, 3),
        4 => (4, 3, 2),
        _ => (5, 4, 0),
    };
    let tiles_per_row = width >> (shift_x + 3);
    let (utile_x, pixel_x) = (x >> shift_x, x & ((1 << shift_x) - 1));
    let (utile_y, pixel_y) = (y >> shift_y, y & ((1 << shift_y) - 1));
    let (subtile_x, in_subtile_x) = (utile_x >> 2, utile_x & 3);
    let (subtile_y, in_subtile_y) = (utile_y >> 2, utile_y & 3);
    let (tile_x, in_tile_x) = (subtile_x >> 1, subtile_x & 1);
    let (tile_y, in_tile_y) = (subtile_y >> 1, subtile_y & 1);
    let odd = tile_y & 1 != 0;
    let column = if odd { tiles_per_row - tile_x - 1 } else { tile_x };
    let tile_index = tile_y * tiles_per_row + column;
    let table = if odd { [2, 3, 1, 0] } else { [0, 1, 3, 2] };
    let subtile_index = table[((in_tile_x << 1) | in_tile_y) as usize];
    let utile_index = in_subtile_y * 4 + in_subtile_x;
    let pixel_bits = ((pixel_y << shift_x) | pixel_x) << bpp_shift;
    (
        tile_index * 4096 + subtile_index * 1024 + utile_index * 64 + pixel_bits / 8,
        pixel_bits % 8,
    )
}

#[test]
fn addresses_follow_the_shift_and_mask_rule() {
    for bpp in DEPTHS {
        let (w, h) = utile_size(bpp);
        for tiles in [1, 2, 3, 4, 5] {
            let width = tiles * 8 * w;
            let height = 3 * 8 * h + 5;
            let translator = Translator::new(UVec2::new(width, height), bpp);
            for y in 0..height {
                for x in 0..width {
                    let address = translator.coordinate_to_tile_address(UVec2::new(x, y));
                    assert_eq!(
                        (address.offset, address.bit as u32, address.lt),
                        {
                            let (offset, bit) = by_shifts_and_masks(width, bpp, x, y);
                            (offset, bit, false)
                        }
                    );
                }
            }
        }
    }
}
