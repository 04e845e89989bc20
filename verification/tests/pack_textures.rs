use rpi_drm::pack_textures::{
    build_mip_chain, ilog2, mip_chain_layout, pack_texture, packed, MipInfo,
};
use rpi_drm::texture::{unpack_texture, PackedTextureHeader};
use rpi_drm::vc4_image::{Translator, TranslatorTrait, UVec2};
use std::io::Read;

fn levels_of(size: UVec2) -> (Vec<MipInfo>, u32) {
    let (levels, total) = mip_chain_layout(size).unwrap();
    let list = (0..levels.count()).map(|level| levels.level(level).unwrap()).collect();
    assert_eq!(levels.level(levels.count()), None);
    (list, total)
}

fn image(size: UVec2) -> Vec<u8> {
    (0..size.x * size.y * 4).map(|i| (i * 37 % 256) as u8 ^ (i / 256) as u8).collect()
}

/// The mip chain by a plain rule: the texels of each level, then their places.
fn expected_chain(size: UVec2, rgba: &[u8]) -> Vec<u8> {
    let (levels, total) = levels_of(size);
    let mut chain = vec![0u8; total as usize];
    let mut texels: Vec<Vec<[u8; 4]>> = (0..size.y)
        .map(|y| {
            (0..size.x)
                .map(|x| {
                    let at = (((size.y - 1 - y) * size.x + x) * 4) as usize;
                    [rgba[at + 2], rgba[at + 1], rgba[at], rgba[at + 3]]
                })
                .collect()
        })
        .collect();
    for info in levels {
        assert_eq!(info.size.y as usize, texels.len());
        assert_eq!(info.size.x as usize, texels[0].len());
        let translator = Translator::new(info.size, 32);
        for y in 0..info.size.y {
            for x in 0..info.size.x {
                let address = translator.coordinate_to_tile_address(UVec2::new(x, y));
                let at = (info.offset + address.offset) as usize;
                chain[at..at + 4].copy_from_slice(&texels[y as usize][x as usize]);
            }
        }
        let smaller: Vec<Vec<[u8; 4]>> = (0..texels.len() / 2)
            .map(|y| {
                (0..texels[0].len() / 2)
                    .map(|x| {
                        let mut mean = [0u8; 4];
                        for c in 0..4 {
                            let sum = texels[2 * y][2 * x][c] as u16
                                + texels[2 * y][2 * x + 1][c] as u16
                                + texels[2 * y + 1][2 * x][c] as u16
                                + texels[2 * y + 1][2 * x + 1][c] as u16;
                            mean[c] = (sum / 4) as u8;
                        }
                        mean
                    })
                    .collect()
            })
            .collect();
        texels = smaller;
    }
    chain
}

fn inflate(stream: &[u8]) -> Vec<u8> {
    let mut data = Vec::new();
    flate2::read::ZlibDecoder::new(stream).read_to_end(&mut data).unwrap();
    data
}

#[test]
fn logarithms() {
    assert_eq!(ilog2(1), 0);
    assert_eq!(ilog2(2), 1);
    assert_eq!(ilog2(3), 1);
    assert_eq!(ilog2(4), 2);
    assert_eq!(ilog2(4095), 11);
    assert_eq!(ilog2(4096), 12);
    assert_eq!(ilog2(u32::MAX), 31);
    for v in 1..5000u32 {
        assert_eq!(ilog2(v), v.ilog2());
    }
}

#[test]
fn layout_of_a_small_square() {
    let (levels, total) = levels_of(UVec2::new(8, 8));
    assert_eq!(
        levels,
        vec![
            MipInfo { size: UVec2::new(8, 8), offset: 192 },
            MipInfo { size: UVec2::new(4, 4), offset: 128 },
            MipInfo { size: UVec2::new(2, 2), offset: 64 },
            MipInfo { size: UVec2::new(1, 1), offset: 0 },
        ]
    );
    assert_eq!(total, 448);
}

#[test]
fn layout_of_a_wide_image() {
    let (levels, total) = levels_of(UVec2::new(64, 16));
    assert_eq!(
        levels,
        vec![
            MipInfo { size: UVec2::new(64, 16), offset: 1472 },
            MipInfo { size: UVec2::new(32, 8), offset: 448 },
            MipInfo { size: UVec2::new(16, 4), offset: 192 },
            MipInfo { size: UVec2::new(8, 2), offset: 64 },
            MipInfo { size: UVec2::new(4, 1), offset: 0 },
        ]
    );
    assert_eq!(total, 9664);
    let (one, total) = levels_of(UVec2::new(1, 1));
    assert_eq!(one, vec![MipInfo { size: UVec2::new(1, 1), offset: 0 }]);
    assert_eq!(total, 64);
    let (strip, _) = levels_of(UVec2::new(4096, 2));
    assert_eq!(strip.len(), 2);
    assert_eq!(strip[1].size, UVec2::new(2048, 1));
    let (largest, total) = levels_of(UVec2::new(2048, 2048));
    assert_eq!(largest.len(), 12);
    assert_eq!(largest[0].offset + 2048 * 2048 * 4, total);
}

#[test]
fn layout_is_refused() {
    assert!(mip_chain_layout(UVec2::new(0, 8)).is_none());
    assert!(mip_chain_layout(UVec2::new(8, 0)).is_none());
    assert!(mip_chain_layout(UVec2::new(12, 8)).is_none());
    assert!(mip_chain_layout(UVec2::new(8, 100)).is_none());
    assert!(mip_chain_layout(UVec2::new(4096, 4096)).is_none());
    assert!(mip_chain_layout(UVec2::new(1 << 31, 1)).is_none());
    assert!(mip_chain_layout(UVec2::new(1 << 20, 1 << 10)).is_none());
    assert!(mip_chain_layout(UVec2::new(1 << 19, 1 << 10)).is_some());
    assert!(mip_chain_layout(UVec2::new(4096, 2048)).is_some());
}

#[test]
fn chain_of_one_texel() {
    let size = UVec2::new(1, 1);
    let (levels, total) = mip_chain_layout(size).unwrap();
    let chain = build_mip_chain(size, &[1, 2, 3, 4], &levels, total);
    let mut expected = vec![0u8; 64];
    expected[..4].copy_from_slice(&[3, 2, 1, 4]);
    assert_eq!(chain, expected);
}

#[test]
fn chain_of_two_by_two() {
    let size = UVec2::new(2, 2);
    let (levels, total) = mip_chain_layout(size).unwrap();
    let rgba = [
        10, 20, 30, 40, 50, 60, 70, 80, // top row
        1, 2, 3, 4, 5, 6, 7, 9, // bottom row
    ];
    let chain = build_mip_chain(size, &rgba, &levels, total);
    assert_eq!(chain.len(), 128);
    assert_eq!(&chain[0..4], &[(30 + 70 + 3 + 7) / 4, (20 + 60 + 2 + 6) / 4, 16, 33]);
    assert!(chain[4..64].iter().all(|b| *b == 0));
    assert_eq!(&chain[64..72], &[3, 2, 1, 4, 7, 6, 5, 9]);
    assert_eq!(&chain[80..88], &[30, 20, 10, 40, 70, 60, 50, 80]);
    assert!(chain[72..80].iter().all(|b| *b == 0));
    assert!(chain[88..].iter().all(|b| *b == 0));
}

#[test]
fn chain_follows_the_plain_rule() {
    for (w, h) in [(8, 8), (16, 16), (64, 16), (4, 32), (32, 32), (128, 64), (1, 8), (256, 1)] {
        let size = UVec2::new(w, h);
        let rgba = image(size);
        let (levels, total) = mip_chain_layout(size).unwrap();
        let chain = build_mip_chain(size, &rgba, &levels, total);
        assert_eq!(chain, expected_chain(size, &rgba));
    }
}

#[test]
fn packed_texture_holds_header_and_padded_chain() {
    let size = UVec2::new(64, 16);
    let rgba = image(size);
    let container = pack_texture(size, &rgba).unwrap();
    let header = PackedTextureHeader::parse(&container).unwrap();
    assert_eq!(
        header,
        PackedTextureHeader {
            total_size: 9664,
            num_mips: 5,
            mip0_page_offset: 1,
            width: 64,
            height: 16,
        }
    );
    let padded = inflate(&container[16..]);
    let padding = 4096 - 1472;
    assert_eq!(padded.len(), padding + 9664);
    assert!(padded[..padding].iter().all(|b| *b == 0));
    assert_eq!(&padded[padding..], expected_chain(size, &rgba).as_slice());
    let (unpacked_header, start) = unpack_texture(&container).unwrap();
    assert_eq!(unpacked_header, header);
    assert_eq!(start, &padded[..9664]);
}

#[test]
fn packed_texture_without_padding() {
    let size = UVec2::new(1, 1);
    let container = pack_texture(size, &[9, 8, 7, 6]).unwrap();
    let header = PackedTextureHeader::parse(&container).unwrap();
    assert_eq!(
        header,
        PackedTextureHeader { total_size: 64, num_mips: 1, mip0_page_offset: 0, width: 1, height: 1 }
    );
    let chain = inflate(&container[16..]);
    assert_eq!(chain.len(), 64);
    assert_eq!(&chain[..4], &[7, 8, 9, 6]);
    assert_eq!(unpack_texture(&container).unwrap().1, chain);
}

#[test]
fn packed_joins_header_and_stream() {
    let header = PackedTextureHeader {
        total_size: 1,
        num_mips: 2,
        mip0_page_offset: 3,
        width: 4,
        height: 5,
    };
    assert_eq!(packed(header, None), None);
    let container = packed(header, Some(vec![0xaa, 0xbb])).unwrap();
    assert_eq!(
        container,
        vec![0xc2, 0x72, 0x50, 0, 1, 0, 0, 0, 2, 0, 3, 0, 4, 0, 5, 0, 0xaa, 0xbb]
    );
}
