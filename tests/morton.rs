use houtu_3d_tiles::error::TilingError;
use houtu_3d_tiles::morton::{
    branching_factor, child_count, decode_2d, decode_3d, encode, encode_2d, encode_3d, level_offset,
};
use houtu_3d_tiles::tiling::SubdivisionScheme;

#[test]
fn quadtree_interleaves_x_first() {
    assert_eq!(encode_2d(0, 0), 0);
    assert_eq!(encode_2d(1, 0), 1);
    assert_eq!(encode_2d(0, 1), 2);
    assert_eq!(encode_2d(1, 1), 3);
    assert_eq!(encode_2d(2, 0), 4);
    assert_eq!(encode_2d(3, 3), 15);
    assert_eq!(encode_2d(5, 2), 0b011001);
    assert_eq!(encode_2d(u32::MAX, u32::MAX), u64::MAX);
}

#[test]
fn octree_interleaves_x_y_z() {
    assert_eq!(encode_3d(1, 0, 0), 1);
    assert_eq!(encode_3d(0, 1, 0), 2);
    assert_eq!(encode_3d(0, 0, 1), 4);
    assert_eq!(encode_3d(1, 1, 1), 7);
    assert_eq!(encode_3d(2, 0, 0), 8);
    assert_eq!(encode_3d(3, 2, 1), 0b011_101);
    assert_eq!(decode_3d(8), (2, 0, 0));
    assert_eq!(decode_3d(7), (1, 1, 1));
}

#[test]
fn quadtree_round_trip() {
    for x in 0..64u32 {
        for y in 0..64u32 {
            assert_eq!(decode_2d(encode_2d(x, y)), (x, y));
        }
    }
    for m in 0..4096u64 {
        let (x, y) = decode_2d(m);
        assert_eq!(encode_2d(x, y), m);
    }
    let big = (0x8765_4321u32, 0x1234_5678u32);
    assert_eq!(decode_2d(encode_2d(big.0, big.1)), big);
}

#[test]
fn octree_round_trip() {
    for x in 0..16u32 {
        for y in 0..16u32 {
            for z in 0..16u32 {
                assert_eq!(decode_3d(encode_3d(x, y, z)), (x, y, z));
            }
        }
    }
    let big = (0x1F_FFFFu32, 0x0A_BCDEu32, 0x15_5555u32);
    assert_eq!(decode_3d(encode_3d(big.0, big.1, big.2)), big);
}

#[test]
fn encode_dispatches_on_scheme() {
    assert_eq!(encode(SubdivisionScheme::Quadtree, 1, 1, 0, 1, 2), 3);
    assert_eq!(encode(SubdivisionScheme::Octree, 0, 0, 1, 1, 2), 4);
}

#[test]
fn level_offsets_of_a_quadtree() {
    let q = SubdivisionScheme::Quadtree;
    assert_eq!(level_offset(0, q), Ok(0));
    assert_eq!(level_offset(1, q), Ok(1));
    assert_eq!(level_offset(2, q), Ok(5));
    assert_eq!(level_offset(3, q), Ok(21));
    for l in 0..31u32 {
        assert_eq!(level_offset(l, q), Ok((4u64.pow(l) - 1) / 3));
    }
}

#[test]
fn level_offsets_of_an_octree() {
    let o = SubdivisionScheme::Octree;
    assert_eq!(level_offset(1, o), Ok(1));
    assert_eq!(level_offset(2, o), Ok(9));
    assert_eq!(level_offset(3, o), Ok(73));
}

#[test]
fn child_counts() {
    assert_eq!(child_count(2, SubdivisionScheme::Quadtree), Ok(16));
    assert_eq!(child_count(1, SubdivisionScheme::Octree), Ok(8));
    assert_eq!(child_count(0, SubdivisionScheme::Octree), Ok(1));
    assert_eq!(child_count(21, SubdivisionScheme::Octree), Ok(1u64 << 63));
    assert_eq!(branching_factor(SubdivisionScheme::Quadtree), 4);
    assert_eq!(branching_factor(SubdivisionScheme::Octree), 8);
}

#[test]
fn overflowing_depths_are_rejected() {
    assert_eq!(child_count(31, SubdivisionScheme::Quadtree), Ok(1u64 << 62));
    assert_eq!(child_count(32, SubdivisionScheme::Quadtree), Err(TilingError::ConfigurationOverflow));
    assert_eq!(child_count(22, SubdivisionScheme::Octree), Err(TilingError::ConfigurationOverflow));
    assert_eq!(level_offset(32, SubdivisionScheme::Quadtree), Err(TilingError::ConfigurationOverflow));
    assert_eq!(level_offset(31, SubdivisionScheme::Quadtree), Ok(((1u64 << 62) - 1) / 3));
}
