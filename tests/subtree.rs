use houtu_3d_tiles::error::{ErrorKind, TilingError};
use houtu_3d_tiles::subtree::{
    decode, split_subtree_file, Availability, Buffer, BufferView, DecodedSubtree, Subtree, SubtreeChunks,
};
use houtu_3d_tiles::tiling::{ImplicitTiling, SubdivisionScheme};

fn constant(b: bool) -> Availability {
    Availability { bitstream: None, available_count: None, constant: Some(b) }
}

fn bitstream(view: u64) -> Availability {
    Availability { bitstream: Some(view), available_count: None, constant: None }
}

fn view(buffer: u64, byte_offset: u64, byte_length: u64) -> BufferView {
    BufferView { buffer, byte_offset, byte_length, name: None }
}

fn quadtree(levels: u32) -> ImplicitTiling {
    ImplicitTiling::new(SubdivisionScheme::Quadtree, levels, 8, "subtrees/{level}/{x}/{y}.subtree".to_string())
        .unwrap()
}

fn header(views: Vec<BufferView>, tile: Availability, child: Availability) -> Subtree {
    Subtree {
        buffers: vec![Buffer { uri: None, byte_length: 0, name: None }],
        buffer_views: views,
        tile_availability: tile,
        content_availability: vec![constant(true)],
        child_subtree_availability: child,
        tile_metadata: None,
        content_metadata: vec![],
    }
}

fn decode_tiles(levels: u32, bits: &[bool]) -> Result<DecodedSubtree, TilingError> {
    let mut bytes = vec![0u8; (bits.len() + 7) / 8];
    for (i, b) in bits.iter().enumerate() {
        if *b {
            bytes[i / 8] |= 1 << (i % 8);
        }
    }
    let len = bytes.len() as u64;
    let h = header(vec![view(0, 0, len)], bitstream(0), constant(false));
    decode(&quadtree(levels), &h, vec![bytes])
}

struct Lcg(u64);

impl Lcg {
    fn next_bool(&mut self) -> bool {
        self.0 = self.0.wrapping_mul(6364136223846793005).wrapping_add(1442695040888963407);
        (self.0 >> 33) & 1 == 1
    }
}

/// Tile bits of a quadtree subtree of `levels` levels in which every
/// available tile's parent is available.
fn consistent_bits(levels: u32, rng: &mut Lcg) -> Vec<bool> {
    let mut bits = vec![true];
    let mut offset = 1usize;
    let mut prev = 0usize;
    for l in 1..levels {
        let count = 4usize.pow(l);
        for m in 0..count {
            let parent = bits[prev + m / 4];
            bits.push(parent && rng.next_bool());
        }
        prev = offset;
        offset += count;
    }
    bits
}

#[test]
fn consistent_bitstreams_decode() {
    let mut rng = Lcg(7);
    for _ in 0..50 {
        let bits = consistent_bits(3, &mut rng);
        assert_eq!(bits.len(), 21);
        assert!(decode_tiles(3, &bits).is_ok());
    }
}

#[test]
fn orphaned_tiles_are_inconsistent() {
    let mut rng = Lcg(99);
    let mut tried = 0;
    for _ in 0..50 {
        let mut bits = consistent_bits(3, &mut rng);
        // a tile whose parent is unavailable, made available
        if let Some(i) = (5..21).find(|&i| !bits[1 + (i - 5) / 4]) {
            bits[i] = true;
            let e = decode_tiles(3, &bits).err().unwrap();
            assert_eq!(e, TilingError::InconsistentAvailability);
            assert_eq!(e.kind(), ErrorKind::Consistency);
            tried += 1;
        }
        if bits[1..5].iter().any(|b| *b) {
            let mut root_off = bits.clone();
            root_off[0] = false;
            assert_eq!(decode_tiles(3, &root_off).err(), Some(TilingError::InconsistentAvailability));
        }
    }
    assert!(tried > 0);
}

#[test]
fn a_lone_root_is_consistent() {
    let mut bits = vec![false; 5];
    bits[0] = true;
    assert!(decode_tiles(2, &bits).is_ok());
    let mut child_only = vec![false; 5];
    child_only[3] = true;
    assert_eq!(decode_tiles(2, &child_only).err(), Some(TilingError::InconsistentAvailability));
}

#[test]
fn constant_false_tile_availability_is_rejected() {
    let h = header(vec![], constant(false), constant(false));
    let e = decode(&quadtree(2), &h, vec![vec![]]).err().unwrap();
    assert_eq!(e, TilingError::ConstantFalseTileAvailability);
    assert_eq!(e.kind(), ErrorKind::Malformed);
}

#[test]
fn availability_with_both_or_neither_is_rejected() {
    let both = Availability { bitstream: Some(0), available_count: None, constant: Some(true) };
    let h = header(vec![view(0, 0, 2)], both, constant(false));
    assert_eq!(decode(&quadtree(2), &h, vec![vec![0, 0]]).err(), Some(TilingError::AmbiguousAvailability));
    let neither = Availability { bitstream: None, available_count: Some(3), constant: None };
    let h = header(vec![], constant(true), neither);
    assert_eq!(decode(&quadtree(2), &h, vec![vec![]]).err(), Some(TilingError::MissingAvailability));
}

#[test]
fn views_outside_their_buffer_are_rejected() {
    let h = header(vec![view(1, 0, 1)], constant(true), constant(false));
    assert_eq!(decode(&quadtree(2), &h, vec![vec![0]]).err(), Some(TilingError::BufferIndexOutOfRange));
    let h = header(vec![view(0, 1, 2)], constant(true), constant(false));
    assert_eq!(decode(&quadtree(2), &h, vec![vec![0, 0]]).err(), Some(TilingError::BufferIndexOutOfRange));
    let h = header(vec![view(0, u64::MAX, 2)], constant(true), constant(false));
    assert_eq!(decode(&quadtree(2), &h, vec![vec![0, 0]]).err(), Some(TilingError::BufferIndexOutOfRange));
}

#[test]
fn missing_views_and_short_views_are_rejected() {
    let h = header(vec![view(0, 0, 2)], constant(true), bitstream(5));
    assert_eq!(decode(&quadtree(2), &h, vec![vec![0, 0]]).err(), Some(TilingError::BufferViewIndexOutOfRange));
    // sixteen child bits need two bytes
    let h = header(vec![view(0, 0, 1)], constant(true), bitstream(0));
    assert_eq!(decode(&quadtree(2), &h, vec![vec![0, 0]]).err(), Some(TilingError::MisalignedBufferView));
    let h = header(vec![view(0, 0, 2)], constant(true), bitstream(0));
    assert!(decode(&quadtree(2), &h, vec![vec![0, 0]]).is_ok());
}

#[test]
fn decoded_subtree_keeps_its_records() {
    let mut h = header(vec![view(0, 1, 2)], constant(true), bitstream(0));
    h.tile_metadata = Some(3);
    h.content_metadata = vec![4, 5];
    let d = decode(&quadtree(2), &h, vec![vec![9, 1, 0]]).unwrap();
    assert_eq!(d.tile_metadata, Some(3));
    assert_eq!(d.content_metadata, vec![4, 5]);
    assert_eq!(d.views.len(), 1);
    assert_eq!((d.views[0].buffer, d.views[0].start, d.views[0].len), (0, 1, 2));
    assert_eq!(d.has_child_subtree(0, 0, None), Ok(true));
    assert_eq!(d.has_child_subtree(1, 0, None), Ok(false));
}

#[test]
fn configuration_is_checked() {
    let t = |l: u32, a: u32, s: SubdivisionScheme| ImplicitTiling::new(s, l, a, String::new()).err();
    assert_eq!(t(0, 3, SubdivisionScheme::Quadtree), Some(TilingError::InvalidConfiguration));
    assert_eq!(t(3, 0, SubdivisionScheme::Quadtree), Some(TilingError::InvalidConfiguration));
    assert_eq!(t(32, 40, SubdivisionScheme::Quadtree), Some(TilingError::ConfigurationOverflow));
    assert_eq!(t(22, 40, SubdivisionScheme::Octree), Some(TilingError::ConfigurationOverflow));
    assert_eq!(t(21, 40, SubdivisionScheme::Octree), None);
    assert_eq!(TilingError::ConfigurationOverflow.kind(), ErrorKind::Configuration);
    assert_eq!(TilingError::InvalidConfiguration.kind(), ErrorKind::Configuration);
    assert_eq!(TilingError::InvalidContentSlot.kind(), ErrorKind::Usage);
    assert_eq!(TilingError::IndexOutOfRange.kind(), ErrorKind::Usage);
    assert_eq!(TilingError::MisalignedBufferView.kind(), ErrorKind::Malformed);
}

fn subtree_file(magic: &[u8; 4], version: u32, json: &[u8], binary: &[u8], json_len: u64) -> Vec<u8> {
    let mut out = magic.to_vec();
    out.extend_from_slice(&version.to_le_bytes());
    out.extend_from_slice(&json_len.to_le_bytes());
    out.extend_from_slice(&(binary.len() as u64).to_le_bytes());
    out.extend_from_slice(json);
    out.extend_from_slice(binary);
    out
}

#[test]
fn binary_subtree_files_split_into_chunks() {
    let file = subtree_file(b"subt", 1, b"{\"a\":1}", &[1, 2, 3], 7);
    let c = split_subtree_file(&file).unwrap();
    assert_eq!(c, SubtreeChunks { json_start: 24, json_len: 7, binary_start: 31, binary_len: 3 });
    assert_eq!(&file[c.json_start..c.json_start + c.json_len], b"{\"a\":1}");
    assert_eq!(&file[c.binary_start..c.binary_start + c.binary_len], &[1, 2, 3]);
    let empty = subtree_file(b"subt", 1, b"", b"", 0);
    assert_eq!(split_subtree_file(&empty).unwrap().binary_start, 24);
}

#[test]
fn malformed_subtree_files_are_rejected() {
    let bad = Err(TilingError::InvalidSubtreeFile);
    assert_eq!(split_subtree_file(&subtree_file(b"glTF", 1, b"{}", b"", 2)), bad);
    assert_eq!(split_subtree_file(&subtree_file(b"subt", 2, b"{}", b"", 2)), bad);
    assert_eq!(split_subtree_file(&subtree_file(b"subt", 1, b"{}", b"", 3)), bad);
    assert_eq!(split_subtree_file(&subtree_file(b"subt", 1, b"{}", b"", u64::MAX)), bad);
    assert_eq!(split_subtree_file(&vec![0x73, 0x75, 0x62, 0x74]), bad);
    assert_eq!(TilingError::InvalidSubtreeFile.kind(), ErrorKind::Malformed);
}
