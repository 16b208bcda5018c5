use houtu_3d_tiles::bits::{byte_count_for, BitReader, BitSource};
use houtu_3d_tiles::error::TilingError;

#[test]
fn bits_are_read_least_significant_first() {
    let r = BitReader::new(BitSource::Bytes(vec![0b0000_0101, 0b1000_0000]), 16).unwrap();
    assert_eq!(r.read(0), Ok(true));
    assert_eq!(r.read(1), Ok(false));
    assert_eq!(r.read(2), Ok(true));
    assert_eq!(r.read(7), Ok(false));
    assert_eq!(r.read(15), Ok(true));
}

#[test]
fn reading_past_the_bit_count_fails() {
    let r = BitReader::new(BitSource::Bytes(vec![0xFF, 0xFF]), 10).unwrap();
    assert_eq!(r.read(9), Ok(true));
    assert_eq!(r.read(10), Err(TilingError::IndexOutOfRange));
}

#[test]
fn constant_reader_ignores_the_index() {
    let r = BitReader::new(BitSource::Constant(true), 100).unwrap();
    assert_eq!(r.read(0), Ok(true));
    assert_eq!(r.read(99), Ok(true));
    assert_eq!(r.read(100), Err(TilingError::IndexOutOfRange));
    let f = BitReader::new(BitSource::Constant(false), 3).unwrap();
    assert_eq!(f.read(2), Ok(false));
}

#[test]
fn short_buffers_are_misaligned() {
    assert!(matches!(
        BitReader::new(BitSource::Bytes(vec![0xFF]), 9),
        Err(TilingError::MisalignedBufferView)
    ));
    assert!(BitReader::new(BitSource::Bytes(vec![0xFF]), 8).is_ok());
    assert!(BitReader::new(BitSource::Bytes(vec![]), 0).is_ok());
}

#[test]
fn bytes_needed_round_up() {
    assert_eq!(byte_count_for(0), 0);
    assert_eq!(byte_count_for(1), 1);
    assert_eq!(byte_count_for(8), 1);
    assert_eq!(byte_count_for(9), 2);
    assert_eq!(byte_count_for(21), 3);
}
