use std::io::Write;

use sgreplay::{
    encode_varint, frame_records, header_build_number, read_record, split_stream, ContainerError,
    FrameError, ReplayFile,
};

#[test]
fn varint_encodings() {
    assert_eq!(encode_varint(0), vec![0]);
    assert_eq!(encode_varint(1), vec![1]);
    assert_eq!(encode_varint(127), vec![127]);
    assert_eq!(encode_varint(128), vec![0x80, 0x01]);
    assert_eq!(encode_varint(300), vec![0xAC, 0x02]);
    assert_eq!(encode_varint(16384), vec![0x80, 0x80, 0x01]);
}

#[test]
fn split_reads_each_record() {
    let data = vec![3, 10, 11, 12, 0, 1, 99];
    let records = split_stream(&data).unwrap();
    assert_eq!(records, vec![vec![10, 11, 12], vec![], vec![99]]);
}

#[test]
fn long_record_uses_two_byte_prefix() {
    let record: Vec<u8> = (0..200).map(|i| i as u8).collect();
    let mut data = vec![0xC8, 0x01];
    data.extend_from_slice(&record);
    assert_eq!(split_stream(&data).unwrap(), vec![record]);
}

#[test]
fn reframing_split_records_gives_back_the_stream() {
    let data = vec![2, 7, 8, 0, 0x81, 0x01];
    let mut data = data;
    data.extend(std::iter::repeat(5u8).take(129));
    let records = split_stream(&data).unwrap();
    assert_eq!(records.len(), 3);
    assert_eq!(frame_records(&records), data);
}

#[test]
fn framing_then_splitting_gives_back_records() {
    let records = vec![vec![1, 2, 3], vec![], vec![0xFF; 300]];
    let framed = frame_records(&records);
    assert_eq!(&framed[..4], &[3, 1, 2, 3]);
    assert_eq!(split_stream(&framed).unwrap(), records);
}

#[test]
fn truncated_record_is_an_error() {
    assert_eq!(split_stream(&vec![5, 1, 2]), Err(FrameError::Truncated));
    assert_eq!(split_stream(&vec![1, 9, 3]), Err(FrameError::Truncated));
}

#[test]
fn overlong_prefix_is_an_error() {
    let mut data = vec![0x80; 10];
    data.push(0);
    assert_eq!(split_stream(&data), Err(FrameError::PrefixTooLong));
}

#[test]
fn stream_ending_inside_a_prefix_ends_cleanly() {
    assert_eq!(split_stream(&vec![]).unwrap(), Vec::<Vec<u8>>::new());
    assert_eq!(split_stream(&vec![1, 4, 0x80]).unwrap(), vec![vec![4]]);
}

#[test]
fn read_record_reports_bytes_used() {
    let data = vec![9, 2, 5, 6];
    assert_eq!(read_record(&data, 1), Ok(Some((vec![5, 6], 3))));
    assert_eq!(read_record(&data, 4), Ok(None));
}

#[test]
fn unzipped_file_iterates_records() {
    let mut file = ReplayFile::open_unzipped(vec![1, 42, 2, 1, 2]);
    assert_eq!(file.build_number, 0);
    assert_eq!(file.next(), Ok(Some(vec![42])));
    assert_eq!(file.next(), Ok(Some(vec![1, 2])));
    assert_eq!(file.next(), Ok(None));
    assert_eq!(file.next(), Ok(None));
}

fn gzip(bytes: &[u8]) -> Vec<u8> {
    let mut enc = flate2::write::GzEncoder::new(Vec::new(), flate2::Compression::default());
    enc.write_all(bytes).unwrap();
    enc.finish().unwrap()
}

#[test]
fn build_number_is_little_endian_at_offset_twelve() {
    let mut raw = vec![0u8; 12];
    raw.extend_from_slice(&[0x39, 0x30, 0, 0]);
    assert_eq!(header_build_number(&raw), Some(12345));
    let mut neg = vec![0u8; 12];
    neg.extend_from_slice(&[0xFF, 0xFF, 0xFF, 0xFF]);
    assert_eq!(header_build_number(&neg), Some(-1));
    assert_eq!(header_build_number(&vec![0u8; 15]), None);
}

#[test]
fn open_decompresses_payload() {
    let mut raw = vec![7u8; 12];
    raw.extend_from_slice(&[0x10, 0x27, 0, 0]);
    raw.extend(gzip(&[2, 8, 9]));
    let mut file = ReplayFile::open(&raw).unwrap();
    assert_eq!(file.build_number, 10000);
    assert_eq!(file.payload, vec![2, 8, 9]);
    assert_eq!(file.next(), Ok(Some(vec![8, 9])));
    assert_eq!(file.next(), Ok(None));
}

#[test]
fn open_rejects_short_header_and_bad_payload() {
    assert!(matches!(ReplayFile::open(&vec![0u8; 10]), Err(ContainerError::HeaderTooShort)));
    let mut raw = vec![0u8; 16];
    raw.extend_from_slice(b"not gzip at all");
    assert!(matches!(ReplayFile::open(&raw), Err(ContainerError::Decompress)));
}
