use t_rust::frame::{encode_frame, frame_complete_at};
use t_rust::reader::ArgsReader;
use t_rust::writer::ArgsWriter;

#[test]
fn frame_is_little_endian_length_then_payload() {
    assert_eq!(encode_frame(&[0xaa, 0xbb, 0xcc]), vec![3, 0, 0, 0, 0xaa, 0xbb, 0xcc]);
    assert_eq!(encode_frame(&[]), vec![0, 0, 0, 0]);
    let big = vec![5u8; 300];
    let f = encode_frame(&big);
    assert_eq!(&f[..4], &[44, 1, 0, 0]);
    assert_eq!(f.len(), 304);
}

#[test]
fn writer_appends_to_its_sink() {
    let mut w = ArgsWriter::new(vec![9]);
    assert_eq!(w.write_slice(&[1, 2]), Ok(()));
    assert_eq!(w.write_slice(&[]), Ok(()));
    assert_eq!(w.into_inner(), vec![9, 2, 0, 0, 0, 1, 2, 0, 0, 0, 0]);
}

#[test]
fn reader_reads_back_what_the_writer_wrote() {
    let mut w = ArgsWriter::new(Vec::new());
    w.write_slice(&[1, 2, 3]).unwrap();
    w.write_slice(&[4]).unwrap();
    w.write_slice(&[]).unwrap();
    let mut r = ArgsReader::new(w.into_inner());
    assert_eq!(r.read_vec().unwrap(), vec![1, 2, 3]);
    assert_eq!(r.read_vecs().unwrap(), vec![vec![4u8], vec![]]);
    assert_eq!(r.read_vecs().unwrap(), Vec::<Vec<u8>>::new());
}

#[test]
fn read_vecs_drops_a_trailing_partial_header() {
    let mut r = ArgsReader::new(vec![1, 0, 0, 0, 42, 7, 7]);
    assert_eq!(r.read_vecs().unwrap(), vec![vec![42u8]]);
    assert_eq!(r.read_vecs().unwrap(), Vec::<Vec<u8>>::new());
}

#[test]
fn frame_completeness() {
    let data = [2u8, 0, 0, 0, 1, 2, 5, 0, 0, 0, 1];
    assert!(frame_complete_at(&data, 0));
    assert!(!frame_complete_at(&data, 6));
    assert!(!frame_complete_at(&data, 8));
    assert!(!frame_complete_at(&[], 0));
}
