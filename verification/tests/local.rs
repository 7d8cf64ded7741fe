use t_rust::local::{
    commit_slice, read_private_output_vecs, read_public_outputs_vecs, read_vec, write_input_slice,
    write_slice, Streams,
};

#[test]
pub fn should_read_input_and_outputs() {
    let mut streams = Streams::new();
    should_read_input_u32(&mut streams);
    should_read_input_slice(&mut streams);
    should_read_output_u32(&mut streams);
    should_read_output_slice(&mut streams);
}

pub fn should_read_input_u32(streams: &mut Streams) {
    let n: u32 = 1;
    write_input_slice(streams, &bincode::serialize(&n).unwrap());
    let input: u32 = bincode::deserialize(&read_vec(streams)).unwrap();
    assert_eq!(input, n);
}

pub fn should_read_input_slice(streams: &mut Streams) {
    let slice: [u8; 4] = [0, 1, 2, 3];
    write_input_slice(streams, &slice);
    let input = read_vec(streams);
    assert_eq!(input, slice);
}

pub fn should_read_output_u32(streams: &mut Streams) {
    let n: u32 = 1;
    commit_slice(streams, &bincode::serialize(&n).unwrap());
    let outputs = read_public_outputs_vecs(streams);
    assert_eq!(outputs[0], n.to_le_bytes());
}

pub fn should_read_output_slice(streams: &mut Streams) {
    let slice: [u8; 4] = [0, 1, 2, 3];
    commit_slice(streams, &slice);
    let outputs = read_public_outputs_vecs(streams);
    assert_eq!(outputs[0], slice);
}

#[test]
fn inputs_are_read_in_the_order_written() {
    let mut streams = Streams::new();
    write_input_slice(&mut streams, &[7, 8]);
    write_input_slice(&mut streams, &[]);
    write_input_slice(&mut streams, &[9]);
    assert_eq!(read_vec(&mut streams), vec![7, 8]);
    assert_eq!(read_vec(&mut streams), Vec::<u8>::new());
    assert_eq!(read_vec(&mut streams), vec![9]);
}

#[test]
fn channels_do_not_share_frames() {
    let mut streams = Streams::new();
    write_slice(&mut streams, &[1]);
    commit_slice(&mut streams, &[2]);
    write_input_slice(&mut streams, &[3]);
    assert_eq!(read_private_output_vecs(&mut streams), vec![vec![1u8]]);
    assert_eq!(read_public_outputs_vecs(&mut streams), vec![vec![2u8]]);
    assert_eq!(read_vec(&mut streams), vec![3]);
}

#[test]
fn reading_all_outputs_consumes_them() {
    let mut streams = Streams::new();
    write_slice(&mut streams, &[1, 2]);
    write_slice(&mut streams, &[3]);
    assert_eq!(read_private_output_vecs(&mut streams), vec![vec![1u8, 2], vec![3u8]]);
    assert_eq!(read_private_output_vecs(&mut streams), Vec::<Vec<u8>>::new());
    write_slice(&mut streams, &[4]);
    assert_eq!(read_private_output_vecs(&mut streams), vec![vec![4u8]]);
}
