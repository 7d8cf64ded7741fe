use t_rust::jolt::{commit, read, read_vec, Handle, JoltState};

#[test]
fn number_reads_back() {
    let mut s = JoltState::new();
    commit::<u32>(&mut s, &0xdead_beef);
    assert_eq!(read::<u32>(&s), 0xdead_beef);
}

#[test]
fn number_image_is_little_endian_then_zeros() {
    let mut len = 0usize;
    let bytes = 0x0102_0304u32.into_bytes(&mut len);
    let mut expected = [0u8; 32];
    expected[..4].copy_from_slice(&[4, 3, 2, 1]);
    assert_eq!(bytes, expected);
    assert_eq!(len, 0);
}

#[test]
fn short_vector_reads_back_whole() {
    let mut s = JoltState::new();
    commit::<Vec<u8>>(&mut s, &vec![1, 2, 3]);
    assert_eq!(read_vec::<Vec<u8>>(&s), vec![1, 2, 3]);
}

#[test]
fn long_vector_keeps_its_first_32_bytes() {
    let v: Vec<u8> = (0..40).collect();
    let mut s = JoltState::new();
    commit::<Vec<u8>>(&mut s, &v);
    assert_eq!(read_vec::<Vec<u8>>(&s), v[..32].to_vec());
}

#[test]
fn array_reads_back() {
    let mut a = [0u8; 32];
    for (i, b) in a.iter_mut().enumerate() {
        *b = (i * 3) as u8;
    }
    let mut s = JoltState::new();
    commit::<[u8; 32]>(&mut s, &a);
    assert_eq!(read::<[u8; 32]>(&s), a);
}

#[test]
fn number_commit_keeps_the_vector_length() {
    let mut s = JoltState::new();
    commit::<Vec<u8>>(&mut s, &vec![9, 9]);
    commit::<u32>(&mut s, &5);
    assert_eq!(read_vec::<Vec<u8>>(&s), vec![5, 0]);
}

#[test]
fn fresh_register_reads_zero() {
    let s = JoltState::new();
    assert_eq!(read::<u32>(&s), 0);
    assert_eq!(read_vec::<Vec<u8>>(&s), Vec::<u8>::new());
}
