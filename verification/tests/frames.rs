use record_store::frame::{frame, split_frames, LENGTH_BYTES};

#[test]
fn frame_is_length_then_payload() {
    assert_eq!(LENGTH_BYTES, 8);
    assert_eq!(frame(b"abc").unwrap(), vec![3, 0, 0, 0, 0, 0, 0, 0, b'a', b'b', b'c']);
    assert_eq!(frame(b"").unwrap(), vec![0; 8]);
    let long = vec![9u8; 0x0102];
    let framed = frame(&long).unwrap();
    assert_eq!(&framed[..8], &[0x02, 0x01, 0, 0, 0, 0, 0, 0]);
    assert_eq!(&framed[8..], &long[..]);
}

#[test]
fn split_of_nothing_is_no_frame() {
    assert_eq!(split_frames(&[]).unwrap(), Vec::<&[u8]>::new());
}

#[test]
fn split_undoes_frame() {
    let mut file = Vec::new();
    let payloads: [&[u8]; 4] = [b"one", b"", b"three", &[0, 1, 2, 3, 4, 5, 6, 7, 8, 9]];
    for p in payloads {
        file.extend_from_slice(&frame(p).unwrap());
    }
    assert_eq!(split_frames(&file).unwrap(), payloads.to_vec());
}

#[test]
fn split_refuses_a_short_length() {
    for len in 1..8 {
        assert!(split_frames(&vec![0u8; len]).is_none());
    }
}

#[test]
fn split_refuses_a_short_payload() {
    let framed = frame(b"abc").unwrap();
    assert!(split_frames(&framed[..10]).is_none());
    assert!(split_frames(&framed[..8]).is_none());
    let mut huge = vec![0xffu8; 8];
    huge.extend_from_slice(b"abc");
    assert!(split_frames(&huge).is_none());
}

#[test]
fn split_refuses_trailing_bytes() {
    let mut file = frame(b"abc").unwrap();
    file.push(0);
    assert!(split_frames(&file).is_none());
}
