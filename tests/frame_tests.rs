use circuitchat::frame::{recv_frame, send_frame, FrameError, MAX_FRAME};

#[test]
fn frame_round_trip() {
    for len in [0usize, 1, 255, 256, 65535] {
        let payload: Vec<u8> = (0..len).map(|i| (i % 251) as u8).collect();
        let mut buf = Vec::new();
        assert_eq!(send_frame(&mut buf, &payload), Ok(()));
        assert_eq!(buf.len(), 4 + len);
        assert_eq!(&buf[..4], &(len as u32).to_be_bytes());
        assert_eq!(recv_frame(&mut buf), Ok(Some(payload)));
        assert!(buf.is_empty());
    }
}

#[test]
fn largest_frame_succeeds_and_one_more_fails() {
    let mut buf = Vec::new();
    assert_eq!(send_frame(&mut buf, &vec![7u8; 65535]), Ok(()));
    assert_eq!(buf.len(), 65539);
    let mut other = Vec::new();
    assert_eq!(send_frame(&mut other, &vec![7u8; 65536]), Err(FrameError::TooLarge));
    assert!(other.is_empty());
    assert_eq!(MAX_FRAME, 65535);
}

#[test]
fn oversize_frame_rejected_before_writing() {
    let mut buf = vec![1u8, 2, 3];
    assert_eq!(send_frame(&mut buf, &vec![0u8; 70000]), Err(FrameError::TooLarge));
    assert_eq!(buf, vec![1u8, 2, 3]);
}

#[test]
fn partial_frames_are_never_yielded() {
    let mut wire = Vec::new();
    send_frame(&mut wire, b"hello").unwrap();
    send_frame(&mut wire, b"world!").unwrap();
    let mut carry = Vec::new();
    let mut got = Vec::new();
    for b in wire {
        carry.push(b);
        while let Some(f) = recv_frame(&mut carry).unwrap() {
            got.push(f);
        }
    }
    assert_eq!(got, vec![b"hello".to_vec(), b"world!".to_vec()]);
    assert!(carry.is_empty());
}

#[test]
fn incomplete_carry_is_left_alone() {
    let mut carry = vec![0u8, 0, 0];
    assert_eq!(recv_frame(&mut carry), Ok(None));
    assert_eq!(carry, vec![0u8, 0, 0]);
    let mut carry = vec![0u8, 0, 0, 3, 1, 2];
    assert_eq!(recv_frame(&mut carry), Ok(None));
    assert_eq!(carry.len(), 6);
}

#[test]
fn announced_length_over_limit_fails() {
    let mut carry = vec![0u8, 1, 0, 0, 9];
    assert_eq!(recv_frame(&mut carry), Err(FrameError::TooLarge));
    assert_eq!(carry.len(), 5);
}

#[test]
fn bytes_after_a_frame_stay() {
    let mut carry = vec![0u8, 0, 0, 2, 10, 20, 30, 40];
    assert_eq!(recv_frame(&mut carry), Ok(Some(vec![10u8, 20])));
    assert_eq!(carry, vec![30u8, 40]);
}
