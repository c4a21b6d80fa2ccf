use kzero::frame::{
    decode_prefix, encode_prefix, frame, read_frames, unframe, FrameOffsets, Unframed,
};

#[test]
fn prefixes_are_big_endian() {
    assert_eq!(encode_prefix(0), Some([0, 0, 0, 0]));
    assert_eq!(encode_prefix(1), Some([0, 0, 0, 1]));
    assert_eq!(encode_prefix(256), Some([0, 0, 1, 0]));
    assert_eq!(encode_prefix(0x0102_0304), Some([1, 2, 3, 4]));
    assert_eq!(encode_prefix(0xffff_ffff), Some([255, 255, 255, 255]));
    assert_eq!(encode_prefix(0x1_0000_0000), None);
    assert_eq!(encode_prefix(usize::MAX), None);
    assert_eq!(decode_prefix(&[1, 2, 3, 4]), 0x0102_0304);
    assert_eq!(decode_prefix(&[0, 0, 0, 0]), 0);
    assert_eq!(decode_prefix(&[255, 255, 255, 255]), 0xffff_ffff);
    for len in [0usize, 1, 255, 256, 65535, 65536, 16777215, 16777216, 4294967295] {
        let prefix = encode_prefix(len).unwrap();
        assert_eq!(prefix, (len as u32).to_be_bytes());
        assert_eq!(decode_prefix(&prefix), len);
    }
}

#[test]
fn a_frame_is_a_prefix_and_the_payload() {
    assert_eq!(frame(&vec![]), Some(vec![0, 0, 0, 0]));
    assert_eq!(frame(&vec![7, 8, 9]), Some(vec![0, 0, 0, 3, 7, 8, 9]));
    let long = vec![5u8; 300];
    let framed = frame(&long).unwrap();
    assert_eq!(&framed[..4], &[0, 0, 1, 44]);
    assert_eq!(&framed[4..], &long[..]);
}

#[test]
fn frames_are_taken_apart() {
    assert_eq!(unframe(&vec![]), Unframed::Incomplete { missing: 4 });
    assert_eq!(unframe(&vec![0, 0]), Unframed::Incomplete { missing: 2 });
    assert_eq!(unframe(&vec![0, 0, 0, 3]), Unframed::Incomplete { missing: 3 });
    assert_eq!(unframe(&vec![0, 0, 0, 3, 7, 8]), Unframed::Incomplete { missing: 1 });
    assert_eq!(
        unframe(&vec![0, 0, 0, 3, 7, 8, 9]),
        Unframed::Complete { payload: vec![7, 8, 9], used: 7 }
    );
    assert_eq!(
        unframe(&vec![0, 0, 0, 1, 7, 8, 9]),
        Unframed::Complete { payload: vec![7], used: 5 }
    );
    assert_eq!(unframe(&vec![0, 0, 0, 0, 7]), Unframed::Complete { payload: vec![], used: 4 });
    assert_eq!(
        unframe(&vec![255, 255, 255, 255, 7]),
        Unframed::Incomplete { missing: 0xffff_ffff - 1 }
    );
}

#[test]
fn what_was_framed_comes_out_again() {
    let payloads: Vec<Vec<u8>> = vec![vec![], vec![1], vec![2; 70000], b"{\"Ping\":null}".to_vec()];
    let mut stream: Vec<u8> = Vec::new();
    for payload in &payloads {
        stream.extend(frame(payload).unwrap());
    }
    let mut read = Vec::new();
    while !stream.is_empty() {
        match unframe(&stream) {
            Unframed::Complete { payload, used } => {
                read.push(payload);
                stream.drain(..used);
            }
            Unframed::Incomplete { .. } => panic!("the stream holds whole frames"),
        }
    }
    assert_eq!(read, payloads);
}

#[test]
fn frames_begin_where_the_frame_before_ends() {
    let mut offsets = FrameOffsets::new();
    assert_eq!(offsets.end(), 0);
    assert_eq!(offsets.offsets(), &Vec::<u64>::new());
    assert_eq!(offsets.push(10), Some(0));
    assert_eq!(offsets.push(0), Some(14));
    assert_eq!(offsets.push(3), Some(18));
    assert_eq!(offsets.offsets(), &vec![0, 14, 18]);
    assert_eq!(offsets.end(), 25);
    assert_eq!(offsets.push(0x1_0000_0000), None);
    assert_eq!(offsets.offsets(), &vec![0, 14, 18]);
    assert_eq!(offsets.end(), 25);
    assert_eq!(offsets.push(0xffff_ffff), Some(25));
    assert_eq!(offsets.end(), 25 + 4 + 0xffff_ffff);
}

#[test]
fn a_file_of_frames_is_read_back_payload_by_payload() {
    let payloads: Vec<Vec<u8>> = vec![vec![1, 2, 3], vec![], vec![9; 1000], vec![0]];
    let mut file = Vec::new();
    for payload in &payloads {
        file.extend(frame(payload).unwrap());
    }
    assert_eq!(read_frames(&file), Some(payloads));
    assert_eq!(read_frames(&vec![]), Some(vec![]));
    assert_eq!(read_frames(&vec![0, 0, 0, 0]), Some(vec![vec![]]));
    assert_eq!(read_frames(&vec![0, 0, 0, 0, 0, 0, 0, 1, 5]), Some(vec![vec![], vec![5]]));
}

#[test]
fn a_file_that_ends_within_a_frame_is_refused() {
    assert_eq!(read_frames(&vec![0]), None);
    assert_eq!(read_frames(&vec![0, 0, 0]), None);
    assert_eq!(read_frames(&vec![0, 0, 0, 1]), None);
    assert_eq!(read_frames(&vec![0, 0, 0, 2, 5]), None);
    assert_eq!(read_frames(&vec![0, 0, 0, 1, 5, 0]), None);
    assert_eq!(read_frames(&vec![0, 0, 0, 1, 5, 0, 0, 0, 1]), None);
    assert_eq!(read_frames(&vec![255, 255, 255, 255]), None);
}
