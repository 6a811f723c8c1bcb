use simple_aprs::codec::ByteLinesCodec;

#[test]
fn round_trip_encode_decode() {
    let line = b"CALL>APRS,TCPIP*:data".to_vec();
    let mut codec = ByteLinesCodec::new();
    let mut buf: Vec<u8> = Vec::new();
    codec.encode(&line, &mut buf);
    assert_eq!(buf, b"CALL>APRS,TCPIP*:data\n".to_vec());
    let decoded = codec.decode(&mut buf);
    assert_eq!(decoded, Some(line));
    assert!(buf.is_empty());
}

#[test]
fn split_feed_two_chunks() {
    let whole = b"HELLO WORLD\n";
    for split in 0..whole.len() {
        let (a, b) = whole.split_at(split);
        let mut codec = ByteLinesCodec::new();
        let mut buf: Vec<u8> = a.to_vec();
        let first = codec.decode(&mut buf);
        if a.contains(&b'\n') {
            assert_eq!(first, Some(b"HELLO WORLD".to_vec()));
            continue;
        }
        assert_eq!(first, None);
        buf.extend_from_slice(b);
        let second = codec.decode(&mut buf);
        assert_eq!(second, Some(b"HELLO WORLD".to_vec()));
        assert!(buf.is_empty());
    }
}

#[test]
fn cr_stripping() {
    let mut codec = ByteLinesCodec::new();
    let mut buf = b"PAYLOAD\r\n".to_vec();
    assert_eq!(codec.decode(&mut buf), Some(b"PAYLOAD".to_vec()));

    let mut codec = ByteLinesCodec::new();
    let mut buf = b"PAYLOAD\n".to_vec();
    assert_eq!(codec.decode(&mut buf), Some(b"PAYLOAD".to_vec()));
}

#[test]
fn eof_flush_tail_exactly_once() {
    let mut codec = ByteLinesCodec::new();
    let mut buf = b"TAIL".to_vec();
    assert_eq!(codec.decode_eof(&mut buf), Some(b"TAIL".to_vec()));
    assert!(buf.is_empty());
    assert_eq!(codec.decode_eof(&mut buf), None);
}

#[test]
fn eof_residue_yields_nothing() {
    let mut codec = ByteLinesCodec::new();
    let mut buf = b"\r".to_vec();
    assert_eq!(codec.decode_eof(&mut buf), None);

    let mut codec = ByteLinesCodec::new();
    let mut buf: Vec<u8> = Vec::new();
    assert_eq!(codec.decode_eof(&mut buf), None);
}

#[test]
fn empty_line_is_yielded_not_skipped() {
    let mut codec = ByteLinesCodec::new();
    let mut buf = b"\n".to_vec();
    assert_eq!(codec.decode(&mut buf), Some(Vec::new()));

    let mut codec = ByteLinesCodec::new();
    let mut buf = b"\r\n".to_vec();
    assert_eq!(codec.decode(&mut buf), Some(Vec::new()));
}

#[test]
fn encode_appends_exactly_one_delimiter() {
    let mut codec = ByteLinesCodec::new();
    let mut buf = b"EARLIER\n".to_vec();
    codec.encode(&b"X".to_vec(), &mut buf);
    assert_eq!(buf, b"EARLIER\nX\n".to_vec());
}

#[test]
fn partial_then_more_keeps_remainder() {
    let mut codec = ByteLinesCodec::new();
    let mut buf = b"AB".to_vec();
    assert_eq!(codec.decode(&mut buf), None);
    assert_eq!(codec.cursor(), 2);
    buf.extend_from_slice(b"C\nREST");
    assert_eq!(codec.decode(&mut buf), Some(b"ABC".to_vec()));
    assert_eq!(buf, b"REST".to_vec());
    assert_eq!(codec.cursor(), 0);
    assert_eq!(codec.decode(&mut buf), None);
    assert_eq!(codec.cursor(), 4);
}

#[test]
fn fresh_codec_cursor_is_zero() {
    assert_eq!(ByteLinesCodec::new().cursor(), 0);
    let codec: ByteLinesCodec = Default::default();
    assert_eq!(codec.cursor(), 0);
}
