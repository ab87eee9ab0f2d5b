use cql_codec::compression::{Compressor, NoCompression};
use cql_codec::cursor::Cursor;
use cql_codec::error::{Error, ServerError};
use cql_codec::frame::frame_layout::{assemble, decode_timeuuid, read_header, unpack_body, unpack_outcome};
use cql_codec::frame::{
    convert_frame_into_result, parse_frame, parse_frame_async, Direction, Flag, Frame,
    FrameHeader, Opcode, Version,
};

struct Reversing;

impl Compressor for Reversing {
    fn encode(&self, bytes: Vec<u8>) -> Result<Vec<u8>, String> {
        Ok(bytes.into_iter().rev().collect())
    }

    fn decode(&self, bytes: Vec<u8>) -> Result<Vec<u8>, String> {
        Ok(bytes.into_iter().rev().collect())
    }
}

struct Failing;

impl Compressor for Failing {
    fn encode(&self, _bytes: Vec<u8>) -> Result<Vec<u8>, String> {
        Err("cannot pack".to_string())
    }

    fn decode(&self, _bytes: Vec<u8>) -> Result<Vec<u8>, String> {
        Err("corrupt block".to_string())
    }
}

fn frame_bytes(version: u8, flags: u8, stream: u16, opcode: u8, body: &[u8]) -> Vec<u8> {
    let mut out = vec![version, flags, (stream >> 8) as u8, stream as u8, opcode];
    out.extend_from_slice(&(body.len() as u32).to_be_bytes());
    out.extend_from_slice(body);
    out
}

fn v4_request() -> Version {
    Version { direction: Direction::Request, number: 4 }
}

fn v4_response() -> Version {
    Version { direction: Direction::Response, number: 4 }
}

#[test]
fn frame_with_empty_body() {
    let wire = [0x04, 0x00, 0x00, 0x01, 0x00, 0x00, 0x00, 0x00, 0x00];
    let mut cursor = Cursor::new(&wire);
    let frame = parse_frame_async(&mut cursor, &NoCompression).unwrap().unwrap();
    assert!(frame.body.is_empty());
    assert_eq!(frame.tracing_id, None);
    assert!(frame.warnings.is_empty());
    assert!(frame.flags.is_empty());
    assert_eq!(frame.stream, 1);
    assert_eq!(frame.version, v4_request());
    assert_eq!(frame.opcode, Opcode::from_byte(0x00));
    assert_eq!(cursor.position(), 9);
}

#[test]
fn plain_frame_keeps_its_body() {
    let body = [1u8, 2, 3, 4, 5];
    let wire = frame_bytes(0x84, 0x00, 0x1234, 0x08, &body);
    let mut cursor = Cursor::new(&wire);
    let frame = parse_frame_async(&mut cursor, &Reversing).unwrap().unwrap();
    assert_eq!(
        frame,
        Frame {
            version: v4_response(),
            flags: vec![],
            opcode: Opcode::Result,
            stream: 0x1234,
            body: body.to_vec(),
            tracing_id: None,
            warnings: vec![],
        }
    );
    assert_eq!(cursor.position(), wire.len());
}

#[test]
fn compressed_frame_is_unpacked_by_the_compressor() {
    let wire = frame_bytes(0x84, 0x01, 7, 0x08, &[1, 2, 3]);
    let mut cursor = Cursor::new(&wire);
    let frame = parse_frame_async(&mut cursor, &Reversing).unwrap().unwrap();
    assert_eq!(frame.body, vec![3, 2, 1]);
    assert_eq!(frame.flags, vec![Flag::Compression]);

    let mut cursor = Cursor::new(&wire);
    let frame = parse_frame_async(&mut cursor, &NoCompression).unwrap().unwrap();
    assert_eq!(frame.body, vec![1, 2, 3]);
}

#[test]
fn compressor_failure_fails_the_frame() {
    let wire = frame_bytes(0x84, 0x01, 7, 0x08, &[1, 2, 3]);
    let mut cursor = Cursor::new(&wire);
    assert_eq!(
        parse_frame_async(&mut cursor, &Failing),
        Err(Error::Compression("corrupt block".to_string()))
    );
    assert_eq!(cursor.position(), wire.len());
    let plain = frame_bytes(0x84, 0x00, 7, 0x08, &[1, 2, 3]);
    let mut cursor = Cursor::new(&plain);
    assert!(parse_frame_async(&mut cursor, &Failing).unwrap().is_some());
}

#[test]
fn tracing_id_and_warnings_are_taken_from_the_front() {
    let mut body: Vec<u8> = (1..=16).collect();
    body.extend_from_slice(&[0, 2, 0, 1, b'a', 0, 2, b'b', b'c']);
    body.extend_from_slice(&[0xde, 0xad]);
    let wire = frame_bytes(0x84, 0x0a, 2, 0x08, &body);
    let mut cursor = Cursor::new(&wire);
    let frame = parse_frame_async(&mut cursor, &NoCompression).unwrap().unwrap();
    assert_eq!(frame.tracing_id, Some(0x0102030405060708090a0b0c0d0e0f10));
    assert_eq!(frame.warnings, vec!["a".to_string(), "bc".to_string()]);
    assert_eq!(frame.body, vec![0xde, 0xad]);
    assert_eq!(frame.flags, vec![Flag::Tracing, Flag::Warning]);
}

#[test]
fn sections_are_read_only_where_their_flag_is_raised() {
    let body: Vec<u8> = (1..=20).collect();
    let wire = frame_bytes(0x84, 0x02, 2, 0x08, &body);
    let frame = parse_frame_async(&mut Cursor::new(&wire), &NoCompression).unwrap().unwrap();
    assert!(frame.tracing_id.is_some());
    assert!(frame.warnings.is_empty());
    assert_eq!(frame.body, vec![17, 18, 19, 20]);

    let body = [0u8, 1, 0, 1, b'w', 5, 6];
    let wire = frame_bytes(0x84, 0x08, 2, 0x08, &body);
    let frame = parse_frame_async(&mut Cursor::new(&wire), &NoCompression).unwrap().unwrap();
    assert_eq!(frame.tracing_id, None);
    assert_eq!(frame.warnings, vec!["w".to_string()]);
    assert_eq!(frame.body, vec![5, 6]);

    let wire = frame_bytes(0x84, 0x04, 2, 0x08, &body);
    let frame = parse_frame_async(&mut Cursor::new(&wire), &NoCompression).unwrap().unwrap();
    assert_eq!(frame.tracing_id, None);
    assert!(frame.warnings.is_empty());
    assert_eq!(frame.body, body.to_vec());
    assert_eq!(frame.flags, vec![Flag::CustomPayload]);
}

#[test]
fn body_too_short_for_its_sections_is_a_failure() {
    let wire = frame_bytes(0x84, 0x02, 2, 0x08, &[0; 15]);
    let mut cursor = Cursor::new(&wire);
    assert_eq!(parse_frame_async(&mut cursor, &NoCompression), Err(Error::UnexpectedEof));
    assert_eq!(cursor.position(), wire.len());
    let wire = frame_bytes(0x84, 0x08, 2, 0x08, &[0, 1, 0, 4, b'a']);
    assert_eq!(
        parse_frame_async(&mut Cursor::new(&wire), &NoCompression),
        Err(Error::UnexpectedEof)
    );
    let wire = frame_bytes(0x84, 0x08, 2, 0x08, &[0, 1, 0, 1, 0xff]);
    assert_eq!(parse_frame_async(&mut Cursor::new(&wire), &NoCompression), Err(Error::Utf8));
}

#[test]
fn feeding_byte_by_byte_gives_the_same_frame() {
    let mut body: Vec<u8> = (1..=16).collect();
    body.extend_from_slice(&[0, 1, 0, 2, b'h', b'i', 1, 2, 3]);
    let wire = frame_bytes(0x84, 0x0b, 9, 0x08, &body);
    let whole = parse_frame_async(&mut Cursor::new(&wire), &Reversing);
    let mut longer = wire.clone();
    longer.extend_from_slice(&[0x84, 0, 0]);
    for k in 0..wire.len() {
        let mut cursor = Cursor::new(&wire[..k]);
        assert_eq!(parse_frame_async(&mut cursor, &Reversing), Ok(None), "prefix {}", k);
        assert_eq!(cursor.position(), 0);
    }
    for k in wire.len()..=longer.len() {
        let mut cursor = Cursor::new(&longer[..k]);
        assert_eq!(parse_frame_async(&mut cursor, &Reversing), whole);
        assert_eq!(cursor.position(), wire.len());
    }
}

#[test]
fn two_frames_in_one_buffer() {
    let mut wire = frame_bytes(0x84, 0, 1, 0x02, &[]);
    wire.extend_from_slice(&frame_bytes(0x84, 0, 2, 0x08, &[5, 5]));
    wire.extend_from_slice(&[0x84, 0]);
    let mut cursor = Cursor::new(&wire);
    let first = parse_frame_async(&mut cursor, &NoCompression).unwrap().unwrap();
    assert_eq!((first.stream, first.opcode), (1, Opcode::Ready));
    let second = parse_frame_async(&mut cursor, &NoCompression).unwrap().unwrap();
    assert_eq!((second.stream, second.body.clone()), (2, vec![5, 5]));
    assert_eq!(parse_frame_async(&mut cursor, &NoCompression), Ok(None));
    assert_eq!(cursor.position(), 20);
}

#[test]
fn declared_length_decides_where_the_body_ends() {
    let mut wire = frame_bytes(0x84, 0, 1, 0x08, &[1, 2, 3, 4]);
    wire[8] = 3;
    let frame = parse_frame_async(&mut Cursor::new(&wire), &NoCompression).unwrap().unwrap();
    assert_eq!(frame.body, vec![1, 2, 3]);
    wire[8] = 5;
    assert_eq!(parse_frame_async(&mut Cursor::new(&wire), &NoCompression), Ok(None));
    let mut cursor = Cursor::new(&wire);
    assert_eq!(parse_frame(&mut cursor, &NoCompression), Err(Error::UnexpectedEof));
    assert_eq!(cursor.position(), 0);
    wire[5] = 0xff;
    assert_eq!(parse_frame_async(&mut Cursor::new(&wire), &NoCompression), Ok(None));
}

#[test]
fn error_frame_surfaces_as_a_failure() {
    let body = [0, 0, 0x22, 0, 0, 3, b'b', b'a', b'd', 1, 2];
    let wire = frame_bytes(0x84, 0, 3, 0x00, &body);
    let frame = parse_frame_async(&mut Cursor::new(&wire), &NoCompression).unwrap().unwrap();
    assert_eq!(frame.opcode, Opcode::Error);
    let report = ServerError { error_code: 0x2200, message: "bad".to_string() };
    assert_eq!(convert_frame_into_result(frame), Err(Error::Server(report.clone())));
    assert_eq!(parse_frame(&mut Cursor::new(&wire), &NoCompression), Err(Error::Server(report.clone())));
    assert_eq!(Error::Server(report).description(), "bad");
    assert_eq!(ServerError::decode(&body, 0), Ok((ServerError { error_code: 0x2200, message: "bad".to_string() }, 9)));
}

#[test]
fn error_frame_without_a_report_is_a_failure_too() {
    let wire = frame_bytes(0x84, 0, 3, 0x00, &[0, 0]);
    let frame = parse_frame_async(&mut Cursor::new(&wire), &NoCompression).unwrap().unwrap();
    assert_eq!(convert_frame_into_result(frame), Err(Error::UnexpectedEof));
    let wire = frame_bytes(0x84, 0, 3, 0x00, &[0, 0, 0, 1, 0, 1, 0xff]);
    assert_eq!(parse_frame(&mut Cursor::new(&wire), &NoCompression), Err(Error::Utf8));
}

#[test]
fn other_frames_pass_the_classifier_unchanged() {
    for opcode in 1u8..=0x20 {
        let wire = frame_bytes(0x84, 0, 3, opcode, &[0, 0, 0x22, 0, 0, 0]);
        let frame = parse_frame_async(&mut Cursor::new(&wire), &NoCompression).unwrap().unwrap();
        assert_eq!(convert_frame_into_result(frame.clone()), Ok(frame.clone()));
        assert_eq!(parse_frame(&mut Cursor::new(&wire), &NoCompression), Ok(frame));
    }
}

#[test]
fn blocking_decoder_unpacks_and_classifies() {
    let mut packed = vec![0, 0, 0, 5, 0, 1, b'x'];
    packed.reverse();
    let wire = frame_bytes(0x84, 0x01, 3, 0x00, &packed);
    assert_eq!(
        parse_frame(&mut Cursor::new(&wire), &Reversing),
        Err(Error::Server(ServerError { error_code: 5, message: "x".to_string() }))
    );
    assert_eq!(
        parse_frame(&mut Cursor::new(&wire), &Failing),
        Err(Error::Compression("corrupt block".to_string()))
    );
    assert_eq!(parse_frame(&mut Cursor::new(&wire[..8]), &Reversing), Err(Error::UnexpectedEof));
}

#[test]
fn header_fields() {
    let wire = [0x03, 0x0f, 0xab, 0xcd, 0x07, 0x00, 0x01, 0x00, 0x02];
    assert_eq!(
        read_header(&wire, 0),
        Some(FrameHeader {
            version: Version { direction: Direction::Request, number: 3 },
            flags: 0x0f,
            stream: 0xabcd,
            opcode: Opcode::Query,
            length: 0x0001_0002,
        })
    );
    assert_eq!(read_header(&wire[..8], 0), None);
    assert_eq!(read_header(&wire, 1), None);
    assert_eq!(read_header(&wire, 100), None);
}

#[test]
fn version_and_opcode_bytes() {
    for byte in 0u8..=255 {
        assert_eq!(Version::from_byte(byte).as_byte(), byte);
        assert_eq!(Opcode::from_byte(byte).as_byte(), byte);
    }
    assert_eq!(Version::from_byte(0x84), v4_response());
    assert_eq!(Version::from_byte(0x04), v4_request());
    assert_eq!(Opcode::from_byte(0x00), Opcode::Error);
    assert_eq!(Opcode::from_byte(0x10), Opcode::AuthSuccess);
    assert_eq!(Opcode::from_byte(0x04), Opcode::Other(0x04));
    assert_eq!(Opcode::from_byte(0x11), Opcode::Other(0x11));
}

#[test]
fn frame_flags() {
    assert_eq!(Flag::get_collection(0x00), vec![]);
    assert_eq!(
        Flag::get_collection(0xff),
        vec![Flag::Compression, Flag::Tracing, Flag::CustomPayload, Flag::Warning]
    );
    assert_eq!(Flag::get_collection(0x0a), vec![Flag::Tracing, Flag::Warning]);
    for (flag, bit) in [
        (Flag::Compression, 0x01u8),
        (Flag::Tracing, 0x02),
        (Flag::CustomPayload, 0x04),
        (Flag::Warning, 0x08),
    ] {
        assert_eq!(flag.as_byte(), bit);
    }
    assert!(Flag::has_compression(0x01) && !Flag::has_compression(0xfe));
    assert!(Flag::has_tracing(0x02) && !Flag::has_tracing(0xfd));
    assert!(Flag::has_custom_payload(0x04) && !Flag::has_custom_payload(0xfb));
    assert!(Flag::has_warning(0x08) && !Flag::has_warning(0xf7));
}

#[test]
fn parts_of_the_decoder() {
    assert_eq!(decode_timeuuid(&[0; 15]), None);
    assert_eq!(decode_timeuuid(&[0; 17]), None);
    assert_eq!(decode_timeuuid(&[0xff; 16]), Some(u128::MAX));
    let mut id = [0u8; 16];
    id[0] = 0x01;
    id[15] = 0x02;
    assert_eq!(decode_timeuuid(&id), Some((1u128 << 120) + 2));
    assert_eq!(unpack_body(0x00, vec![1, 2], &Failing), Ok(vec![1, 2]));
    assert_eq!(unpack_body(0x01, vec![1, 2], &Reversing), Ok(vec![2, 1]));
    assert_eq!(unpack_body(0x01, vec![1, 2], &Failing), Err(Error::Compression("corrupt block".to_string())));
    assert_eq!(unpack_outcome(Ok(vec![4])), Ok(vec![4]));
    assert_eq!(unpack_outcome(Err("no".to_string())), Err(Error::Compression("no".to_string())));
    assert_eq!(NoCompression.encode(vec![1, 2]), Ok(vec![1, 2]));
    assert_eq!(NoCompression.decode(vec![1, 2]), Ok(vec![1, 2]));
    let header = FrameHeader { version: v4_response(), flags: 0, stream: 1, opcode: Opcode::Ready, length: 2 };
    assert_eq!(assemble(header, vec![8, 9]).map(|f| f.body), Ok(vec![8, 9]));
}
