use dces::cli::HostAddr;
use dces::msg::types::Node;
use dces::proto::model::Size4Vec;
use dces::proto::{ProtoError, ProtoReader, ProtoWriter};

fn written(f: impl FnOnce(&mut ProtoWriter)) -> Vec<u8> {
    let mut w = ProtoWriter::new(Vec::new());
    f(&mut w);
    w.into_bytes()
}

#[test]
fn size4_is_big_endian() {
    let bytes = written(|w| w.write_size4(0x0102_0304).unwrap());
    assert_eq!(bytes, vec![1, 2, 3, 4]);
    let mut r = ProtoReader::new(bytes);
    assert_eq!(r.read_size4(), Ok(0x0102_0304));
    assert_eq!(r.position(), 4);
}

#[test]
fn size8_is_big_endian() {
    let bytes = written(|w| w.write_size8(0x0102_0304_0506_0708).unwrap());
    assert_eq!(bytes, vec![1, 2, 3, 4, 5, 6, 7, 8]);
    let mut r = ProtoReader::new(bytes);
    assert_eq!(r.read_size8(), Ok(0x0102_0304_0506_0708));
}

#[test]
fn i32_uses_twos_complement() {
    let bytes = written(|w| w.write_i32(-2).unwrap());
    assert_eq!(bytes, vec![0xff, 0xff, 0xff, 0xfe]);
    let mut r = ProtoReader::new(bytes);
    assert_eq!(r.read_i32(), Ok(-2));
    let mut r = ProtoReader::new(vec![0x80, 0, 0, 0, 0x7f, 0xff, 0xff, 0xff]);
    assert_eq!(r.read_i32(), Ok(i32::MIN));
    assert_eq!(r.read_i32(), Ok(i32::MAX));
}

#[test]
fn byte_roundtrip_and_eof() {
    let bytes = written(|w| w.write_byte(0xab).unwrap());
    let mut r = ProtoReader::new(bytes);
    assert_eq!(r.read_byte(), Ok(0xab));
    assert_eq!(r.read_byte(), Err(ProtoError::UnexpectedEof));
    assert_eq!(r.position(), 1);
}

#[test]
fn short_input_is_unexpected_eof_and_reads_nothing() {
    let mut r = ProtoReader::new(vec![1, 2, 3]);
    assert_eq!(r.read_size4(), Err(ProtoError::UnexpectedEof));
    assert_eq!(r.position(), 0);
    assert_eq!(r.read_size8(), Err(ProtoError::UnexpectedEof));
    assert_eq!(r.read_i32(), Err(ProtoError::UnexpectedEof));
    assert_eq!(r.position(), 0);
}

#[test]
fn string_roundtrip() {
    let bytes = written(|w| w.write_size4_string("héllo").unwrap());
    assert_eq!(bytes, vec![0, 0, 0, 6, b'h', 0xc3, 0xa9, b'l', b'l', b'o']);
    let mut r = ProtoReader::new(bytes);
    assert_eq!(r.read_size4_string(), Ok("héllo".to_string()));
    assert_eq!(r.position(), 10);
}

#[test]
fn invalid_utf8_string_is_rejected() {
    let mut r = ProtoReader::new(vec![0, 0, 0, 2, 0xc3, 0x28]);
    assert_eq!(r.read_size4_string(), Err(ProtoError::InvalidString));
    assert_eq!(r.position(), 6);
}

#[test]
fn truncated_string_consumes_only_its_length() {
    let mut r = ProtoReader::new(vec![0, 0, 0, 5, b'a', b'b']);
    assert_eq!(r.read_size4_string(), Err(ProtoError::UnexpectedEof));
    assert_eq!(r.position(), 4);
}

#[test]
fn bytes_roundtrip() {
    let bytes = written(|w| w.write_size4_bytes(&[9, 8, 7]).unwrap());
    assert_eq!(bytes, vec![0, 0, 0, 3, 9, 8, 7]);
    let mut r = ProtoReader::new(bytes);
    assert_eq!(r.read_size4_bytes(), Ok(vec![9, 8, 7]));
}

#[test]
fn empty_string_and_bytes() {
    let bytes = written(|w| {
        w.write_size4_string("").unwrap();
        w.write_size4_bytes(&[]).unwrap();
    });
    assert_eq!(bytes, vec![0; 8]);
    let mut r = ProtoReader::new(bytes);
    assert_eq!(r.read_size4_string(), Ok(String::new()));
    assert_eq!(r.read_size4_bytes(), Ok(Vec::new()));
}

#[test]
fn read_into_exact_fills_buffer() {
    let mut r = ProtoReader::new(vec![1, 2, 3, 4, 5]);
    let mut buf = [0u8; 3];
    assert_eq!(r.read_into_exact(&mut buf), Ok(()));
    assert_eq!(buf, [1, 2, 3]);
    let mut big = [7u8; 3];
    assert_eq!(r.read_into_exact(&mut big), Err(ProtoError::UnexpectedEof));
    assert_eq!(big, [7, 7, 7]);
    assert_eq!(r.position(), 3);
}

#[test]
fn writer_appends_to_initial_bytes() {
    let mut w = ProtoWriter::new(vec![0xee]);
    w.write_from_all(&[1, 2]).unwrap();
    w.write_fmt("ok").unwrap();
    assert_eq!(w.into_bytes(), vec![0xee, 1, 2, b'o', b'k']);
}

#[test]
fn vec_of_nodes_roundtrip() {
    let nodes = vec![
        Node { name: "a".to_string(), rebuilding_addr: HostAddr::new("h:1".to_string()) },
        Node { name: "bb".to_string(), rebuilding_addr: HostAddr::new("h:2".to_string()) },
    ];
    let mut w = ProtoWriter::new(Vec::new());
    w.write_as::<Size4Vec<Node>>(&nodes).unwrap();
    let bytes = w.into_bytes();
    assert_eq!(&bytes[0..4], &[0, 0, 0, 2]);
    let mut r = ProtoReader::new(bytes.clone());
    let back = r.read_as::<Size4Vec<Node>>().unwrap();
    assert_eq!(r.position(), bytes.len());
    assert_eq!(back.len(), 2);
    assert_eq!(back[0].name, "a");
    assert_eq!(back[1].name, "bb");
    assert_eq!(back[1].rebuilding_addr.as_str(), "h:2");
}

#[test]
fn vec_with_missing_items_is_unexpected_eof() {
    let mut r = ProtoReader::new(vec![0, 0, 0, 1]);
    assert!(matches!(r.read_as::<Size4Vec<Node>>(), Err(ProtoError::UnexpectedEof)));
    assert_eq!(r.position(), 4);
}
