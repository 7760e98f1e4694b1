//! Holds the library's frame layout against data-rw, the serializer whose
//! output the deployed clients expect on the wire.

use bytes::BufMut;
use tcp_gateway::codec::{encode_close_frame, encode_data_frame, encode_open_frame, write_var_u32};

/// Builds a frame exactly as the gateway's writer does with data-rw: a
/// 4-byte placeholder, the body, then the body length patched in at the
/// front (no cipher here; the key is empty).
fn finish(mut buffer: data_rw::Data) -> Vec<u8> {
    let len = (buffer.len() - 4) as u32;
    (&mut buffer[0..4]).put_u32_le(len);
    buffer.into_inner()
}

#[test]
fn open_frame_matches_data_rw_writer() {
    for service_id in [0u32, 1, 7, 127, 128, 300, 524287, u32::MAX] {
        let mut buffer = data_rw::Data::new();
        buffer.write_fixed(0u32);
        buffer.write_fixed(0xFFFFFFFFu32);
        buffer.write_var_integer("open");
        buffer.write_var_integer(service_id);
        assert_eq!(finish(buffer), encode_open_frame(&[], service_id));
    }
}

#[test]
fn close_frame_matches_data_rw_writer() {
    for service_id in [0u32, 9, 255, 1000000] {
        let mut buffer = data_rw::Data::new();
        buffer.write_fixed(0u32);
        buffer.write_fixed(0xFFFFFFFFu32);
        buffer.write_var_integer("close");
        buffer.write_var_integer(service_id);
        assert_eq!(finish(buffer), encode_close_frame(&[], service_id));
    }
}

#[test]
fn data_frame_matches_data_rw_writer() {
    let payload = vec![1u8, 2, 3, 4, 5, 6];
    let mut buffer = data_rw::Data::new();
    buffer.write_fixed(0u32);
    buffer.write_fixed(77u32);
    buffer.write_buf(&payload);
    assert_eq!(finish(buffer), encode_data_frame(&[], 77, &payload));
}

#[test]
fn var_integer_matches_data_rw_writer() {
    for v in [0u32, 1, 127, 128, 129, 16383, 16384, 300, u32::MAX] {
        let mut buffer = data_rw::Data::new();
        buffer.write_var_integer(v);
        let expected = buffer.into_inner();
        let mut ours = Vec::new();
        write_var_u32(&mut ours, v);
        assert_eq!(ours, expected, "value {}", v);
    }
}

#[test]
fn inbound_reader_matches_data_rw_reader() {
    // what the gateway's read path sees after deciphering: data-rw's
    // DataOwnedReader and the library agree on the split
    let frame = encode_data_frame(&[], 5, &[0xAB, 0xCD]);
    let body = frame[4..].to_vec();
    let mut reader = data_rw::DataOwnedReader::new(body);
    let server_id: u32 = reader.read_fixed().unwrap();
    assert_eq!(server_id, 5);
    assert_eq!(&reader[reader.get_offset()..], &[0xAB, 0xCD]);
}
