use tsunami::protocol::handshake::Reply;
use tsunami::protocol::{CanvasSize, Protocol};
use tsunami::transport::{Inbound, Outbound};
use tsunami::Error;

#[test]
fn size_requests() {
    assert_eq!(
        Protocol::Plaintext.size_request(0),
        b"CANVAS 0\nSIZE\n".to_vec()
    );
    assert_eq!(
        Protocol::Plaintext.size_request(255),
        b"CANVAS 255\nSIZE\n".to_vec()
    );
    assert_eq!(
        Protocol::BinFlurry.size_request(7),
        b"PROTOCOL binary\n\x73\x07".to_vec()
    );
    assert_eq!(Protocol::BinFlutties.size_request(7), vec![0x20u8, 7]);
    assert_eq!(
        Protocol::Palette.size_request(7),
        b"PROTOCOL palette\n\x73\x07".to_vec()
    );
}

#[test]
fn binary_request_is_banner_and_two_bytes() {
    let request = Protocol::BinFlurry.size_request(200);
    assert_eq!(request.len(), 18);
    assert_eq!(&request[..16], b"PROTOCOL binary\n".as_slice());
    assert_eq!(&request[16..], [115u8, 200].as_slice());
}

#[test]
fn expected_replies() {
    assert_eq!(Protocol::Plaintext.expected_reply(), Reply::Line);
    assert_eq!(Protocol::BinFlurry.expected_reply(), Reply::Bytes(4));
    assert_eq!(Protocol::BinFlutties.expected_reply(), Reply::Bytes(4));
    assert_eq!(Protocol::Palette.expected_reply(), Reply::Bytes(4));
}

#[test]
fn binary_size_is_big_endian() {
    let size = Protocol::BinFlurry
        .parse_size(&[0x03, 0x20, 0x02, 0x58])
        .unwrap();
    assert_eq!(size, CanvasSize { x: 800, y: 600 });
    let size = Protocol::BinFlutties
        .parse_size(&[0x00, 0x01, 0xff, 0xff])
        .unwrap();
    assert_eq!(size, CanvasSize { x: 1, y: 65535 });
    let size = Protocol::Palette
        .parse_size(&[0x00, 0x00, 0x00, 0x00])
        .unwrap();
    assert_eq!(size, CanvasSize { x: 0, y: 0 });
}

#[test]
fn binary_size_of_another_length_is_refused() {
    assert!(matches!(
        Protocol::BinFlurry.parse_size(&[0x03, 0x20, 0x02]),
        Err(Error::Protocol(_))
    ));
    assert!(matches!(
        Protocol::BinFlurry.parse_size(&[0x03, 0x20, 0x02, 0x58, 0x00]),
        Err(Error::Protocol(_))
    ));
    assert!(matches!(
        Protocol::Palette.parse_size(&[]),
        Err(Error::Protocol(_))
    ));
}

#[test]
fn text_size_is_the_second_and_third_word() {
    let size = Protocol::Plaintext.parse_size(b"SIZE 800 600\n").unwrap();
    assert_eq!(size, CanvasSize { x: 800, y: 600 });
    let size = Protocol::Plaintext
        .parse_size(b"  SIZE \t 1920   1080 32 and more\r\n")
        .unwrap();
    assert_eq!(size, CanvasSize { x: 1920, y: 1080 });
    let size = Protocol::Plaintext.parse_size(b"SIZE 0 65535").unwrap();
    assert_eq!(size, CanvasSize { x: 0, y: 65535 });
}

#[test]
fn text_numbers_as_the_parser_takes_them() {
    let size = Protocol::Plaintext.parse_size(b"SIZE +7 007\n").unwrap();
    assert_eq!(size, CanvasSize { x: 7, y: 7 });
    let size = Protocol::Plaintext
        .parse_size(b"SIZE 0000000065535 12345\n")
        .unwrap();
    assert_eq!(size, CanvasSize { x: 65535, y: 12345 });
    let size = Protocol::Plaintext.parse_size(b"SIZE 9 10\n").unwrap();
    assert_eq!(size, CanvasSize { x: 9, y: 10 });
    let size = Protocol::Plaintext.parse_size(b"SIZE 123 4567\n").unwrap();
    assert_eq!(size, CanvasSize { x: 123, y: 4567 });
}

#[test]
fn text_size_that_is_none_is_refused() {
    let refused: [&[u8]; 12] = [
        b"",
        b"\n",
        b"SIZE\n",
        b"SIZE 800\n",
        b"SIZE 800 \n",
        b"SIZE 65536 1\n",
        b"SIZE 1 70000\n",
        b"SIZE 12a 5\n",
        b"SIZE -1 5\n",
        b"SIZE 1 +\n",
        b"SIZE 8.0 6\n",
        b"800 600\n",
    ];
    for reply in refused {
        assert!(
            matches!(
                Protocol::Plaintext.parse_size(reply),
                Err(Error::Protocol(_))
            ),
            "{:?}",
            reply
        );
    }
}

#[test]
fn preamble_of_text() {
    let mut writer = Outbound::new();
    let mut reader = Inbound::new(b"SIZE 3 2\nPX 0 0 000000\n".to_vec());
    let size = Protocol::Plaintext
        .preamble(&mut writer, &mut reader, 12)
        .unwrap();
    assert_eq!(size, CanvasSize { x: 3, y: 2 });
    assert_eq!(writer.as_slice(), b"CANVAS 12\nSIZE\n".as_slice());
    assert_eq!(reader.pending(), b"PX 0 0 000000\n".len());
    assert_eq!(reader.read_line(), b"PX 0 0 000000\n".to_vec());
}

#[test]
fn preamble_of_binary_reads_four_bytes() {
    let mut writer = Outbound::new();
    let mut reader = Inbound::new(vec![0x03, 0x20, 0x02, 0x58, 0xaa, 0xbb]);
    let size = Protocol::BinFlurry
        .preamble(&mut writer, &mut reader, 1)
        .unwrap();
    assert_eq!(size, CanvasSize { x: 800, y: 600 });
    assert_eq!(writer.as_slice(), b"PROTOCOL binary\n\x73\x01".as_slice());
    assert_eq!(writer.flushed_len(), 18);
    assert_eq!(reader.pending(), 2);
}

#[test]
fn preamble_of_flutties_and_palette() {
    let mut writer = Outbound::new();
    let mut reader = Inbound::new(vec![0, 4, 0, 5, 0, 6, 0, 7]);
    let size = Protocol::BinFlutties
        .preamble(&mut writer, &mut reader, 3)
        .unwrap();
    assert_eq!(size, CanvasSize { x: 4, y: 5 });
    assert_eq!(writer.as_slice(), [0x20u8, 3].as_slice());
    let size = Protocol::Palette
        .preamble(&mut writer, &mut reader, 3)
        .unwrap();
    assert_eq!(size, CanvasSize { x: 6, y: 7 });
    assert_eq!(
        writer.as_slice(),
        b"\x20\x03PROTOCOL palette\n\x73\x03".as_slice()
    );
    assert_eq!(reader.pending(), 0);
}

#[test]
fn preamble_on_a_short_answer() {
    let mut writer = Outbound::new();
    let mut reader = Inbound::new(vec![0x03, 0x20, 0x02]);
    let result = Protocol::BinFlurry.preamble(&mut writer, &mut reader, 1);
    assert!(matches!(result, Err(Error::Protocol(_))));
    assert_eq!(reader.pending(), 0);
}

#[test]
fn preamble_on_a_closed_connection() {
    let mut writer = Outbound::new();
    let mut reader = Inbound::new(Vec::new());
    let result = Protocol::Plaintext.preamble(&mut writer, &mut reader, 1);
    assert!(matches!(result, Err(Error::Protocol(_))));
}

#[test]
fn preamble_that_cannot_write_reads_nothing() {
    let mut writer = Outbound::failing_after(1);
    let mut reader = Inbound::new(vec![0x03, 0x20, 0x02, 0x58]);
    let result = Protocol::BinFlurry.preamble(&mut writer, &mut reader, 1);
    assert!(matches!(result, Err(Error::Io(_))));
    assert_eq!(writer.as_slice(), b"PROTOCOL binary\n".as_slice());
    assert_eq!(writer.flushed_len(), 0);
    assert_eq!(reader.pending(), 4);
}

#[test]
fn inbound_reads() {
    let mut reader = Inbound::new(b"one\ntwo\nrest".to_vec());
    assert_eq!(reader.read_line(), b"one\n".to_vec());
    assert_eq!(reader.read_exact(2).unwrap(), b"tw".to_vec());
    assert_eq!(reader.read_line(), b"o\n".to_vec());
    assert_eq!(reader.read_line(), b"rest".to_vec());
    assert_eq!(reader.read_line(), Vec::<u8>::new());
    assert!(matches!(reader.read_exact(1), Err(Error::Protocol(_))));
    assert_eq!(reader.read_exact(0).unwrap(), Vec::<u8>::new());
}

#[test]
fn outbound_budget() {
    let mut writer = Outbound::failing_after(2);
    assert!(writer.write_all(b"ab").is_ok());
    assert_eq!(writer.flushed_len(), 0);
    assert!(writer.flush().is_ok());
    assert_eq!(writer.flushed_len(), 2);
    assert!(writer.write_all(b"").is_ok());
    assert!(writer.flush().is_ok());
    assert!(matches!(writer.write_all(b"cd"), Err(Error::Io(_))));
    assert!(matches!(writer.flush(), Err(Error::Io(_))));
    assert!(matches!(writer.write_all(b"ef"), Err(Error::Io(_))));
    assert_eq!(writer.as_slice(), b"ab".as_slice());
    writer.clear();
    assert_eq!(writer.len(), 0);
    assert_eq!(writer.into_bytes(), Vec::<u8>::new());
}
