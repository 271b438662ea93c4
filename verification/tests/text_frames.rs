use tsunami::protocol::text::Protocol;
use tsunami::protocol::{CanvasSize, Codec, Proto};
use tsunami::transport::Outbound;
use tsunami::{Color, Error};

fn fresh() -> Protocol {
    Protocol {
        str: String::new(),
        count: 0,
    }
}

#[test]
fn test_send_frame() {
    let size = CanvasSize { x: 3, y: 2 };
    let mut protocol = Protocol {
        str: String::new(),
        count: 0,
    };
    let color = Color::RGB24(0x34, 0xac, 0x49);

    let mut expected: Vec<u8> = Vec::new();
    expected.extend_from_slice(b"PX 0 0 34AC49\n");
    expected.extend_from_slice(b"PX 1 0 34AC49\n");
    expected.extend_from_slice(b"PX 2 0 34AC49\n");
    expected.extend_from_slice(b"PX 0 1 34AC49\n");
    expected.extend_from_slice(b"PX 1 1 34AC49\n");
    expected.extend_from_slice(b"PX 2 1 34AC49\n");

    let mut writer = Outbound::new();
    assert!(protocol
        .send_frame(&mut writer, 0, color, &size)
        .is_ok());
    assert_eq!(writer.as_slice(), expected.as_slice());
}

#[test]
fn send_frame_counts_one_frame() {
    let mut protocol = fresh();
    let mut writer = Outbound::new();
    let size = CanvasSize { x: 3, y: 2 };
    protocol
        .send_frame(&mut writer, 0, Color::RGB24(1, 2, 3), &size)
        .unwrap();
    assert_eq!(protocol.count, 1);
    protocol
        .send_frame(&mut writer, 0, Color::RGB24(1, 2, 3), &size)
        .unwrap();
    assert_eq!(protocol.count, 2);
}

#[test]
fn get_frame_asks_row_by_row() {
    let mut protocol = fresh();
    let mut writer = Outbound::new();
    let size = CanvasSize { x: 3, y: 2 };
    assert!(protocol.get_frame(&mut writer, 0, &size).is_ok());
    assert_eq!(
        writer.as_slice(),
        b"PX 0 0\nPX 1 0\nPX 2 0\nPX 0 1\nPX 1 1\nPX 2 1\n".as_slice()
    );
    assert_eq!(protocol.count, 1);
}

#[test]
fn get_frame_does_not_repeat_old_lines() {
    let mut protocol = fresh();
    let mut writer = Outbound::new();
    let size = CanvasSize { x: 2, y: 1 };
    protocol.get_frame(&mut writer, 0, &size).unwrap();
    protocol.get_frame(&mut writer, 0, &size).unwrap();
    assert_eq!(writer.as_slice(), b"PX 0 0\nPX 1 0\nPX 0 0\nPX 1 0\n".as_slice());
}

#[test]
fn stale_scratch_line_is_dropped() {
    let mut protocol = Protocol {
        str: String::from("left over"),
        count: 0,
    };
    let mut writer = Outbound::new();
    let size = CanvasSize { x: 1, y: 1 };
    protocol
        .send_frame(&mut writer, 0, Color::RGB24(0, 0, 0), &size)
        .unwrap();
    assert_eq!(writer.as_slice(), b"PX 0 0 000000\n".as_slice());
    assert_eq!(protocol.str, "");
}

#[test]
fn hex_is_upper_case_and_two_digits_wide() {
    let mut protocol = fresh();
    let mut writer = Outbound::new();
    protocol
        .put_pixel(&mut writer, 0, 7, 9, Color::RGB24(0x00, 0x0f, 0xfa))
        .unwrap();
    assert_eq!(writer.as_slice(), b"PX 7 9 000FFA\n".as_slice());
}

#[test]
fn coordinates_are_plain_decimal() {
    let mut protocol = fresh();
    let mut writer = Outbound::new();
    protocol
        .put_pixel(&mut writer, 0, 65535, 10, Color::RGB24(255, 255, 255))
        .unwrap();
    protocol.query_pixel(&mut writer, 0, 100, 9999).unwrap();
    assert_eq!(
        writer.as_slice(),
        b"PX 65535 10 FFFFFF\nPX 100 9999\n".as_slice()
    );
}

#[test]
fn the_canvas_has_no_place_in_a_line() {
    let mut one = fresh();
    let mut other = fresh();
    let mut first = Outbound::new();
    let mut second = Outbound::new();
    let size = CanvasSize { x: 2, y: 2 };
    one.send_frame(&mut first, 0, Color::RGB24(9, 8, 7), &size)
        .unwrap();
    other
        .send_frame(&mut second, 200, Color::RGB24(9, 8, 7), &size)
        .unwrap();
    assert_eq!(first.as_slice(), second.as_slice());
}

#[test]
fn empty_canvas_makes_an_empty_frame() {
    let mut protocol = fresh();
    let mut writer = Outbound::new();
    let flat = CanvasSize { x: 5, y: 0 };
    let thin = CanvasSize { x: 0, y: 5 };
    assert!(protocol
        .send_frame(&mut writer, 0, Color::RGB24(1, 1, 1), &flat)
        .is_ok());
    assert!(protocol.get_frame(&mut writer, 0, &thin).is_ok());
    assert_eq!(writer.len(), 0);
    assert_eq!(protocol.count, 2);
}

#[test]
fn empty_frame_passes_a_broken_stream() {
    let mut protocol = fresh();
    let mut writer = Outbound::failing_after(0);
    let flat = CanvasSize { x: 5, y: 0 };
    assert!(protocol
        .send_frame(&mut writer, 0, Color::RGB24(1, 1, 1), &flat)
        .is_ok());
    assert_eq!(protocol.count, 1);
}

#[test]
fn failed_frame_is_not_counted() {
    let mut protocol = fresh();
    let mut writer = Outbound::failing_after(4);
    let size = CanvasSize { x: 3, y: 2 };
    let result = protocol.send_frame(&mut writer, 0, Color::RGB24(0x34, 0xac, 0x49), &size);
    assert!(matches!(result, Err(Error::Io(_))));
    assert_eq!(protocol.count, 0);
    assert_eq!(
        writer.as_slice(),
        b"PX 0 0 34AC49\nPX 1 0 34AC49\nPX 2 0 34AC49\nPX 0 1 34AC49\n".as_slice()
    );
}

#[test]
fn frame_that_just_fits_is_counted() {
    let mut protocol = fresh();
    let mut writer = Outbound::failing_after(6);
    let size = CanvasSize { x: 3, y: 2 };
    assert!(protocol.get_frame(&mut writer, 0, &size).is_ok());
    assert_eq!(protocol.count, 1);
    let again = protocol.get_frame(&mut writer, 0, &size);
    assert!(matches!(again, Err(Error::Io(_))));
    assert_eq!(protocol.count, 1);
    assert_eq!(writer.len(), 6 * 7);
}
