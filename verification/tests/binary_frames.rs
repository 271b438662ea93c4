use tsunami::protocol::{binary, flutties, palette};
use tsunami::protocol::{CanvasSize, Codec, Proto};
use tsunami::transport::Outbound;
use tsunami::{Color, Error};

#[test]
fn binary_set_record() {
    let mut codec = binary::Protocol { count: 0 };
    let mut writer = Outbound::new();
    codec
        .put_pixel(&mut writer, 5, 0x0102, 0x0304, Color::RGB24(10, 20, 30))
        .unwrap();
    assert_eq!(
        writer.as_slice(),
        [0x80u8, 5, 0x01, 0x02, 0x03, 0x04, 10, 20, 30].as_slice()
    );
}

#[test]
fn binary_query_record() {
    let mut codec = binary::Protocol { count: 0 };
    let mut writer = Outbound::new();
    codec.query_pixel(&mut writer, 5, 0x0102, 0x0304).unwrap();
    assert_eq!(
        writer.as_slice(),
        [0x20u8, 5, 0x01, 0x02, 0x03, 0x04].as_slice()
    );
}

#[test]
fn binary_send_frame_is_records_of_nine() {
    let mut codec = binary::Protocol { count: 0 };
    let mut writer = Outbound::new();
    let size = CanvasSize { x: 3, y: 2 };
    codec
        .send_frame(&mut writer, 9, Color::RGB24(1, 2, 3), &size)
        .unwrap();
    let bytes = writer.as_slice();
    assert_eq!(bytes.len(), 6 * 9);
    let mut k: usize = 0;
    for j in 0..2u8 {
        for i in 0..3u8 {
            assert_eq!(
                &bytes[k * 9..k * 9 + 9],
                [0x80u8, 9, 0, i, 0, j, 1, 2, 3].as_slice()
            );
            k += 1;
        }
    }
    assert_eq!(codec.count, 1);
}

#[test]
fn binary_get_frame_is_records_of_six() {
    let mut codec = binary::Protocol { count: 0 };
    let mut writer = Outbound::new();
    let size = CanvasSize { x: 2, y: 3 };
    codec.get_frame(&mut writer, 9, &size).unwrap();
    let bytes = writer.as_slice();
    assert_eq!(bytes.len(), 6 * 6);
    let mut k: usize = 0;
    for j in 0..3u8 {
        for i in 0..2u8 {
            assert_eq!(&bytes[k * 6..k * 6 + 6], [0x20u8, 9, 0, i, 0, j].as_slice());
            k += 1;
        }
    }
    assert_eq!(codec.count, 1);
}

#[test]
fn binary_frame_of_a_wide_canvas() {
    let mut codec = binary::Protocol { count: 0 };
    let mut writer = Outbound::new();
    let size = CanvasSize { x: 300, y: 2 };
    codec.get_frame(&mut writer, 0, &size).unwrap();
    let bytes = writer.as_slice();
    assert_eq!(bytes.len(), 600 * 6);
    assert_eq!(&bytes[299 * 6..300 * 6], [0x20u8, 0, 0x01, 0x2b, 0, 0].as_slice());
    assert_eq!(&bytes[300 * 6..301 * 6], [0x20u8, 0, 0, 0, 0, 1].as_slice());
}

#[test]
fn binary_failure_leaves_the_counter() {
    let mut codec = binary::Protocol { count: 41 };
    let mut writer = Outbound::failing_after(2);
    let size = CanvasSize { x: 2, y: 2 };
    let result = codec.send_frame(&mut writer, 1, Color::RGB24(7, 7, 7), &size);
    assert!(matches!(result, Err(Error::Io(_))));
    assert_eq!(codec.count, 41);
    assert_eq!(writer.len(), 2 * 9);
}

#[test]
fn two_codecs_write_the_same_frame() {
    let mut one = binary::Protocol { count: 0 };
    let mut other = binary::Protocol { count: 77 };
    let mut first = Outbound::new();
    let mut second = Outbound::new();
    let size = CanvasSize { x: 4, y: 3 };
    one.send_frame(&mut first, 3, Color::RGB24(1, 2, 3), &size)
        .unwrap();
    other
        .send_frame(&mut second, 3, Color::RGB24(1, 2, 3), &size)
        .unwrap();
    assert_eq!(first.as_slice(), second.as_slice());
    assert_eq!(one.count, 1);
    assert_eq!(other.count, 78);
}

#[test]
fn flutties_folds_the_canvas_into_the_opcode() {
    let mut codec = flutties::Protocol { count: 0 };
    let mut writer = Outbound::new();
    codec
        .put_pixel(&mut writer, 2, 0x0102, 0x0304, Color::RGB24(10, 20, 30))
        .unwrap();
    codec.query_pixel(&mut writer, 2, 0x0102, 0x0304).unwrap();
    assert_eq!(
        writer.as_slice(),
        [178u8, 0x02, 0x01, 0x04, 0x03, 10, 20, 30, 130, 0x02, 0x01, 0x04, 0x03].as_slice()
    );
}

#[test]
fn flutties_highest_canvases() {
    let mut codec = flutties::Protocol { count: 0 };
    let mut writer = Outbound::new();
    codec
        .put_pixel(&mut writer, 79, 0, 0, Color::RGB24(0, 0, 0))
        .unwrap();
    codec.query_pixel(&mut writer, 127, 0, 0).unwrap();
    let bytes = writer.as_slice();
    assert_eq!(bytes[0], 255);
    assert_eq!(bytes[8], 255);
}

#[test]
fn flutties_frames() {
    let mut codec = flutties::Protocol { count: 0 };
    let mut writer = Outbound::new();
    let size = CanvasSize { x: 2, y: 1 };
    codec
        .send_frame(&mut writer, 0, Color::RGB24(1, 2, 3), &size)
        .unwrap();
    codec.get_frame(&mut writer, 0, &size).unwrap();
    assert_eq!(
        writer.as_slice(),
        [
            176u8, 0, 0, 0, 0, 1, 2, 3, 176, 1, 0, 0, 0, 1, 2, 3, 128, 0, 0, 0, 0, 128, 1, 0, 0,
            0
        ]
        .as_slice()
    );
    assert_eq!(codec.count, 2);
}

#[test]
fn palette_sends_the_red_channel() {
    let mut codec = palette::Protocol { count: 0 };
    let mut writer = Outbound::new();
    codec
        .put_pixel(&mut writer, 5, 0x0102, 0x0304, Color::RGB24(10, 20, 30))
        .unwrap();
    codec.query_pixel(&mut writer, 5, 0x0102, 0x0304).unwrap();
    assert_eq!(
        writer.as_slice(),
        [0x21u8, 5, 0x01, 0x02, 0x03, 0x04, 10, 0x20, 5, 0x01, 0x02, 0x03, 0x04].as_slice()
    );
}

#[test]
fn palette_frame() {
    let mut codec = palette::Protocol { count: 0 };
    let mut writer = Outbound::new();
    let size = CanvasSize { x: 1, y: 2 };
    codec
        .send_frame(&mut writer, 1, Color::RGB24(200, 0, 0), &size)
        .unwrap();
    assert_eq!(
        writer.as_slice(),
        [0x21u8, 1, 0, 0, 0, 0, 200, 0x21, 1, 0, 0, 0, 1, 200].as_slice()
    );
    assert_eq!(codec.count, 1);
}

#[test]
fn only_flutties_flushes_its_set_commands() {
    let size = CanvasSize { x: 2, y: 2 };
    let color = Color::RGB24(1, 2, 3);

    let mut writer = Outbound::new();
    let mut codec = flutties::Protocol { count: 0 };
    codec.send_frame(&mut writer, 0, color, &size).unwrap();
    assert_eq!(writer.flushed_len(), 4 * 8);
    codec.get_frame(&mut writer, 0, &size).unwrap();
    assert_eq!(writer.len(), 4 * 8 + 4 * 5);
    assert_eq!(writer.flushed_len(), 4 * 8);

    let mut writer = Outbound::new();
    let mut codec = binary::Protocol { count: 0 };
    codec.send_frame(&mut writer, 0, color, &size).unwrap();
    assert_eq!(writer.flushed_len(), 0);

    let mut writer = Outbound::new();
    let mut codec = palette::Protocol { count: 0 };
    codec.send_frame(&mut writer, 0, color, &size).unwrap();
    assert_eq!(writer.flushed_len(), 0);
}

#[test]
fn a_failed_flutties_frame_flushed_what_went_out() {
    let mut writer = Outbound::failing_after(3);
    let mut codec = flutties::Protocol { count: 0 };
    let size = CanvasSize { x: 2, y: 2 };
    let result = codec.send_frame(&mut writer, 0, Color::RGB24(1, 2, 3), &size);
    assert!(matches!(result, Err(Error::Io(_))));
    assert_eq!(writer.len(), 3 * 8);
    assert_eq!(writer.flushed_len(), 3 * 8);
    assert_eq!(codec.count, 0);
}
