use rand::rngs::StdRng;
use rand::SeedableRng;
use tsunami::protocol::{binary, flutties, palette, text};
use tsunami::protocol::{CanvasSize, Proto};
use tsunami::transport::Outbound;
use tsunami::Error;

#[test]
fn spray_stays_on_the_canvas() {
    let mut codec = binary::Protocol { count: 0 };
    let mut writer = Outbound::new();
    let mut rng = StdRng::seed_from_u64(7);
    let size = CanvasSize { x: 5, y: 3 };
    codec.spray_frame(&mut writer, 4, &mut rng, &size).unwrap();
    let bytes = writer.as_slice();
    assert_eq!(bytes.len(), 15 * 9);
    for record in bytes.chunks(9) {
        assert_eq!(record[0], 0x80);
        assert_eq!(record[1], 4);
        let x = u16::from_be_bytes([record[2], record[3]]);
        let y = u16::from_be_bytes([record[4], record[5]]);
        assert!(x < 5);
        assert!(y < 3);
        assert_eq!(&record[6..9], &bytes[6..9]);
    }
    assert_eq!(codec.count, 1);
}

#[test]
fn spray_on_a_wide_canvas_stays_on_it() {
    let mut codec = flutties::Protocol { count: 0 };
    let mut writer = Outbound::new();
    let mut rng = StdRng::seed_from_u64(99);
    let size = CanvasSize { x: 700, y: 1 };
    codec.spray_frame(&mut writer, 0, &mut rng, &size).unwrap();
    let bytes = writer.as_slice();
    assert_eq!(bytes.len(), 700 * 8);
    let mut beyond_a_byte = false;
    for record in bytes.chunks(8) {
        assert_eq!(record[0], 176);
        let x = u16::from_le_bytes([record[1], record[2]]);
        let y = u16::from_le_bytes([record[3], record[4]]);
        assert!(x < 700);
        assert_eq!(y, 0);
        beyond_a_byte = beyond_a_byte || x > 255;
    }
    assert!(beyond_a_byte);
}

#[test]
fn spray_of_text_is_lines() {
    let mut codec = text::Protocol {
        str: String::new(),
        count: 0,
    };
    let mut writer = Outbound::new();
    let mut rng = StdRng::seed_from_u64(1);
    let size = CanvasSize { x: 4, y: 4 };
    codec.spray_frame(&mut writer, 0, &mut rng, &size).unwrap();
    let written = String::from_utf8(writer.as_slice().to_vec()).unwrap();
    let lines: Vec<&str> = written.lines().collect();
    assert_eq!(lines.len(), 16);
    let color = lines[0].split(' ').nth(3).unwrap();
    assert_eq!(color.len(), 6);
    for line in lines {
        let words: Vec<&str> = line.split(' ').collect();
        assert_eq!(words.len(), 4);
        assert_eq!(words[0], "PX");
        assert!(words[1].parse::<u16>().unwrap() < 4);
        assert!(words[2].parse::<u16>().unwrap() < 4);
        assert_eq!(words[3], color);
    }
    assert_eq!(codec.count, 1);
}

#[test]
fn spray_of_palette_keeps_one_index() {
    let mut codec = palette::Protocol { count: 0 };
    let mut writer = Outbound::new();
    let mut rng = StdRng::seed_from_u64(3);
    let size = CanvasSize { x: 3, y: 3 };
    codec.spray_frame(&mut writer, 2, &mut rng, &size).unwrap();
    let bytes = writer.as_slice();
    assert_eq!(bytes.len(), 9 * 7);
    for record in bytes.chunks(7) {
        assert_eq!(record[0], 0x21);
        assert_eq!(record[1], 2);
        assert!(u16::from_be_bytes([record[2], record[3]]) < 3);
        assert!(u16::from_be_bytes([record[4], record[5]]) < 3);
        assert_eq!(record[6], bytes[6]);
    }
}

#[test]
fn spray_of_an_empty_canvas_draws_no_coordinate() {
    let mut codec = binary::Protocol { count: 0 };
    let mut writer = Outbound::new();
    let mut rng = StdRng::seed_from_u64(7);
    let size = CanvasSize { x: 0, y: 9 };
    assert!(codec.spray_frame(&mut writer, 4, &mut rng, &size).is_ok());
    assert_eq!(writer.len(), 0);
    assert_eq!(codec.count, 1);
}

#[test]
fn failed_spray_is_not_counted() {
    let mut codec = binary::Protocol { count: 3 };
    let mut writer = Outbound::failing_after(5);
    let mut rng = StdRng::seed_from_u64(7);
    let size = CanvasSize { x: 4, y: 4 };
    let result = codec.spray_frame(&mut writer, 4, &mut rng, &size);
    assert!(matches!(result, Err(Error::Io(_))));
    assert_eq!(codec.count, 3);
    assert_eq!(writer.len(), 5 * 9);
}
