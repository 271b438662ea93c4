use tsunami::pixel::Pixel;
use tsunami::protocol::Protocol;
use tsunami::{verify_args, Args, Color, Error};

#[test]
fn default_settings() {
    let args = Args::config_default();
    assert_eq!(args.target, None);
    assert_eq!(args.host, None);
    assert_eq!(args.protocol, Protocol::Plaintext);
    assert_eq!(args.canvas, 0);
    assert_eq!(args.x_offset, 0);
    assert_eq!(args.y_offset, 0);
    assert_eq!(args.width, None);
    assert_eq!(args.height, None);
    assert_eq!(args.send_threads, 4);
    assert!(!args.debug);
}

#[test]
fn default_protocol_is_plaintext() {
    assert_eq!(Protocol::default(), Protocol::Plaintext);
}

#[test]
fn default_settings_name_no_place() {
    let args = Args::config_default();
    match verify_args(&args) {
        Err(Error::InvalidConfig(why)) => assert_eq!(why, "host or target must be specified"),
        other => panic!("{:?}", other),
    }
}

#[test]
fn settings_with_a_host_or_a_target_pass() {
    let mut args = Args::config_default();
    args.host = Some("localhost:1337".to_string());
    assert!(verify_args(&args).is_ok());
    let mut args = Args::config_default();
    args.target = Some("home".to_string());
    assert!(verify_args(&args).is_ok());
    args.send_threads = 1;
    assert!(verify_args(&args).is_ok());
}

#[test]
fn settings_without_workers_are_refused_first() {
    let mut args = Args::config_default();
    args.send_threads = 0;
    match verify_args(&args) {
        Err(Error::InvalidConfig(why)) => assert_eq!(why, "send_threads must be greater than 0"),
        other => panic!("{:?}", other),
    }
    args.host = Some("localhost:1337".to_string());
    match verify_args(&args) {
        Err(Error::InvalidConfig(why)) => assert_eq!(why, "send_threads must be greater than 0"),
        other => panic!("{:?}", other),
    }
}

#[test]
fn errors_say_what_they_are() {
    assert_eq!(
        Error::FileParseError("line 3".to_string()).to_string(),
        "File parse error: line 3"
    );
    assert_eq!(
        Error::FFmpegError("gone".to_string()).to_string(),
        "FFmpeg error: gone"
    );
    assert_eq!(
        Error::InvalidArgs("-x".to_string()).to_string(),
        "Invalid arguments: -x"
    );
    assert_eq!(
        Error::InvalidConfig("no host".to_string()).to_string(),
        "Invalid config: no host"
    );
    assert_eq!(
        Error::Protocol("no size".to_string()).to_string(),
        "Protocol error: no size"
    );
    assert_eq!(Error::Custom("as it is".to_string()).to_string(), "as it is");
    let io = std::io::Error::new(std::io::ErrorKind::Other, "reset by peer");
    assert_eq!(Error::from(io).to_string(), "IO error: reset by peer");
}

#[test]
fn io_errors_become_errors() {
    let io = std::io::Error::new(std::io::ErrorKind::BrokenPipe, "gone");
    assert!(matches!(Error::from(io), Error::Io(_)));
}

#[test]
fn colors_and_pixels_compare_by_value() {
    assert_eq!(Color::RGB24(1, 2, 3), Color::RGB24(1, 2, 3));
    assert_ne!(Color::RGB24(1, 2, 3), Color::RGB24(1, 2, 4));
    let pixel = Pixel {
        x: 1,
        y: 2,
        color: tsunami::pixel::Color::RGB24(3, 4, 5),
    };
    let copy = pixel;
    assert_eq!(pixel, copy);
}
