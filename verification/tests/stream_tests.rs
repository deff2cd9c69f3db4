use hammeregg::stream::capture_args;
use hammeregg::stream::dec_i32_string;
use hammeregg::stream::dec_u32_string;
use hammeregg::stream::validate_port;
use hammeregg::stream::MonitorBounds;

#[test]
fn decimal_renderings_are_exact() {
    assert_eq!(dec_u32_string(0), "0");
    assert_eq!(dec_u32_string(7), "7");
    assert_eq!(dec_u32_string(7269), "7269");
    assert_eq!(dec_u32_string(u32::MAX), "4294967295");
    assert_eq!(dec_i32_string(0), "0");
    assert_eq!(dec_i32_string(-1), "-1");
    assert_eq!(dec_i32_string(i32::MIN), "-2147483648");
    assert_eq!(dec_i32_string(i32::MAX), "2147483647");
}

#[test]
fn capture_args_match_the_launch_recipe() {
    let b = MonitorBounds::new(-100, 5, 1920, 1080);
    let args = capture_args(&b, 5000);
    let expect: Vec<&str> = vec![
        "-re",
        "-f",
        "gdigrab",
        "-framerate",
        "30",
        "-offset_x",
        "-100",
        "-offset_y",
        "5",
        "-video_size",
        "1920x1080",
        "-show_region",
        "1",
        "-i",
        "desktop",
        "-vf",
        "scale='min(1280,iw)':-2",
        "-vcodec",
        "libvpx",
        "-cpu-used",
        "5",
        "-deadline",
        "1",
        "-crf",
        "30",
        "-b:v",
        "2M",
        "-g",
        "10",
        "-auto-alt-ref",
        "0",
        "-f",
        "rtp",
        "rtp://127.0.0.1:5000",
    ];
    assert_eq!(args.len(), expect.len());
    for (got, want) in args.iter().zip(expect.iter()) {
        assert_eq!(got, want);
    }
}

#[test]
fn monitor_bounds_hold_their_fields() {
    let b = MonitorBounds::new(1, -2, 3, 4);
    assert_eq!(b.x, 1);
    assert_eq!(b.y, -2);
    assert_eq!(b.w, 3);
    assert_eq!(b.h, 4);
}

#[test]
fn ports_parse_exactly() {
    assert_eq!(validate_port("7269").unwrap(), 7269);
    assert_eq!(validate_port("0").unwrap(), 0);
    assert_eq!(validate_port("00080").unwrap(), 80);
    assert_eq!(validate_port("65535").unwrap(), 65535);
    assert_eq!(validate_port("+443").unwrap(), 443);
    assert!(validate_port("65536").is_err());
    assert!(validate_port("").is_err());
    assert!(validate_port("+").is_err());
    assert!(validate_port("12a").is_err());
    assert!(validate_port("-1").is_err());
    assert!(validate_port("1 2").is_err());
}
