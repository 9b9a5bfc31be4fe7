use lucky_sprint::config::CaptureBackendKind;
use lucky_sprint::controller::{
    choose_maa_device, connect_plan, ensure_file, merge_devices, parse_adb_devices, resolve_serial, reuse_connection,
    ConnectPlan, ControllerError, DeviceInfo,
};
use lucky_sprint::recognition::{bgr_to_rgb, fit_region, region_center, Region};
use lucky_sprint::text::{decimal_string, split_words, str_eq_ignore_ascii_case, template_value, trim_str};

fn dev(serial: &str, extras: bool) -> DeviceInfo {
    DeviceInfo { serial: serial.to_string(), name: serial.to_string(), source: "maa".to_string(), supports_emulator_extras: extras }
}

#[test]
fn decimal_text() {
    assert_eq!(decimal_string(0), "0");
    assert_eq!(decimal_string(170), "170");
    assert_eq!(decimal_string(-35), "-35");
    assert_eq!(decimal_string(i64::MIN), i64::MIN.to_string());
    assert_eq!(decimal_string(i64::MAX), i64::MAX.to_string());
}

#[test]
fn template_names_carry_their_value() {
    assert_eq!(template_value("current_meter120", "current_meter"), Some(120));
    assert_eq!(template_value("current_meter0", "current_meter"), Some(0));
    assert_eq!(template_value("lucky_lv3", "lucky_lv"), Some(3));
    assert_eq!(template_value("shield_count4", "shield_count"), Some(4));
    assert_eq!(template_value("current_metercurrent_meter5", "current_meter"), Some(5));
    assert_eq!(template_value("current_meter", "current_meter"), None);
    assert_eq!(template_value("current_meter_x", "current_meter"), None);
    assert_eq!(template_value("current_meter+7", "current_meter"), Some(7));
    assert_eq!(template_value("current_meter-7", "current_meter"), Some(-7));
    assert_eq!(template_value("current_meter-", "current_meter"), None);
    assert_eq!(template_value("current_meter2147483647", "current_meter"), Some(i32::MAX));
    assert_eq!(template_value("current_meter-2147483648", "current_meter"), Some(i32::MIN));
    assert_eq!(template_value("current_meter2147483648", "current_meter"), None);
    assert_eq!(template_value("current_meter99999999999x", "current_meter"), None);
    assert_eq!(template_value("42", ""), Some(42));
}

#[test]
fn whitespace_and_case() {
    assert_eq!(trim_str("  a b\t\n"), "a b");
    assert_eq!(trim_str("\u{3000}x\u{A0}"), "x");
    assert_eq!(trim_str("   "), "");
    assert!(str_eq_ignore_ascii_case("AuTo", "auto"));
    assert!(!str_eq_ignore_ascii_case("autos", "auto"));
    assert_eq!(split_words("  emulator-5554 \t device  x"), vec!["emulator-5554", "device", "x"]);
    assert!(split_words(" \t ").is_empty());
}

#[test]
fn serial_resolution() {
    let devices = vec![dev("127.0.0.1:16384", true), dev("emulator-5554", false)];
    assert_eq!(resolve_serial("auto", &devices).unwrap(), "127.0.0.1:16384");
    assert_eq!(resolve_serial("  AUTO ", &devices).unwrap(), "127.0.0.1:16384");
    assert_eq!(resolve_serial("", &devices).unwrap(), "127.0.0.1:16384");
    assert_eq!(resolve_serial(" 127.0.0.1:5555 ", &[]).unwrap(), "127.0.0.1:5555");
    let err = resolve_serial("auto", &[]).unwrap_err();
    assert!(matches!(err, ControllerError::NoDevice));
    assert_eq!(err.message(), "没有检测到可用设备");
}

#[test]
fn maa_device_choice() {
    let devices = vec![dev("127.0.0.1:16384", true), dev("emulator-5554", false)];
    assert_eq!(choose_maa_device("auto", &devices).unwrap(), 0);
    assert_eq!(choose_maa_device("127.0.0.1:16384", &devices).unwrap(), 0);
    let e = choose_maa_device("emulator-5554", &devices).unwrap_err();
    assert_eq!(e.message(), "当前设备不支持 MAA EmulatorExtras：emulator-5554");
    let e = choose_maa_device("127.0.0.1:7555", &devices).unwrap_err();
    assert_eq!(e.message(), "MAA 未找到指定设备：127.0.0.1:7555");
    assert!(matches!(choose_maa_device("auto", &[]).unwrap_err(), ControllerError::NoDevice));
}

#[test]
fn adb_device_list() {
    let out = "List of devices attached\r\n127.0.0.1:16384\tdevice\r\nemulator-5554\toffline\r\n\r\n127.0.0.1:5555 device product:x\n";
    let devices = parse_adb_devices(out);
    let serials: Vec<&str> = devices.iter().map(|d| d.serial.as_str()).collect();
    assert_eq!(serials, vec!["127.0.0.1:16384", "127.0.0.1:5555"]);
    assert_eq!(devices[0].name, "127.0.0.1:16384");
    assert_eq!(devices[0].source, "adb");
    assert!(!devices[0].supports_emulator_extras);
    assert!(parse_adb_devices("").is_empty());
    assert_eq!(parse_adb_devices("x device").len(), 1);
}

#[test]
fn missing_files() {
    assert!(ensure_file(true, "ADB", "/x/adb.exe").is_ok());
    let e = ensure_file(false, "识别配置", "/x/a.json").unwrap_err();
    assert_eq!(e.message(), "识别配置不存在：/x/a.json");
}

#[test]
fn regions_stay_inside_the_image() {
    let r = fit_region(Region { x: 1270, y: -5, w: 40, h: 30 }, 1280, 720);
    assert_eq!(r, Region { x: 1270, y: 0, w: 10, h: 30 });
    let r = fit_region(Region { x: 2000, y: 800, w: 0, h: -4 }, 1280, 720);
    assert_eq!(r, Region { x: 1279, y: 719, w: 1, h: 1 });
    assert_eq!(region_center(Region { x: 10, y: 20, w: 5, h: 8 }), (12, 24));
    assert_eq!(region_center(Region { x: 10, y: 20, w: -5, h: 0 }), (8, 20));
}

#[test]
fn device_lists_merge_by_serial() {
    let maa = vec![dev("127.0.0.1:7555", true), dev("127.0.0.1:16384", false), dev("127.0.0.1:16384", true)];
    let adb = vec![
        DeviceInfo { serial: "emulator-5554".into(), name: "first".into(), source: "adb".into(), supports_emulator_extras: false },
        DeviceInfo { serial: "127.0.0.1:7555".into(), name: "x".into(), source: "adb".into(), supports_emulator_extras: false },
        DeviceInfo { serial: "emulator-5554".into(), name: "second".into(), source: "adb".into(), supports_emulator_extras: false },
    ];
    let merged = merge_devices(maa, adb);
    let serials: Vec<&str> = merged.iter().map(|d| d.serial.as_str()).collect();
    assert_eq!(serials, vec!["127.0.0.1:16384", "127.0.0.1:7555", "emulator-5554"]);
    assert!(merged[0].supports_emulator_extras);
    assert_eq!(merged[1].source, "maa");
    assert_eq!(merged[2].name, "first");
    assert!(merge_devices(Vec::new(), Vec::new()).is_empty());
}

#[test]
fn numbers_written_into_template_names_read_back() {
    for n in [0i32, 7, 10, 170, 200, -15, i32::MAX, i32::MIN] {
        let name = format!("current_meter{}", decimal_string(n as i64));
        assert_eq!(template_value(&name, "current_meter"), Some(n));
    }
}

#[test]
fn fitted_regions_lie_inside_the_image() {
    for (x, y, w, h) in [(-50, -50, 10, 10), (5000, 5000, 100, 100), (100, 100, 5000, 5000), (0, 0, 0, 0)] {
        let r = fit_region(Region { x, y, w, h }, 640, 360);
        assert!(r.x >= 0 && r.x < 640 && r.w >= 1 && r.x + r.w <= 640);
        assert!(r.y >= 0 && r.y < 360 && r.h >= 1 && r.y + r.h <= 360);
    }
}

#[test]
fn connections_are_reused_for_the_same_serial_or_auto() {
    assert!(reuse_connection("127.0.0.1:16384", "127.0.0.1:16384"));
    assert!(reuse_connection("127.0.0.1:16384", "AUTO"));
    assert!(!reuse_connection("127.0.0.1:16384", "127.0.0.1:7555"));
    assert!(!reuse_connection("127.0.0.1:16384", " auto"));
    assert!(!reuse_connection("127.0.0.1:16384", "127.0.0.1:1638"));
}

#[test]
fn bgr_frames_turn_into_rgb() {
    let raw = [1u8, 2, 3, 4, 5, 6, 7, 8, 9, 10, 11, 12, 99];
    assert_eq!(bgr_to_rgb(&raw, 2, 2), Some(vec![3, 2, 1, 6, 5, 4, 9, 8, 7, 12, 11, 10]));
    assert_eq!(bgr_to_rgb(&raw, 4, 1), Some(vec![3, 2, 1, 6, 5, 4, 9, 8, 7, 12, 11, 10]));
    assert_eq!(bgr_to_rgb(&raw, 3, 2), None);
    assert_eq!(bgr_to_rgb(&raw[..11], 2, 2), None);
    assert_eq!(bgr_to_rgb(&[], 0, 5), Some(vec![]));
}

#[test]
fn the_capture_backend_decides_how_to_connect() {
    assert_eq!(connect_plan(CaptureBackendKind::MaaEmulatorExtras, true), ConnectPlan::MaaThenAdb);
    assert_eq!(connect_plan(CaptureBackendKind::MaaEmulatorExtras, false), ConnectPlan::MaaOnly);
    assert_eq!(connect_plan(CaptureBackendKind::AdbScreencap, true), ConnectPlan::AdbOnly);
    assert_eq!(connect_plan(CaptureBackendKind::AdbScreencap, false), ConnectPlan::AdbOnly);
}
