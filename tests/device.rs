use kobo_highlights::device::{
    monitor_step, read_serial_number, volume_name_exec, DeviceDetectedEvent,
    DeviceDisconnectedEvent, DeviceDetector, MonitorEvent,
};
use kobo_highlights::models::KoboDevice;

const ROOT: &str = "/tmp/volumes";

/// A volume as probing it finds it: whether it has `.kobo`, whether its database answers a
/// query, and its version file.
struct Volume {
    name: &'static str,
    has_kobo_dir: bool,
    database_ok: bool,
    version: Option<&'static str>,
}

/// A mounted reader with a working database and version file `SN12345678`.
fn mock_kobo_device(name: &'static str) -> Volume {
    Volume { name, has_kobo_dir: true, database_ok: true, version: Some("SN12345678") }
}

/// A plain mounted drive.
fn non_kobo_device(name: &'static str) -> Volume {
    Volume { name, has_kobo_dir: false, database_ok: false, version: None }
}

/// The first volume recognized as a device, in order.
fn scan(detector: &DeviceDetector, volumes: &[Volume]) -> Option<KoboDevice> {
    volumes.iter().find_map(|v| {
        detector.check_kobo_device(
            &format!("{}/{}", detector.volumes_path(), v.name),
            v.has_kobo_dir,
            v.database_ok,
            v.version.map(|s| s.to_string()),
        )
    })
}

fn device(path: &str, serial: Option<&str>) -> KoboDevice {
    KoboDevice {
        name: "KOBOeReader".to_string(),
        path: path.to_string(),
        is_valid: true,
        serial_number: serial.map(|s| s.to_string()),
    }
}

#[test]
fn test_detect_kobo_by_sqlite_file() {
    let detector = DeviceDetector::new(ROOT.to_string());
    let device = scan(&detector, &[mock_kobo_device("KOBOeReader")]);
    assert!(device.is_some());
    let device = device.unwrap();
    assert_eq!(device.name, "KOBOeReader");
    assert!(device.is_valid);
}

#[test]
fn test_ignore_non_kobo_volumes() {
    let detector = DeviceDetector::new(ROOT.to_string());
    let device = scan(&detector, &[non_kobo_device("MyUSB")]);
    assert!(device.is_none());
}

#[test]
fn test_validate_sqlite_accessibility() {
    let detector = DeviceDetector::new(ROOT.to_string());
    let volume = Volume { name: "KOBOeReader", has_kobo_dir: true, database_ok: true, version: None };
    let device = scan(&detector, &[volume]);
    assert!(device.is_some());
    assert!(device.unwrap().is_valid);
}

#[test]
fn test_device_without_sqlite() {
    let detector = DeviceDetector::new(ROOT.to_string());
    let volume = Volume { name: "KOBOeReader", has_kobo_dir: true, database_ok: false, version: None };
    let device = scan(&detector, &[volume]);
    assert!(device.is_some());
    let device = device.unwrap();
    assert!(!device.is_valid, "Device without SQLite file should be marked as invalid");
}

#[test]
fn test_read_serial_number() {
    let detector = DeviceDetector::new(ROOT.to_string());
    let device = scan(&detector, &[mock_kobo_device("KOBOeReader")]);
    assert!(device.is_some());
    assert_eq!(device.unwrap().serial_number, Some("SN12345678".to_string()));
}

#[test]
fn test_get_database_path() {
    let detector = DeviceDetector::new(ROOT.to_string());
    let device = scan(&detector, &[mock_kobo_device("KOBOeReader")]).unwrap();
    let db_path = detector.get_database_path(&device);
    assert_eq!(db_path, "/tmp/volumes/KOBOeReader/.kobo/KoboReader.sqlite");
}

#[test]
fn test_multiple_volumes() {
    let detector = DeviceDetector::new(ROOT.to_string());
    let volumes = [non_kobo_device("MyUSB"), mock_kobo_device("KOBOeReader"), non_kobo_device("AnotherDrive")];
    let device = scan(&detector, &volumes);
    assert!(device.is_some());
    assert_eq!(device.unwrap().name, "KOBOeReader");
}

#[test]
fn test_device_detector_finds_mock_device() {
    let detector = DeviceDetector::new(ROOT.to_string());
    let device = scan(&detector, &[mock_kobo_device("KOBOeReader")]);
    assert!(device.is_some());
    let device = device.unwrap();
    assert_eq!(device.name, "KOBOeReader");
    assert!(device.is_valid);
    assert_eq!(device.serial_number, Some("SN12345678".to_string()));
}

#[test]
fn test_device_detector_returns_none_when_no_device() {
    let detector = DeviceDetector::new(ROOT.to_string());
    let device = scan(&detector, &[non_kobo_device("RegularUSB")]);
    assert!(device.is_none());
}

#[test]
fn serial_and_volume_names() {
    assert_eq!(read_serial_number("  \n"), None);
    assert_eq!(read_serial_number(" N1 \r\n"), Some("N1".to_string()));
    assert_eq!(volume_name_exec("/"), "Unknown");
    assert_eq!(volume_name_exec("/Volumes/.."), "Unknown");
    assert_eq!(volume_name_exec("/Volumes/KOBO/"), "KOBO");
}

#[test]
fn monitor_announces_changes_only() {
    let a = device("/Volumes/A", Some("1"));
    let (last, ev) = monitor_step(None, Some(a.clone()));
    assert_eq!(last, Some(a.clone()));
    assert_eq!(ev, MonitorEvent::Detected(DeviceDetectedEvent { device: a.clone() }));
    let (last, ev) = monitor_step(last, Some(a.clone()));
    assert_eq!(last, Some(a.clone()));
    assert_eq!(ev, MonitorEvent::Unchanged);
    let b = device("/Volumes/A", Some("2"));
    let (last, ev) = monitor_step(last, Some(b.clone()));
    assert_eq!(last, Some(b.clone()));
    assert_eq!(ev, MonitorEvent::Detected(DeviceDetectedEvent { device: b }));
    let (last, ev) = monitor_step(last, None);
    assert_eq!(last, None);
    assert_eq!(ev, MonitorEvent::Disconnected(DeviceDisconnectedEvent));
    let (last, ev) = monitor_step(None, None);
    assert_eq!(last, None);
    assert_eq!(ev, MonitorEvent::Unchanged);
}
