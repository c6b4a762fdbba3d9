use lvast::base::connections::{Connection, ConnectionParams};
use lvast::base::errors::{VastErrorType, VastResult};
use lvast::drivers::fake_camera::{
    apply_camera_settings, check_fake_camera_id, effective_dimensions, fake_camera_limits,
    frame_bytes_len, initial_fake_settings, roi_fits, FakeCameraDefectProfile, FakeCameraDriver,
    FakeCameraSensorPreset, FakeCameraSkyFieldPreset,
};
use lvast::drivers::fake_focuser::{decide_move, FakeFocuser};
use lvast::types::camera::{CameraFrameFormat, VastCameraDriver, VastCameraID, VastCameraSettings};
use lvast::types::common::TemperatureUnit;

struct MockConnection {
    connected: bool,
}

impl Connection for MockConnection {
    fn new(_params: &ConnectionParams) -> VastResult<Self> {
        Ok(Self { connected: true })
    }

    fn send(&mut self, _command: &str) -> VastResult<()> {
        Ok(())
    }

    fn receive(&mut self) -> VastResult<String> {
        Ok(String::new())
    }

    fn disconnect(&mut self) {
        self.connected = false;
    }

    fn is_connected(&mut self) -> bool {
        self.connected
    }
}

#[test]
fn fake_focuser_moves_and_reports_temperature_units() {
    let mut focuser = FakeFocuser::new();
    focuser.connect_inner(MockConnection { connected: true }).unwrap();
    focuser.move_to_inner(42_000).unwrap();
    focuser.set_temperature_unit_inner(TemperatureUnit::Kelvin).unwrap();

    assert_eq!(focuser.current_position_inner().unwrap(), 42_000);
    assert_eq!(focuser.current_temperature_unit_inner(), TemperatureUnit::Kelvin);
    assert!(focuser.temperature_supported_inner());
}

#[test]
fn fake_focuser_rejects_out_of_range_position() {
    let mut focuser = FakeFocuser::new();
    focuser.connect_inner(MockConnection { connected: true }).unwrap();

    assert!(focuser.move_to_inner(200_001).is_err());
    assert_eq!(focuser.current_position_inner().unwrap(), 10_000);
}

#[test]
fn fake_focuser_requires_an_open_connection() {
    let mut focuser: FakeFocuser<MockConnection> = FakeFocuser::new();
    assert!(focuser.current_position_inner().is_err());
    focuser.connect_inner(MockConnection { connected: false }).unwrap();
    let err = focuser.move_to_inner(5).unwrap_err();
    assert_eq!(err.error_type, VastErrorType::ConnectionError);
    focuser.disconnect_inner().unwrap();
    assert!(!focuser.is_attached());
}

#[test]
fn fake_camera_settings_apply_field_by_field() {
    let limits = fake_camera_limits(4144, 2822);
    let mut current = initial_fake_settings();
    let request = VastCameraSettings {
        exposure_microseconds: Some(2_000_000),
        gain: Some(120),
        binning: Some((2, 2)),
        roi: Some((0, 0, 100, 50)),
        ..VastCameraSettings::default()
    };
    apply_camera_settings(&mut current, &limits, request).unwrap();
    assert_eq!(current.exposure_microseconds, Some(2_000_000));
    assert_eq!(current.gain, Some(120));
    assert_eq!(current.offset, Some(512));
    assert_eq!(effective_dimensions(&current, 4144, 2822), (100, 50, 2));

    let bad = VastCameraSettings {
        exposure_microseconds: Some(5_000),
        gain: Some(501),
        offset: Some(7),
        ..VastCameraSettings::default()
    };
    let err = apply_camera_settings(&mut current, &limits, bad).unwrap_err();
    assert_eq!(err.error_type, VastErrorType::InvalidInput);
    assert_eq!(current.exposure_microseconds, Some(5_000));
    assert_eq!(current.gain, Some(120));
    assert_eq!(current.offset, Some(512));
}

#[test]
fn fake_camera_rejects_invalid_binning_and_roi() {
    let limits = fake_camera_limits(4144, 2822);
    let mut current = initial_fake_settings();
    let odd = VastCameraSettings { binning: Some((3, 3)), ..VastCameraSettings::default() };
    assert!(apply_camera_settings(&mut current, &limits, odd).is_err());
    let skew = VastCameraSettings { binning: Some((2, 1)), ..VastCameraSettings::default() };
    assert!(apply_camera_settings(&mut current, &limits, skew).is_err());
    let roi = VastCameraSettings { roi: Some((4100, 0, 100, 10)), ..VastCameraSettings::default() };
    assert!(apply_camera_settings(&mut current, &limits, roi).is_err());
    assert!(!roi_fits((u32::MAX, 0, 2, 1), 4144, 2822));
    assert_eq!(effective_dimensions(&current, 4144, 2822), (4144, 2822, 1));
}

#[test]
fn fake_camera_presets_and_ids() {
    assert_eq!(FakeCameraSensorPreset::Asi294Mc.resolution(), (4144, 2822));
    assert_eq!(FakeCameraSensorPreset::Asi294Mc.label(), "ASI294MC 4144x2822 4.63um");
    assert_eq!(FakeCameraDefectProfile::Moderate.label(), "Moderate hot/cold pixels");
    assert!(FakeCameraSkyFieldPreset::NoStars.is_dark_mode());
    assert!(FakeCameraSkyFieldPreset::FlatField.is_flat_mode());
    assert!(!FakeCameraSkyFieldPreset::Polaris.is_flat_mode());
    assert!(check_fake_camera_id(&VastCameraID::StrID("fake-camera-0".to_string())).is_ok());
    assert!(check_fake_camera_id(&VastCameraID::IntID(0)).is_ok());
    assert!(check_fake_camera_id(&VastCameraID::IntID(1)).is_err());
    assert_eq!(frame_bytes_len(4, 3, CameraFrameFormat::RGB32), 48);
}

#[test]
fn fake_camera_driver_lists_its_single_camera() {
    let mut driver = FakeCameraDriver::new();
    let cameras = driver.init().unwrap();
    assert_eq!(cameras.len(), 1);
    assert_eq!(cameras[0].id, VastCameraID::StrID("fake-camera-0".to_string()));
    assert_eq!(cameras[0].name, "Fake Native Camera");
    assert_eq!(cameras[0].serial_number, "FAKE0001");
    assert_eq!(driver.id(), "FAKE_NATIVE_CAMERA_DRIVER");
    assert_eq!(driver.get_manufacturer(), "OpenCode");
    assert_eq!(driver.get_version(), "0.2");
}

#[test]
fn fake_focuser_move_decision_follows_connection_and_range() {
    assert_eq!(decide_move(true, 42_000).unwrap(), 42_000);
    assert_eq!(decide_move(true, 200_000).unwrap(), 200_000);
    assert_eq!(decide_move(true, 200_001).unwrap_err().error_type, VastErrorType::InvalidInput);
    assert_eq!(decide_move(false, 5).unwrap_err().error_type, VastErrorType::ConnectionError);
    assert_eq!(decide_move(false, 300_000).unwrap_err().error_type, VastErrorType::ConnectionError);
}
