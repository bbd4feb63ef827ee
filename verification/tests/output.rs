use drm::control::connector::Interface;
use projectwc::backend::connector::{ConnectorInfo, ModeInfo};
use projectwc::backend::output::{join_name, OutputMode, OutputRecord, Rectangle};

fn record(interface: u32, interface_id: u32) -> OutputRecord {
    OutputRecord {
        interface,
        interface_id,
        physical_size: (0, 0),
        mode: OutputMode { width: 1920, height: 1080, refresh: 60_000 },
    }
}

#[test]
fn output_name_joins_interface_and_number() {
    assert_eq!(record(u32::from(Interface::HDMIA), 1).name(), "HDMI-A-1");
    assert_eq!(record(u32::from(Interface::DisplayPort), 12).name(), "DP-12");
    assert_eq!(record(u32::from(Interface::EmbeddedDisplayPort), 0).name(), "eDP-0");
    assert_eq!(record(u32::from(Interface::VGA), 4294967295).name(), "VGA-4294967295");
}

#[test]
fn output_name_of_an_unknown_interface() {
    assert_eq!(record(0, 3).name(), "Unknown-3");
    assert_eq!(record(9999, 3).name(), "Unknown-3");
}

#[test]
fn output_model_is_the_interface_variant() {
    assert_eq!(record(u32::from(Interface::HDMIA), 1).model(), "HDMIA");
    assert_eq!(record(u32::from(Interface::DisplayPort), 1).model(), "DisplayPort");
    assert_eq!(record(9999, 1).model(), "Unknown");
}

#[test]
fn output_make_and_serial_are_fixed() {
    assert_eq!(record(1, 1).make(), "projectwc");
    assert_eq!(record(1, 1).serial_number(), "Unknown");
}

#[test]
fn joined_name_writes_the_number_in_decimal() {
    assert_eq!(join_name("X", 0), "X-0");
    assert_eq!(join_name("X", 7), "X-7");
    assert_eq!(join_name("X", 10), "X-10");
    assert_eq!(join_name("X", 1009), "X-1009");
    assert_eq!(join_name("", 65535), "-65535");
}

#[test]
fn output_mode_has_the_refresh_rate_in_millihertz() {
    let m = ModeInfo { width: 2560, height: 1440, vrefresh: 144, preferred: true };
    assert_eq!(
        OutputMode::from_mode(m),
        OutputMode { width: 2560, height: 1440, refresh: 144_000 }
    );
    let big = ModeInfo { width: 65535, height: 65535, vrefresh: u32::MAX, preferred: false };
    assert_eq!(
        OutputMode::from_mode(big),
        OutputMode { width: 65535, height: 65535, refresh: 4_294_967_295_000 }
    );
}

#[test]
fn output_bounds_cover_the_whole_output() {
    let m = OutputMode { width: 1920, height: 1080, refresh: 60_000 };
    assert_eq!(m.bounds(), Rectangle { x: 0, y: 0, width: 1920, height: 1080 });
}

#[test]
fn output_record_takes_size_from_the_connector() {
    let m = ModeInfo { width: 1920, height: 1080, vrefresh: 60, preferred: true };
    let mut c = ConnectorInfo {
        handle: 9,
        connected: true,
        interface: 14,
        interface_id: 2,
        size: Some((340, 190)),
        modes: vec![m],
        current_encoder: None,
        encoders: Vec::new(),
    };
    let o = OutputRecord::for_connector(&c, m);
    assert_eq!(o.interface, 14);
    assert_eq!(o.interface_id, 2);
    assert_eq!(o.physical_size, (340, 190));
    assert_eq!(o.mode, OutputMode { width: 1920, height: 1080, refresh: 60_000 });
    c.size = None;
    assert_eq!(OutputRecord::for_connector(&c, m).physical_size, (0, 0));
}
