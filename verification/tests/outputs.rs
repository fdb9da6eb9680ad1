use gbm_platform::card::{card_path, find_connector, find_mode, get_resources, select_output};
use gbm_platform::card::{EncoderInfo, Output, ResourceError, Resources};
use gbm_platform::dpi::{PhysicalPosition, PhysicalSize};
use gbm_platform::monitor::{available_monitors, primary_monitor, ConnectionState};
use gbm_platform::monitor::{ConnectorInfo, Mode, MonitorHandle};

fn mode(width: u16, height: u16, vrefresh: u32) -> Mode {
    Mode { size: (width, height), vrefresh }
}

fn connector(handle: u32, state: ConnectionState, size: (u32, u32)) -> Option<ConnectorInfo> {
    Some(ConnectorInfo {
        handle,
        state,
        size,
        modes: vec![mode(640, 480, 60), mode(1920, 1080, 50)],
        current_encoder: Some(77),
    })
}

fn mixed() -> Vec<Option<ConnectorInfo>> {
    vec![
        None,
        connector(1, ConnectionState::Disconnected, (300, 200)),
        connector(2, ConnectionState::Unknown, (300, 200)),
        connector(3, ConnectionState::Connected, (0, 200)),
        connector(4, ConnectionState::Connected, (300, 0)),
        connector(5, ConnectionState::Connected, (300, 200)),
        connector(6, ConnectionState::Connected, (1, 1)),
    ]
}

#[test]
fn only_plugged_in_displays_are_monitors() {
    let handles: Vec<u32> = available_monitors(&mixed()).iter().map(|m| m.handle).collect();
    assert_eq!(handles, vec![5, 6]);
    assert_eq!(primary_monitor(&mixed()).unwrap().handle, 5);
    assert!(primary_monitor(&vec![]).is_none());
    assert_eq!(available_monitors(&vec![None]).len(), 0);
}

#[test]
fn the_largest_area_that_fits() {
    let wide = vec![connector(1, ConnectionState::Connected, (65537, 65535))];
    assert_eq!(available_monitors(&wide).len(), 1);
}

#[test]
fn the_first_usable_connector() {
    assert_eq!(find_connector(&mixed()), Some(5));
    assert_eq!(find_connector(&vec![None]), None);
}

#[test]
fn the_best_mode() {
    assert_eq!(find_mode(&vec![]), None);
    let modes = vec![mode(640, 480, 120), mode(1920, 1080, 50), mode(1920, 1080, 60)];
    assert_eq!(find_mode(&modes), Some(2));
    let tied = vec![mode(1, 1, 1), mode(1080, 1920, 60), mode(1920, 1080, 60)];
    assert_eq!(find_mode(&tied), Some(1));
    let huge = vec![mode(65535, 65534, 90), mode(65535, 65535, 1)];
    assert_eq!(find_mode(&huge), Some(1));
}

#[test]
fn the_best_mode_is_first_when_sorted() {
    let modes = vec![mode(2, 2, 1), mode(4, 1, 9), mode(1, 4, 9), mode(1, 1, 99)];
    let mut order: Vec<usize> = vec![0, 1, 2, 3];
    order.sort_by(|&a, &b| {
        let rank = |m: Mode| (m.size.0 as u32 * m.size.1 as u32, m.vrefresh);
        rank(modes[b]).cmp(&rank(modes[a]))
    });
    assert_eq!(find_mode(&modes), Some(order[0]));
    assert_eq!(order[0], 1);
}

#[test]
fn the_output_of_a_card() {
    let expected = Output {
        connector_index: 5,
        connector: 5,
        mode_index: 1,
        mode: mode(1920, 1080, 50),
        encoder: 77,
    };
    let output = select_output(&mixed());
    assert_eq!(output, Ok(expected));
    assert_eq!(primary_monitor(&mixed()).unwrap().handle, expected.connector);
    let encoder = EncoderInfo { handle: 77, current_crtc: Some(88) };
    let resources = Resources {
        connector: 5,
        mode: mode(1920, 1080, 50),
        encoder: 77,
        crtc: 88,
    };
    assert_eq!(get_resources(expected, encoder), Ok(resources));
}

#[test]
fn what_a_card_can_lack() {
    let none = vec![None, connector(1, ConnectionState::Unknown, (1, 1))];
    assert_eq!(select_output(&none), Err(ResourceError::NoConnector));
    let mut bare = connector(1, ConnectionState::Connected, (1, 1));
    bare.as_mut().unwrap().modes.clear();
    assert_eq!(select_output(&vec![bare]), Err(ResourceError::NoMode));
    let mut loose = connector(1, ConnectionState::Connected, (1, 1));
    loose.as_mut().unwrap().current_encoder = None;
    assert_eq!(select_output(&vec![loose]), Err(ResourceError::NoEncoder));
    let output = select_output(&mixed()).unwrap();
    let encoder = EncoderInfo { handle: 77, current_crtc: None };
    assert_eq!(get_resources(output, encoder), Err(ResourceError::NoCrtc));
}

#[test]
fn what_is_known_of_a_monitor() {
    let monitor = MonitorHandle { handle: 31 };
    let name = monitor.name("HDMIA", "Connected");
    assert_eq!(name, Some("DRM (HDMIA, Connected)".to_string()));
    assert_eq!(monitor.native_identifier(), 31);
    let size = PhysicalSize { width: 65535, height: 1 };
    assert_eq!(monitor.size(mode(65535, 1, 60)), size);
    assert_eq!(monitor.position(), PhysicalPosition { x: 0, y: 0 });
    assert_eq!(monitor.hidpi_factor(), 1);
    assert!(monitor.video_modes().is_empty());
}

#[test]
fn what_is_printed_of_a_monitor() {
    let monitor = MonitorHandle { handle: 31 };
    let description = monitor.describe("DVII", "Unknown", mode(1920, 1080, 60));
    assert_eq!(description.name, Some("DRM (DVII, Unknown)".to_string()));
    assert_eq!(description.native_identifier, 31);
    assert_eq!(description.size, PhysicalSize { width: 1920, height: 1080 });
    assert_eq!(description.position, PhysicalPosition { x: 0, y: 0 });
    assert_eq!(description.hidpi_factor, 1);
}

#[test]
fn where_the_card_is() {
    assert_eq!(card_path(None), "/dev/dri/card0");
    assert_eq!(card_path(Some("/dev/dri/card1".to_string())), "/dev/dri/card1");
}
