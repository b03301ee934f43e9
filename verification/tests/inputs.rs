use arena::config::Settings;
use arena::game::PlayerId;
use arena::input::{dead_zone, DeviceMap, DirKey, KeyAxes};
use arena::session::GraphicsStatus;

#[test]
fn dead_zone_snaps_small_deflections() {
    assert_eq!(dead_zone(0), 0);
    assert_eq!(dead_zone(99), 0);
    assert_eq!(dead_zone(-99), 0);
    assert_eq!(dead_zone(100), 100);
    assert_eq!(dead_zone(-100), -100);
    assert_eq!(dead_zone(-250), -250);
    assert_eq!(dead_zone(1000), 1000);
}

#[test]
fn key_axes_combine_opposing_keys() {
    let mut k = KeyAxes::new();
    assert_eq!(k.axis_x(), 0);
    assert_eq!(k.axis_y(), 0);
    k.set(DirKey::Right, true);
    assert_eq!(k.axis_x(), 1000);
    k.set(DirKey::Left, true);
    assert_eq!(k.axis_x(), 0);
    k.set(DirKey::Right, false);
    assert_eq!(k.axis_x(), -1000);
    k.set(DirKey::Up, true);
    k.set(DirKey::Down, false);
    assert_eq!(k.axis_y(), 1000);
    k.set(DirKey::Down, true);
    assert_eq!(k.axis_y(), 0);
}

#[test]
fn device_map_binds_sources_once() {
    let mut m = DeviceMap::new();
    assert!(m.lookup(42).is_none());
    m.insert(42, PlayerId(0));
    m.insert(7, PlayerId(1));
    assert_eq!(m.lookup(42).map(|p| p.0), Some(0));
    assert_eq!(m.lookup(7).map(|p| p.0), Some(1));
    assert!(m.lookup(8).is_none());
}

#[test]
fn graphics_status_ready_path() {
    let mut s: GraphicsStatus<u32> = GraphicsStatus::new();
    assert!(!s.may_render());
    assert!(!s.must_exit());
    s.deliver(Some(7));
    assert!(s.may_render());
    assert!(!s.must_exit());
}

#[test]
fn graphics_status_failure_is_terminal() {
    let mut s: GraphicsStatus<u32> = GraphicsStatus::new();
    s.deliver(None);
    assert!(!s.may_render());
    assert!(s.must_exit());
}

#[test]
fn settings_default_is_windowed() {
    assert!(!Settings::default().fullscreen);
}
