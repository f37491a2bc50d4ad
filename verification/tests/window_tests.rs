use ice_spar::config::WindowConfig;
use ice_spar::window::{surface_extent, PhysicalSize, WindowHandle};

#[test]
fn default_window_title() {
    let c = WindowConfig::default();
    assert_eq!(c.title, "IceSpar");
}

#[test]
fn same_size_is_no_resize() {
    let mut h = WindowHandle { is_need_resize: false, current_size: PhysicalSize::new(640, 480) };
    h.set_window_resized(PhysicalSize::new(640, 480));
    assert!(!h.is_need_resize);
    assert_eq!(h.resize_window(), None);
}

#[test]
fn new_size_is_resized_once() {
    let mut h = WindowHandle { is_need_resize: false, current_size: PhysicalSize::new(640, 480) };
    h.set_window_resized(PhysicalSize::new(1024, 768));
    assert!(h.is_need_resize);
    assert_eq!(h.current_size, PhysicalSize::new(1024, 768));
    assert_eq!(h.resize_window(), Some(PhysicalSize::new(1024, 768)));
    assert!(!h.is_need_resize);
    assert_eq!(h.resize_window(), None);
    assert_eq!(h.current_size, PhysicalSize::new(1024, 768));
}

#[test]
fn surface_extent_never_zero() {
    assert_eq!(surface_extent(PhysicalSize::new(0, 0)), PhysicalSize::new(1, 1));
    assert_eq!(surface_extent(PhysicalSize::new(0, 300)), PhysicalSize::new(1, 300));
    assert_eq!(surface_extent(PhysicalSize::new(1920, 1080)), PhysicalSize::new(1920, 1080));
}
