use editor_core::colors::ColorConfig;
use editor_core::strutil::usize_to_string;
use editor_core::window::Window;
use editor_core::buffer::{Buffer, PathContent};

#[test]
fn decimal_rendering() {
    assert_eq!(usize_to_string(0), "0");
    assert_eq!(usize_to_string(7), "7");
    assert_eq!(usize_to_string(10), "10");
    assert_eq!(usize_to_string(90217), "90217");
}

#[test]
fn color_config_toggles() {
    let mut c = ColorConfig::new();
    assert!(c.active);
    assert_eq!(c.foreground, (255, 255, 255));
    c.disable_style();
    assert!(!c.active);
    c.enable_style();
    assert!(c.active);
    c.toggle_style();
    assert!(!c.active);
    c.toggle_style();
    assert!(c.active);
}

#[test]
fn windows_hold_buffers() {
    let mut w = Window::new();
    assert_eq!(w.buffers.len(), 0);
    let mut b = Buffer::new((5, 5));
    b.open_with(&String::from("a.txt"), PathContent::FileText(String::from("a\n")));
    w.add_buffer(b);
    assert_eq!(w.buffers.len(), 1);
    w.resize((30, 12));
    assert_eq!(w.size, (30, 12));
    assert_eq!(w.buffers[0].size, (30, 12));
    w.remove_buffer();
    assert_eq!(w.buffers.len(), 1);
}
