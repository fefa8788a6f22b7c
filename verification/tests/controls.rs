use netshare::device::{Device, DeviceEvent, EvAxis, EvKey, Scale};
use netshare::gamepad::{Gamepad, XAxis, XButton};

fn readings(v: &[(&str, i32)]) -> Vec<(String, i32)> {
    v.iter().map(|(n, x)| (n.to_string(), *x)).collect()
}

#[test]
fn linux_key_and_axis_names() {
    let d = Device::new(());
    assert_eq!(d.string_to_key("a"), Some(EvKey::South));
    assert_eq!(d.string_to_key("b"), Some(EvKey::Right));
    assert_eq!(d.string_to_key("minus"), Some(EvKey::Select));
    assert_eq!(d.string_to_key("right"), Some(EvKey::DpadRight));
    assert_eq!(d.string_to_key("A"), None);
    assert_eq!(d.string_to_axis("left_x"), Some(EvAxis::X));
    assert_eq!(d.string_to_axis("right_trigger"), Some(EvAxis::Rz));
    assert_eq!(d.string_to_axis("a"), None);
}

#[test]
fn scales_by_name() {
    assert_eq!(Device::<()>::control_scale("plus"), Some(Scale::Unit));
    assert_eq!(Device::<()>::control_scale("left_trigger"), Some(Scale::Trigger));
    assert_eq!(Device::<()>::control_scale("right_y"), Some(Scale::Stick));
    assert_eq!(Device::<()>::control_scale("trigger"), None);
    assert_eq!(Gamepad::<()>::control_scale("right_trigger"), Some(Scale::Trigger));
    assert_eq!(Gamepad::<()>::control_scale("left_x"), Some(Scale::Stick));
    assert_eq!(Gamepad::<()>::control_scale("l3"), Some(Scale::Unit));
}

#[test]
fn linux_events_in_order_then_sync() {
    let d = Device::new(());
    let ev = d.set_controls(&readings(&[("a", 1), ("left_trigger", 255), ("zz", 5), ("left_x", -32767)]));
    assert_eq!(
        ev,
        vec![
            DeviceEvent::Key(EvKey::South, 1),
            DeviceEvent::Abs(EvAxis::Z, 255),
            DeviceEvent::Abs(EvAxis::X, -32767),
            DeviceEvent::Sync
        ]
    );
    assert_eq!(d.set_controls(&Vec::new()), vec![DeviceEvent::Sync]);
}

#[test]
fn device_handle_is_kept() {
    let mut d = Device::new(7u32);
    *d.handle_mut() += 1;
    assert_eq!(*d.handle_mut(), 8);
}

#[test]
fn windows_names() {
    let g = Gamepad::new(());
    assert_eq!(g.string_to_key("b"), Some(XButton::B));
    assert_eq!(g.string_to_key("minus"), Some(XButton::Back));
    assert_eq!(g.string_to_axis("left_y"), Some(XAxis::LeftThumbY));
    assert_eq!(g.string_to_axis("x"), None);
}

#[test]
fn pad_report_mirrors_x_and_cuts_triggers() {
    let mut g = Gamepad::new(());
    g.set_controls(&readings(&[("a", 1), ("b", 0), ("left_x", 100), ("left_y", -5), ("left_trigger", 300), ("right_trigger", 255)]));
    let r = g.report();
    assert_eq!(r.thumb_lx, -100);
    assert_eq!(r.thumb_ly, -5);
    assert_eq!(r.thumb_rx, 0);
    assert_eq!(r.left_trigger, 44);
    assert_eq!(r.right_trigger, 255);
    assert_eq!(r.pressed, vec![XButton::A]);
    assert_eq!(g.axis(XAxis::LeftThumbX), 100);
}

#[test]
fn pad_keeps_values_between_batches() {
    let mut g = Gamepad::new(());
    g.set_controls(&readings(&[("up", 1), ("r1", 3)]));
    g.set_controls(&readings(&[("up", 0), ("right_x", -7)]));
    let r = g.report();
    assert_eq!(r.pressed, vec![XButton::Rb]);
    assert_eq!(r.thumb_rx, 7);
}

#[test]
fn pad_batches_compose() {
    let mut a = Gamepad::new(());
    a.set_controls(&readings(&[("x", 2), ("left_x", 9)]));
    a.set_controls(&readings(&[("x", 0), ("y", 1)]));
    let mut b = Gamepad::new(());
    b.set_controls(&readings(&[("x", 2), ("left_x", 9), ("x", 0), ("y", 1)]));
    let (ra, rb) = (a.report(), b.report());
    assert_eq!(ra.pressed, rb.pressed);
    assert_eq!(ra.thumb_lx, rb.thumb_lx);
    assert_eq!(ra.pressed, vec![XButton::Y]);
}

#[test]
fn pad_ignores_unknown_names() {
    let mut g = Gamepad::new(());
    g.set_controls(&readings(&[("nope", 1), ("LEFT_X", 5)]));
    let r = g.report();
    assert!(r.pressed.is_empty());
    assert_eq!(r.thumb_lx, 0);
}
