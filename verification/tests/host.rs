use netshare::device::{Device, DeviceEvent, EvKey};
use netshare::gamepad::{Gamepad, XButton};
use netshare::host::{Client, Host};

#[test]
fn controller_name_from_nickname() {
    assert_eq!(Client::<()>::device_name("Bob"), "Bob's Controller");
    assert_eq!(Client::<()>::device_name(""), "'s Controller");
}

#[test]
fn add_find_remove_first() {
    let mut h: Host<u32> = Host::new();
    h.add_client("a".to_string(), 1);
    h.add_client("b".to_string(), 2);
    h.add_client("a".to_string(), 3);
    assert_eq!(h.len(), 3);
    assert_eq!(h.find_client("a"), Some(0));
    assert_eq!(h.find_client("c"), None);
    assert_eq!(h.remove_client("a"), Some(1));
    assert_eq!(h.len(), 2);
    assert_eq!(h.client(0).get_id(), "b");
    assert_eq!(h.find_client("a"), Some(1));
    assert_eq!(*h.client(1).device(), 3);
    assert_eq!(h.remove_client("zzz"), None);
    assert_eq!(h.len(), 2);
}

#[test]
fn disconnect_undoes_connect() {
    let mut h: Host<u32> = Host::new();
    h.add_client("x".to_string(), 5);
    h.add_client("y".to_string(), 6);
    assert_eq!(h.remove_client("y"), Some(6));
    assert_eq!(h.len(), 1);
    assert_eq!(h.client(0).get_id(), "x");
}

#[test]
fn linux_host_routes_controls() {
    let mut h: Host<Device<u8>> = Host::new();
    h.add_client("p1".to_string(), Device::new(1));
    let out = h.set_controls("p1", &vec![("a".to_string(), 1)]);
    let (i, events) = out.unwrap();
    assert_eq!(i, 0);
    assert_eq!(events, vec![DeviceEvent::Key(EvKey::South, 1), DeviceEvent::Sync]);
    assert!(h.set_controls("p2", &vec![]).is_none());
    let c: &Client<Device<u8>> = h.client(0);
    assert_eq!(c.set(&vec![]), vec![DeviceEvent::Sync]);
}

#[test]
fn windows_host_updates_first_pad() {
    let mut h: Host<Gamepad<u8>> = Host::new();
    h.add_client("p".to_string(), Gamepad::new(1));
    h.add_client("p".to_string(), Gamepad::new(2));
    assert_eq!(h.set_controls("p", &vec![("y".to_string(), 1)]), Some(0));
    assert_eq!(h.client(0).device().report().pressed, vec![XButton::Y]);
    assert!(h.client(1).device().report().pressed.is_empty());
    assert_eq!(h.set_controls("q", &vec![("y".to_string(), 1)]), None);
    let c = h.client_mut(1);
    *c.device_mut().handle_mut() = 9;
    assert_eq!(*h.client_mut(1).device_mut().handle_mut(), 9);
}
