use netshare::sink::{
    default_sink_monitor, loopback_args, modules_to_unload, null_sink_load_args, unload_module_args,
    NullSinkGuard,
};
use netshare::source::Source;

#[test]
fn stale_modules_are_found() {
    let listing = "536870913\tmodule-null-sink\tsink_name=netshare_sink sink_properties=device.description=NetShare\n536870914\tmodule-loopback\tsource=x sink=netshare_sink\n12\tmodule-alsa-card\tdevice_id=0\n13\tmodule-loopback\tsink=other\n14\tmodule-null-sink\tsink_name=other\n";
    assert_eq!(modules_to_unload(listing), vec!["536870913".to_string(), "536870914".to_string()]);
}

#[test]
fn module_arguments_keep_their_tabs() {
    let listing = "7\tmodule-loopback\tsource=a\tsink=netshare_sink\n";
    assert_eq!(modules_to_unload(listing), vec!["7".to_string()]);
}

#[test]
fn short_module_lines_are_kept() {
    assert!(modules_to_unload("1\n2\tmodule-null-sink\n\n").is_empty());
}

#[test]
fn guard_follows_load_result() {
    assert!(NullSinkGuard::new(true).is_some());
    assert!(NullSinkGuard::new(false).is_none());
}

#[test]
fn command_arguments() {
    assert_eq!(
        null_sink_load_args(),
        vec![
            "load-module",
            "module-null-sink",
            "sink_name=netshare_sink",
            "sink_properties=device.description=NetShare"
        ]
    );
    assert_eq!(unload_module_args("42"), vec!["unload-module", "42"]);
    let s = Source { name: "Firefox".to_string(), node_name: "52".to_string() };
    assert_eq!(
        loopback_args(&s),
        vec!["--capture-props", "target.object=52", "--playback-props", "target.object=netshare_sink"]
    );
}

#[test]
fn default_sink_monitor_from_info() {
    let info = "Server String: /run/user/1000/pulse/native\nDefault Sink:  alsa_output.pci.analog-stereo \nDefault Sink: second\n";
    assert_eq!(default_sink_monitor(Some(info)), "node.name=alsa_output.pci.analog-stereo.monitor");
}

#[test]
fn default_sink_monitor_fallback() {
    assert_eq!(default_sink_monitor(None), "media.class=Audio/Source/Virtual");
    assert_eq!(default_sink_monitor(Some("Default Source: x\n")), "media.class=Audio/Source/Virtual");
}
