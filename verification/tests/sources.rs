use netshare::source::{inputs_to_sources, load_audio_sources, sinks_to_sources, NameOrder, Source};

fn pairs(v: &[Source]) -> Vec<(String, String)> {
    v.iter().map(|s| (s.name.clone(), s.node_name.clone())).collect()
}

const SINKS: &str = "47\talsa_output.pci-0000_00_1f.3.analog-stereo\tPipeWire\ts32le 2ch 48000Hz\tSUSPENDED\n48\tnetshare_sink\tPipeWire\tfloat32le 2ch 48000Hz\tIDLE\n";

const INPUTS: &str = "Sink Input #52\n\tDriver: PipeWire\n\tProperties:\n\t\tmedia.name = \"Playback\"\n\t\tapplication.name = \"Firefox\"\nSink Input #60\n\tProperties:\n\t\tmedia.name = \"Song\"\nSink Input #61\n\tProperties:\n\t\tapplication.name = \"mpv\"\n";

#[test]
fn sinks_become_monitors_except_own() {
    let v = sinks_to_sources(SINKS);
    assert_eq!(
        pairs(&v),
        vec![(
            "Entire System".to_string(),
            "alsa_output.pci-0000_00_1f.3.analog-stereo.monitor".to_string()
        )]
    );
}

#[test]
fn sink_lines_with_one_word_are_skipped() {
    let v = sinks_to_sources("lonely\n\n   \n1 two three\r\n");
    assert_eq!(pairs(&v), vec![("Entire System".to_string(), "two.monitor".to_string())]);
}

#[test]
fn sink_inputs_take_application_name_over_media_name() {
    let v = inputs_to_sources(INPUTS);
    assert_eq!(
        pairs(&v),
        vec![
            ("Firefox".to_string(), "52".to_string()),
            ("Song".to_string(), "60".to_string()),
            ("mpv".to_string(), "61".to_string()),
        ]
    );
}

#[test]
fn sink_inputs_without_a_name_are_dropped() {
    let v = inputs_to_sources("Sink Input #70\n\tDriver: x\nSink Input #71\n\t\tapplication.name = \"A\"\n");
    assert_eq!(pairs(&v), vec![("A".to_string(), "71".to_string())]);
}

#[test]
fn media_name_does_not_replace_a_known_name() {
    let v = inputs_to_sources("Sink Input #3\napplication.name = \"App\"\nmedia.name = \"Media\"\n");
    assert_eq!(pairs(&v), vec![("App".to_string(), "3".to_string())]);
}

#[test]
fn unterminated_quote_takes_the_rest_of_the_line() {
    let v = inputs_to_sources("Sink Input #9\napplication.name = \"Open ended\n");
    assert_eq!(pairs(&v), vec![("Open ended".to_string(), "9".to_string())]);
}

#[test]
fn non_ascii_names_are_kept() {
    let v = inputs_to_sources("Sink Input #5\n  application.name = \"Lecteur à €\"  \n");
    assert_eq!(pairs(&v), vec![("Lecteur à €".to_string(), "5".to_string())]);
}

#[test]
fn whole_system_sources_come_first() {
    let v = load_audio_sources(Some(SINKS), Some(INPUTS));
    let p = pairs(&v);
    assert_eq!(p.len(), 4);
    assert_eq!(p[0].0, "Entire System");
    assert_eq!(p[1], ("Firefox".to_string(), "52".to_string()));
    assert_eq!(p[3], ("mpv".to_string(), "61".to_string()));
}

#[test]
fn missing_listings_give_nothing() {
    assert!(load_audio_sources(None, None).is_empty());
    assert_eq!(load_audio_sources(None, Some(INPUTS)).len(), 3);
    assert_eq!(load_audio_sources(Some(SINKS), None).len(), 1);
}

#[test]
fn source_label_and_clone() {
    let s = Source { name: "N".to_string(), node_name: "M".to_string() };
    let c = s.clone();
    assert_eq!(c.label(), "N");
    assert_eq!(c.node_name, "M");
}

#[test]
fn sources_order_by_name_alone() {
    let s = |n: &str, m: &str| Source { name: n.to_string(), node_name: m.to_string() };
    assert_eq!(s("a", "9").compare_names(&s("b", "1")), NameOrder::Less);
    assert_eq!(s("é", "1").compare_names(&s("z", "1")), NameOrder::Greater);
    assert_eq!(s("same", "1").compare_names(&s("same", "2")), NameOrder::Equal);
    assert_eq!(s("ab", "1").compare_names(&s("abc", "1")), NameOrder::Less);
    assert_eq!(s("abc", "1").compare_names(&s("ab", "1")), NameOrder::Greater);
    for (x, y) in [("Firefox", "mpv"), ("Entire System", "Entire System"), ("Zed", "alpha"), ("ü", "u")] {
        let want = match x.cmp(y) {
            std::cmp::Ordering::Less => NameOrder::Less,
            std::cmp::Ordering::Equal => NameOrder::Equal,
            std::cmp::Ordering::Greater => NameOrder::Greater,
        };
        assert_eq!(s(x, "").compare_names(&s(y, "")), want);
    }
}
