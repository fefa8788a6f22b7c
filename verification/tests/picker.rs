use netshare::picker::{Picker, PickerAction, PickerEvent};
use netshare::source::Source;

fn src(n: &str, m: &str) -> Source {
    Source { name: n.to_string(), node_name: m.to_string() }
}

#[test]
fn picker_flow_selects_first_then_submits() {
    let mut p = Picker::new();
    assert!(matches!(p.update(PickerEvent::OpenPicker), PickerAction::OpenWindow));
    assert!(matches!(p.update(PickerEvent::WindowOpened), PickerAction::LoadSources));
    assert!(matches!(p.update(PickerEvent::SourcesLoaded(vec![src("A", "1"), src("B", "2")])), PickerAction::Nothing));
    assert_eq!(p.sources().len(), 2);
    assert_eq!(p.selected().as_ref().unwrap().name, "A");
    match p.update(PickerEvent::Submit) {
        PickerAction::Finish(Some(s)) => assert_eq!(s.node_name, "1"),
        _ => panic!("the selection is handed over"),
    }
}

#[test]
fn picker_change_selection() {
    let mut p = Picker::new();
    p.update(PickerEvent::SourcesLoaded(vec![src("A", "1")]));
    p.update(PickerEvent::SelectionChanged(src("B", "2")));
    match p.update(PickerEvent::Submit) {
        PickerAction::Finish(Some(s)) => assert_eq!(s.name, "B"),
        _ => panic!("the changed selection is handed over"),
    }
}

#[test]
fn picker_cancel_without_sources() {
    let mut p = Picker::new();
    p.update(PickerEvent::SourcesLoaded(vec![]));
    assert!(p.selected().is_none());
    assert!(matches!(p.update(PickerEvent::Submit), PickerAction::Finish(None)));
}
