use zenohui::cli::SessionInfo;
use zenohui::footer::{Footer, FooterState, VERSION_TEXT};
use zenohui::history::{history_entry, EventKind, ZenohHistory};
use zenohui::interactive::{clean_below, clean_plan, clean_requests, transition, CleanRequest, Effect, ElementInFocus, Input, Selection};

fn selection(path: Option<&str>, can_payload: bool, can_history: bool) -> Selection {
    Selection { path: path.map(|p| p.to_owned()), can_payload, can_history }
}

#[test]
fn confirm_deletes_each_resolved_topic_once() {
    let mut h = ZenohHistory::new();
    h.add("room/temp".to_owned(), history_entry(EventKind::Write, b"1".to_vec(), 10));
    h.add("room/humidity".to_owned(), history_entry(EventKind::Write, b"2".to_vec(), 10));
    h.add("roomba".to_owned(), history_entry(EventKind::Write, b"3".to_vec(), 10));
    let (focus, effect) = transition(ElementInFocus::CleanPopup("room".to_owned()), Input::Confirm, &selection(Some("other"), false, false));
    assert!(matches!(focus, ElementInFocus::TopicOverview));
    let path = match effect {
        Effect::CleanBelow(p) => p,
        _ => panic!("no deletion requested"),
    };
    assert_eq!(path, "room");
    let requests = clean_below(&h, &path);
    assert_eq!(requests.len(), 4);
    assert!(matches!(&requests[0], CleanRequest::PutEmpty(t) if t == "room/temp"));
    assert!(matches!(&requests[1], CleanRequest::Delete(t) if t == "room/temp"));
    assert!(matches!(&requests[2], CleanRequest::PutEmpty(t) if t == "room/humidity"));
    assert!(matches!(&requests[3], CleanRequest::Delete(t) if t == "room/humidity"));
}

#[test]
fn any_other_input_aborts_clean() {
    let (focus, effect) = transition(ElementInFocus::CleanPopup("room".to_owned()), Input::Other, &selection(None, false, false));
    assert!(matches!(focus, ElementInFocus::TopicOverview));
    assert!(matches!(effect, Effect::Nothing));
}

#[test]
fn request_delete_opens_popup_for_selection() {
    let (focus, effect) = transition(ElementInFocus::TopicOverview, Input::RequestDelete, &selection(Some("room"), false, false));
    assert!(matches!(focus, ElementInFocus::CleanPopup(ref p) if p == "room"));
    assert!(matches!(effect, Effect::Nothing));
    let (focus, _) = transition(ElementInFocus::TopicOverview, Input::RequestDelete, &selection(None, false, false));
    assert!(matches!(focus, ElementInFocus::TopicOverview));
}

#[test]
fn switch_cycles_through_available_views() {
    let s = selection(Some("t"), true, true);
    let (f, _) = transition(ElementInFocus::TopicOverview, Input::Switch, &s);
    assert!(matches!(f, ElementInFocus::Payload));
    let (f, _) = transition(f, Input::Switch, &s);
    assert!(matches!(f, ElementInFocus::HistoryTable));
    let (f, _) = transition(f, Input::Switch, &s);
    assert!(matches!(f, ElementInFocus::TopicOverview));
    let only_history = selection(Some("t"), false, true);
    let (f, _) = transition(ElementInFocus::TopicOverview, Input::Switch, &only_history);
    assert!(matches!(f, ElementInFocus::HistoryTable));
    let nothing = selection(Some("t"), false, false);
    let (f, _) = transition(ElementInFocus::TopicOverview, Input::Switch, &nothing);
    assert!(matches!(f, ElementInFocus::TopicOverview));
    let (f, _) = transition(ElementInFocus::Payload, Input::Switch, &selection(Some("t"), true, false));
    assert!(matches!(f, ElementInFocus::TopicOverview));
}

#[test]
fn search_mode_transitions() {
    let s = selection(None, false, false);
    let (f, e) = transition(ElementInFocus::TopicOverview, Input::StartSearch, &s);
    assert!(matches!(f, ElementInFocus::TopicSearch) && matches!(e, Effect::Nothing));
    let (f, e) = transition(f, Input::EditQuery, &s);
    assert!(matches!(f, ElementInFocus::TopicSearch) && matches!(e, Effect::Refilter));
    let (f, e) = transition(f, Input::FinishSearch, &s);
    assert!(matches!(f, ElementInFocus::TopicOverview) && matches!(e, Effect::CommitSearch));
    let (f, e) = transition(ElementInFocus::TopicSearch, Input::CancelSearch, &s);
    assert!(matches!(f, ElementInFocus::TopicOverview) && matches!(e, Effect::ClearSearch));
}

#[test]
fn overview_tree_effects_and_quit() {
    let s = selection(Some("a"), false, false);
    let (_, e) = transition(ElementInFocus::TopicOverview, Input::Toggle, &s);
    assert!(matches!(e, Effect::ToggleSelected));
    let (_, e) = transition(ElementInFocus::TopicOverview, Input::Toggle, &selection(None, false, false));
    assert!(matches!(e, Effect::Nothing));
    let (_, e) = transition(ElementInFocus::TopicOverview, Input::OpenAll, &s);
    assert!(matches!(e, Effect::ExpandAll));
    let (_, e) = transition(ElementInFocus::TopicOverview, Input::CloseAll, &s);
    assert!(matches!(e, Effect::CollapseAll));
    let (f, e) = transition(ElementInFocus::HistoryTable, Input::Quit, &s);
    assert!(matches!(f, ElementInFocus::HistoryTable) && matches!(e, Effect::Quit));
}

#[test]
fn clean_requests_pair_per_topic() {
    let r = clean_requests(&vec!["a".to_owned()]);
    assert_eq!(r.len(), 2);
    assert!(matches!(&r[0], CleanRequest::PutEmpty(t) if t == "a"));
    assert!(matches!(&r[1], CleanRequest::Delete(t) if t == "a"));
    assert!(clean_requests(&Vec::new()).is_empty());
}

#[test]
fn clean_plan_wildcard_deletes_only() {
    let r = clean_plan("foo/**");
    assert_eq!(r.len(), 1);
    assert!(matches!(&r[0], CleanRequest::Delete(t) if t == "foo/**"));
    let r = clean_plan("foo/bar");
    assert_eq!(r.len(), 2);
    assert!(matches!(&r[0], CleanRequest::PutEmpty(t) if t == "foo/bar"));
    assert!(matches!(&r[1], CleanRequest::Delete(t) if t == "foo/bar"));
}

#[test]
fn footer_texts_and_fit() {
    let f = Footer::new(&SessionInfo { description: "mode=client peer=tcp/10.0.0.1:7447".to_owned() });
    assert_eq!(f.info_text(100), Some(format!("{VERSION_TEXT}@ mode=client peer=tcp/10.0.0.1:7447 ")));
    assert_eq!(f.info_text(52), Some(" mode=client peer=tcp/10.0.0.1:7447 ".to_owned()));
    assert_eq!(f.info_text(37), Some(" mode=client peer=tcp/10.0.0.1:7447 ".to_owned()));
    assert_eq!(f.info_text(36), Some(VERSION_TEXT.to_owned()));
    assert_eq!(f.info_text(16), Some(VERSION_TEXT.to_owned()));
    assert_eq!(f.info_text(15), None);
    assert_eq!(f.info_text(0), None);
}

#[test]
fn footer_hints_per_focus() {
    let s = FooterState { any_opened: true, has_selection: true, can_payload: false, can_history: true };
    assert_eq!(
        Footer::hints(&ElementInFocus::TopicOverview, &s),
        vec![("q", "Quit"), ("/", "Search"), ("o", "Open all"), ("O", "Close all"), ("Del", "Delete keys"), ("Tab", "Switch to History")]
    );
    let none = FooterState { any_opened: false, has_selection: false, can_payload: false, can_history: false };
    assert_eq!(Footer::hints(&ElementInFocus::TopicOverview, &none), vec![("q", "Quit"), ("/", "Search"), ("o", "Open all")]);
    assert_eq!(Footer::hints(&ElementInFocus::Payload, &none), vec![("q", "Quit"), ("Tab", "Switch to Topics")]);
    assert_eq!(
        Footer::hints(&ElementInFocus::CleanPopup("x".to_owned()), &none),
        vec![("Enter", "Delete key tree"), ("Any", "Abort")]
    );
}
