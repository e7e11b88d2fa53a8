use sg_agent::agent::{
    contains_at, diff, editor_takes_key, input_box_height, sub_str, sub_str_ok, AgentAction,
    AgentEvent, AgentMode, AgentWindow, Block,
};
use sg_agent::ai::Response;
use sg_agent::prompt::SegmentKind;
use sg_agent::window_manager::ChildEvent;

fn ev(e: AgentEvent) -> ChildEvent {
    ChildEvent::Agent(e)
}

#[test]
fn contains_at_cases() {
    assert_eq!(contains_at("im editing this @stri"), Some(1));
    assert_eq!(contains_at("im editing this stri"), None);
    assert_eq!(contains_at("@start no space"), None);
    assert_eq!(contains_at("@start"), None);
    assert_eq!(contains_at("trailing "), None);
}

#[test]
fn diff_cases() {
    assert_eq!(diff("abc", "abd"), 2);
    assert_eq!(diff("abc", "abc"), 3);
    assert_eq!(diff("ab", "abcd"), 4);
    assert_eq!(diff("", "é"), 2);
    assert_eq!(diff("xé", "yé"), 0);
}

#[test]
fn sub_str_cases() {
    assert_eq!(sub_str("hello big world", 7), "big");
    assert_eq!(sub_str("hello big world", 6), "big");
    assert_eq!(sub_str("hello", 2), "hello");
    assert_eq!(sub_str("a b", 3), "b");
    assert!(sub_str_ok("a b", 1));
    // byte 1 lies inside 'é'
    assert!(!sub_str_ok("é", 1));
    // the non-breaking space is two bytes: the word after it would start inside it
    assert!(!sub_str_ok("a\u{a0}b", 3));
    assert!(!sub_str_ok("ab", 3));
}

#[test]
fn new_agent_window() {
    let w = AgentWindow::new(7);
    assert_eq!(w.id(), 7);
    assert!(w.chat().is_empty());
    assert!(!w.is_busy());
    assert!(!w.sidebar_collapsed());
    assert_eq!(w.mode(), AgentMode::Chat);
    assert_eq!(AgentMode::Chat.label(), "Chat");
    assert_eq!(AgentMode::Agent.label(), "Agent");
    assert_eq!(AgentMode::Diff.label(), "Diff");
}

#[test]
fn send_then_answer_continues_conversation() {
    let mut w = AgentWindow::new(1);
    let a = w.update(ev(AgentEvent::PressedSend("hi @a".to_string())));
    assert!(w.is_busy());
    match a {
        AgentAction::Ask { prompt, prev_id } => {
            assert_eq!(prompt.raw, "hi @a ");
            assert_eq!(prompt.segments.len(), 3);
            assert_eq!(prompt.segments[1].kind, SegmentKind::File);
            assert_eq!(prev_id, None);
        }
        _ => panic!("expected an ask"),
    }
    let a = w.update(ev(AgentEvent::ResponseRecived(Response {
        id: "resp_1".to_string(),
        content: "**hello**".to_string(),
    })));
    assert!(matches!(a, AgentAction::Nothing));
    assert!(!w.is_busy());
    assert!(matches!(&w.chat()[1], Block::Markdown(s) if s == "**hello**"));
    match w.update(ev(AgentEvent::PressedSend("more".to_string()))) {
        AgentAction::Ask { prev_id, .. } => assert_eq!(prev_id, Some("resp_1".to_string())),
        _ => panic!("expected an ask"),
    }
    assert_eq!(w.chat().len(), 3);
}

#[test]
fn error_clears_busy_and_is_shown() {
    let mut w = AgentWindow::new(1);
    w.update(ev(AgentEvent::PressedSend("x".to_string())));
    let a = w.update(ev(AgentEvent::ErrorHappend("boom".to_string())));
    assert!(matches!(a, AgentAction::Nothing));
    assert!(!w.is_busy());
    assert!(matches!(&w.chat()[1], Block::Error(s) if s == "boom"));
}

#[test]
fn sidebar_toggles_and_toggles_back() {
    let mut w = AgentWindow::new(1);
    assert!(matches!(w.update(ev(AgentEvent::SideBarCollapse)), AgentAction::AnimateSidebar { collapsed: true }));
    assert!(w.sidebar_collapsed());
    assert!(matches!(w.update(ev(AgentEvent::SideBarCollapse)), AgentAction::AnimateSidebar { collapsed: false }));
    assert!(!w.sidebar_collapsed());
}

#[test]
fn input_change_shows_edited_word() {
    let mut w = AgentWindow::new(1);
    match w.update(ev(AgentEvent::InputChanged("hello wor".to_string()))) {
        AgentAction::ShowEditedWord(s) => assert_eq!(s, "wor"),
        _ => panic!("expected the edited word"),
    }
    match w.update(ev(AgentEvent::InputChanged("hello world".to_string()))) {
        AgentAction::ShowEditedWord(s) => assert_eq!(s, "world"),
        _ => panic!("expected the edited word"),
    }
    match w.update(ev(AgentEvent::InputChanged("hello xorld".to_string()))) {
        AgentAction::ShowEditedWord(s) => assert_eq!(s, "xorld"),
        _ => panic!("expected the edited word"),
    }
}

#[test]
fn other_agent_events() {
    let mut w = AgentWindow::new(1);
    assert!(matches!(w.update(ev(AgentEvent::Todo)), AgentAction::Nothing));
    assert!(matches!(w.update(ev(AgentEvent::InputEdit)), AgentAction::PerformEdit));
    assert!(matches!(w.update(ev(AgentEvent::PropmtBarShown)), AgentAction::FadeIcons { reverse: false }));
    assert!(matches!(w.update(ev(AgentEvent::PromptbarHidden)), AgentAction::FadeIcons { reverse: true }));
    assert!(matches!(w.update(ChildEvent::Chat), AgentAction::Nothing));
    assert!(w.chat().is_empty());
}

#[test]
fn accepts_refuses_what_would_panic() {
    let w = AgentWindow::new(1);
    assert!(w.accepts(&ev(AgentEvent::PressedSend("ok".to_string()))));
    assert!(!w.accepts(&ev(AgentEvent::PressedSend("#tag".to_string()))));
    assert!(!w.accepts(&ev(AgentEvent::PressedSend("@s:x".to_string()))));
    assert!(w.accepts(&ev(AgentEvent::InputChanged("abc".to_string()))));
}

#[test]
fn send_needs_text_and_an_idle_window() {
    let mut w = AgentWindow::new(3);
    assert!(w.can_send("hello"));
    assert!(!w.can_send(""));
    w.update(ev(AgentEvent::PressedSend("hello".to_string())));
    assert!(w.is_busy());
    assert!(!w.can_send("hello"));
}

#[test]
fn editor_keeps_only_clipboard_shortcuts() {
    assert!(editor_takes_key(false, Some("a")));
    assert!(editor_takes_key(false, None));
    assert!(editor_takes_key(true, Some("c")));
    assert!(editor_takes_key(true, Some("v")));
    assert!(editor_takes_key(true, Some("x")));
    assert!(!editor_takes_key(true, Some("a")));
    assert!(!editor_takes_key(true, Some("cv")));
    assert!(!editor_takes_key(true, None));
}

#[test]
fn input_box_height_clamps_lines() {
    assert_eq!(input_box_height(0), 60);
    assert_eq!(input_box_height(1), 60);
    assert_eq!(input_box_height(3), 60);
    assert_eq!(input_box_height(7), 140);
    assert_eq!(input_box_height(10), 200);
    assert_eq!(input_box_height(250), 200);
}
