use sg_agent::agent::{AgentAction, AgentEvent};
use sg_agent::animated::{animation_tick, AnimationPhase, Tick};
use sg_agent::nvim::NvimResponse;
use sg_agent::prompt::Prompt;
use sg_agent::settings::{Settings, SettingsEvent, SettingsPage};
use sg_agent::shell::{
    BuildStep, KeyInput, KeyName, PromptBuilder, ShellAction, ShellApp, ShellEvent,
    WindowEventKind,
};
use sg_agent::spinner::Spinner;
use sg_agent::window_manager::{ChildEvent, SgWindow, WindowKind, WindowManager};

#[test]
fn window_manager_registry() {
    let mut wm = WindowManager::default();
    assert_eq!(wm.find_first(WindowKind::Agent), None);
    wm.insert(3, SgWindow::sg_window_from_kind(3, WindowKind::Agent));
    wm.insert(5, SgWindow::sg_window_from_kind(5, WindowKind::Settings));
    assert_eq!(wm.find_first(WindowKind::Agent), Some(3));
    assert_eq!(wm.find_first(WindowKind::Settings), Some(5));
    assert!(wm.is_agent(3));
    assert!(!wm.is_agent(5));
    assert!(!wm.is_agent(4));
    assert!(wm.update(4, ChildEvent::Chat).is_none());
    assert!(matches!(wm.update(3, ChildEvent::Agent(AgentEvent::InputEdit)), Some(AgentAction::PerformEdit)));
    wm.remove(&3);
    assert_eq!(wm.find_first(WindowKind::Agent), None);
    assert!(wm.get(5).is_some());
    assert!(wm.get(3).is_none());
}

#[test]
fn settings_page_changes() {
    let mut s = Settings::new(9);
    assert_eq!(s.current_page(), SettingsPage::General);
    assert_eq!(s.id(), 9);
    s.update(ChildEvent::Settings(SettingsEvent::PageChanged(SettingsPage::Ai)));
    assert_eq!(s.current_page(), SettingsPage::Ai);
    s.update(ChildEvent::Chat);
    assert_eq!(s.current_page(), SettingsPage::Ai);
    assert!(!s.is_aninating());
}

#[test]
fn create_user_error_for_agent() {
    match WindowKind::Agent.create_user_error("oops".to_string()) {
        ChildEvent::Agent(AgentEvent::ErrorHappend(e)) => assert_eq!(e, "oops"),
        _ => panic!("expected an agent error"),
    }
}

#[test]
fn shell_single_settings_window() {
    let mut app = ShellApp::new();
    assert!(matches!(app.update(ShellEvent::OpenWindowRequested(WindowKind::Settings)), ShellAction::OpenWindow(WindowKind::Settings)));
    app.update(ShellEvent::WindowOpened { id: 2, kind: WindowKind::Settings });
    assert!(matches!(app.update(ShellEvent::OpenWindowRequested(WindowKind::Settings)), ShellAction::FocusWindow(2)));
    assert!(matches!(app.update(ShellEvent::OpenWindowRequested(WindowKind::Agent)), ShellAction::OpenWindow(WindowKind::Agent)));
    app.update(ShellEvent::WindowEvent(2, WindowEventKind::Closed));
    assert!(matches!(app.update(ShellEvent::OpenWindowRequested(WindowKind::Settings)), ShellAction::OpenWindow(WindowKind::Settings)));
}

#[test]
fn shell_cmd_enter_submits_focused_agent() {
    let mut app = ShellApp::new();
    let key = KeyInput::Pressed { key: KeyName::Enter, logo_only: true };
    assert!(matches!(app.update(ShellEvent::KbdEvent(key)), ShellAction::Nothing));
    app.update(ShellEvent::WindowOpened { id: 1, kind: WindowKind::Agent });
    app.update(ShellEvent::WindowEvent(1, WindowEventKind::Focused));
    assert_eq!(app.focused_window(), Some(1));
    assert!(matches!(app.update(ShellEvent::KbdEvent(key)), ShellAction::SubmitPrompt(1)));
    let not_logo = KeyInput::Pressed { key: KeyName::Enter, logo_only: false };
    assert!(matches!(app.update(ShellEvent::KbdEvent(not_logo)), ShellAction::Nothing));
    app.update(ShellEvent::WindowEvent(1, WindowEventKind::Unfocused));
    assert!(matches!(app.update(ShellEvent::KbdEvent(key)), ShellAction::Nothing));
}

#[test]
fn shell_dispatches_child_events() {
    let mut app = ShellApp::new();
    app.update(ShellEvent::WindowOpened { id: 1, kind: WindowKind::Agent });
    let e = ShellEvent::ChildEvent(1, ChildEvent::Agent(AgentEvent::SideBarCollapse));
    assert!(app.accepts(&e));
    assert!(matches!(app.update(e), ShellAction::FromWindow(1, AgentAction::AnimateSidebar { collapsed: true })));
    assert!(matches!(app.update(ShellEvent::ChildEvent(8, ChildEvent::Chat)), ShellAction::WarnUnknownWindow(8)));
    assert!(matches!(app.update(ShellEvent::WindowClosed(1)), ShellAction::CloseWindow(1)));
    assert!(matches!(app.update(ShellEvent::Tick), ShellAction::AnimateWindows));
    assert!(matches!(app.update(ShellEvent::Error("e".to_string())), ShellAction::LogError(e) if e == "e"));
    let bad = ShellEvent::ChildEvent(1, ChildEvent::Agent(AgentEvent::PressedSend("#x".to_string())));
    assert!(!app.accepts(&bad));
}

#[test]
fn prompt_builder_without_neovim() {
    let p = Prompt::from("see @a.rs and @selected please ".to_string());
    let mut b = PromptBuilder::new();
    match b.advance(&p, false) {
        BuildStep::Finished(t) => assert_eq!(t, "see file and  please "),
        BuildStep::QuerySelection => panic!("no neovim, no query"),
    }
}

#[test]
fn prompt_builder_with_selection() {
    let p = Prompt::from("explain @selected and more ".to_string());
    let mut b = PromptBuilder::new();
    assert!(matches!(b.advance(&p, true), BuildStep::QuerySelection));
    let resp = NvimResponse {
        version: 1,
        filename: "f.rs".to_string(),
        filetype: "rust".to_string(),
        start: 0,
        stop: 1,
        content: vec!["x".to_string()],
    };
    b.selection_received(&p, &resp);
    match b.advance(&p, true) {
        BuildStep::Finished(t) => assert_eq!(t, "```rust\nx\n```\n and more "),
        BuildStep::QuerySelection => panic!("only one selection"),
    }
}

#[test]
fn animation_ticks() {
    let ms = 1_000_000u128;
    assert_eq!(animation_tick(AnimationPhase::Idle, true, 5 * ms, 100 * ms, 0), Tick::Unchanged);
    assert_eq!(animation_tick(AnimationPhase::Done, true, 5 * ms, 100 * ms, 0), Tick::Unchanged);
    assert_eq!(animation_tick(AnimationPhase::Running, false, 5 * ms, 100 * ms, 0), Tick::Reset);
    assert_eq!(animation_tick(AnimationPhase::Running, true, 100 * ms, 100 * ms, 0), Tick::Finish);
    assert_eq!(animation_tick(AnimationPhase::Running, true, 150 * ms, 100 * ms, 200 * ms), Tick::Unchanged);
    assert_eq!(animation_tick(AnimationPhase::Running, true, 250 * ms, 100 * ms, 200 * ms), Tick::Progress { elapsed_ns: 50 * ms });
    assert_eq!(animation_tick(AnimationPhase::Running, true, 300 * ms, 100 * ms, 200 * ms), Tick::Finish);
    assert_eq!(animation_tick(AnimationPhase::Running, true, 0, 0, 0), Tick::Finish);
}

#[test]
fn spinner_heights() {
    let mut s = Spinner::new();
    assert_eq!(s.bars(), 50);
    for _ in 0..200 {
        assert!((5..30).contains(&s.value()));
        s.update();
    }
}
