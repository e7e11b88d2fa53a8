//! The application's decisions: what each application event does to the
//! open windows and the focus, and what the caller is then to carry out;
//! and the assembly of the text sent to the AI from a parsed prompt.

use vstd::prelude::*;

use crate::agent::{AgentAction, AgentActionView};
use crate::nvim::{spec_as_md, NvimResponse};
use crate::prompt::{Prompt, Segment, SegmentKind};
use crate::window_manager::{
    kind_of, window_event_ok, window_next, ChildEvent, SgWindow, SgWindowView, WindowKind,
    WindowManager,
};

verus! {

broadcast use vstd::string::group_string_axioms;

/// What happened to a window.
#[derive(Debug, Clone, Copy, PartialEq, Eq, Structural)]
pub enum WindowEventKind {
    Closed,
    RedrawRequested,
    CloseRequested,
    Focused,
    Unfocused,
    Other,
}

/// A key, as far as the application tells keys apart.
#[derive(Debug, Clone, Copy, PartialEq, Eq, Structural)]
pub enum KeyName {
    Enter,
    P,
    Other,
}

/// A keyboard event.
#[derive(Debug, Clone, Copy, PartialEq, Eq, Structural)]
pub enum KeyInput {
    /// a key press; `logo_only` when the Cmd/Logo key is the only modifier
    Pressed { key: KeyName, logo_only: bool },
    Released,
    ModifiersChanged,
    Other,
}

/// An application event (those that carry no connection or callback).
pub enum ShellEvent {
    Animate,
    Noop,
    Error(String),
    Todo,
    Tick,
    OpenWindowRequested(WindowKind),
    WindowOpened { id: u64, kind: WindowKind },
    WindowClosed(u64),
    ChildEvent(u64, ChildEvent),
    WindowEvent(u64, WindowEventKind),
    KbdEvent(KeyInput),
}

/// What the caller is to carry out after an application event.
pub enum ShellAction {
    Nothing,
    LogError(String),
    /// advance the windows' animations
    AnimateWindows,
    FocusWindow(u64),
    OpenWindow(WindowKind),
    CloseWindow(u64),
    /// what window `id` asked for
    FromWindow(u64, AgentAction),
    /// send the prompt of agent window `id` (as its send button does)
    SubmitPrompt(u64),
    /// an event came for window `id`, which is not open: it is dropped and
    /// a warning logged
    WarnUnknownWindow(u64),
}

pub enum ShellActionView {
    Nothing,
    LogError(Seq<char>),
    AnimateWindows,
    FocusWindow(u64),
    OpenWindow(WindowKind),
    CloseWindow(u64),
    FromWindow(u64, AgentActionView),
    SubmitPrompt(u64),
    WarnUnknownWindow(u64),
}

impl View for ShellAction {
    type V = ShellActionView;

    open spec fn view(&self) -> ShellActionView {
        match self {
            ShellAction::Nothing => ShellActionView::Nothing,
            ShellAction::LogError(e) => ShellActionView::LogError(e@),
            ShellAction::AnimateWindows => ShellActionView::AnimateWindows,
            ShellAction::FocusWindow(id) => ShellActionView::FocusWindow(*id),
            ShellAction::OpenWindow(k) => ShellActionView::OpenWindow(*k),
            ShellAction::CloseWindow(id) => ShellActionView::CloseWindow(*id),
            ShellAction::FromWindow(id, a) => ShellActionView::FromWindow(*id, a@),
            ShellAction::SubmitPrompt(id) => ShellActionView::SubmitPrompt(*id),
            ShellAction::WarnUnknownWindow(id) => ShellActionView::WarnUnknownWindow(*id),
        }
    }
}

/// The application's state apart from its connections.
pub struct ShellApp {
    wm: WindowManager,
    is_animating: bool,
    focused_window: Option<u64>,
}

pub struct ShellState {
    pub windows: Map<u64, SgWindowView>,
    pub is_animating: bool,
    pub focused_window: Option<u64>,
}

impl View for ShellApp {
    type V = ShellState;

    closed spec fn view(&self) -> ShellState {
        ShellState { windows: self.wm@, is_animating: self.is_animating, focused_window: self.focused_window }
    }
}

/// `event` can be handled in state `s`: an event for a window must be one
/// that window accepts.
pub open spec fn shell_event_ok(s: ShellState, event: ShellEvent) -> bool {
    match event {
        ShellEvent::ChildEvent(id, child) => s.windows.contains_key(id) ==> window_event_ok(s.windows[id], child),
        _ => true,
    }
}

/// A settings window is open in `s`.
pub open spec fn has_settings(s: ShellState) -> bool {
    exists|id: u64| #[trigger] s.windows.contains_key(id) && kind_of(s.windows[id]) == WindowKind::Settings
}

/// Handling `event` in state `s` may lead to state `t` with action `a`.
/// Settings can only have one instance: asking for a settings window while
/// one is open focuses one of the open ones (which one depends on the order
/// of the window table); every other event has one outcome, `shell_next`.
pub open spec fn shell_step(s: ShellState, event: ShellEvent, t: ShellState, a: ShellActionView) -> bool {
    if event == ShellEvent::OpenWindowRequested(WindowKind::Settings) && has_settings(s) {
        &&& t == s
        &&& a matches ShellActionView::FocusWindow(id) && s.windows.contains_key(id) && kind_of(s.windows[id]) == WindowKind::Settings
    } else {
        (t, a) == shell_next(s, event)
    }
}

/// What handling `event` does in state `s`, apart from focusing an open
/// settings window (see `shell_step`).
pub open spec fn shell_next(s: ShellState, event: ShellEvent) -> (ShellState, ShellActionView) {
    match event {
        ShellEvent::Animate => (ShellState { is_animating: true, ..s }, ShellActionView::Nothing),
        ShellEvent::Noop => (s, ShellActionView::Nothing),
        ShellEvent::Error(e) => (s, ShellActionView::LogError(e@)),
        ShellEvent::Todo => (s, ShellActionView::Nothing),
        ShellEvent::Tick => (s, ShellActionView::AnimateWindows),
        ShellEvent::OpenWindowRequested(kind) => (s, ShellActionView::OpenWindow(kind)),
        ShellEvent::WindowOpened { id, kind } => (
            ShellState { windows: s.windows.insert(id, new_window(id, kind)), ..s },
            ShellActionView::Nothing,
        ),
        ShellEvent::WindowClosed(id) => (s, ShellActionView::CloseWindow(id)),
        ShellEvent::ChildEvent(id, child) => if s.windows.contains_key(id) {
            (
                ShellState { windows: s.windows.insert(id, window_next(s.windows[id], child).0), ..s },
                ShellActionView::FromWindow(id, window_next(s.windows[id], child).1),
            )
        } else {
            (s, ShellActionView::WarnUnknownWindow(id))
        },
        ShellEvent::WindowEvent(id, e) => match e {
            WindowEventKind::Closed => (ShellState { windows: s.windows.remove(id), ..s }, ShellActionView::Nothing),
            WindowEventKind::Focused => (ShellState { focused_window: Some(id), ..s }, ShellActionView::Nothing),
            WindowEventKind::Unfocused => (ShellState { focused_window: None, ..s }, ShellActionView::Nothing),
            _ => (s, ShellActionView::Nothing),
        },
        ShellEvent::KbdEvent(k) => match (s.focused_window, k) {
            (Some(id), KeyInput::Pressed { key: KeyName::Enter, logo_only: true }) => if s.windows.contains_key(id) && kind_of(s.windows[id]) == WindowKind::Agent {
                (s, ShellActionView::SubmitPrompt(id))
            } else {
                (s, ShellActionView::Nothing)
            },
            _ => (s, ShellActionView::Nothing),
        },
    }
}

/// The state of a freshly opened window of `kind`.
pub open spec fn new_window(id: u64, kind: WindowKind) -> SgWindowView {
    match kind {
        WindowKind::Agent => SgWindowView::Agent(crate::agent::initial_agent_state(id)),
        WindowKind::Settings => SgWindowView::Settings(crate::settings::Settings::initial(id)),
    }
}

impl ShellApp {
    /// No windows, nothing focused, not animating.
    pub fn new() -> (r: Self)
        ensures
            r@.windows == Map::<u64, SgWindowView>::empty(),
            !r@.is_animating,
            r@.focused_window is None,
    {
        ShellApp { wm: WindowManager::default(), is_animating: false, focused_window: None }
    }

    /// The open windows.
    pub fn windows(&self) -> (r: &WindowManager)
        ensures
            r@ == self@.windows,
    {
        &self.wm
    }

    /// The focused window, if any.
    pub fn focused_window(&self) -> (r: Option<u64>)
        ensures
            r == self@.focused_window,
    {
        self.focused_window
    }

    /// Whether `event` may be handed to `update`.
    pub fn accepts(&self, event: &ShellEvent) -> (r: bool)
        ensures
            r == shell_event_ok(self@, *event),
    {
        match event {
            ShellEvent::ChildEvent(id, child) => self.wm.accepts(*id, child),
            _ => true,
        }
    }

    /// The main update: handles `event` as `shell_step` says.
    pub fn update(&mut self, message: ShellEvent) -> (r: ShellAction)
        requires
            shell_event_ok(old(self)@, message),
        ensures
            shell_step(old(self)@, message, final(self)@, r@),
    {
        match message {
            ShellEvent::Animate => {
                self.is_animating = true;
                ShellAction::Nothing
            },
            ShellEvent::Noop => ShellAction::Nothing,
            ShellEvent::Error(e) => ShellAction::LogError(e),
            ShellEvent::Todo => ShellAction::Nothing,
            ShellEvent::Tick => ShellAction::AnimateWindows,
            ShellEvent::OpenWindowRequested(kind) => {
                if kind == WindowKind::Settings {
                    if let Some(id) = self.wm.find_first(kind) {
                        return ShellAction::FocusWindow(id);
                    }
                }
                ShellAction::OpenWindow(kind)
            },
            ShellEvent::WindowOpened { id, kind } => {
                let window = SgWindow::sg_window_from_kind(id, kind);
                self.wm.insert(id, window);
                ShellAction::Nothing
            },
            ShellEvent::WindowClosed(id) => ShellAction::CloseWindow(id),
            ShellEvent::ChildEvent(id, child) => match self.wm.update(id, child) {
                Some(a) => ShellAction::FromWindow(id, a),
                None => ShellAction::WarnUnknownWindow(id),
            },
            ShellEvent::WindowEvent(id, event) => {
                match event {
                    WindowEventKind::Closed => {
                        self.wm.remove(&id);
                    },
                    WindowEventKind::Focused => self.focused_window = Some(id),
                    WindowEventKind::Unfocused => self.focused_window = None,
                    _ => {},
                }
                ShellAction::Nothing
            },
            ShellEvent::KbdEvent(event) => {
                let id = match self.focused_window {
                    Some(id) => id,
                    None => {
                        return ShellAction::Nothing;
                    },
                };
                if self.wm.is_agent(id) {
                    match event {
                        KeyInput::Pressed { key: KeyName::Enter, logo_only: true } => {
                            return ShellAction::SubmitPrompt(id);
                        },
                        _ => {},
                    }
                }
                ShellAction::Nothing
            },
        }
    }
}

// ---------------------------------------------------------------------------
// Assembling the text sent to the AI.
// ---------------------------------------------------------------------------

/// What a segment contributes to the text sent to the AI, where no
/// selection is fetched for it: its slice for plain text, a placeholder
/// for mentions, nothing for `@selected`.
pub open spec fn contribution(raw: Seq<char>, seg: Segment) -> Seq<char> {
    match seg.kind {
        SegmentKind::Text => seg.slice_of(raw),
        SegmentKind::File => "file"@,
        SegmentKind::Lsp => "lsp"@,
        SegmentKind::Selected => Seq::empty(),
    }
}

/// `buf` followed by the contributions of segments `from..to`.
pub open spec fn fill(raw: Seq<char>, segs: Seq<Segment>, from: int, to: int, buf: Seq<char>) -> Seq<char>
    decreases to - from,
{
    if from >= to {
        buf
    } else {
        fill(raw, segs, from + 1, to, buf + contribution(raw, segs[from]))
    }
}

/// The first segment at or after `from` for which the selection has to be
/// fetched (an `@selected` while Neovim is connected), or the number of
/// segments.
pub open spec fn next_stop(segs: Seq<Segment>, from: int, connected: bool) -> int
    decreases segs.len() - from,
{
    if from >= segs.len() {
        segs.len() as int
    } else if connected && segs[from].kind == SegmentKind::Selected {
        from
    } else {
        next_stop(segs, from + 1, connected)
    }
}

/// The step the assembly stopped at.
pub enum BuildStep {
    /// ask Neovim for the selection (`SgGet selected`) and hand the reply to
    /// `selection_received`
    QuerySelection,
    /// the text to send
    Finished(String),
}

/// The text sent to the AI for a prompt, built segment by segment; an
/// `@selected` segment is replaced by the selection fetched from Neovim,
/// which replaces everything gathered before it.
pub struct PromptBuilder {
    buf: String,
    next: usize,
}

impl View for PromptBuilder {
    type V = (Seq<char>, int);

    closed spec fn view(&self) -> (Seq<char>, int) {
        (self.buf@, self.next as int)
    }
}

impl PromptBuilder {
    /// Nothing gathered yet, at the first segment.
    pub fn new() -> (r: Self)
        ensures
            r@ == (Seq::<char>::empty(), 0int),
    {
        PromptBuilder { buf: String::new(), next: 0 }
    }

    /// Goes through the segments from the current one on, gathering their
    /// text, up to the next `@selected` (when Neovim is `connected`) or the
    /// end.
    pub fn advance(&mut self, prompt: &Prompt, connected: bool) -> (r: BuildStep)
        requires
            prompt.text_fits(),
            0 <= old(self)@.1 <= prompt.segments@.len(),
        ensures
            final(self)@.1 == next_stop(prompt.segments@, old(self)@.1, connected),
            final(self)@.0 == fill(prompt.raw@, prompt.segments@, old(self)@.1, final(self)@.1, old(self)@.0),
            r is QuerySelection <==> final(self)@.1 < prompt.segments@.len(),
            r matches BuildStep::Finished(t) ==> t@ == final(self)@.0,
    {
        let ghost from = self.next as int;
        let ghost buf0 = self.buf@;
        while self.next < prompt.segments.len()
            invariant
                from == old(self)@.1,
                buf0 == old(self)@.0,
                prompt.text_fits(),
                from <= self.next <= prompt.segments@.len(),
                next_stop(prompt.segments@, from, connected) == next_stop(prompt.segments@, self.next as int, connected),
                fill(prompt.raw@, prompt.segments@, from, self.next as int, buf0) == self.buf@,
            decreases prompt.segments@.len() - self.next,
        {
            let segment = prompt.segments[self.next];
            let ghost i = self.next as int;
            match segment.kind {
                SegmentKind::Text => {
                    assert(prompt.segments@[i].fits(vstd::utf8::encode_utf8(prompt.raw@)));
                    self.buf.append(segment.expand(prompt.raw.as_str()));
                },
                SegmentKind::File => self.buf.append("file"),
                SegmentKind::Lsp => self.buf.append("lsp"),
                SegmentKind::Selected => {
                    if connected {
                        return BuildStep::QuerySelection;
                    }
                    assert(self.buf@ + Seq::<char>::empty() =~= self.buf@);
                },
            }
            proof {
                lemma_fill_step(prompt.raw@, prompt.segments@, from, i, buf0);
            }
            self.next = self.next + 1;
        }
        BuildStep::Finished(self.buf.clone())
    }

    /// The selection fetched for the current `@selected` segment: the text
    /// gathered so far is replaced by it, as a Markdown code block, and the
    /// assembly moves past the segment.
    pub fn selection_received(&mut self, prompt: &Prompt, response: &NvimResponse)
        requires
            old(self)@.1 < prompt.segments@.len(),
        ensures
            final(self)@ == (spec_as_md(response.content@, response.filetype@), old(self)@.1 + 1),
    {
        proof {
            // the segment count fits in `usize`, so the next index does too
            vstd::std_specs::vec::axiom_spec_len(&prompt.segments);
        }
        self.buf = response.content_as_md();
        self.next = self.next + 1;
    }
}

proof fn lemma_fill_step(raw: Seq<char>, segs: Seq<Segment>, from: int, i: int, buf: Seq<char>)
    requires
        from <= i,
    ensures
        fill(raw, segs, from, i + 1, buf) == fill(raw, segs, from, i, buf) + contribution(raw, segs[i]),
    decreases i - from,
{
    if from < i {
        lemma_fill_step(raw, segs, from + 1, i, buf + contribution(raw, segs[from]));
    } else {
        assert(fill(raw, segs, i + 1, i + 1, buf + contribution(raw, segs[i])) == buf + contribution(raw, segs[i]));
    }
}

// ---------------------------------------------------------------------------
// Laws of the application.
// ---------------------------------------------------------------------------

/// There is only one settings window: asking for one while one is open
/// focuses an open settings window and opens nothing.
pub proof fn law_settings_single_instance(s: ShellState, id: u64, t: ShellState, a: ShellActionView)
    requires
        s.windows.contains_key(id),
        kind_of(s.windows[id]) == WindowKind::Settings,
        shell_step(s, ShellEvent::OpenWindowRequested(WindowKind::Settings), t, a),
    ensures
        a matches ShellActionView::FocusWindow(f) && s.windows.contains_key(f) && kind_of(s.windows[f]) == WindowKind::Settings,
        t == s,
{
}

/// A closed window is forgotten; a window opened with an id is registered
/// under it with the kind asked for.
pub proof fn law_open_close(s: ShellState, id: u64, kind: WindowKind)
    ensures
        !shell_next(s, ShellEvent::WindowEvent(id, WindowEventKind::Closed)).0.windows.contains_key(id),
        shell_next(s, ShellEvent::WindowOpened { id, kind }).0.windows.contains_key(id),
        kind_of(shell_next(s, ShellEvent::WindowOpened { id, kind }).0.windows[id]) == kind,
{
}

/// Cmd+Enter sends the prompt of the focused window, and only when that
/// window is an open agent window.
pub proof fn law_cmd_enter_targets_focused_agent(s: ShellState)
    ensures
        shell_next(s, ShellEvent::KbdEvent(KeyInput::Pressed { key: KeyName::Enter, logo_only: true })).1
            matches ShellActionView::SubmitPrompt(id) ==> s.focused_window == Some(id) && s.windows.contains_key(id)
            && kind_of(s.windows[id]) == WindowKind::Agent,
        s.focused_window matches Some(id) && s.windows.contains_key(id) && kind_of(s.windows[id]) == WindowKind::Agent
            ==> shell_next(s, ShellEvent::KbdEvent(KeyInput::Pressed { key: KeyName::Enter, logo_only: true })).1
            == ShellActionView::SubmitPrompt(s.focused_window->0),
{
}

/// The assembly stops to fetch the selection only at an `@selected`
/// segment, and only while Neovim is connected: it goes past every other
/// segment (plain text, mentions), so a prompt without `@selected` is
/// finished in one step, at the same point whether Neovim is connected or
/// not.
pub proof fn law_query_only_at_selected(segs: Seq<Segment>, from: int, connected: bool)
    requires
        0 <= from <= segs.len(),
    ensures
        from <= next_stop(segs, from, connected) <= segs.len(),
        next_stop(segs, from, connected) < segs.len() ==> connected
            && segs[next_stop(segs, from, connected)].kind == SegmentKind::Selected,
        connected ==> forall|j: int|
            from <= j < next_stop(segs, from, connected) ==> (#[trigger] segs[j]).kind != SegmentKind::Selected,
        !connected ==> next_stop(segs, from, connected) == segs.len(),
        (forall|j: int| from <= j < segs.len() ==> (#[trigger] segs[j]).kind != SegmentKind::Selected)
            ==> next_stop(segs, from, true) == segs.len() && next_stop(segs, from, false) == segs.len(),
    decreases segs.len() - from,
{
    if from < segs.len() {
        law_query_only_at_selected(segs, from + 1, connected);
        law_query_only_at_selected(segs, from + 1, true);
        law_query_only_at_selected(segs, from + 1, false);
    }
}

/// The window that reports focus has the focus, whatever its kind and
/// whether it is registered; one that reports losing it leaves no window
/// focused. The open windows stay as they are.
pub proof fn law_focus_follows_window_events(s: ShellState, id: u64, t: ShellState, a: ShellActionView)
    ensures
        shell_step(s, ShellEvent::WindowEvent(id, WindowEventKind::Focused), t, a) ==> t.focused_window == Some(id)
            && t.windows == s.windows,
        shell_step(s, ShellEvent::WindowEvent(id, WindowEventKind::Unfocused), t, a) ==> t.focused_window is None
            && t.windows == s.windows,
{
}

} // verus!
