//! The agent window: its chat, the state that decides what a user action
//! does, and the text helpers it uses while the prompt is being edited.

use vstd::prelude::*;
use vstd::utf8::*;

use crate::ai::Response;
use crate::prompt::{parse_defined, spec_parse_segments, Prompt, Segment};
use crate::window_manager::ChildEvent;
use crate::text::{
    byte_len, byte_offset, char_indices, char_is_whitespace, chars_of, is_white_space,
    lemma_byte_offset_bounds, lemma_byte_offset_mono, lemma_byte_offset_step,
    lemma_offset_is_boundary, substr_bytes, utf8_width,
};

verus! {

broadcast use vstd::string::group_string_axioms;

// ---------------------------------------------------------------------------
// Text helpers used while the prompt is edited.
// ---------------------------------------------------------------------------

/// Index of the last `' '` in `s`, if any.
pub open spec fn last_space(s: Seq<char>, n: int) -> Option<int>
    decreases n,
{
    if n <= 0 {
        None
    } else if s[n - 1] == ' ' {
        Some(n - 1)
    } else {
        last_space(s, n - 1)
    }
}

/// `contains_at`: after the last space comes an `@` (the word being typed is
/// a mention).
pub open spec fn spec_contains_at(s: Seq<char>) -> Option<usize> {
    match last_space(s, s.len() as int) {
        Some(j) => if j + 1 < s.len() && s[j + 1] == '@' {
            Some(1usize)
        } else {
            None
        },
        None => None,
    }
}

/// Whether the word after the last space starts with `@`: `Some(1)` when
/// it does, `None` otherwise.
pub fn contains_at(str: &str) -> (r: Option<usize>)
    ensures
        r == spec_contains_at(str@),
{
    let s = chars_of(str);
    let mut n = s.len();
    while n > 0
        invariant
            s@ == str@,
            n <= s@.len(),
            last_space(s@, s@.len() as int) == last_space(s@, n as int),
        decreases n,
    {
        if s[n - 1] == ' ' {
            if n < s.len() && s[n] == '@' {
                return Some(1);
            }
            return None;
        }
        n = n - 1;
    }
    None
}

/// `diff(first, second)` from index `i` on: the index of the first
/// character where the two differ (among the positions both have), or else
/// the byte length of `second`.
pub open spec fn diff_from(first: Seq<char>, second: Seq<char>, i: int) -> int
    decreases first.len() - i,
{
    if i < 0 || i >= first.len() || i >= second.len() {
        encode_utf8(second).len() as int
    } else if first[i] != second[i] {
        i
    } else {
        diff_from(first, second, i + 1)
    }
}

pub open spec fn diff_index(first: Seq<char>, second: Seq<char>) -> int {
    diff_from(first, second, 0)
}

/// Where the edited text `second` first departs from `first`.
pub fn diff(first: &str, second: &str) -> (r: usize)
    ensures
        r == diff_index(first@, second@),
{
    let a = chars_of(first);
    let b = chars_of(second);
    let m = if a.len() < b.len() {
        a.len()
    } else {
        b.len()
    };
    let mut i: usize = 0;
    while i < m
        invariant
            a@ == first@,
            b@ == second@,
            m == if a@.len() < b@.len() {
                a@.len()
            } else {
                b@.len()
            },
            i <= m,
            diff_index(first@, second@) == diff_from(first@, second@, i as int),
        decreases m - i,
    {
        if a[i] != b[i] {
            return i;
        }
        i = i + 1;
    }
    byte_len(second)
}

/// `idx` is the byte offset at which some character of `s` starts, or the
/// byte length of `s`.
pub open spec fn is_char_start(s: Seq<char>, idx: int) -> bool {
    exists|k: int| 0 <= k <= s.len() && byte_offset(s, k) == idx
}

/// Index of the last whitespace character among the first `n` characters.
pub open spec fn last_ws_before(s: Seq<char>, n: int) -> Option<int>
    decreases n,
{
    if n <= 0 {
        None
    } else if is_white_space(s[n - 1]) {
        Some(n - 1)
    } else {
        last_ws_before(s, n - 1)
    }
}

/// Index of the first whitespace character at or after character `m`.
pub open spec fn first_ws_from(s: Seq<char>, m: int) -> Option<int>
    decreases s.len() - m,
{
    if m >= s.len() {
        None
    } else if is_white_space(s[m]) {
        Some(m)
    } else {
        first_ws_from(s, m + 1)
    }
}

/// The character index whose byte offset is `idx`.
pub open spec fn char_index_at(s: Seq<char>, idx: int) -> int {
    choose|k: int| 0 <= k <= s.len() && byte_offset(s, k) == idx
}

/// Byte offset where the word around `idx` starts: just after the last
/// whitespace before `idx` (one byte after the start of that character), or
/// 0.
pub open spec fn word_start(s: Seq<char>, idx: int) -> int {
    match last_ws_before(s, char_index_at(s, idx)) {
        Some(j) => byte_offset(s, j) + 1,
        None => 0,
    }
}

/// Byte offset where the word around `idx` ends: at the first whitespace
/// from `idx` on, or at the end.
pub open spec fn word_end(s: Seq<char>, idx: int) -> int {
    match first_ws_from(s, char_index_at(s, idx)) {
        Some(j) => byte_offset(s, j),
        None => encode_utf8(s).len() as int,
    }
}

/// `sub_str(s, idx)` returns without panicking: `idx` is a character start
/// and the whitespace before the word (if any) is one byte long, so that the
/// word starts on a character boundary.
pub open spec fn sub_str_defined(s: Seq<char>, idx: int) -> bool {
    &&& is_char_start(s, idx)
    &&& match last_ws_before(s, char_index_at(s, idx)) {
        Some(j) => utf8_width(s[j]) == 1,
        None => true,
    }
}

proof fn lemma_last_ws(s: Seq<char>, n: int)
    requires
        0 <= n <= s.len(),
    ensures
        last_ws_before(s, n) matches Some(j) ==> 0 <= j < n && is_white_space(s[j]) && forall|m: int| j < m < n ==> !is_white_space(#[trigger] s[m]),
        last_ws_before(s, n) is None ==> forall|m: int| 0 <= m < n ==> !is_white_space(#[trigger] s[m]),
    decreases n,
{
    if n > 0 {
        lemma_last_ws(s, n - 1);
    }
}

proof fn lemma_first_ws(s: Seq<char>, m: int)
    requires
        0 <= m <= s.len(),
    ensures
        first_ws_from(s, m) matches Some(j) ==> m <= j < s.len() && is_white_space(s[j]) && forall|k: int| m <= k < j ==> !is_white_space(#[trigger] s[k]),
        first_ws_from(s, m) is None ==> forall|k: int| m <= k < s.len() ==> !is_white_space(#[trigger] s[k]),
    decreases s.len() - m,
{
    if m < s.len() {
        lemma_first_ws(s, m + 1);
    }
}

/// Byte offsets of distinct characters differ.
proof fn lemma_offset_injective(s: Seq<char>, a: int, b: int)
    requires
        0 <= a < b <= s.len(),
    ensures
        byte_offset(s, a) < byte_offset(s, b),
{
    lemma_byte_offset_step(s, a);
    crate::text::lemma_encode_single(s[a]);
    lemma_byte_offset_mono(s, a + 1, b);
}

/// The word of `str` around byte offset `idx`: from just after the last
/// whitespace before `idx` to the first whitespace at or after it.
pub fn sub_str(str: &str, idx: usize) -> (r: &str)
    requires
        sub_str_defined(str@, idx as int),
    ensures
        encode_utf8(r@) == encode_utf8(str@).subrange(word_start(str@, idx as int), word_end(str@, idx as int)),
{
    let ghost s = str@;
    let ghost k0 = char_index_at(s, idx as int);
    let iter = char_indices(str);
    let total = byte_len(str);
    // the character index at byte offset `idx`
    let mut k: usize = 0;
    while k < iter.len() && iter[k].0 < idx
        invariant
            iter@.len() == s.len(),
            forall|i: int| 0 <= i < iter@.len() ==> (#[trigger] iter@[i]).1 == s[i] && iter@[i].0 == byte_offset(s, i),
            0 <= k0 <= s.len(),
            byte_offset(s, k0) == idx,
            k <= k0,
        decreases s.len() - k,
    {
        proof {
            if k == k0 {
                assert(iter@[k as int].0 == idx);
            }
        }
        k = k + 1;
    }
    proof {
        if k < k0 {
            lemma_offset_injective(s, k as int, k0);
            assert(iter@[k as int].0 >= idx);
        }
        assert(k == k0);
        lemma_last_ws(s, k as int);
        lemma_first_ws(s, k as int);
        lemma_byte_offset_bounds(s, k as int);
    }
    // start of the word
    let mut j = k;
    while j > 0 && !char_is_whitespace(iter[j - 1].1)
        invariant
            iter@.len() == s.len(),
            forall|i: int| 0 <= i < iter@.len() ==> (#[trigger] iter@[i]).1 == s[i] && iter@[i].0 == byte_offset(s, i),
            j <= k,
            k <= s.len(),
            last_ws_before(s, k as int) == last_ws_before(s, j as int),
        decreases j,
    {
        j = j - 1;
    }
    let start = if j > 0 {
        proof {
            lemma_byte_offset_step(s, j - 1);
            lemma_offset_is_boundary(s, j as int);
            lemma_byte_offset_bounds(s, j as int);
            lemma_byte_offset_mono(s, j as int, k as int);
        }
        iter[j - 1].0 + 1
    } else {
        proof {
            lemma_byte_offset_bounds(s, 0);
            lemma_offset_is_boundary(s, 0);
        }
        0
    };
    // end of the word
    let mut e = k;
    while e < iter.len() && !char_is_whitespace(iter[e].1)
        invariant
            iter@.len() == s.len(),
            forall|i: int| 0 <= i < iter@.len() ==> (#[trigger] iter@[i]).1 == s[i] && iter@[i].0 == byte_offset(s, i),
            k <= e <= s.len(),
            first_ws_from(s, k as int) == first_ws_from(s, e as int),
        decreases s.len() - e,
    {
        e = e + 1;
    }
    let end = if e < iter.len() {
        iter[e].0
    } else {
        total
    };
    proof {
        lemma_offset_is_boundary(s, e as int);
        lemma_byte_offset_bounds(s, e as int);
        lemma_byte_offset_mono(s, k as int, e as int);
    }
    substr_bytes(str, start, end)
}

/// Whether `sub_str(str, idx)` is defined (the check a caller makes before
/// calling it).
pub fn sub_str_ok(str: &str, idx: usize) -> (r: bool)
    ensures
        r == sub_str_defined(str@, idx as int),
{
    let ghost s = str@;
    let iter = char_indices(str);
    let total = byte_len(str);
    let mut k: usize = 0;
    while k < iter.len() && iter[k].0 < idx
        invariant
            iter@.len() == s.len(),
            forall|i: int| 0 <= i < iter@.len() ==> (#[trigger] iter@[i]).1 == s[i] && iter@[i].0 == byte_offset(s, i),
            k <= s.len(),
            forall|i: int| 0 <= i < k ==> byte_offset(s, i) < idx,
        decreases s.len() - k,
    {
        k = k + 1;
    }
    let at = if k < iter.len() {
        iter[k].0
    } else {
        total
    };
    proof {
        lemma_byte_offset_bounds(s, k as int);
    }
    if at != idx {
        proof {
            assert forall|m: int| 0 <= m <= s.len() implies byte_offset(s, m) != idx by {
                if m < k {
                } else if m > k {
                    lemma_offset_injective(s, k as int, m);
                }
            }
        }
        return false;
    }
    proof {
        assert(is_char_start(s, idx as int));
        let k0 = char_index_at(s, idx as int);
        if k0 != k {
            if k0 < k {
                lemma_offset_injective(s, k0, k as int);
            } else {
                lemma_offset_injective(s, k as int, k0);
            }
        }
        lemma_last_ws(s, k as int);
    }
    let mut j = k;
    while j > 0 && !char_is_whitespace(iter[j - 1].1)
        invariant
            iter@.len() == s.len(),
            forall|i: int| 0 <= i < iter@.len() ==> (#[trigger] iter@[i]).1 == s[i] && iter@[i].0 == byte_offset(s, i),
            j <= k,
            k <= s.len(),
            last_ws_before(s, k as int) == last_ws_before(s, j as int),
        decreases j,
    {
        j = j - 1;
    }
    if j > 0 {
        let c = iter[j - 1].1;
        proof {
            crate::text::lemma_encode_single(c);
        }
        (c as u32) < 0x80
    } else {
        true
    }
}

// ---------------------------------------------------------------------------
// The agent window's state and what each user action does to it.
// ---------------------------------------------------------------------------

/// One entry of the chat.
#[derive(Debug)]
pub enum Block {
    Prompt(String),
    Answer,
    Code,
    /// Markdown source of an answer
    Markdown(String),
    Error(String),
}

pub enum BlockView {
    Prompt(Seq<char>),
    Answer,
    Code,
    Markdown(Seq<char>),
    Error(Seq<char>),
}

impl View for Block {
    type V = BlockView;

    open spec fn view(&self) -> BlockView {
        match self {
            Block::Prompt(s) => BlockView::Prompt(s@),
            Block::Answer => BlockView::Answer,
            Block::Code => BlockView::Code,
            Block::Markdown(s) => BlockView::Markdown(s@),
            Block::Error(s) => BlockView::Error(s@),
        }
    }
}

#[derive(Debug, Clone, Copy, PartialEq, Eq, Structural)]
pub enum AgentMode {
    Chat,
    Agent,
    Diff,
}

impl AgentMode {
    /// The name shown in the status bar.
    pub fn label(&self) -> (r: &'static str)
        ensures
            r@ == match self {
                AgentMode::Chat => "Chat"@,
                AgentMode::Agent => "Agent"@,
                AgentMode::Diff => "Diff"@,
            },
    {
        match self {
            AgentMode::Chat => "Chat",
            AgentMode::Agent => "Agent",
            AgentMode::Diff => "Diff",
        }
    }
}

/// What the user (or the application) does in an agent window.
#[derive(Debug)]
pub enum AgentEvent {
    Todo,
    InputChanged(String),
    ResponseRecived(Response),
    /// an edit of the prompt box (the edit itself is applied by the caller)
    InputEdit,
    /// the send button or Cmd+Enter, with the text of the prompt box
    PressedSend(String),
    SideBarCollapse,
    PropmtBarShown,
    PromptbarHidden,
    ErrorHappend(String),
}

pub enum AgentEventView {
    Todo,
    InputChanged(Seq<char>),
    ResponseRecived(Seq<char>, Seq<char>),
    InputEdit,
    PressedSend(Seq<char>),
    SideBarCollapse,
    PropmtBarShown,
    PromptbarHidden,
    ErrorHappend(Seq<char>),
}

impl View for AgentEvent {
    type V = AgentEventView;

    open spec fn view(&self) -> AgentEventView {
        match self {
            AgentEvent::Todo => AgentEventView::Todo,
            AgentEvent::InputChanged(s) => AgentEventView::InputChanged(s@),
            AgentEvent::ResponseRecived(r) => AgentEventView::ResponseRecived(r.id@, r.content@),
            AgentEvent::InputEdit => AgentEventView::InputEdit,
            AgentEvent::PressedSend(s) => AgentEventView::PressedSend(s@),
            AgentEvent::SideBarCollapse => AgentEventView::SideBarCollapse,
            AgentEvent::PropmtBarShown => AgentEventView::PropmtBarShown,
            AgentEvent::PromptbarHidden => AgentEventView::PromptbarHidden,
            AgentEvent::ErrorHappend(s) => AgentEventView::ErrorHappend(s@),
        }
    }
}

/// What the caller has to carry out after an agent window handled an event.
pub enum AgentAction {
    Nothing,
    /// show the word being edited in the chat preview
    ShowEditedWord(String),
    /// apply the edit to the prompt box
    PerformEdit,
    /// run the sidebar animation towards the collapsed or open state
    AnimateSidebar { collapsed: bool },
    /// clear the prompt box and ask the AI
    Ask { prompt: Prompt, prev_id: Option<String> },
    /// fade the prompt's icons in, or out when `reverse`
    FadeIcons { reverse: bool },
}

pub enum AgentActionView {
    Nothing,
    ShowEditedWord(Seq<char>),
    PerformEdit,
    AnimateSidebar(bool),
    Ask(Seq<char>, Seq<Segment>, Option<Seq<char>>),
    FadeIcons(bool),
}

pub open spec fn opt_view(o: Option<String>) -> Option<Seq<char>> {
    match o {
        Some(s) => Some(s@),
        None => None,
    }
}

impl View for AgentAction {
    type V = AgentActionView;

    open spec fn view(&self) -> AgentActionView {
        match self {
            AgentAction::Nothing => AgentActionView::Nothing,
            AgentAction::ShowEditedWord(s) => AgentActionView::ShowEditedWord(s@),
            AgentAction::PerformEdit => AgentActionView::PerformEdit,
            AgentAction::AnimateSidebar { collapsed } => AgentActionView::AnimateSidebar(*collapsed),
            AgentAction::Ask { prompt, prev_id } => AgentActionView::Ask(prompt.raw@, prompt.segments@, opt_view(*prev_id)),
            AgentAction::FadeIcons { reverse } => AgentActionView::FadeIcons(*reverse),
        }
    }
}

/// A chat session (kept for the sessions sidebar).
pub struct Session {
    id: u32,
    title: Option<String>,
    content: Vec<Block>,
    prev_id: String,
    pinned: bool,
    forked_from: Option<u32>,
    timestamp: u32,
}

/// The state of an agent window.
pub struct AgentWindow {
    id: u64,
    chat: Vec<Block>,
    input: String,
    is_busy: bool,
    mode: AgentMode,
    prev_id: Option<String>,
    sidebar_collapsed: bool,
    session: std::collections::HashMap<String, String>,
    selected_session: String,
}

pub struct AgentState {
    pub id: u64,
    pub chat: Seq<BlockView>,
    pub input: Seq<char>,
    pub is_busy: bool,
    pub mode: AgentMode,
    pub prev_id: Option<Seq<char>>,
    pub sidebar_collapsed: bool,
    pub session: Map<String, String>,
    pub selected_session: Seq<char>,
}

impl View for AgentWindow {
    type V = AgentState;

    closed spec fn view(&self) -> AgentState {
        AgentState {
            id: self.id,
            chat: self.chat@.map_values(|b: Block| b@),
            input: self.input@,
            is_busy: self.is_busy,
            mode: self.mode,
            prev_id: opt_view(self.prev_id),
            sidebar_collapsed: self.sidebar_collapsed,
            session: self.session@,
            selected_session: self.selected_session@,
        }
    }
}

/// The word being edited when the prompt text changes from `old` to `new`.
pub open spec fn edited_word(old: Seq<char>, new: Seq<char>) -> Seq<char> {
    let idx = diff_index(old, new);
    decode_utf8(encode_utf8(new).subrange(word_start(new, idx), word_end(new, idx)))
}

/// The text sent for a prompt typed as `text` (a space is added for easier
/// parsing).
pub open spec fn sent_text(text: Seq<char>) -> Seq<char> {
    text + " "@
}

/// `event` can be handled in state `s` without panicking: the edited word
/// can be cut out of a changed prompt, and a sent prompt can be parsed.
pub open spec fn event_ok(s: AgentState, event: AgentEventView) -> bool {
    match event {
        AgentEventView::InputChanged(new) => sub_str_defined(new, diff_index(s.input, new)),
        AgentEventView::PressedSend(text) => parse_defined(sent_text(text)),
        _ => true,
    }
}

/// What handling `event` does to an agent window in state `s`, and what the
/// caller is then to do.
pub open spec fn next(s: AgentState, event: AgentEventView) -> (AgentState, AgentActionView) {
    match event {
        AgentEventView::Todo => (s, AgentActionView::Nothing),
        AgentEventView::InputChanged(new) => (
            AgentState { input: new, ..s },
            AgentActionView::ShowEditedWord(edited_word(s.input, new)),
        ),
        AgentEventView::ResponseRecived(id, content) => (
            AgentState {
                is_busy: false,
                prev_id: Some(id),
                chat: s.chat.push(BlockView::Markdown(content)),
                ..s
            },
            AgentActionView::Nothing,
        ),
        AgentEventView::InputEdit => (s, AgentActionView::PerformEdit),
        AgentEventView::PressedSend(text) => (
            AgentState { is_busy: true, chat: s.chat.push(BlockView::Prompt(text)), ..s },
            AgentActionView::Ask(sent_text(text), spec_parse_segments(sent_text(text)), s.prev_id),
        ),
        AgentEventView::SideBarCollapse => (
            AgentState { sidebar_collapsed: !s.sidebar_collapsed, ..s },
            AgentActionView::AnimateSidebar(!s.sidebar_collapsed),
        ),
        AgentEventView::PropmtBarShown => (s, AgentActionView::FadeIcons(false)),
        AgentEventView::PromptbarHidden => (s, AgentActionView::FadeIcons(true)),
        AgentEventView::ErrorHappend(e) => (
            AgentState { is_busy: false, chat: s.chat.push(BlockView::Error(e)), ..s },
            AgentActionView::Nothing,
        ),
    }
}

/// `event` for an agent window is fine to hand to it in state `s`.
pub open spec fn child_event_ok(s: AgentState, event: ChildEvent) -> bool {
    match event {
        ChildEvent::Agent(e) => event_ok(s, e@),
        _ => true,
    }
}

/// What an agent window does with a child event: its own events are
/// handled, those of other windows are ignored.
pub open spec fn next_child(s: AgentState, event: ChildEvent) -> (AgentState, AgentActionView) {
    match event {
        ChildEvent::Agent(e) => next(s, e@),
        _ => (s, AgentActionView::Nothing),
    }
}

/// The state of a new agent window with id `id`: an empty chat and
/// prompt, not busy, in chat mode, no previous response, the sidebar open.
pub open spec fn initial_agent_state(id: u64) -> AgentState {
    AgentState {
        id,
        chat: Seq::empty(),
        input: Seq::empty(),
        is_busy: false,
        mode: AgentMode::Chat,
        prev_id: None,
        sidebar_collapsed: false,
        session: Map::empty(),
        selected_session: Seq::empty(),
    }
}

impl AgentWindow {
    /// A new agent window with id `id`: an empty chat, not busy, in chat
    /// mode, no previous response, the sidebar open.
    pub fn new(id: u64) -> (r: Self)
        ensures
            r@ == initial_agent_state(id),
    {
        let r = Self {
            id,
            chat: Vec::new(),
            input: String::new(),
            is_busy: false,
            mode: AgentMode::Chat,
            prev_id: None,
            sidebar_collapsed: false,
            session: std::collections::HashMap::new(),
            selected_session: String::new(),
        };
        assert(r@.chat =~= Seq::<BlockView>::empty());
        assert(r@.session =~= Map::<String, String>::empty());
        r
    }

    /// Handles `event`: agent events change the window's state as `next`
    /// says; other windows' events are ignored.
    pub fn update(&mut self, event: ChildEvent) -> (r: AgentAction)
        requires
            child_event_ok(old(self)@, event),
        ensures
            (final(self)@, r@) == next_child(old(self)@, event),
    {
        let event = match event {
            ChildEvent::Agent(e) => e,
            _ => {
                return AgentAction::Nothing;
            },
        };
        let ghost pre = self@;
        match event {
            AgentEvent::ErrorHappend(e) => {
                self.chat.push(Block::Error(e));
                self.is_busy = false;
                assert(self@.chat =~= pre.chat.push(BlockView::Error(e@)));
                AgentAction::Nothing
            },
            AgentEvent::SideBarCollapse => {
                self.sidebar_collapsed = !self.sidebar_collapsed;
                AgentAction::AnimateSidebar { collapsed: self.sidebar_collapsed }
            },
            AgentEvent::Todo => AgentAction::Nothing,
            AgentEvent::InputChanged(s) => {
                let idx = diff(self.input.as_str(), s.as_str());
                let piece = sub_str(s.as_str(), idx);
                proof {
                    vstd::utf8::encode_utf8_decode_utf8(piece@);
                }
                let word = piece.to_string();
                self.input = s;
                AgentAction::ShowEditedWord(word)
            },
            AgentEvent::ResponseRecived(r) => {
                self.is_busy = false;
                self.prev_id = Some(r.id);
                self.chat.push(Block::Markdown(r.content));
                assert(self@.chat =~= pre.chat.push(BlockView::Markdown(r.content@)));
                AgentAction::Nothing
            },
            AgentEvent::InputEdit => AgentAction::PerformEdit,
            AgentEvent::PressedSend(text) => {
                let mut str = text.clone();
                self.chat.push(Block::Prompt(text));
                self.is_busy = true;
                // add a space for easier parsing
                str.append(" ");
                assert(self@.chat =~= pre.chat.push(BlockView::Prompt(text@)));
                let prev_id = match &self.prev_id {
                    Some(p) => Some(p.clone()),
                    None => None,
                };
                AgentAction::Ask { prompt: Prompt::from(str), prev_id }
            },
            AgentEvent::PropmtBarShown => AgentAction::FadeIcons { reverse: false },
            AgentEvent::PromptbarHidden => AgentAction::FadeIcons { reverse: true },
        }
    }

    /// Whether `event` may be handed to `update` (the condition a caller
    /// tests first; where it fails, handling the event would panic or not
    /// return).
    pub fn accepts(&self, event: &ChildEvent) -> (r: bool)
        ensures
            r == child_event_ok(self@, *event),
    {
        match event {
            ChildEvent::Agent(AgentEvent::InputChanged(s)) => {
                let idx = diff(self.input.as_str(), s.as_str());
                sub_str_ok(s.as_str(), idx)
            },
            ChildEvent::Agent(AgentEvent::PressedSend(text)) => {
                let mut str = text.clone();
                str.append(" ");
                Prompt::checked_from(str).is_some()
            },
            _ => true,
        }
    }

    pub fn id(&self) -> (r: u64)
        ensures
            r == self@.id,
    {
        self.id
    }

    pub fn chat(&self) -> (r: &Vec<Block>)
        ensures
            r@.map_values(|b: Block| b@) == self@.chat,
    {
        &self.chat
    }

    pub fn is_busy(&self) -> (r: bool)
        ensures
            r == self@.is_busy,
    {
        self.is_busy
    }

    pub fn sidebar_collapsed(&self) -> (r: bool)
        ensures
            r == self@.sidebar_collapsed,
    {
        self.sidebar_collapsed
    }

    pub fn mode(&self) -> (r: AgentMode)
        ensures
            r == self@.mode,
    {
        self.mode
    }

    /// Whether the send button takes a press: no answer is awaited and the
    /// prompt editor holds some text (`editor_text`).
    pub fn can_send(&self, editor_text: &str) -> (r: bool)
        ensures
            r == (!self@.is_busy && editor_text@.len() > 0),
    {
        let chars = chars_of(editor_text);
        !self.is_busy && chars.len() > 0
    }
}

// ---------------------------------------------------------------------------
// The prompt editor.
// ---------------------------------------------------------------------------

/// The command shortcuts the prompt editor keeps: copy, paste and cut.
pub open spec fn is_clipboard_key(key: Seq<char>) -> bool {
    key == seq!['c'] || key == seq!['v'] || key == seq!['x']
}

/// Whether the prompt editor handles a key press. A press with the command
/// modifier is left to the application, except copy, paste and cut. `key` is
/// the text the key produces, `None` for a named key (arrows, Enter, ...).
pub fn editor_takes_key(command: bool, key: Option<&str>) -> (r: bool)
    ensures
        r == (!command || (key is Some && is_clipboard_key(key->0@))),
{
    if !command {
        return true;
    }
    match key {
        Some(k) => {
            let chars = chars_of(k);
            if chars.len() == 1 {
                let c = chars[0];
                assert(k@ =~= seq![c]);
                c == 'c' || c == 'v' || c == 'x'
            } else {
                assert(k@.len() != 1);
                false
            }
        },
        None => false,
    }
}

/// The line count of the prompt editor, kept between 3 and 10.
pub open spec fn clamp_lines(lines: u32) -> int {
    if lines < 3 {
        3
    } else if lines > 10 {
        10
    } else {
        lines as int
    }
}

/// Height in pixels of the prompt editor for `lines` lines of text: 20 per
/// line, showing at least 3 lines and at most 10.
pub fn input_box_height(lines: u32) -> (h: u32)
    ensures
        h == 20 * clamp_lines(lines),
{
    let shown: u32 = if lines < 3 {
        3
    } else if lines > 10 {
        10
    } else {
        lines
    };
    20 * shown
}

// ---------------------------------------------------------------------------
// Laws of the agent window.
// ---------------------------------------------------------------------------

/// The chat only grows: every event keeps the chat as it was or appends
/// exactly one block.
pub proof fn law_chat_append_only(s: AgentState, event: AgentEventView)
    ensures
        next(s, event).0.chat == s.chat || exists|b: BlockView| next(s, event).0.chat == s.chat.push(b),
{
    match event {
        AgentEventView::ResponseRecived(id, content) => {
            assert(next(s, event).0.chat == s.chat.push(BlockView::Markdown(content)));
        },
        AgentEventView::PressedSend(text) => {
            assert(next(s, event).0.chat == s.chat.push(BlockView::Prompt(text)));
        },
        AgentEventView::ErrorHappend(e) => {
            assert(next(s, event).0.chat == s.chat.push(BlockView::Error(e)));
        },
        _ => {},
    }
}

/// The window is busy from sending a prompt until an answer or an error
/// arrives; no other event changes that.
pub proof fn law_busy_until_answer(s: AgentState, event: AgentEventView)
    ensures
        next(s, event).0.is_busy == match event {
            AgentEventView::PressedSend(_) => true,
            AgentEventView::ResponseRecived(_, _) => false,
            AgentEventView::ErrorHappend(_) => false,
            _ => s.is_busy,
        },
{
}

/// Collapsing the sidebar twice gives the window back as it was.
pub proof fn law_sidebar_toggle_twice(s: AgentState)
    ensures
        next(next(s, AgentEventView::SideBarCollapse).0, AgentEventView::SideBarCollapse).0 == s,
{
}

/// After an answer with id `id` arrives, the next prompt sent continues
/// that conversation: it is asked with `id` as the previous response.
pub proof fn law_conversation_continues(s: AgentState, id: Seq<char>, content: Seq<char>, text: Seq<char>)
    ensures
        next(next(s, AgentEventView::ResponseRecived(id, content)).0, AgentEventView::PressedSend(text)).1
            == AgentActionView::Ask(sent_text(text), spec_parse_segments(sent_text(text)), Some(id)),
{
}

/// The prompt that is asked is the typed text with a space appended, parsed.
pub proof fn law_sent_prompt(s: AgentState, text: Seq<char>)
    ensures
        next(s, AgentEventView::PressedSend(text)).1 == AgentActionView::Ask(
            text + " "@,
            spec_parse_segments(text + " "@),
            s.prev_id,
        ),
        next(s, AgentEventView::PressedSend(text)).0.chat.last() == BlockView::Prompt(text),
{
}

/// A change of the prompt text is recorded: after `InputChanged(new)` the
/// window holds `new` as its text and nothing else changes, and the word
/// shown for the next change is found against `new`, not against an older
/// text.
pub proof fn law_input_change_recorded(s: AgentState, new: Seq<char>, newer: Seq<char>)
    ensures
        next(s, AgentEventView::InputChanged(new)).0.input == new,
        next(s, AgentEventView::InputChanged(new)).0 == (AgentState { input: new, ..s }),
        next(s, AgentEventView::InputChanged(new)).1 == AgentActionView::ShowEditedWord(edited_word(s.input, new)),
        next(next(s, AgentEventView::InputChanged(new)).0, AgentEventView::InputChanged(newer)).1
            == AgentActionView::ShowEditedWord(edited_word(new, newer)),
{
}

} // verus!
