//! The registry of open windows and the dispatch of window events.

use vstd::prelude::*;
use vstd::std_specs::iter::IteratorSpec;

use crate::agent::{
    child_event_ok, initial_agent_state, next_child, AgentAction, AgentActionView, AgentEvent, AgentState, AgentWindow,
};
use crate::settings::{Settings, SettingsEvent};

verus! {

#[derive(Debug, Clone, Copy, PartialEq, Eq, Structural)]
pub enum WindowKind {
    Agent,
    Settings,
}

/// An event meant for one window.
#[derive(Debug)]
pub enum ChildEvent {
    Agent(AgentEvent),
    Chat,
    Settings(SettingsEvent),
}

impl WindowKind {
    /// The user-facing error for a window of this kind: an agent window
    /// shows it in its chat. Only agent windows can show one; the other
    /// kinds do not implement it.
    pub fn create_user_error(&self, str: String) -> (r: ChildEvent)
        requires
            *self == WindowKind::Agent,
        ensures
            r matches ChildEvent::Agent(AgentEvent::ErrorHappend(e)) && e@ == str@,
    {
        ChildEvent::Agent(AgentEvent::ErrorHappend(str))
    }
}

/// A window and its state.
pub enum SgWindow {
    Agent(AgentWindow),
    Settings(Settings),
}

pub enum SgWindowView {
    Agent(AgentState),
    Settings(Settings),
}

impl View for SgWindow {
    type V = SgWindowView;

    open spec fn view(&self) -> SgWindowView {
        match self {
            SgWindow::Agent(a) => SgWindowView::Agent(a@),
            SgWindow::Settings(s) => SgWindowView::Settings(*s),
        }
    }
}

pub open spec fn kind_of(w: SgWindowView) -> WindowKind {
    match w {
        SgWindowView::Agent(_) => WindowKind::Agent,
        SgWindowView::Settings(_) => WindowKind::Settings,
    }
}

/// `event` may be handed to the window `w`.
pub open spec fn window_event_ok(w: SgWindowView, event: ChildEvent) -> bool {
    match w {
        SgWindowView::Agent(a) => child_event_ok(a, event),
        SgWindowView::Settings(_) => true,
    }
}

/// What window `w` does with `event`.
pub open spec fn window_next(w: SgWindowView, event: ChildEvent) -> (SgWindowView, AgentActionView) {
    match w {
        SgWindowView::Agent(a) => (SgWindowView::Agent(next_child(a, event).0), next_child(a, event).1),
        SgWindowView::Settings(s) => (SgWindowView::Settings(s.next(event)), AgentActionView::Nothing),
    }
}

impl SgWindow {
    /// A new window of `kind` with id `id`.
    pub fn sg_window_from_kind(id: u64, kind: WindowKind) -> (r: SgWindow)
        ensures
            kind_of(r@) == kind,
            r@ matches SgWindowView::Agent(a) ==> a == initial_agent_state(id),
            r@ matches SgWindowView::Settings(s) ==> s == Settings::initial(id),
    {
        match kind {
            WindowKind::Agent => SgWindow::Agent(AgentWindow::new(id)),
            WindowKind::Settings => SgWindow::Settings(Settings::new(id)),
        }
    }

    pub fn kind(&self) -> (r: WindowKind)
        ensures
            r == kind_of(self@),
    {
        match self {
            SgWindow::Agent(_) => WindowKind::Agent,
            SgWindow::Settings(_) => WindowKind::Settings,
        }
    }

    pub fn accepts(&self, event: &ChildEvent) -> (r: bool)
        ensures
            r == window_event_ok(self@, *event),
    {
        match self {
            SgWindow::Agent(a) => a.accepts(event),
            SgWindow::Settings(_) => true,
        }
    }

    /// Hands `event` to the window.
    pub fn update(&mut self, event: ChildEvent) -> (r: AgentAction)
        requires
            window_event_ok(old(self)@, event),
        ensures
            (final(self)@, r@) == window_next(old(self)@, event),
    {
        match self {
            SgWindow::Agent(agent) => agent.update(event),
            SgWindow::Settings(settings) => {
                settings.update(event);
                AgentAction::Nothing
            },
        }
    }
}

/// The open windows, by id.
pub struct WindowManager {
    windows: std::collections::HashMap<u64, SgWindow>,
}

impl View for WindowManager {
    type V = Map<u64, SgWindowView>;

    closed spec fn view(&self) -> Map<u64, SgWindowView> {
        self.windows@.map_values(|w: SgWindow| w@)
    }
}

impl Default for WindowManager {
    /// No windows.
    fn default() -> (r: Self)
        ensures
            r@ == Map::<u64, SgWindowView>::empty(),
    {
        let r = WindowManager { windows: std::collections::HashMap::new() };
        assert(r@ =~= Map::<u64, SgWindowView>::empty());
        r
    }
}

impl WindowManager {

    /// Registers `window` under `id` (replacing any window with that id).
    pub fn insert(&mut self, id: u64, window: SgWindow)
        ensures
            final(self)@ == old(self)@.insert(id, window@),
    {
        broadcast use vstd::std_specs::hash::group_hash_axioms;
        self.windows.insert(id, window);
        assert(self@ =~= old(self)@.insert(id, window@));
    }

    /// Forgets the window `id`.
    pub fn remove(&mut self, id: &u64)
        ensures
            final(self)@ == old(self)@.remove(*id),
    {
        broadcast use vstd::std_specs::hash::group_hash_axioms;
        self.windows.remove(id);
        assert(self@ =~= old(self)@.remove(*id));
    }

    /// Some open window of `kind`, or `None` when there is none. Which one,
    /// where there are several, depends on the order of the hash map.
    pub fn find_first(&self, kind: WindowKind) -> (r: Option<u64>)
        ensures
            r matches Some(id) ==> self@.contains_key(id) && kind_of(self@[id]) == kind,
            r is None ==> forall|id: u64| #[trigger] self@.contains_key(id) ==> kind_of(self@[id]) != kind,
    {
        broadcast use vstd::std_specs::hash::group_hash_axioms;
        let ghost m = self.windows@;
        let ghost items = vstd::std_specs::hash::spec_hash_map_iter(&self.windows).remaining();
        let ghost mut checked: int = 0;
        for (id, window) in it: self.windows.iter()
            invariant
                m == self.windows@,
                it.seq() == items,
                checked == it.index(),
                items.len() == m.dom().len(),
                forall|i: int| 0 <= i < items.len() ==> m.contains_key(*(#[trigger] items[i]).0) && m[*items[i].0] == *items[i].1,
                forall|k: u64| #[trigger] m.contains_key(k) ==> items.contains((&k, &m[k])),
                forall|i: int| 0 <= i < checked ==> kind_of((*(#[trigger] items[i]).1)@) != kind,
        {
            match (kind, window) {
                (WindowKind::Settings, SgWindow::Settings(..)) => {
                    return Some(*id);
                },
                (WindowKind::Agent, SgWindow::Agent(..)) => {
                    return Some(*id);
                },
                _ => {},
            }
            proof {
                checked = checked + 1;
            }
        }
        proof {
            assert forall|k: u64| #[trigger] self@.contains_key(k) implies kind_of(self@[k]) != kind by {
                assert(m.contains_key(k));
                let i = choose|i: int| 0 <= i < items.len() && items[i] == (&k, &m[k]);
                assert(kind_of((*items[i].1)@) != kind);
            }
        }
        None
    }

    /// Whether window `id` is open and is an agent window.
    pub fn is_agent(&self, id: u64) -> (r: bool)
        ensures
            r == (self@.contains_key(id) && kind_of(self@[id]) == WindowKind::Agent),
    {
        broadcast use vstd::std_specs::hash::group_hash_axioms;
        match self.windows.get(&id) {
            Some(SgWindow::Agent(..)) => true,
            _ => false,
        }
    }

    /// The window `id`, if open.
    pub fn get(&self, id: u64) -> (r: Option<&SgWindow>)
        ensures
            r matches Some(w) ==> self@.contains_key(id) && self@[id] == w@,
            r is None ==> !self@.contains_key(id),
    {
        broadcast use vstd::std_specs::hash::group_hash_axioms;
        self.windows.get(&id)
    }

    /// Whether `event` may be handed to window `id`.
    pub fn accepts(&self, id: u64, event: &ChildEvent) -> (r: bool)
        ensures
            r == (self@.contains_key(id) ==> window_event_ok(self@[id], *event)),
    {
        match self.get(id) {
            Some(w) => w.accepts(event),
            None => true,
        }
    }

    /// Hands `event` to window `id`: `None` when no such window is open
    /// (nothing changes), else what the window asks the caller to do.
    pub fn update(&mut self, id: u64, event: ChildEvent) -> (r: Option<AgentAction>)
        requires
            old(self)@.contains_key(id) ==> window_event_ok(old(self)@[id], event),
        ensures
            old(self)@.contains_key(id) ==> {
                &&& final(self)@ == old(self)@.insert(id, window_next(old(self)@[id], event).0)
                &&& r matches Some(a) && a@ == window_next(old(self)@[id], event).1
            },
            !old(self)@.contains_key(id) ==> final(self)@ == old(self)@ && r is None,
    {
        broadcast use vstd::std_specs::hash::group_hash_axioms;
        match self.windows.remove(&id) {
            Some(mut w) => {
                let a = w.update(event);
                self.windows.insert(id, w);
                assert(self@ =~= old(self)@.insert(id, window_next(old(self)@[id], event).0));
                Some(a)
            },
            None => {
                assert(self@ =~= old(self)@);
                None
            },
        }
    }
}

} // verus!
