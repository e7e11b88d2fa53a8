//! The settings window: which page is shown.

use vstd::prelude::*;

use crate::window_manager::ChildEvent;

verus! {

#[derive(Debug, Clone, Copy, PartialEq, Eq, Structural)]
pub enum SettingsEvent {
    PageChanged(SettingsPage),
}

#[derive(Debug, Clone, Copy, PartialEq, Eq, Structural)]
pub enum SettingsPage {
    General,
    Ai,
}

/// The general settings page (it holds no settings yet).
#[derive(Debug, Clone, Copy, PartialEq, Eq, Structural)]
pub struct Genral {}

impl Default for Genral {
    fn default() -> (r: Self)
        ensures
            r == (Genral {  }),
    {
        Genral {  }
    }
}

/// The state of a settings window.
#[derive(Debug, Clone, Copy, PartialEq, Eq, Structural)]
pub struct Settings {
    id: u64,
    current_page: SettingsPage,
    genral_settings: Genral,
}

impl Settings {
    pub closed spec fn spec_id(self) -> u64 {
        self.id
    }

    pub closed spec fn page(self) -> SettingsPage {
        self.current_page
    }

    /// What a settings window does with `event`: a page change shows that
    /// page, anything else changes nothing.
    pub closed spec fn next(self, event: ChildEvent) -> Settings {
        match event {
            ChildEvent::Settings(SettingsEvent::PageChanged(p)) => Settings { current_page: p, ..self },
            _ => self,
        }
    }

    /// A new settings window with id `id`.
    pub closed spec fn initial(id: u64) -> Settings {
        Settings { id, current_page: SettingsPage::General, genral_settings: Genral {  } }
    }

    /// A settings window with id `id`, on the general page.
    pub fn new(id: u64) -> (r: Self)
        ensures
            r == Settings::initial(id),
            r.spec_id() == id,
            r.page() == SettingsPage::General,
    {
        Self { id, current_page: SettingsPage::General, genral_settings: Genral::default() }
    }

    pub fn update(&mut self, event: ChildEvent)
        ensures
            *final(self) == old(self).next(event),
    {
        if let ChildEvent::Settings(settings_event) = event {
            match settings_event {
                SettingsEvent::PageChanged(settings_page) => self.current_page = settings_page,
            }
        }
    }

    /// Settings windows have no animations.
    pub fn is_aninating(&self) -> (r: bool)
        ensures
            !r,
    {
        false
    }

    pub fn current_page(&self) -> (r: SettingsPage)
        ensures
            r == self.page(),
    {
        self.current_page
    }

    pub fn id(&self) -> (r: u64)
        ensures
            r == self.spec_id(),
    {
        self.id
    }
}

} // verus!
