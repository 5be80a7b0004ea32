//! Which surface the keyboard belongs to.

use vstd::prelude::*;

use crate::browser::{saying, Browser, ChromeView, Command, Inspector, State, Surface};
use crate::tab::TabView;

verus! {

/// The chrome with nothing popped up.
pub open spec fn nothing_popped_up(chrome: ChromeView) -> ChromeView {
    ChromeView { menu: None, suggestions: seq![], ..chrome }
}

/// A browser whose chrome has put away whatever it had popped up.
pub open spec fn popup_dismissed(s: State) -> State {
    State {
        chrome: nothing_popped_up(s.chrome),
        told: s.told.push(Command::DismissPopup),
        ..s
    }
}

/// A browser that has put away what its chrome has popped up, unless it is the chrome
/// that takes the keyboard.
pub open spec fn closed_unless_chrome(s: State, surface: Surface) -> State {
    if surface != Surface::Chrome {
        State { context: None, ..popup_dismissed(s) }
    } else {
        s
    }
}

/// A browser that has told every surface but `surface` to let the keyboard go.
pub open spec fn others_blurred(s: State, surface: Surface) -> State {
    s.telling_if(surface != Surface::Chrome, Command::BlurChrome).telling_if(
        surface != Surface::Page && s.tab().page is Some,
        Command::BlurPage(s.tab().id),
    ).telling_if(surface != Surface::Inspector, Command::BlurInspector).telling_if(
        surface != Surface::System,
        Command::BlurSystem,
    )
}

/// A browser that has given the keyboard to `surface`.
pub open spec fn activated(s: State, surface: Surface) -> State {
    if s.keyboard == surface {
        s
    } else {
        State {
            keyboard: surface,
            accessibility_dirty: true,
            ..others_blurred(closed_unless_chrome(s, surface), surface)
        }
    }
}

/// The surface the keyboard naturally belongs to for what a tab shows.
pub open spec fn surface_of(tab: TabView) -> Surface {
    if tab.system is Some {
        Surface::System
    } else if tab.page is Some || tab.pending is Some || tab.error is Some {
        Surface::Page
    } else {
        Surface::Chrome
    }
}

impl Browser {
    /// Put away whatever the chrome has popped up.
    pub fn dismiss_popup(&mut self)
        requires
            old(self).wf(),
        ensures
            final(self).wf(),
            final(self)@ == popup_dismissed(old(self)@),
    {
        proof {
            reveal(Browser::state);
        }
        self.chrome.menu = None;
        self.chrome.suggestions = Vec::new();
        self.told.push(Command::DismissPopup);
        assert(self.chrome@.suggestions =~= seq![]);
    }

    /// The natural keyboard surface for what the active tab currently shows.
    pub fn tab_surface(&self) -> (surface: Surface)
        requires
            self.wf(),
        ensures
            surface == surface_of(self@.tab()),
    {
        let tab = self.active_tab();
        if tab.system.is_some() {
            Surface::System
        } else if tab.page.is_some() || tab.pending.is_some() || tab.error.is_some() {
            Surface::Page
        } else {
            Surface::Chrome
        }
    }

    /// Give one surface exclusive ownership of keyboard-like input.
    ///
    /// A popup belongs to the surface that opened it, so a surface becoming the active
    /// one puts away whatever popup the previous one had open. Switching tabs, opening
    /// a browser page and pressing into the panel all arrive here.
    pub fn activate_surface(&mut self, surface: Surface)
        requires
            old(self).wf(),
        ensures
            final(self).wf(),
            final(self)@ == activated(old(self)@, surface),
    {
        if self.keyboard_surface() == surface {
            return;
        }
        self.close_unless_chrome(surface);
        self.blur_others(surface);
        self.own_keyboard(surface);
    }

    /// Note that `surface` owns the keyboard now, which a screen reader is told about.
    fn own_keyboard(&mut self, surface: Surface)
        requires
            old(self).wf(),
        ensures
            final(self).wf(),
            final(self)@ == (State {
                keyboard: surface,
                accessibility_dirty: true,
                ..old(self)@
            }),
    {
        proof {
            reveal(Browser::state);
        }
        self.keyboard = surface;
        self.accessibility_dirty = true;
    }

    /// Put away what the chrome has popped up, unless it is the chrome that takes the
    /// keyboard.
    fn close_unless_chrome(&mut self, surface: Surface)
        requires
            old(self).wf(),
        ensures
            final(self).wf(),
            final(self)@ == closed_unless_chrome(old(self)@, surface),
    {
        proof {
            reveal(Browser::state);
        }
        if surface != Surface::Chrome {
            self.dismiss_popup();
            self.context = None;
        }
    }

    /// Tell every surface but `surface` to let the keyboard go.
    fn blur_others(&mut self, surface: Surface)
        requires
            old(self).wf(),
        ensures
            final(self).wf(),
            final(self)@ == others_blurred(old(self)@, surface),
    {
        let id = self.active_tab().id;
        let shown = self.active_tab().page.is_some();
        self.tell_if(surface != Surface::Chrome, Command::BlurChrome);
        self.tell_if(surface != Surface::Page && shown, Command::BlurPage(id));
        self.tell_if(surface != Surface::Inspector, Command::BlurInspector);
        self.tell_if(surface != Surface::System, Command::BlurSystem);
    }

    /// Show or hide developer tools and move keyboard ownership with the panel.
    pub fn toggle_inspector(&mut self)
        requires
            old(self).wf(),
        ensures
            final(self).wf(),
            final(self)@ == inspector_toggled(old(self)@),
    {
        let open = !self.inspector().open;
        self.show_inspector(open);
        let surface = if open {
            Surface::Inspector
        } else {
            self.tab_surface()
        };
        self.activate_surface(surface);
    }

    /// Show or hide the panel.
    fn show_inspector(&mut self, open: bool)
        requires
            old(self).wf(),
        ensures
            final(self).wf(),
            final(self)@ == (State {
                inspector: Inspector { open, ..old(self)@.inspector },
                ..old(self)@
            }),
    {
        proof {
            reveal(Browser::state);
        }
        self.inspector.open = open;
    }
}

/// A browser whose developer tools were shown or hidden.
pub open spec fn inspector_toggled(s: State) -> State {
    let inspector = Inspector { open: !s.inspector.open, ..s.inspector };
    let toggled = State { inspector, ..s };
    activated(
        toggled,
        if inspector.open {
            Surface::Inspector
        } else {
            surface_of(s.tab())
        },
    )
}

/// After any surface is activated it is the one that owns the keyboard, and unless it
/// owned it already every other surface that could hold it has been told to let go.
pub proof fn one_surface_owns_the_keyboard(s: State, surface: Surface)
    ensures
        activated(s, surface).keyboard == surface,
        s.keyboard != surface ==> {
            let said = activated(s, surface).told;
            &&& surface != Surface::Chrome ==> said.contains(Command::BlurChrome)
            &&& surface != Surface::Page && s.tab().page is Some ==> said.contains(
                Command::BlurPage(s.tab().id),
            )
            &&& surface != Surface::Inspector ==> said.contains(Command::BlurInspector)
            &&& surface != Surface::System ==> said.contains(Command::BlurSystem)
        },
{
    reveal(saying);
    if s.keyboard != surface {
        let a = closed_unless_chrome(s, surface);
        let tab = s.tab();
        assert(a.tab() == tab);
        let b = a.telling_if(surface != Surface::Chrome, Command::BlurChrome);
        let c = b.telling_if(
            surface != Surface::Page && tab.page is Some,
            Command::BlurPage(tab.id),
        );
        let d = c.telling_if(surface != Surface::Inspector, Command::BlurInspector);
        let e = d.telling_if(surface != Surface::System, Command::BlurSystem);
        assert(e.told == activated(s, surface).told);
        if surface != Surface::Chrome {
            assert(e.told[b.told.len() - 1] == Command::BlurChrome);
        }
        if surface != Surface::Page && tab.page is Some {
            assert(e.told[c.told.len() - 1] == Command::BlurPage(tab.id));
        }
        if surface != Surface::Inspector {
            assert(e.told[d.told.len() - 1] == Command::BlurInspector);
        }
        if surface != Surface::System {
            assert(e.told[e.told.len() - 1] == Command::BlurSystem);
        }
    }
}

/// A menu asked for on the page does not outlive the page's turn at the keyboard: a
/// surface other than the chrome that takes it leaves no menu and nothing offered.
pub proof fn a_surface_taking_the_keyboard_closes_what_was_popped_up(s: State, surface: Surface)
    requires
        surface != Surface::Chrome,
        s.keyboard != surface,
    ensures
        activated(s, surface).context is None,
        activated(s, surface).chrome.menu is None,
        activated(s, surface).chrome.suggestions.len() == 0,
{
}

/// Showing the developer tools and hiding them again gives the keyboard back to what
/// the tab shows.
pub proof fn hiding_developer_tools_returns_the_keyboard(s: State)
    requires
        !s.inspector.open,
    ensures
        inspector_toggled(s).inspector.open,
        inspector_toggled(s).keyboard == Surface::Inspector,
        !inspector_toggled(inspector_toggled(s)).inspector.open,
        inspector_toggled(inspector_toggled(s)).keyboard == surface_of(s.tab()),
{
}

/// The surface that takes the keyboard is not told to let it go, and a change of who has it is
/// something to tell a screen reader of; taking what one has already changes nothing.
pub proof fn the_surface_that_takes_it_keeps_it(s: State, surface: Surface)
    ensures
        s.keyboard == surface ==> activated(s, surface) == s,
        s.keyboard != surface ==> {
            let after = activated(s, surface);
            &&& after.accessibility_dirty
            &&& forall|i: int|
                s.told.len() <= i < after.told.len() ==> {
                    &&& surface == Surface::Chrome ==> #[trigger] after.told[i]
                        != Command::BlurChrome && after.told[i] != Command::DismissPopup
                    &&& surface == Surface::Page ==> after.told[i] != Command::BlurPage(s.tab().id)
                    &&& surface == Surface::Inspector ==> after.told[i] != Command::BlurInspector
                    &&& surface == Surface::System ==> after.told[i] != Command::BlurSystem
                }
            &&& surface == Surface::Chrome ==> after.chrome == s.chrome && after.context
                == s.context
        },
{
    reveal(saying);
}

} // verus!
