//! A session: the two views, and which of them is shown.
//!
//! Keys go to the view that is shown and to no other. `1` and `2` change the view,
//! unless the one that is shown waits for a text or an answer.
use vstd::prelude::*;

use crate::text;
use crate::tui::input::{Key, KeyCode};
use crate::tui::projects::{Input, ProjectsState, ProjectsView};
use crate::tui::simulators::{App, AppView, Event, InputMode, Moment};

verus! {

/// The views.
#[derive(Debug, Clone, Copy, PartialEq, Eq, Structural)]
pub enum Tab {
    Simulators,
    Projects,
}

/// The views and which of them is shown.
#[derive(Debug)]
pub struct Session {
    pub simulators: App,
    pub projects: ProjectsView,
    pub tab: Tab,
}

/// The content of a [`Session`].
#[verifier::ext_equal]
pub struct SessionView {
    pub simulators: AppView,
    pub projects: ProjectsState,
    pub tab: Tab,
}

impl View for Session {
    type V = SessionView;

    open spec fn view(&self) -> SessionView {
        SessionView { simulators: self.simulators@, projects: self.projects@, tab: self.tab }
    }
}

impl SessionView {
    /// Whether the views are sound.
    pub open spec fn sound(self) -> bool {
        self.simulators.sound() && self.projects.sound()
    }

    /// Whether the view that is shown waits for a text or an answer.
    pub open spec fn waits(self) -> bool {
        match self.tab {
            Tab::Simulators => self.simulators.mode is Edit || self.simulators.confirm_delete is Some
                || self.simulators.show_help,
            Tab::Projects => self.projects.input !is Normal,
        }
    }

    /// With the simulators shown.
    pub open spec fn showing_simulators(self) -> SessionView {
        SessionView {
            simulators: AppView { dirty: true, ..self.simulators },
            tab: Tab::Simulators,
            ..self
        }
    }

    /// With the projects shown.
    pub open spec fn showing_projects(self) -> SessionView {
        SessionView {
            projects: ProjectsState { dirty: true, ..self.projects.begun() },
            tab: Tab::Projects,
            ..self
        }
    }

    /// After a key in the projects view. A `q` that means nothing there quits.
    pub open spec fn after_project_key(self, key: Key) -> SessionView {
        let (projects, handled) = self.projects.after_key(key);
        SessionView {
            simulators: AppView {
                quit: self.simulators.quit || (!handled && key.code == KeyCode::Char('q')),
                ..self.simulators
            },
            projects,
            ..self
        }
    }

    /// After a key.
    pub open spec fn after_key(
        self,
        key: Key,
        home: Option<Seq<char>>,
        clock: u64,
    ) -> SessionView {
        if !self.waits() && key.code == KeyCode::Char('1') {
            self.showing_simulators()
        } else if !self.waits() && key.code == KeyCode::Char('2') {
            self.showing_projects()
        } else {
            match self.tab {
                Tab::Simulators => SessionView {
                    simulators: self.simulators.after_key(key, home, clock),
                    ..self
                },
                Tab::Projects => self.after_project_key(key),
            }
        }
    }

    /// After what came of a request of the simulators view: the devices of a snapshot
    /// are those that the projects view chooses from.
    pub open spec fn after_event(self, event: Event, now: (u64, u32), clock: u64) -> SessionView {
        SessionView {
            simulators: self.simulators.after_event(event, now, clock),
            projects: match event {
                Event::Snapshot(Ok(snapshot)) => self.projects.with_devices(snapshot@.devices),
                _ => self.projects,
            },
            ..self
        }
    }
}

impl Session {
    /// A session that shows the simulators.
    pub fn new(simulators: App, projects: ProjectsView) -> (r: Self)
        ensures
            r@ == (SessionView {
                simulators: simulators@,
                projects: projects@,
                tab: Tab::Simulators,
            }),
    {
        Session { simulators, projects, tab: Tab::Simulators }
    }

    fn is_waiting(&self) -> (r: bool)
        ensures
            r == self@.waits(),
    {
        match self.tab {
            Tab::Simulators => {
                let typing = match &self.simulators.mode {
                    InputMode::Normal => false,
                    InputMode::Edit { .. } => true,
                };
                typing || self.simulators.confirm_delete.is_some() || self.simulators.show_help
            },
            Tab::Projects => match &self.projects.input {
                Input::Normal => false,
                _ => true,
            },
        }
    }

    fn show_simulators(&mut self)
        requires
            old(self)@.sound(),
        ensures
            final(self)@ == old(self)@.showing_simulators(),
            final(self)@.sound(),
    {
        self.tab = Tab::Simulators;
        self.simulators.dirty = true;
    }

    fn show_projects(&mut self)
        requires
            old(self)@.sound(),
        ensures
            final(self)@ == old(self)@.showing_projects(),
            final(self)@.sound(),
    {
        self.tab = Tab::Projects;
        self.projects.kickoff();
        self.projects.dirty = true;
    }

    fn project_key(&mut self, key: Key)
        requires
            old(self)@.sound(),
        ensures
            final(self)@ == old(self)@.after_project_key(key),
            final(self)@.sound(),
    {
        let handled = self.projects.handle_key(key);
        if !handled && key.code == KeyCode::Char('q') {
            self.simulators.quit = true;
        }
    }

    /// Takes in a key.
    pub fn handle_key(&mut self, key: Key, moment: &Moment)
        requires
            old(self)@.sound(),
        ensures
            final(self)@ == old(self)@.after_key(key, text::opt_text(moment.home), moment.clock),
            final(self)@.sound(),
    {
        let waiting = self.is_waiting();
        if !waiting && key.code == KeyCode::Char('1') {
            self.show_simulators();
        } else if !waiting && key.code == KeyCode::Char('2') {
            self.show_projects();
        } else {
            match self.tab {
                Tab::Simulators => self.simulators.handle_key(key, moment),
                Tab::Projects => self.project_key(key),
            }
        }
    }

    /// Takes in what came of a request of the simulators view.
    pub fn handle_event(&mut self, event: Event, moment: &Moment)
        requires
            old(self)@.sound(),
        ensures
            final(self)@ == old(self)@.after_event(event, moment.since_start@, moment.clock),
            final(self)@.sound(),
    {
        if let Event::Snapshot(Ok(snapshot)) = &event {
            self.projects.device_snapshot(snapshot.clone());
        }
        self.simulators.handle_event(event, moment);
    }
}

/// A view that is not shown gets no keys: whatever is typed into one view, the other
/// asks for nothing and stays as it was, except that it is shown, or that the session
/// ends.
pub proof fn hidden_views_get_no_keys(
    s: SessionView,
    key: Key,
    home: Option<Seq<char>>,
    clock: u64,
)
    ensures
        ({
            let after = s.after_key(key, home, clock);
            &&& s.tab == Tab::Projects ==> after.simulators == (AppView {
                dirty: after.simulators.dirty,
                quit: after.simulators.quit,
                ..s.simulators
            })
            &&& s.tab == Tab::Simulators && after.tab == s.tab ==> after.projects == s.projects
        }),
{
}

/// The keys 1 and 2 switch between the two views, unless a view waits for an answer; the
/// first switch to the projects loads the configuration and looks for them.
pub proof fn number_keys_switch_views(
    s: SessionView,
    home: Option<Seq<char>>,
    clock: u64,
    control: bool,
    shift: bool,
)
    ensures
        !s.waits() ==> s.after_key(
            Key { code: KeyCode::Char('1'), control, shift },
            home,
            clock,
        ).tab == Tab::Simulators,
        !s.waits() ==> s.after_key(
            Key { code: KeyCode::Char('2'), control, shift },
            home,
            clock,
        ).tab == Tab::Projects,
        s.waits() ==> s.after_key(
            Key { code: KeyCode::Char('1'), control, shift },
            home,
            clock,
        ).tab == s.tab,
        s.waits() ==> s.after_key(
            Key { code: KeyCode::Char('2'), control, shift },
            home,
            clock,
        ).tab == s.tab,
        !s.waits() && !s.projects.started ==> s.after_key(
            Key { code: KeyCode::Char('2'), control, shift },
            home,
            clock,
        ).projects.started,
        s.tab == Tab::Simulators && (s.simulators.mode is Edit
            || s.simulators.confirm_delete is Some || s.simulators.show_help) ==> s.waits(),
        s.tab == Tab::Projects && s.projects.input !is Normal ==> s.waits(),
{
}

} // verus!
