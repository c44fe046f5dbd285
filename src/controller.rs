use vstd::prelude::*;

use crate::catalog::{clamp_cursor, cursor_ok, next_cursor, prev_cursor, texts, CommandList};
use crate::output::{keep_tail, OutputBuffer, OUTPUT_CAPACITY};
use crate::process::{ChildProc, CHANNEL_CAPACITY};

verus! {

/// Whether the event loop goes on.
#[derive(Clone, Copy, PartialEq, Eq, Structural, Debug)]
pub enum AppState {
    Running,
    Quiting,
}

/// Whether a command is executing.
#[derive(Clone, Copy, PartialEq, Eq, Structural, Debug)]
pub enum RunState {
    Idle,
    Running,
}

/// The key of a key event, as far as the launcher tells keys apart.
#[derive(Clone, Copy, PartialEq, Eq, Structural, Debug)]
pub enum KeyCode {
    Up,
    Down,
    Enter,
    Char(char),
    Other,
}

/// A key event: its key and whether the control modifier alone was held.
#[derive(Clone, Copy, PartialEq, Eq, Structural, Debug)]
pub struct KeyPress {
    pub code: KeyCode,
    pub control: bool,
}

/// What the surrounding loop has to do after an event.
#[derive(Clone, Copy, PartialEq, Eq, Structural, Debug)]
pub enum Action {
    Nothing,
    /// Start the catalog entry at this index.
    Launch(usize),
    Quit,
}

/// What the controller's decisions depend on.
pub struct AppView {
    pub exit: AppState,
    pub run: RunState,
    pub selected: Option<usize>,
    pub len: nat,
    pub output: Seq<Seq<char>>,
}

pub open spec fn view_ok(a: AppView) -> bool {
    cursor_ok(a.selected, a.len)
}

/// Control together with `q` or `c`.
pub open spec fn is_quit(k: KeyPress) -> bool {
    k.control && (k.code == KeyCode::Char('q') || k.code == KeyCode::Char('c'))
}

/// The state after a key event. A quit key ends the loop in every run state;
/// while a command runs every other key is ignored. A launch starts with an
/// empty output window.
pub open spec fn key_step(a: AppView, k: KeyPress) -> AppView {
    if is_quit(k) {
        AppView { exit: AppState::Quiting, ..a }
    } else if a.run == RunState::Running {
        a
    } else {
        match k.code {
            KeyCode::Down => AppView { selected: next_cursor(a.selected, a.len), ..a },
            KeyCode::Up => AppView { selected: prev_cursor(a.selected, a.len), ..a },
            KeyCode::Enter => if a.selected is Some {
                AppView { run: RunState::Running, output: Seq::empty(), ..a }
            } else {
                a
            },
            _ => a,
        }
    }
}

/// The action that a key event asks for.
pub open spec fn key_action(a: AppView, k: KeyPress) -> Action {
    if is_quit(k) {
        Action::Quit
    } else if a.run == RunState::Idle && k.code == KeyCode::Enter && a.selected is Some {
        Action::Launch(a.selected->0)
    } else {
        Action::Nothing
    }
}

/// The state once a run is over, whether the command exited or never started.
pub open spec fn finish_step(a: AppView) -> AppView {
    AppView { run: RunState::Idle, ..a }
}

/// The state after each key of `keys` in turn.
pub open spec fn keys_step(a: AppView, keys: Seq<KeyPress>) -> AppView
    decreases keys.len(),
{
    if keys.len() == 0 {
        a
    } else {
        key_step(keys_step(a, keys.drop_last()), keys.last())
    }
}

/// The controller: the catalog with its cursor, the run state, and the
/// output of the current or last run.
pub struct App {
    exit: AppState,
    command_list: CommandList,
    run: RunState,
    child: ChildProc,
}

impl View for App {
    type V = AppView;

    closed spec fn view(&self) -> AppView {
        AppView {
            exit: self.exit,
            run: self.run,
            selected: self.command_list.cursor(),
            len: self.command_list.items().len(),
            output: self.child.lines(),
        }
    }
}

impl App {
    pub closed spec fn wf(&self) -> bool {
        self.command_list.wf() && self.child.wf()
    }

    /// The catalog, each command as its program followed by its arguments.
    pub closed spec fn items(&self) -> Seq<Seq<Seq<char>>> {
        self.command_list.items()
    }

    /// A controller over `command_list`: looping, idle, cursor as given.
    pub fn new(command_list: CommandList) -> (r: App)
        requires
            command_list.wf(),
        ensures
            r.wf(),
            r.items() == command_list.items(),
            r@.exit == AppState::Running,
            r@.run == RunState::Idle,
            r@.selected == command_list.cursor(),
            r@.output == Seq::<Seq<char>>::empty(),
    {
        App { exit: AppState::Running, command_list, run: RunState::Idle, child: ChildProc::new() }
    }

    /// The output window of the current or last run.
    pub fn output(&self) -> (r: &OutputBuffer)
        ensures
            r@ == self@.output,
    {
        self.child.output()
    }

    /// A sending handle onto the current run's output channel.
    pub fn output_sender(&self) -> std::sync::mpsc::SyncSender<String> {
        self.child.sender()
    }

    /// Moves the output lines queued now into the window, in arrival order,
    /// without waiting; returns them.
    pub fn drain_output(&mut self) -> (received: Vec<String>)
        requires
            old(self).wf(),
        ensures
            final(self).wf(),
            final(self).items() == old(self).items(),
            received@.len() <= CHANNEL_CAPACITY,
            final(self)@ == (AppView {
                output: keep_tail(old(self)@.output + texts(received@), OUTPUT_CAPACITY as nat),
                ..old(self)@
            }),
    {
        self.child.drain()
    }

    pub fn command_list(&self) -> (r: &CommandList)
        ensures
            r.items() == self.items(),
            r.cursor() == self@.selected,
            self.wf() ==> r.wf(),
    {
        &self.command_list
    }

    pub fn exit(&self) -> (r: AppState)
        ensures
            r == self@.exit,
    {
        self.exit
    }

    pub fn run_state(&self) -> (r: RunState)
        ensures
            r == self@.run,
    {
        self.run
    }

    /// Whether the event loop goes on.
    pub fn is_running(&self) -> (r: bool)
        ensures
            r == (self@.exit == AppState::Running),
    {
        self.exit == AppState::Running
    }

    pub fn is_quit_key(key: KeyPress) -> (r: bool)
        ensures
            r == is_quit(key),
    {
        key.control && (key.code == KeyCode::Char('q') || key.code == KeyCode::Char('c'))
    }

    /// Applies a key event and says what the surrounding loop must do.
    pub fn handle_key_event(&mut self, key_event: KeyPress) -> (act: Action)
        requires
            old(self).wf(),
        ensures
            final(self).wf(),
            final(self).items() == old(self).items(),
            final(self)@ == key_step(old(self)@, key_event),
            act == key_action(old(self)@, key_event),
    {
        if Self::is_quit_key(key_event) {
            self.exit = AppState::Quiting;
            return Action::Quit;
        }
        if self.run == RunState::Running {
            return Action::Nothing;
        }
        match key_event.code {
            KeyCode::Down => {
                self.select_next();
                Action::Nothing
            },
            KeyCode::Up => {
                self.select_previous();
                Action::Nothing
            },
            KeyCode::Enter => match self.run_selected_command() {
                Some(i) => Action::Launch(i),
                None => Action::Nothing,
            },
            _ => Action::Nothing,
        }
    }

    /// Starts a run of the selected command, if one is selected while idle;
    /// returns its index for the caller to spawn.
    pub fn run_selected_command(&mut self) -> (r: Option<usize>)
        requires
            old(self).wf(),
        ensures
            final(self).wf(),
            final(self).items() == old(self).items(),
            old(self)@.run == RunState::Idle ==> r == old(self)@.selected,
            old(self)@.run == RunState::Running ==> r is None,
            r is Some ==> final(self)@ == (AppView {
                run: RunState::Running,
                output: Seq::empty(),
                ..old(self)@
            }),
            r is None ==> final(self)@ == old(self)@,
            r matches Some(i) ==> i < old(self).items().len(),
    {
        if self.run == RunState::Running {
            return None;
        }
        match self.command_list.selected() {
            Some(i) => {
                self.run = RunState::Running;
                self.child = ChildProc::new();
                Some(i)
            },
            None => None,
        }
    }

    /// One frame's bookkeeping: moves the queued output into the window and,
    /// when `run_over` says the command exited and its output was read to the
    /// end, returns to idle; returns the lines moved.
    pub fn refresh(&mut self, run_over: bool) -> (received: Vec<String>)
        requires
            old(self).wf(),
        ensures
            final(self).wf(),
            final(self).items() == old(self).items(),
            received@.len() <= CHANNEL_CAPACITY,
            final(self)@ == (AppView {
                run: if run_over { RunState::Idle } else { old(self)@.run },
                output: keep_tail(old(self)@.output + texts(received@), OUTPUT_CAPACITY as nat),
                ..old(self)@
            }),
    {
        let received = self.drain_output();
        if run_over {
            self.finish_run();
        }
        received
    }

    /// Whether the loop may block until the next key: only while idle, so
    /// that a running command never holds up output or a quit key.
    pub fn input_may_block(&self) -> (r: bool)
        ensures
            r == (self@.run == RunState::Idle),
    {
        self.run == RunState::Idle
    }

    /// Ends the current run: the command exited, its output ended, or it
    /// could not be started.
    pub fn finish_run(&mut self)
        requires
            old(self).wf(),
        ensures
            final(self).wf(),
            final(self).items() == old(self).items(),
            final(self)@ == finish_step(old(self)@),
    {
        self.run = RunState::Idle;
    }

    pub fn select_next(&mut self)
        requires
            old(self).wf(),
        ensures
            final(self).wf(),
            final(self).items() == old(self).items(),
            final(self)@ == (AppView {
                selected: next_cursor(old(self)@.selected, old(self)@.len),
                ..old(self)@
            }),
    {
        self.command_list.select_next();
    }

    pub fn select_previous(&mut self)
        requires
            old(self).wf(),
        ensures
            final(self).wf(),
            final(self).items() == old(self).items(),
            final(self)@ == (AppView {
                selected: prev_cursor(old(self)@.selected, old(self)@.len),
                ..old(self)@
            }),
    {
        self.command_list.select_previous();
    }

    pub fn select_by_index(&mut self, index: usize)
        requires
            old(self).wf(),
        ensures
            final(self).wf(),
            final(self).items() == old(self).items(),
            final(self)@ == (AppView { selected: clamp_cursor(index, old(self)@.len), ..old(self)@ }),
    {
        self.command_list.select(index);
    }
}

/// Cursor moves never leave the catalog: from a valid state, any sequence of
/// keys keeps the cursor unset or on an index below the catalog's length; a
/// move down on the last index and a move up on index 0 stay put.
pub proof fn lemma_navigation_in_range(a: AppView, keys: Seq<KeyPress>)
    requires
        view_ok(a),
    ensures
        view_ok(keys_step(a, keys)),
        keys_step(a, keys).len == a.len,
        forall|i: usize| i + 1 == a.len ==> #[trigger] next_cursor(Some(i), a.len) == Some(i),
        a.len > 0 ==> prev_cursor(Some(0), a.len) == Some(0usize),
    decreases keys.len(),
{
    if keys.len() > 0 {
        lemma_navigation_in_range(a, keys.drop_last());
    }
}

/// With an empty catalog, idle and with nothing selected, any sequence of
/// up, down and enter keys leaves the state as it was and asks for nothing.
pub proof fn lemma_empty_catalog_stays_idle(a: AppView, keys: Seq<KeyPress>)
    requires
        a.len == 0,
        a.run == RunState::Idle,
        a.selected is None,
        forall|i: int|
            0 <= i < keys.len() ==> (#[trigger] keys[i]).code == KeyCode::Up || keys[i].code
                == KeyCode::Down || keys[i].code == KeyCode::Enter,
    ensures
        keys_step(a, keys) == a,
        forall|i: int| 0 <= i < keys.len() ==> key_action(a, #[trigger] keys[i]) == Action::Nothing,
    decreases keys.len(),
{
    if keys.len() > 0 {
        let init = keys.drop_last();
        assert forall|i: int| 0 <= i < init.len() implies (#[trigger] init[i]).code
            == KeyCode::Up || init[i].code == KeyCode::Down || init[i].code == KeyCode::Enter by {
            assert(init[i] == keys[i]);
        }
        lemma_empty_catalog_stays_idle(a, init);
        let k = keys.last();
        assert(k == keys[keys.len() - 1]);
        assert(key_step(a, k) == a);
    }
}

/// A quit key is acted on in every state, a running command included.
pub proof fn lemma_quit_always_handled(a: AppView, k: KeyPress)
    requires
        is_quit(k),
    ensures
        key_step(a, k).exit == AppState::Quiting,
        key_action(a, k) == Action::Quit,
{
}

/// Enter on a selected entry starts a run of that entry; when the command
/// cannot be started, ending the run gives back the idle state with the
/// cursor and catalog as they were and an empty output window.
pub proof fn lemma_failed_spawn_restores_idle(a: AppView, k: KeyPress)
    requires
        view_ok(a),
        a.run == RunState::Idle,
        a.selected is Some,
        k.code == KeyCode::Enter,
    ensures
        key_step(a, k).run == RunState::Running,
        key_action(a, k) == Action::Launch(a.selected->0),
        finish_step(key_step(a, k)) == (AppView { output: Seq::empty(), ..a }),
{
}

} // verus!
