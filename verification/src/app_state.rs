//! What the user looks at, and how keys and samples change it.

use vstd::prelude::*;

use crate::model::UiSnapshot;

verus! {

#[derive(Debug, Clone, Copy, PartialEq, Eq, Structural)]
pub enum Screen {
    Dashboard,
    Pools,
    Arc,
    Events,
    Help,
}

/// A key, as far as the key bindings tell keys apart.
#[derive(Debug, Clone, Copy, PartialEq, Eq, Structural)]
pub enum KeyCode {
    Char(char),
    Esc,
    Tab,
    Other,
}

/// A key that went down, or was held or let go.
#[derive(Debug, Clone, Copy, PartialEq, Eq, Structural)]
pub struct KeyEvent {
    pub code: KeyCode,
    pub pressed: bool,
}

/// The state of the terminal interface.
#[derive(Debug)]
pub struct AppState {
    pub screen: Screen,
    pub paused: bool,
    pub last_snapshot: Option<UiSnapshot>,
}

impl Default for AppState {
    fn default() -> (result: Self)
        ensures
            result.screen == Screen::Dashboard,
            !result.paused,
            result.last_snapshot is None,
    {
        AppState { screen: Screen::Dashboard, paused: false, last_snapshot: None }
    }
}

/// The screen after `screen` in the cycle. Help stands outside the cycle and
/// leads to its start.
pub open spec fn spec_next_screen(screen: Screen) -> Screen {
    match screen {
        Screen::Dashboard => Screen::Pools,
        Screen::Pools => Screen::Arc,
        Screen::Arc => Screen::Events,
        Screen::Events => Screen::Dashboard,
        Screen::Help => Screen::Dashboard,
    }
}

pub fn next_screen(screen: Screen) -> (result: Screen)
    ensures
        result == spec_next_screen(screen),
        screen == Screen::Dashboard ==> result == Screen::Pools,
        screen == Screen::Pools ==> result == Screen::Arc,
        screen == Screen::Arc ==> result == Screen::Events,
        screen == Screen::Events || screen == Screen::Help ==> result == Screen::Dashboard,
{
    match screen {
        Screen::Dashboard => Screen::Pools,
        Screen::Pools => Screen::Arc,
        Screen::Arc => Screen::Events,
        Screen::Events | Screen::Help => Screen::Dashboard,
    }
}

/// The keys that end the program.
pub open spec fn quits(code: KeyCode) -> bool {
    code == KeyCode::Esc || code == KeyCode::Char('q')
}

/// The screen that a key leads to.
pub open spec fn screen_after(screen: Screen, code: KeyCode) -> Screen {
    if code == KeyCode::Char('?') {
        Screen::Help
    } else if code == KeyCode::Char('1') {
        Screen::Dashboard
    } else if code == KeyCode::Char('2') {
        Screen::Pools
    } else if code == KeyCode::Char('3') {
        Screen::Arc
    } else if code == KeyCode::Char('4') {
        Screen::Events
    } else if code == KeyCode::Tab {
        spec_next_screen(screen)
    } else {
        screen
    }
}

/// Whether live updates are paused after a key.
pub open spec fn paused_after(paused: bool, code: KeyCode) -> bool {
    if code == KeyCode::Char(' ') {
        !paused
    } else {
        paused
    }
}

/// `after` is `before` with a key applied to it.
pub open spec fn key_applied(before: AppState, after: AppState, code: KeyCode) -> bool {
    &&& after.screen == screen_after(before.screen, code)
    &&& after.paused == paused_after(before.paused, code)
    &&& after.last_snapshot == before.last_snapshot
}

/// `after` is `before` with a sample offered to it. A paused interface keeps
/// what it shows.
pub open spec fn sample_offered(
    before: AppState,
    after: AppState,
    sample: Option<UiSnapshot>,
) -> bool {
    &&& after.screen == before.screen
    &&& after.paused == before.paused
    &&& after.last_snapshot == if sample is Some && !before.paused {
        sample
    } else {
        before.last_snapshot
    }
}

/// What the main loop can learn.
#[derive(Debug)]
pub enum LoopEvent {
    /// The collector sent a sample, or is gone.
    Sample(Option<UiSnapshot>),
    /// It is time to draw.
    RenderTick,
    /// The keyboard was looked at after drawing.
    Polled(Option<KeyEvent>),
    /// The user asked the program to stop.
    Interrupt,
}

/// What the main loop does next.
#[derive(Debug, Clone, Copy, PartialEq, Eq, Structural)]
pub enum LoopAction {
    Wait,
    DrawAndPoll,
    Quit,
}

impl AppState {
    /// Applies a key. Returns whether the program ends.
    pub fn handle_key(&mut self, code: KeyCode) -> (result: bool)
        ensures
            result == quits(code),
            key_applied(*old(self), *final(self), code),
            result <==> code == KeyCode::Esc || code == KeyCode::Char('q'),
            final(self).last_snapshot == old(self).last_snapshot,
            code == KeyCode::Char(' ') ==> final(self).paused != old(self).paused,
            code != KeyCode::Char(' ') ==> final(self).paused == old(self).paused,
            code == KeyCode::Char('?') ==> final(self).screen == Screen::Help,
            code == KeyCode::Char('1') ==> final(self).screen == Screen::Dashboard,
            code == KeyCode::Char('2') ==> final(self).screen == Screen::Pools,
            code == KeyCode::Char('3') ==> final(self).screen == Screen::Arc,
            code == KeyCode::Char('4') ==> final(self).screen == Screen::Events,
    {
        match code {
            KeyCode::Esc => {
                return true;
            },
            KeyCode::Tab => {
                self.screen = next_screen(self.screen);
            },
            KeyCode::Char(c) => {
                if c == 'q' {
                    return true;
                } else if c == '?' {
                    self.screen = Screen::Help;
                } else if c == '1' {
                    self.screen = Screen::Dashboard;
                } else if c == '2' {
                    self.screen = Screen::Pools;
                } else if c == '3' {
                    self.screen = Screen::Arc;
                } else if c == '4' {
                    self.screen = Screen::Events;
                } else if c == ' ' {
                    self.paused = !self.paused;
                }
            },
            KeyCode::Other => {},
        }
        false
    }

    /// Takes a sample, unless updates are paused.
    pub fn receive(&mut self, sample: Option<UiSnapshot>)
        ensures
            sample_offered(*old(self), *final(self), sample),
            final(self).screen == old(self).screen,
            final(self).paused == old(self).paused,
            !old(self).paused && sample is Some ==> final(self).last_snapshot == sample,
            old(self).paused || sample is None ==> final(self).last_snapshot
                == old(self).last_snapshot,
    {
        if let Some(snapshot) = sample {
            if !self.paused {
                self.last_snapshot = Some(snapshot);
            }
        }
    }

    /// Decides what the main loop does about an event.
    pub fn step(&mut self, event: LoopEvent) -> (result: LoopAction)
        ensures
            match event {
                LoopEvent::Sample(sample) => {
                    &&& result == LoopAction::Wait
                    &&& sample_offered(*old(self), *final(self), sample)
                    &&& final(self).screen == old(self).screen
                    &&& final(self).paused == old(self).paused
                    &&& !old(self).paused && sample is Some ==> final(self).last_snapshot == sample
                    &&& old(self).paused || sample is None ==> final(self).last_snapshot
                        == old(self).last_snapshot
                },
                LoopEvent::RenderTick => {
                    &&& result == LoopAction::DrawAndPoll
                    &&& *final(self) == *old(self)
                },
                LoopEvent::Polled(key) => {
                    let pressed = key is Some && key->0.pressed;
                    &&& result == if pressed && quits(key->0.code) {
                        LoopAction::Quit
                    } else {
                        LoopAction::Wait
                    }
                    &&& pressed ==> key_applied(*old(self), *final(self), key->0.code)
                    &&& !pressed ==> *final(self) == *old(self)
                },
                LoopEvent::Interrupt => {
                    &&& result == LoopAction::Quit
                    &&& *final(self) == *old(self)
                },
            },
    {
        match event {
            LoopEvent::Sample(sample) => {
                self.receive(sample);
                LoopAction::Wait
            },
            LoopEvent::RenderTick => LoopAction::DrawAndPoll,
            LoopEvent::Polled(key) => {
                if poll_exit_key(self, key) {
                    LoopAction::Quit
                } else {
                    LoopAction::Wait
                }
            },
            LoopEvent::Interrupt => LoopAction::Quit,
        }
    }
}

/// Applies a key that was found on the keyboard, if one was and it went down.
/// Returns whether the program ends.
pub fn poll_exit_key(state: &mut AppState, key: Option<KeyEvent>) -> (result: bool)
    ensures
        ({
            let pressed = key is Some && key->0.pressed;
            &&& result == (pressed && quits(key->0.code))
            &&& pressed ==> key_applied(*old(state), *final(state), key->0.code)
            &&& !pressed ==> *final(state) == *old(state)
        }),
{
    match key {
        Some(event) => {
            if event.pressed {
                state.handle_key(event.code)
            } else {
                false
            }
        },
        None => false,
    }
}

/// Four steps through the cycle lead back, from every screen of the cycle.
pub proof fn law_tab_cycles(screen: Screen)
    ensures
        screen != Screen::Help ==> spec_next_screen(
            spec_next_screen(spec_next_screen(spec_next_screen(screen))),
        ) == screen,
        spec_next_screen(screen) != Screen::Help,
        spec_next_screen(screen) != screen,
{
}

/// The space bar undoes itself: pressed twice, it leaves everything as it was.
pub proof fn law_pause_and_resume(
    before: AppState,
    between: AppState,
    after: AppState,
)
    requires
        key_applied(before, between, KeyCode::Char(' ')),
        key_applied(between, after, KeyCode::Char(' ')),
    ensures
        between.paused != before.paused,
        after == before,
{
}

/// While updates are paused, no sample changes what is shown.
pub proof fn law_paused_keeps_the_snapshot(
    before: AppState,
    after: AppState,
    sample: Option<UiSnapshot>,
)
    requires
        before.paused,
        sample_offered(before, after, sample),
    ensures
        after == before,
{
}

/// A key that ends the program changes nothing else.
pub proof fn law_quitting_changes_nothing(
    before: AppState,
    after: AppState,
    code: KeyCode,
)
    requires
        quits(code),
        key_applied(before, after, code),
    ensures
        after == before,
{
}

/// A sample that comes while updates are live is what is shown from then on, and
/// nothing else changes; without a sample nothing changes at all.
pub proof fn law_live_samples_are_shown(
    before: AppState,
    after: AppState,
    sample: Option<UiSnapshot>,
)
    requires
        sample_offered(before, after, sample),
    ensures
        !before.paused && sample is Some ==> after.last_snapshot == sample,
        before.paused || sample is None ==> after.last_snapshot == before.last_snapshot,
        after.screen == before.screen,
        after.paused == before.paused,
{
}

/// Of two samples that come one after the other while updates are live the later
/// one is shown.
pub proof fn law_later_samples_replace_earlier_ones(
    before: AppState,
    between: AppState,
    after: AppState,
    first: UiSnapshot,
    second: UiSnapshot,
)
    requires
        !before.paused,
        sample_offered(before, between, Some(first)),
        sample_offered(between, after, Some(second)),
    ensures
        between.last_snapshot == Some(first),
        after.last_snapshot == Some(second),
{
}

/// What each key does. Digits and the question mark lead to their screens, the
/// tabulator to the next one, the space bar pauses and resumes, `q` and escape
/// end the program; every other key does nothing, and no key changes what was
/// sampled.
pub proof fn law_keys_have_their_bindings(before: AppState, after: AppState, code: KeyCode)
    requires
        key_applied(before, after, code),
    ensures
        quits(code) <==> code == KeyCode::Esc || code == KeyCode::Char('q'),
        after.last_snapshot == before.last_snapshot,
        code == KeyCode::Char('?') ==> after.screen == Screen::Help,
        code == KeyCode::Char('1') ==> after.screen == Screen::Dashboard,
        code == KeyCode::Char('2') ==> after.screen == Screen::Pools,
        code == KeyCode::Char('3') ==> after.screen == Screen::Arc,
        code == KeyCode::Char('4') ==> after.screen == Screen::Events,
        code == KeyCode::Tab && before.screen == Screen::Dashboard ==> after.screen
            == Screen::Pools,
        code == KeyCode::Tab && before.screen == Screen::Pools ==> after.screen == Screen::Arc,
        code == KeyCode::Tab && before.screen == Screen::Arc ==> after.screen == Screen::Events,
        code == KeyCode::Tab && before.screen == Screen::Events ==> after.screen
            == Screen::Dashboard,
        code == KeyCode::Tab && before.screen == Screen::Help ==> after.screen == Screen::Dashboard,
        code == KeyCode::Char(' ') ==> after.paused != before.paused && after.screen
            == before.screen,
        code != KeyCode::Char(' ') ==> after.paused == before.paused,
        code == KeyCode::Esc || code == KeyCode::Other ==> after.screen == before.screen,
        code is Char && code->0 != '?' && code->0 != '1' && code->0 != '2' && code->0 != '3'
            && code->0 != '4' ==> after.screen == before.screen,
{
}

} // verus!
