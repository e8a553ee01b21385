//! The event dispatcher: one raw keyboard event becomes at most one
//! navigation transition; and the subcommand decision made before the render
//! loop starts.
//!
//! Dispatch is total — every input maps to some transition, possibly the
//! empty one — and never fails.

use crate::app::{spec_decrement, spec_increment, App, AppState, QuitReason};
use crate::cli::Commands;
use vstd::prelude::*;

verus! {

/// A key as the dispatcher reads it.
#[derive(Clone, Copy, Debug, PartialEq, Eq, Structural)]
pub enum KeyPress {
    /// The left arrow.
    Left,
    /// The right arrow.
    Right,
    /// A character key.
    Char(char),
    /// Any other key.
    Other,
}

/// One raw keyboard event, reduced to what dispatch reads: the key, and
/// whether the control modifier — and it alone — is held.
#[derive(Clone, Copy, Debug, PartialEq, Eq, Structural)]
pub struct KeyInput {
    /// Whether the modifier set is exactly the control modifier.
    pub control: bool,
    /// The key itself.
    pub key: KeyPress,
}

/// The transition one key event asks for: zero or one of decrement,
/// increment, request-quit.
#[derive(Debug)]
pub enum Transition {
    /// The input is ignored.
    Ignore,
    /// Page back.
    Decrement,
    /// Page forward.
    Increment,
    /// Request to quit, with the reason.
    Quit(QuitReason),
}

/// Maps one raw key event to the transition to apply: left arrow pages back,
/// right arrow pages forward, `q` requests a close, Ctrl+C requests an
/// interrupt; everything else is ignored.
pub open spec fn spec_dispatch(k: KeyInput) -> Transition {
    if k.control {
        if k.key == KeyPress::Char('c') {
            Transition::Quit(QuitReason::Sigint)
        } else {
            Transition::Ignore
        }
    } else {
        match k.key {
            KeyPress::Left => Transition::Decrement,
            KeyPress::Right => Transition::Increment,
            KeyPress::Char(c) => if c == 'q' {
                Transition::Quit(QuitReason::CloseKeyPressed)
            } else {
                Transition::Ignore
            },
            KeyPress::Other => Transition::Ignore,
        }
    }
}

/// The dispatcher: total over every input, as `spec_dispatch` says.
pub fn dispatch_key(key: KeyInput) -> (t: Transition)
    ensures
        t == spec_dispatch(key),
{
    if key.control {
        if key.key == KeyPress::Char('c') {
            Transition::Quit(QuitReason::Sigint)
        } else {
            Transition::Ignore
        }
    } else {
        match key.key {
            KeyPress::Left => Transition::Decrement,
            KeyPress::Right => Transition::Increment,
            KeyPress::Char(c) => if c == 'q' {
                Transition::Quit(QuitReason::CloseKeyPressed)
            } else {
                Transition::Ignore
            },
            KeyPress::Other => Transition::Ignore,
        }
    }
}

/// What one transition does to the navigation state: the index and the
/// lifecycle after it is applied. While quitting, nothing moves.
pub open spec fn spec_apply(t: Transition, index: nat, total: nat, state: AppState) -> (
    nat,
    AppState,
) {
    if !(state is Running) {
        (index, state)
    } else {
        match t {
            Transition::Ignore => (index, state),
            Transition::Decrement => (spec_decrement(index), state),
            Transition::Increment => (spec_increment(index, total), state),
            Transition::Quit(r) => (index, AppState::Quitting(r)),
        }
    }
}

/// Handles a single key event: applies exactly the transition the dispatcher
/// picks for it, and nothing else.
pub fn handle_key_event(key: KeyInput, app: &mut App)
    requires
        old(app).wf(),
    ensures
        final(app).wf(),
        final(app).spec_config() == old(app).spec_config(),
        (final(app).page_index(), final(app).spec_state()) == spec_apply(
            spec_dispatch(key),
            old(app).page_index(),
            old(app).spec_pages().len(),
            old(app).spec_state(),
        ),
{
    match dispatch_key(key) {
        Transition::Ignore => {},
        Transition::Decrement => app.decrement_page(),
        Transition::Increment => app.increment_page(),
        Transition::Quit(r) => app.quit(r),
    }
}

/// Decides the state the application starts in once the subcommands have
/// run: a completed `init` quits before the render loop ever starts, no
/// subcommand keeps running. The caller performs the one-shot work (writing
/// the example file) before asking; a failure there aborts startup instead.
pub fn handle_subcommands(command: Option<Commands>) -> (s: AppState)
    ensures
        match command {
            Some(Commands::Init) => s == AppState::Quitting(QuitReason::InitSubcommandCompleted),
            None => s is Running,
        },
{
    match command {
        Some(Commands::Init) => AppState::Quitting(QuitReason::InitSubcommandCompleted),
        None => AppState::Running,
    }
}

} // verus!
