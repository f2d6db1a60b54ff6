//! Launching and window behaviour.

use vstd::prelude::*;
use crate::text;
use crate::tray;

verus! {

/// Whether an argument asks for a start in the tray.
pub open spec fn asks_for_background(arg: Seq<char>) -> bool {
    arg == "--autostart"@ || arg == "--minimized"@
}

/// Decides whether the program was launched to start in the tray, without showing its window.
pub fn is_background_launch(args: &[String]) -> (r: bool)
    ensures
        r == exists|i: int| 0 <= i < args@.len() && asks_for_background(#[trigger] args@[i]@),
{
    let mut i: usize = 0;
    while i < args.len()
        invariant
            i <= args@.len(),
            forall|k: int| 0 <= k < i ==> !asks_for_background(#[trigger] args@[k]@),
        decreases args.len() - i,
    {
        let arg = args[i].as_str();
        if text::same_text(arg, "--autostart") || text::same_text(arg, "--minimized") {
            assert(asks_for_background(args@[i as int]@));
            return true;
        }
        i += 1;
    }
    false
}

/// Something that happened to a window.
#[derive(Debug, Clone, Copy, PartialEq, Eq, Structural)]
pub enum WindowHappening {
    CloseRequested,
    FocusLost,
    Other,
}

/// What is done about it.
#[derive(Debug, Clone, Copy, PartialEq, Eq, Structural)]
pub enum WindowReaction {
    /// Hide the window, and do not let it close.
    HideInsteadOfClosing,
    /// Hide the window.
    Hide,
    Nothing,
}

/// Decides what is done about something that happened to a window: closing hides it, and the flyout
/// hides when it loses focus.
pub fn window_reaction(label: &str, happening: WindowHappening) -> (r: WindowReaction)
    ensures
        r == (match happening {
            WindowHappening::CloseRequested => WindowReaction::HideInsteadOfClosing,
            WindowHappening::FocusLost => if label@ == tray::FLYOUT_LABEL@ {
                WindowReaction::Hide
            } else {
                WindowReaction::Nothing
            },
            WindowHappening::Other => WindowReaction::Nothing,
        }),
{
    match happening {
        WindowHappening::CloseRequested => WindowReaction::HideInsteadOfClosing,
        WindowHappening::FocusLost => {
            if text::same_text(label, tray::FLYOUT_LABEL) {
                WindowReaction::Hide
            } else {
                WindowReaction::Nothing
            }
        },
        WindowHappening::Other => WindowReaction::Nothing,
    }
}

/// What a click on the tray icon does to the flyout.
#[derive(Debug, Clone, Copy, PartialEq, Eq, Structural)]
pub enum FlyoutAction {
    /// Hide the flyout.
    Hide,
    /// Place the flyout beside the icon, and show it.
    Open,
}

/// Decides what a click on the tray icon does to the flyout, given whether it can be seen, where
/// that is known.
pub fn toggle_flyout_at(visible: Option<bool>) -> (r: FlyoutAction)
    ensures
        r == (if visible == Some(true) {
            FlyoutAction::Hide
        } else {
            FlyoutAction::Open
        }),
{
    match visible {
        Some(true) => FlyoutAction::Hide,
        _ => FlyoutAction::Open,
    }
}

/// The outcome of an action on the main window: there is none if there is no such window.
pub open spec fn main_window_outcome(
    done: Option<Result<(), String>>,
    failure: Seq<char>,
    r: Result<(), String>,
) -> bool {
    match done {
        None => r matches Err(e) && e@ == "Main window not found."@,
        Some(Err(cause)) => r matches Err(e) && e@ == failure + cause@,
        Some(Ok(_)) => r is Ok,
    }
}

fn judge_main_window(done: Option<Result<(), String>>, failure: &str) -> (r: Result<(), String>)
    ensures
        main_window_outcome(done, failure@, r),
{
    match done {
        None => Err("Main window not found.".to_string()),
        Some(Err(cause)) => Err(text::concat2(failure, cause.as_str())),
        Some(Ok(_)) => Ok(()),
    }
}

/// Answers a request to hide the main window.
pub fn hide_main_window(hidden: Option<Result<(), String>>) -> (r: Result<(), String>)
    ensures
        main_window_outcome(hidden, "Failed to hide window: "@, r),
{
    judge_main_window(hidden, "Failed to hide window: ")
}

/// Answers a request to show the main window.
pub fn show_main_window(shown: Option<Result<(), String>>) -> (r: Result<(), String>)
    ensures
        main_window_outcome(shown, "Failed to show window: "@, r),
{
    judge_main_window(shown, "Failed to show window: ")
}

// ---------------------------------------------------------------------------
// Laws
// ---------------------------------------------------------------------------

/// Two arguments ask for a start in the tray, each on its own, and no other does.
pub proof fn two_arguments_ask_for_background(arg: Seq<char>)
    ensures
        asks_for_background("--autostart"@),
        asks_for_background("--minimized"@),
        arg != "--autostart"@ && arg != "--minimized"@ ==> !asks_for_background(arg),
{
}

/// An action on the main window succeeds exactly where there is one and the action on it succeeded;
/// the message of a failed one ends in its cause.
pub proof fn main_window_actions_are_told(
    done: Option<Result<(), String>>,
    failure: Seq<char>,
    r: Result<(), String>,
)
    requires
        main_window_outcome(done, failure, r),
    ensures
        r is Ok <==> (done matches Some(Ok(_))),
        done matches Some(Err(cause)) ==> (r matches Err(e) && e@ == failure + cause@),
        done is None ==> (r matches Err(e) && e@ == "Main window not found."@),
{
}

} // verus!
