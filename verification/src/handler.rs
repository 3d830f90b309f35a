use vstd::prelude::*;

use crate::keys::str_eq;

verus! {

/// Handles the requests and notifications Neovim sends to the GUI.
#[derive(Clone, Debug)]
pub struct NeovimHandler {}

/// What a notification from Neovim asks of the GUI.
#[derive(Copy, Clone, Debug, PartialEq, Eq)]
pub enum NotifyAction {
    /// `redraw`: parse the batches of redraw events and pass them on.
    Redraw,
    /// `setting_changed`: hand the arguments to the settings.
    SettingChanged,
    /// `neovide.quit`: quit with the exit code given first.
    Quit,
    /// `neovide.set_clipboard`: the remote clipboard is not supported.
    SetClipboard,
    /// Anything else is ignored.
    Ignore,
}

pub open spec fn notify_action_of(name: Seq<char>) -> NotifyAction {
    if name == "redraw"@ {
        NotifyAction::Redraw
    } else if name == "setting_changed"@ {
        NotifyAction::SettingChanged
    } else if name == "neovide.quit"@ {
        NotifyAction::Quit
    } else if name == "neovide.set_clipboard"@ {
        NotifyAction::SetClipboard
    } else {
        NotifyAction::Ignore
    }
}

impl NeovimHandler {
    pub fn new() -> (res: Self) {
        NeovimHandler {}
    }

    /// The answer to an RPC request: asking for the clipboard is refused,
    /// everything else is answered that it is not handled.
    pub fn handle_request(&self, event_name: &str) -> (res: Result<&'static str, &'static str>)
        ensures
            event_name@ == "neovide.get_clipboard"@ ==> (res matches Err(e) && e@ == "get remote clipboard ignored."@),
            event_name@ != "neovide.get_clipboard"@ ==> (res matches Ok(v) && v@ == "rpcrequest not handled"@),
    {
        if str_eq(event_name, "neovide.get_clipboard") {
            Err("get remote clipboard ignored.")
        } else {
            Ok("rpcrequest not handled")
        }
    }

    /// What the notification `event_name` asks of the GUI.
    pub fn handle_notify(&self, event_name: &str) -> (res: NotifyAction)
        ensures
            res == notify_action_of(event_name@),
    {
        if str_eq(event_name, "redraw") {
            NotifyAction::Redraw
        } else if str_eq(event_name, "setting_changed") {
            NotifyAction::SettingChanged
        } else if str_eq(event_name, "neovide.quit") {
            NotifyAction::Quit
        } else if str_eq(event_name, "neovide.set_clipboard") {
            NotifyAction::SetClipboard
        } else {
            NotifyAction::Ignore
        }
    }

    /// Carries out the notification `event_name`, as far as the tracker is
    /// concerned: `neovide.quit`, whose first argument is the integer
    /// `code`, asks everything to stop, exiting with the low 32 bits of
    /// `code`; every other notification leaves the tracker as it is.
    pub fn notify_tracker(&self, event_name: &str, code: Option<i64>, tracker: &mut RunningTracker)
        requires
            notify_action_of(event_name@) == NotifyAction::Quit ==> code is Some,
        ensures
            notify_action_of(event_name@) == NotifyAction::Quit ==> final(tracker).is_quitting()
                && final(tracker).code() == code.unwrap() as i32,
            notify_action_of(event_name@) != NotifyAction::Quit ==> *final(tracker) == *old(tracker),
    {
        match self.handle_notify(event_name) {
            NotifyAction::Quit => match code {
                Some(c) => tracker.quit_with_code(NeovimHandler::exit_code(c)),
                None => {},
            },
            _ => {},
        }
    }

    /// The process exit code for the code Neovim sends with `neovide.quit`
    /// (its low 32 bits).
    pub fn exit_code(code: i64) -> (res: i32)
        ensures
            res == code as i32,
    {
        code as i32
    }
}

/// Whether the GUI is still running, and the code it should exit with.
pub struct RunningTracker {
    quitting: bool,
    exit_code: i32,
}

impl RunningTracker {
    pub closed spec fn is_quitting(&self) -> bool {
        self.quitting
    }

    pub closed spec fn code(&self) -> i32 {
        self.exit_code
    }

    pub fn new() -> (res: Self)
        ensures
            !res.is_quitting(),
            res.code() == 0,
    {
        RunningTracker { quitting: false, exit_code: 0 }
    }

    /// Asks everything to stop; the exit code stays as it is.
    pub fn quit(&mut self)
        ensures
            final(self).is_quitting(),
            final(self).code() == old(self).code(),
    {
        self.quitting = true;
    }

    /// Asks everything to stop, exiting with `code`.
    pub fn quit_with_code(&mut self, code: i32)
        ensures
            final(self).is_quitting(),
            final(self).code() == code,
    {
        self.quitting = true;
        self.exit_code = code;
    }

    pub fn exit_code(&self) -> (res: i32)
        ensures
            res == self.code(),
    {
        self.exit_code
    }

    pub fn is_running(&self) -> (res: bool)
        ensures
            res == !self.is_quitting(),
    {
        !self.quitting
    }
}

} // verus!
