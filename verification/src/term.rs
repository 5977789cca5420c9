//! The terminal as the game sees it: whether key presses arrive unbuffered,
//! and what to print to clear the screen.
//!
//! The calls that change the terminal's settings are made by the program;
//! this module decides what their results mean.

use vstd::prelude::*;
use vstd::string::StringExecFns;

verus! {

/// Why the terminal could not be switched to unbuffered input.
#[derive(Clone, Copy, Debug, PartialEq, Eq, Structural)]
#[allow(unused)]
pub enum UnbufferError {
    TcGetAttrFailed,
    TcSetAttrFailed,
    PlatformNotSupported,
    Unknown,
}

/// What a call that changes the terminal's settings returned: zero is
/// success, `-1` a failure to read the settings, `-2` a failure to write
/// them, anything else an unknown failure.
pub open spec fn terminal_result(result: i32) -> Result<(), UnbufferError> {
    if result == 0 {
        Ok(())
    } else if result == -1 {
        Err(UnbufferError::TcGetAttrFailed)
    } else if result == -2 {
        Err(UnbufferError::TcSetAttrFailed)
    } else {
        Err(UnbufferError::Unknown)
    }
}

/// What clears the screen: the reset sequence where the terminal is known
/// to be under control, and else enough line breaks to push the old
/// contents out of sight.
pub open spec fn clear_text(unbuffered: bool) -> Seq<char> {
    if unbuffered {
        "\u{001b}c"@
    } else {
        "\n\n\n\n\n\n\n\n\n\n\n\n\n\n\n\n\n\n\n\n\n\n"@
    }
}

impl UnbufferError {
    /// The name of the error.
    pub open spec fn name(self) -> Seq<char> {
        match self {
            UnbufferError::TcGetAttrFailed => "TcGetAttrFailed"@,
            UnbufferError::TcSetAttrFailed => "TcSetAttrFailed"@,
            UnbufferError::PlatformNotSupported => "PlatformNotSupported"@,
            UnbufferError::Unknown => "Unknown"@,
        }
    }

    /// The name of the error.
    pub fn to_string(&self) -> (text: String)
        ensures
            text@ == self.name(),
    {
        match self {
            UnbufferError::TcGetAttrFailed => String::from_str("TcGetAttrFailed"),
            UnbufferError::TcSetAttrFailed => String::from_str("TcSetAttrFailed"),
            UnbufferError::PlatformNotSupported => String::from_str("PlatformNotSupported"),
            UnbufferError::Unknown => String::from_str("Unknown"),
        }
    }
}

/// The terminal, with the outcome of switching it to unbuffered input.
pub struct FastTerm {
    self_test_result: Result<(), UnbufferError>,
}

impl View for FastTerm {
    type V = Result<(), UnbufferError>;

    closed spec fn view(&self) -> Result<(), UnbufferError> {
        self.self_test_result
    }
}

impl FastTerm {
    /// A terminal for which switching to unbuffered input ended in
    /// `self_test_result`.
    pub fn new(self_test_result: Result<(), UnbufferError>) -> (term: FastTerm)
        ensures
            term@ == self_test_result,
    {
        FastTerm { self_test_result }
    }

    /// Reads the number that a call on the terminal's settings returned.
    pub fn parse_terminal_result(result: i32) -> (outcome: Result<(), UnbufferError>)
        ensures
            outcome == terminal_result(result),
    {
        match result {
            0 => Ok(()),
            -1 => Err(UnbufferError::TcGetAttrFailed),
            -2 => Err(UnbufferError::TcSetAttrFailed),
            _ => Err(UnbufferError::Unknown),
        }
    }

    /// Whether input arrives unbuffered, so that the terminal's settings
    /// have to be put back in the end.
    pub fn is_unbuffered(&self) -> (unbuffered: bool)
        ensures
            unbuffered == (self@ is Ok),
    {
        self.self_test_result.is_ok()
    }

    /// The text that clears the screen when printed.
    pub fn clear(&self) -> (text: String)
        ensures
            text@ == clear_text(self@ is Ok),
    {
        if self.self_test_result.is_ok() {
            FastTerm::terminal_ansi_clear()
        } else {
            FastTerm::terminal_agnostic_clear()
        }
    }

    /// The sequence that resets the terminal.
    fn terminal_ansi_clear() -> (text: String)
        ensures
            text@ == clear_text(true),
    {
        String::from_str("\u{001b}c")
    }

    /// Line breaks that push the old contents out of sight.
    fn terminal_agnostic_clear() -> (text: String)
        ensures
            text@ == clear_text(false),
    {
        String::from_str("\n\n\n\n\n\n\n\n\n\n\n\n\n\n\n\n\n\n\n\n\n\n")
    }

    /// What to report when putting the terminal's settings back returned
    /// `result`: nothing on success, and else a message that names the
    /// error.
    pub fn revert_report(result: i32) -> (report: Option<String>)
        ensures
            report is None <==> terminal_result(result) is Ok,
            terminal_result(result) matches Err(e) ==> report matches Some(text) && text@
                == "Could not revert terminal settings: "@ + e.name(),
    {
        match FastTerm::parse_terminal_result(result) {
            Ok(()) => None,
            Err(e) => {
                let mut text = String::from_str("Could not revert terminal settings: ");
                let name = e.to_string();
                text.append(name.as_str());
                Some(text)
            },
        }
    }
}

} // verus!
