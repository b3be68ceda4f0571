//! The status line of the board's serial flashing console.
use vstd::prelude::*;
use vstd::string::StringExecFns;

verus! {

/// What keystrokes on the console do: go straight to the board, or drive
/// the flashing sequence.
#[derive(Clone, Copy, Debug, PartialEq, Eq, Structural)]
pub enum Mode {
    Terminal,
    Flash,
}

/// How far the board's flashing sequence has come.
#[derive(Clone, Copy, Debug, PartialEq, Eq, Structural)]
pub enum FlashState {
    HssBooted,
    HssBootedPostFlash,
    HssInterruptPrompt,
    UsbHostConnecting,
    FlashComplete,
    Unknown,
}

/// The words shown for a flashing state.
pub open spec fn state_label(s: FlashState) -> Seq<char> {
    match s {
        FlashState::HssBooted => "HSS Booted"@,
        FlashState::HssBootedPostFlash => "HSS Booted Post Flash"@,
        FlashState::HssInterruptPrompt => "Waiting for Interrupt"@,
        FlashState::UsbHostConnecting => "USB Host Connecting"@,
        FlashState::FlashComplete => "Flash Complete"@,
        FlashState::Unknown => "Unknown"@,
    }
}

/// The status line, in reverse video, for `mode` and flashing state `s`.
pub open spec fn status_line(mode: Mode, s: FlashState) -> Seq<char> {
    match mode {
        Mode::Terminal => "\x1b[7mTERMINAL MODE | Ctrl-T: Exit | Ctrl-Y: Toggle Mode\x1b[0m"@,
        Mode::Flash => "\x1b[7mFLASH MODE | State: "@ + state_label(s)
            + " | Ctrl-T: Exit | Ctrl-Y: Toggle Mode\x1b[0m"@,
    }
}

fn label(s: &FlashState) -> (r: &'static str)
    ensures
        r@ == state_label(*s),
{
    match s {
        FlashState::HssBooted => "HSS Booted",
        FlashState::HssBootedPostFlash => "HSS Booted Post Flash",
        FlashState::HssInterruptPrompt => "Waiting for Interrupt",
        FlashState::UsbHostConnecting => "USB Host Connecting",
        FlashState::FlashComplete => "Flash Complete",
        FlashState::Unknown => "Unknown",
    }
}

impl Mode {
    /// The text of the console's bottom line: the mode, the flashing state
    /// while flashing, and the key bindings.
    pub fn status_text(&self, flash_state: &FlashState) -> (r: String)
        ensures
            r@ == status_line(*self, *flash_state),
    {
        match self {
            Mode::Terminal => String::from_str(
                "\x1b[7mTERMINAL MODE | Ctrl-T: Exit | Ctrl-Y: Toggle Mode\x1b[0m",
            ),
            Mode::Flash => {
                let mut text = String::from_str("\x1b[7mFLASH MODE | State: ");
                text.append(label(flash_state));
                text.append(" | Ctrl-T: Exit | Ctrl-Y: Toggle Mode\x1b[0m");
                text
            },
        }
    }
}

} // verus!
