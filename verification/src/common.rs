//! What can go wrong, how it is reported, and the wide form of a text.

use crate::hotkey::JOINER;
use crate::text::lemma_tokens_nonempty;
use crate::text::split_trimmed;
use crate::text::tokens_of;
use crate::text::views;
use vstd::prelude::*;
use vstd::string::*;

verus! {

/// The failures of the utility.
#[derive(Clone, Copy, Debug, PartialEq, Eq, Structural)]
pub enum Failure {
    /// A combination has fewer than two or more than five tokens.
    InvalidCombinationLength,
    /// A token before the last is none of CTRL, ALT, SHIFT, WIN.
    InvalidModifier,
    /// The keyboard layout has no key for the terminal character.
    UnresolvableKey,
    /// The system refused to register the hotkey.
    HotkeyRegistrationConflict,
    /// A command could not be launched.
    SpawnFailure,
    /// Every sender of the event bus is gone.
    ChannelDisconnected,
}

/// The key that a combination ends in: the first character of its last
/// token, or nothing where that token is empty.
pub open spec fn key_of(combination: Seq<char>) -> Seq<char> {
    let last = tokens_of(combination, JOINER).last();
    if last.len() > 0 {
        last.take(1)
    } else {
        last
    }
}

impl Failure {
    /// Whether the process ends after the failure is reported. Only a
    /// command that fails to launch leaves it running.
    pub open spec fn fatal(self) -> bool {
        self != Failure::SpawnFailure
    }

    /// The text shown to the user. `subject` is the combination as it was
    /// configured; for `UnresolvableKey`, the key that has no code; for
    /// `SpawnFailure`, the command.
    pub open spec fn report(self, subject: Seq<char>) -> Seq<char> {
        match self {
            Failure::InvalidCombinationLength => "Invalid hotkey <"@ + subject
                + ">: Combination must be between 2 to 5 keys long."@,
            Failure::InvalidModifier => "Invalid hotkey <"@ + subject
                + ">: Unidentified modifier in hotkey combination. Valid modifiers are CTRL, ALT, SHIFT, WIN."@,
            Failure::UnresolvableKey => "Invalid key "@ + subject + " in hotkey combination."@,
            Failure::HotkeyRegistrationConflict => "Failed to assign hot key <"@ + subject
                + ">. Either program is already running or hotkey is already assigned in another program."@,
            Failure::SpawnFailure => "Failed to execute process <"@ + subject + ">."@,
            Failure::ChannelDisconnected => "The event bus lost its senders."@,
        }
    }

    /// What the report of a failure about `combination` speaks of: the key
    /// where the key has no code, else the combination as it was written.
    pub open spec fn subject_of(self, combination: Seq<char>) -> Seq<char> {
        if self == Failure::UnresolvableKey {
            key_of(combination)
        } else {
            combination
        }
    }

    /// The text shown to the user for a failure about `combination`.
    pub fn report_for(&self, combination: &str) -> (out: String)
        ensures
            out@ == self.report(self.subject_of(combination@)),
    {
        match self {
            Failure::UnresolvableKey => {
                let tokens = split_trimmed(combination, JOINER);
                proof {
                    lemma_tokens_nonempty(combination@, JOINER);
                }
                let last = tokens[tokens.len() - 1].as_str();
                assert(last@ == views(tokens@).last());
                if last.unicode_len() > 0 {
                    assert(last@.subrange(0, 1) =~= last@.take(1));
                    self.message(last.substring_char(0, 1))
                } else {
                    self.message(last)
                }
            },
            _ => self.message(combination),
        }
    }

    pub fn is_fatal(&self) -> (b: bool)
        ensures
            b == self.fatal(),
    {
        match self {
            Failure::SpawnFailure => false,
            _ => true,
        }
    }

    pub fn message(&self, subject: &str) -> (out: String)
        ensures
            out@ == self.report(subject@),
    {
        match self {
            Failure::InvalidCombinationLength => {
                let mut s = String::from_str("Invalid hotkey <");
                s.append(subject);
                s.append(">: Combination must be between 2 to 5 keys long.");
                s
            },
            Failure::InvalidModifier => {
                let mut s = String::from_str("Invalid hotkey <");
                s.append(subject);
                s.append(
                    ">: Unidentified modifier in hotkey combination. Valid modifiers are CTRL, ALT, SHIFT, WIN.",
                );
                s
            },
            Failure::UnresolvableKey => {
                let mut s = String::from_str("Invalid key ");
                s.append(subject);
                s.append(" in hotkey combination.");
                s
            },
            Failure::HotkeyRegistrationConflict => {
                let mut s = String::from_str("Failed to assign hot key <");
                s.append(subject);
                s.append(
                    ">. Either program is already running or hotkey is already assigned in another program.",
                );
                s
            },
            Failure::SpawnFailure => {
                let mut s = String::from_str("Failed to execute process <");
                s.append(subject);
                s.append(">.");
                s
            },
            Failure::ChannelDisconnected => String::from_str("The event bus lost its senders."),
        }
    }
}

/// The UTF-16 code units of one character.
pub open spec fn utf16_units(c: char) -> Seq<u16> {
    let v = c as u32;
    if v < 0x10000 {
        seq![v as u16]
    } else {
        seq![(0xD800 + (v - 0x10000) / 0x400) as u16, (0xDC00 + (v - 0x10000) % 0x400) as u16]
    }
}

/// The UTF-16 encoding of a text.
pub open spec fn utf16_of(s: Seq<char>) -> Seq<u16>
    decreases s.len(),
{
    if s.len() == 0 {
        Seq::empty()
    } else {
        utf16_of(s.drop_last()) + utf16_units(s.last())
    }
}

/// The text as UTF-16 with a terminating zero, the form in which the system's
/// message box takes it.
pub fn str_to_wide(text: &str) -> (out: Vec<u16>)
    ensures
        out@ == utf16_of(text@).push(0),
{
    let n = text.unicode_len();
    let mut out: Vec<u16> = Vec::new();
    let mut i: usize = 0;
    assert(text@.take(0) =~= Seq::<char>::empty());
    while i < n
        invariant
            i <= n == text@.len(),
            out@ == utf16_of(text@.take(i as int)),
        decreases n - i,
    {
        let c = text.get_char(i);
        let v: u32 = c as u32;
        proof {
            let next = text@.take(i + 1);
            assert(next.drop_last() =~= text@.take(i as int));
            assert(next.last() == c);
        }
        if v < 0x10000 {
            out.push(v as u16);
        } else {
            let w: u32 = v - 0x10000;
            out.push((0xD800 + w / 0x400) as u16);
            out.push((0xDC00 + w % 0x400) as u16);
        }
        i += 1;
    }
    assert(text@.take(n as int) =~= text@);
    out.push(0);
    out
}

} // verus!
