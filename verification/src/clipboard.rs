//! Copying text through the terminal.

use base64::engine::general_purpose::STANDARD;
use base64::Engine;
use vstd::prelude::*;

use crate::text::{decimal, number};

verus! {

/// The largest text, in bytes, that is sent through the terminal.
pub const OSC52_LIMIT: usize = 65536;

/// The multiplexer, if any, between the client and the terminal.
#[derive(Clone, Copy, Debug, PartialEq, Eq, Structural)]
pub enum Multiplexer {
    Plain,
    Tmux,
    Screen,
}

impl Multiplexer {
    /// The multiplexer, from whether each one's variable is set.
    pub fn detect(tmux_set: bool, screen_set: bool) -> (r: Multiplexer)
        ensures
            r == if tmux_set {
                Multiplexer::Tmux
            } else if screen_set {
                Multiplexer::Screen
            } else {
                Multiplexer::Plain
            },
    {
        if tmux_set {
            Multiplexer::Tmux
        } else if screen_set {
            Multiplexer::Screen
        } else {
            Multiplexer::Plain
        }
    }
}

/// The standard base64 encoding of a text's bytes, with padding.
pub uninterp spec fn base64_text(text: Seq<char>) -> Seq<char>;

/// Whether `c` is a character of the standard base64 alphabet or its padding.
pub open spec fn is_base64(c: char) -> bool {
    'A' <= c <= 'Z' || 'a' <= c <= 'z' || '0' <= c <= '9' || c == '+' || c == '/' || c == '='
}

/// `base64::Engine::encode` of the standard engine. What it gives holds only
/// characters of the standard alphabet and padding.
#[verifier::external_body]
fn encode(text: &str) -> (r: String)
    ensures
        r@ == base64_text(text@),
        forall|i: int| 0 <= i < r@.len() ==> is_base64(#[trigger] r@[i]),
{
    STANDARD.encode(text)
}

/// The terminal sequence that copies what `encoded` encodes.
pub open spec fn copy_sequence(encoded: Seq<char>, multiplexer: Multiplexer) -> Seq<char> {
    match multiplexer {
        Multiplexer::Plain => "\x1b]52;c;"@ + encoded + "\x1b\\"@,
        Multiplexer::Tmux => "\x1bPtmux;\x1b\x1b]52;c;"@ + encoded + "\x1b\x1b\\\x1b\\"@,
        Multiplexer::Screen => "\x1bP\x1b]52;c;"@ + encoded + "\x07\x1b\\"@,
    }
}

/// The terminal sequence that copies what `encoded` encodes.
pub fn osc52_of(encoded: &str, multiplexer: Multiplexer) -> (r: String)
    ensures
        r@ == copy_sequence(encoded@, multiplexer),
{
    match multiplexer {
        Multiplexer::Plain => "\x1b]52;c;".to_owned().concat(encoded).concat("\x1b\\"),
        Multiplexer::Tmux => "\x1bPtmux;\x1b\x1b]52;c;".to_owned().concat(encoded).concat(
            "\x1b\x1b\\\x1b\\",
        ),
        Multiplexer::Screen => "\x1bP\x1b]52;c;".to_owned().concat(encoded).concat(
            "\x07\x1b\\",
        ),
    }
}

/// The terminal sequence that copies `text`. The text is encoded, so nothing
/// in it can end the sequence.
pub fn osc52(text: &str, multiplexer: Multiplexer) -> (r: String)
    ensures
        r@ == copy_sequence(base64_text(text@), multiplexer),
        forall|i: int|
            0 <= i < base64_text(text@).len() ==> is_base64(#[trigger] base64_text(text@)[i]),
{
    let encoded = encode(text);
    osc52_of(encoded.as_str(), multiplexer)
}

/// The refusal of a text that is too large to send through the terminal.
pub open spec fn too_large(bytes: nat) -> Seq<char> {
    "no clipboard utility available, and "@ + decimal(bytes)
        + " bytes is too much to send through the terminal; install wl-copy or xclip"@
}

/// What to write to the terminal to copy `text`, or why it cannot be copied
/// that way.
pub fn copy_via_terminal(text: &str, multiplexer: Multiplexer) -> (r: Result<String, String>)
    ensures
        match r {
            Ok(sequence) => text.len() <= OSC52_LIMIT && sequence@ == copy_sequence(
                base64_text(text@),
                multiplexer,
            ),
            Err(reason) => text.len() > OSC52_LIMIT && reason@ == too_large(text.len() as nat),
        },
{
    if text.len() > OSC52_LIMIT {
        let mut reason = "no clipboard utility available, and ".to_owned();
        reason.append(number(text.len() as u64).as_str());
        reason.append(
            " bytes is too much to send through the terminal; install wl-copy or xclip",
        );
        return Err(reason);
    }
    Ok(osc52(text, multiplexer))
}

/// A program that copies what it reads.
#[derive(Clone, Copy, Debug, PartialEq, Eq, Structural)]
pub enum Utility {
    WlCopy,
    Xclip,
    Xsel,
    Pbcopy,
}

/// The programs to try, in order, for what the environment can reach.
pub open spec fn utilities_for(wayland: bool, x11: bool, macos: bool) -> Seq<Utility> {
    let first: Seq<Utility> = if wayland {
        seq![Utility::WlCopy]
    } else {
        Seq::empty()
    };
    let second = if x11 {
        first.push(Utility::Xclip).push(Utility::Xsel)
    } else {
        first
    };
    if macos {
        second.push(Utility::Pbcopy)
    } else {
        second
    }
}

/// The programs to try, in order, for what the environment can reach.
pub fn utilities(wayland: bool, x11: bool, macos: bool) -> (r: Vec<Utility>)
    ensures
        r@ == utilities_for(wayland, x11, macos),
{
    let mut r: Vec<Utility> = Vec::new();
    if wayland {
        r.push(Utility::WlCopy);
    }
    if x11 {
        r.push(Utility::Xclip);
        r.push(Utility::Xsel);
    }
    if macos {
        r.push(Utility::Pbcopy);
    }
    assert(r@ =~= utilities_for(wayland, x11, macos));
    r
}

} // verus!
