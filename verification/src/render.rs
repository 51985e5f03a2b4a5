//! Pure render projections: the status symbols, markers, labels and captions
//! the terminal layer draws are all computed here, deterministically from
//! state alone.

use vstd::prelude::*;

verus! {

use vstd::string::StringExecFns;
use crate::executor::{Status, StatusSpec};
use crate::text::dec_chars;
use crate::text::u64_string;

/// The marker glyphs the results view uses: decorative by default, plain
/// ASCII when asked for.
pub struct Symbols {
    pub success: String,
    pub failure: String,
    pub pending: String,
}

/// The mathematical model of a `Symbols`.
pub ghost struct SymbolsSpec {
    pub success: Seq<char>,
    pub failure: Seq<char>,
    pub pending: Seq<char>,
}

impl View for Symbols {
    type V = SymbolsSpec;

    open spec fn view(&self) -> SymbolsSpec {
        SymbolsSpec { success: self.success@, failure: self.failure@, pending: self.pending@ }
    }
}

impl Symbols {
    /// The symbol set: plain ASCII markers, or the decorative glyphs.
    pub fn new(plain: bool) -> (r: Symbols)
        ensures
            plain ==> r@ == (SymbolsSpec { success: "[OK]"@, failure: "[X]"@, pending: "[...]"@ }),
            !plain ==> r@ == (SymbolsSpec {
                success: "[✅]"@,
                failure: "[❌]"@,
                pending: "[…]"@,
            }),
    {
        if plain {
            Symbols {
                success: String::from_str("[OK]"),
                failure: String::from_str("[X]"),
                pending: String::from_str("[...]"),
            }
        } else {
            Symbols {
                success: String::from_str("[✅]"),
                failure: String::from_str("[❌]"),
                pending: String::from_str("[…]"),
            }
        }
    }
}

/// The short word the results view shows beside an entry's marker.
pub open spec fn status_label_spec(s: StatusSpec) -> Seq<char> {
    match s {
        StatusSpec::Pending(_) => "pending"@,
        StatusSpec::Success(_) => "installed"@,
        StatusSpec::Skipped(_) => "skipped"@,
        StatusSpec::Failed(_) => "failed"@,
    }
}

pub fn status_label(status: &Status) -> (r: &str)
    ensures
        r@ == status_label_spec(status@),
{
    match status {
        Status::Pending(_) => "pending",
        Status::Success(_) => "installed",
        Status::Skipped(_) => "skipped",
        Status::Failed(_) => "failed",
    }
}

/// The colour class a status is drawn in.
#[derive(Clone, Copy, Debug, PartialEq, Eq, Structural)]
pub enum StatusTone {
    Yellow,
    Green,
    Red,
}

pub fn status_tone(status: &Status) -> (r: StatusTone)
    ensures
        (status@ is Pending ==> r == StatusTone::Yellow),
        (status@ is Success || status@ is Skipped ==> r == StatusTone::Green),
        (status@ is Failed ==> r == StatusTone::Red),
{
    match status {
        Status::Pending(_) => StatusTone::Yellow,
        Status::Success(_) => StatusTone::Green,
        Status::Skipped(_) => StatusTone::Green,
        Status::Failed(_) => StatusTone::Red,
    }
}

/// The marker a status is drawn with.
pub open spec fn status_marker_spec(s: StatusSpec, symbols: SymbolsSpec) -> Seq<char> {
    match s {
        StatusSpec::Pending(_) => symbols.pending,
        StatusSpec::Success(_) => symbols.success,
        StatusSpec::Skipped(_) => symbols.success,
        StatusSpec::Failed(_) => symbols.failure,
    }
}

pub fn status_marker<'a>(status: &Status, symbols: &'a Symbols) -> (r: &'a str)
    ensures
        r@ == status_marker_spec(status@, symbols@),
{
    match status {
        Status::Pending(_) => symbols.pending.as_str(),
        Status::Success(_) => symbols.success.as_str(),
        Status::Skipped(_) => symbols.success.as_str(),
        Status::Failed(_) => symbols.failure.as_str(),
    }
}

/// The checkbox marker of the selection view.
pub fn selection_marker(selected: bool) -> (r: &'static str)
    ensures
        selected ==> r@ == "[x]"@,
        !selected ==> r@ == "[ ]"@,
{
    if selected {
        "[x]"
    } else {
        "[ ]"
    }
}

/// The marker of the results view: an unselected entry shows as simply
/// unselected, never as any install state.
pub open spec fn results_marker_spec(
    selected: bool,
    status: Option<StatusSpec>,
    symbols: SymbolsSpec,
) -> Seq<char> {
    if !selected {
        "[ ]"@
    } else {
        match status {
            Option::Some(s) => status_marker_spec(s, symbols),
            Option::None => "[x]"@,
        }
    }
}

pub fn results_marker<'a>(selected: bool, status: &Option<Status>, symbols: &'a Symbols) -> (r:
    &'a str)
    ensures
        r@ == results_marker_spec(
            selected,
            match status {
                Option::Some(s) => Option::Some(s@),
                Option::None => Option::None,
            },
            symbols@,
        ),
{
    if !selected {
        "[ ]"
    } else {
        match status {
            Option::Some(s) => status_marker(s, symbols),
            Option::None => "[x]",
        }
    }
}

/// The confirmation view's title.
pub fn confirm_title(count: usize) -> (r: String)
    ensures
        r@ == "Install "@ + dec_chars(count as nat) + " tool(s)? (y/n)"@,
{
    let mut s = String::from_str("Install ");
    let n = u64_string(count as u64);
    s.append(n.as_str());
    s.append(" tool(s)? (y/n)");
    s
}

} // verus!
