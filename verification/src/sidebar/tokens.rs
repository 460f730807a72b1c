//! The tokens of a sidebar row, resolved to what they show.

use super::style::SidebarTokenStyle;
use vstd::prelude::*;
use vstd::string::*;

verus! {

/// What a token shows.
#[derive(Clone, Debug, PartialEq, Eq)]
pub enum ResolvedTokenKind {
    StateIcon,
    StateText(String),
    Workspace(String),
    Tab(String),
    Pane(String),
    Agent(String),
    TerminalTitle(String),
    Branch(String),
    GitStatus { ahead: usize, behind: usize, dirty: usize },
    Custom(String),
}

/// A token of a row with the overrides configured for it.
#[derive(Clone, Debug, PartialEq, Eq)]
pub struct ResolvedToken {
    pub kind: ResolvedTokenKind,
    pub style: SidebarTokenStyle,
}

impl ResolvedTokenKind {
    /// The text that can be shortened, if the token holds one.
    pub open spec fn text(self) -> Option<Seq<char>> {
        match self {
            ResolvedTokenKind::StateText(text) => Some(text@),
            ResolvedTokenKind::Workspace(text) => Some(text@),
            ResolvedTokenKind::Tab(text) => Some(text@),
            ResolvedTokenKind::Pane(text) => Some(text@),
            ResolvedTokenKind::Agent(text) => Some(text@),
            ResolvedTokenKind::TerminalTitle(text) => Some(text@),
            ResolvedTokenKind::Branch(text) => Some(text@),
            ResolvedTokenKind::Custom(text) => Some(text@),
            ResolvedTokenKind::StateIcon => None,
            ResolvedTokenKind::GitStatus { .. } => None,
        }
    }

    /// The text that can be shortened, if the token holds one.
    pub fn flexible_text(&self) -> (text: Option<&String>)
        ensures
            text is Some == self.text() is Some,
            text is Some ==> text->0@ == self.text()->0,
    {
        match self {
            ResolvedTokenKind::StateText(text)
            | ResolvedTokenKind::Workspace(text)
            | ResolvedTokenKind::Tab(text)
            | ResolvedTokenKind::Pane(text)
            | ResolvedTokenKind::Agent(text)
            | ResolvedTokenKind::TerminalTitle(text)
            | ResolvedTokenKind::Branch(text)
            | ResolvedTokenKind::Custom(text) => Some(text),
            ResolvedTokenKind::StateIcon | ResolvedTokenKind::GitStatus { .. } => None,
        }
    }
}

/// The decimal digit of `d`, for `d` from 0 to 9.
pub open spec fn digit(d: int) -> char {
    ('0' as int + d) as char
}

/// `n` in decimal, without leading zeros.
pub open spec fn decimal(n: nat) -> Seq<char>
    decreases n,
{
    if n < 10 {
        seq![digit(n as int)]
    } else {
        decimal(n / 10).push(digit((n % 10) as int))
    }
}

fn digit_text(d: usize) -> (text: &'static str)
    requires
        d < 10,
    ensures
        text@ == seq![digit(d as int)],
{
    proof {
        reveal_strlit("0");
        reveal_strlit("1");
        reveal_strlit("2");
        reveal_strlit("3");
        reveal_strlit("4");
        reveal_strlit("5");
        reveal_strlit("6");
        reveal_strlit("7");
        reveal_strlit("8");
        reveal_strlit("9");
    }
    let text = match d {
        0 => "0",
        1 => "1",
        2 => "2",
        3 => "3",
        4 => "4",
        5 => "5",
        6 => "6",
        7 => "7",
        8 => "8",
        _ => "9",
    };
    assert(text@ =~= seq![digit(d as int)]);
    text
}

/// Appends `n` in decimal.
fn append_decimal(text: &mut String, n: usize)
    ensures
        final(text)@ == old(text)@ + decimal(n as nat),
    decreases n,
{
    if n >= 10 {
        append_decimal(text, n / 10);
    }
    text.append(digit_text(n % 10));
    assert(text@ =~= old(text)@ + decimal(n as nat));
}

/// A count behind its mark.
pub open spec fn marked(mark: Seq<char>, count: usize) -> Seq<char> {
    mark + decimal(count as nat)
}

fn marked_count(mark: &str, count: usize) -> (text: String)
    ensures
        text@ == marked(mark@, count),
{
    let mut text = mark.to_owned();
    append_decimal(&mut text, count);
    text
}

/// The texts of the git status parts, in draw order.
pub open spec fn git_status_texts(ahead: usize, behind: usize, dirty: usize) -> Seq<Seq<char>> {
    seq![marked("↑"@, ahead), marked("↓"@, behind), marked("~"@, dirty)]
}

/// Which of the git status parts show, in draw order: those that count anything.
pub open spec fn git_status_shown(ahead: usize, behind: usize, dirty: usize) -> Seq<bool> {
    seq![ahead > 0, behind > 0, dirty > 0]
}

/// The git status parts in draw order, each with whether it shows. What a row
/// measures and what it draws both come from here, so that they cannot disagree.
pub fn git_status_parts(ahead: usize, behind: usize, dirty: usize) -> (parts: [(bool, String); 3])
    ensures
        forall|i: int|
            0 <= i < 3 ==> (#[trigger] parts@[i]).0 == git_status_shown(ahead, behind, dirty)[i]
                && parts@[i].1@ == git_status_texts(ahead, behind, dirty)[i],
{
    [
        (ahead > 0, marked_count("↑", ahead)),
        (behind > 0, marked_count("↓", behind)),
        (dirty > 0, marked_count("~", dirty)),
    ]
}

} // verus!
