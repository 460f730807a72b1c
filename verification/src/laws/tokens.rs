//! Laws of tokens and the git counts.

use crate::sidebar::tokens;
use crate::sidebar::tokens::{git_status_parts, ResolvedTokenKind};
use vstd::prelude::*;

verus! {

/// The number that a text of decimal digits stands for.
pub open spec fn number(text: Seq<char>) -> int
    decreases text.len(),
{
    if text.len() == 0 {
        0
    } else {
        10 * number(text.drop_last()) + (text.last() as int - '0' as int)
    }
}

/// `text` is the mark followed by `count` in decimal digits, without a leading
/// zero.
pub open spec fn is_marked(text: Seq<char>, mark: char, count: usize) -> bool {
    let digits = text.skip(1);
    &&& text.len() >= 2
    &&& text[0] == mark
    &&& number(digits) == count
    &&& forall|i: int| 0 <= i < digits.len() ==> '0' as int <= #[trigger] digits[i] as int
        && digits[i] as int <= '9' as int
    &&& digits[0] == '0' ==> digits.len() == 1
}

/// A number in decimal reads back as that number.
proof fn lemma_decimal(n: nat)
    ensures
        tokens::decimal(n).len() > 0,
        number(tokens::decimal(n)) == n,
        forall|i: int|
            0 <= i < tokens::decimal(n).len() ==> '0' as int <= #[trigger] tokens::decimal(
                n,
            )[i] as int && tokens::decimal(n)[i] as int <= '9' as int,
        tokens::decimal(n)[0] == '0' ==> n == 0 && tokens::decimal(n).len() == 1,
    decreases n,
{
    if n < 10 {
        let text = tokens::decimal(n);
        assert(text.drop_last() =~= Seq::empty());
        assert(number(text.drop_last()) == 0);
    } else {
        let before = tokens::decimal(n / 10);
        lemma_decimal(n / 10);
        assert(tokens::decimal(n).drop_last() =~= before);
        assert forall|i: int| 0 <= i < tokens::decimal(n).len() implies '0' as int
            <= #[trigger] tokens::decimal(n)[i] as int && tokens::decimal(n)[i] as int
            <= '9' as int by {
            if i < before.len() {
                assert(tokens::decimal(n)[i] == before[i]);
            }
        }
        assert(tokens::decimal(n)[0] == before[0]);
    }
}

/// The git status parts are the commits ahead, those behind and the changed files,
/// each behind its mark. A part shows exactly if it counts anything.
pub proof fn git_status_parts_tell_the_counts(
    ahead: usize,
    behind: usize,
    dirty: usize,
    parts: [(bool, String); 3],
)
    requires
        call_ensures(git_status_parts, (ahead, behind, dirty), parts),
    ensures
        parts@[0].0 == (ahead > 0),
        is_marked(parts@[0].1@, '↑', ahead),
        parts@[1].0 == (behind > 0),
        is_marked(parts@[1].1@, '↓', behind),
        parts@[2].0 == (dirty > 0),
        is_marked(parts@[2].1@, '~', dirty),
{
    reveal_strlit("↑");
    reveal_strlit("↓");
    reveal_strlit("~");
    lemma_decimal(ahead as nat);
    lemma_decimal(behind as nat);
    lemma_decimal(dirty as nat);
    assert(parts@[0].1@.skip(1) =~= tokens::decimal(ahead as nat));
    assert(parts@[1].1@.skip(1) =~= tokens::decimal(behind as nat));
    assert(parts@[2].1@.skip(1) =~= tokens::decimal(dirty as nat));
}

/// A token's text is the one it holds; an icon and the git counts hold none.
pub proof fn text_is_the_one_held(kind: ResolvedTokenKind, text: Option<&String>)
    requires
        call_ensures(ResolvedTokenKind::flexible_text, (&kind,), text),
    ensures
        match kind {
            ResolvedTokenKind::StateIcon => text is None,
            ResolvedTokenKind::GitStatus { .. } => text is None,
            ResolvedTokenKind::StateText(held) => text is Some && text->0@ == held@,
            ResolvedTokenKind::Workspace(held) => text is Some && text->0@ == held@,
            ResolvedTokenKind::Tab(held) => text is Some && text->0@ == held@,
            ResolvedTokenKind::Pane(held) => text is Some && text->0@ == held@,
            ResolvedTokenKind::Agent(held) => text is Some && text->0@ == held@,
            ResolvedTokenKind::TerminalTitle(held) => text is Some && text->0@ == held@,
            ResolvedTokenKind::Branch(held) => text is Some && text->0@ == held@,
            ResolvedTokenKind::Custom(held) => text is Some && text->0@ == held@,
        },
{
}

} // verus!
