//! Laws of how a row of tokens is drawn.

use crate::laws::budget as columns;
use crate::sidebar::budget;
use crate::sidebar::spans;
use crate::sidebar::spans::{resolved_token_spans, Palette, RowStyles, Span, SpanSpec};
use crate::sidebar::style;
use crate::sidebar::style::{Color, SidebarTokenStyle, Style};
use crate::sidebar::tokens;
use crate::sidebar::tokens::{ResolvedToken, ResolvedTokenKind};
use vstd::prelude::*;

verus! {

/// What `display_width`, `truncate_end` and `separator` answer.
pub open spec fn answer<
    W: Fn(&str) -> usize,
    T: Fn(&str, usize) -> String,
    S: Fn(&ResolvedToken, &ResolvedToken) -> &'static str,
>(
    display_width: W,
    truncate_end: T,
    separator: S,
    width: spec_fn(Seq<char>) -> usize,
    short: spec_fn(Seq<char>, usize) -> Seq<char>,
    between: spec_fn(ResolvedToken, ResolvedToken) -> Seq<char>,
) -> bool {
    &&& forall|text: &str, columns: usize| #[trigger]
        call_ensures(display_width, (text,), columns) ==> columns == width(text@)
    &&& forall|text: &str, columns: usize, cut: String| #[trigger]
        call_ensures(truncate_end, (text, columns), cut) ==> cut@ == short(text@, columns)
    &&& forall|left: &ResolvedToken, right: &ResolvedToken, text: &'static str| #[trigger]
        call_ensures(separator, (left, right), text) ==> text@ == between(*left, *right)
}

/// Any functions that take every input can be handed in, for any row, in any styles
/// and any width.
pub proof fn total_functions_are_accepted<
    W: Fn(&str) -> usize,
    T: Fn(&str, usize) -> String,
    S: Fn(&ResolvedToken, &ResolvedToken) -> &'static str,
>(
    resolved: &[ResolvedToken],
    icon: &str,
    styles: RowStyles,
    max_width: usize,
    display_width: W,
    truncate_end: T,
    separator: S,
)
    requires
        forall|text: &str| #[trigger] call_requires(display_width, (text,)),
        forall|text: &str, columns: usize| #[trigger] call_requires(truncate_end, (text, columns)),
        forall|left: &ResolvedToken, right: &ResolvedToken| #[trigger]
            call_requires(separator, (left, right)),
    ensures
        call_requires(
            resolved_token_spans::<W, T, S>,
            (
                resolved,
                (icon, styles.state_icon),
                styles.state_text,
                styles.workspace,
                styles.secondary,
                styles.custom,
                &styles.palette,
                max_width,
                display_width,
                truncate_end,
                separator,
            ),
        ),
{
    assert(spans::measures_any(display_width));
    assert(spans::truncates_any(truncate_end));
    assert(spans::separates_any(separator));
}

/// The texts and styles of spans.
pub open spec fn told(spans: Seq<Span>) -> Seq<SpanSpec> {
    Seq::new(
        spans.len(),
        |i: int| SpanSpec { content: spans[i].content@, style: spans[i].style },
    )
}

/// The text that a token holds.
pub open spec fn text_of(kind: ResolvedTokenKind) -> Option<Seq<char>> {
    match kind {
        ResolvedTokenKind::StateIcon => None,
        ResolvedTokenKind::GitStatus { .. } => None,
        ResolvedTokenKind::StateText(text) => Some(text@),
        ResolvedTokenKind::Workspace(text) => Some(text@),
        ResolvedTokenKind::Tab(text) => Some(text@),
        ResolvedTokenKind::Pane(text) => Some(text@),
        ResolvedTokenKind::Agent(text) => Some(text@),
        ResolvedTokenKind::TerminalTitle(text) => Some(text@),
        ResolvedTokenKind::Branch(text) => Some(text@),
        ResolvedTokenKind::Custom(text) => Some(text@),
    }
}

/// The style that a token's text has before its overrides.
pub open spec fn style_of(kind: ResolvedTokenKind, styles: RowStyles) -> Style {
    match kind {
        ResolvedTokenKind::StateIcon => styles.state_icon,
        ResolvedTokenKind::StateText(_) => styles.state_text,
        ResolvedTokenKind::Workspace(_) => styles.workspace,
        ResolvedTokenKind::Tab(_) => styles.secondary,
        ResolvedTokenKind::Pane(_) => styles.secondary,
        ResolvedTokenKind::Agent(_) => styles.secondary,
        ResolvedTokenKind::Branch(_) => styles.secondary,
        ResolvedTokenKind::TerminalTitle(_) => styles.custom,
        ResolvedTokenKind::Custom(_) => styles.custom,
        ResolvedTokenKind::GitStatus { .. } => styles.secondary,
    }
}

/// A git count in its colour.
pub open spec fn count_span(text: Seq<char>, color: Color, patch: SidebarTokenStyle) -> SpanSpec {
    let coloured = Style {
        fg: Some(color),
        bg: None,
        underline_color: None,
        add_modifier: 0,
        sub_modifier: 0,
    };
    SpanSpec { content: text, style: style::patched(coloured, patch) }
}

/// The blank between two git counts.
pub open spec fn blank_span(patch: SidebarTokenStyle) -> SpanSpec {
    let plain = Style {
        fg: None,
        bg: None,
        underline_color: None,
        add_modifier: 0,
        sub_modifier: 0,
    };
    SpanSpec { content: " "@, style: style::patched(plain, patch) }
}

/// `spans` with one count more, behind a blank if it is not the first.
pub open spec fn with_count(
    spans: Seq<SpanSpec>,
    shown: bool,
    text: Seq<char>,
    color: Color,
    patch: SidebarTokenStyle,
) -> Seq<SpanSpec> {
    if !shown {
        spans
    } else if spans.len() == 0 {
        spans.push(count_span(text, color, patch))
    } else {
        spans.push(blank_span(patch)).push(count_span(text, color, patch))
    }
}

/// The spans of the git counts: those that count anything, in green, red and
/// yellow, with a blank between two of them.
pub open spec fn counts_drawn(
    ahead: usize,
    behind: usize,
    dirty: usize,
    palette: Palette,
    patch: SidebarTokenStyle,
) -> Seq<SpanSpec> {
    let texts = tokens::git_status_texts(ahead, behind, dirty);
    let first = with_count(Seq::empty(), ahead > 0, texts[0], palette.green, patch);
    let second = with_count(first, behind > 0, texts[1], palette.red, patch);
    with_count(second, dirty > 0, texts[2], palette.yellow, patch)
}

proof fn lemma_counts_drawn(
    ahead: usize,
    behind: usize,
    dirty: usize,
    palette: Palette,
    patch: SidebarTokenStyle,
)
    ensures
        spans::parts_drawn(palette, patch, ahead, behind, dirty, 3) == counts_drawn(
            ahead,
            behind,
            dirty,
            palette,
            patch,
        ),
{
    reveal_with_fuel(spans::parts_drawn, 4);
    let texts = tokens::git_status_texts(ahead, behind, dirty);
    assert(Seq::<SpanSpec>::empty().push(count_span(texts[0], palette.green, patch)) =~= seq![
        count_span(texts[0], palette.green, patch),
    ]);
    assert(Seq::<SpanSpec>::empty().push(count_span(texts[1], palette.red, patch)) =~= seq![
        count_span(texts[1], palette.red, patch),
    ]);
    assert(Seq::<SpanSpec>::empty().push(count_span(texts[2], palette.yellow, patch)) =~= seq![
        count_span(texts[2], palette.yellow, patch),
    ]);
}

/// The git counts that count anything stand at the even places, in the order ahead,
/// behind, changed, each with its text and in green, red or yellow unless the
/// token's overrides name a colour; at the odd places stand blanks.
pub proof fn git_counts_stand_in_order(
    ahead: usize,
    behind: usize,
    dirty: usize,
    palette: Palette,
    patch: SidebarTokenStyle,
    parts: [(bool, String); 3],
)
    requires
        call_ensures(tokens::git_status_parts, (ahead, behind, dirty), parts),
    ensures
        ({
            let drawn = spans::parts_drawn(palette, patch, ahead, behind, dirty, 3);
            let before_behind = if ahead > 0 {
                1int
            } else {
                0
            };
            let before_dirty = before_behind + if behind > 0 {
                1int
            } else {
                0
            };
            let shown = before_dirty + if dirty > 0 {
                1int
            } else {
                0
            };
            let stands = |place: int, text: Seq<char>, color: Color|
                {
                    &&& drawn[2 * place].content == text
                    &&& drawn[2 * place].style.fg == Some(
                        match patch.fg {
                            Some(color) => color,
                            None => color,
                        },
                    )
                };
            &&& drawn.len() == if shown > 0 {
                2 * shown - 1
            } else {
                0
            }
            &&& ahead > 0 ==> stands(0, parts@[0].1@, palette.green)
            &&& behind > 0 ==> stands(before_behind, parts@[1].1@, palette.red)
            &&& dirty > 0 ==> stands(before_dirty, parts@[2].1@, palette.yellow)
            &&& shown > 1 ==> drawn[1].content == " "@ && drawn[1].style.fg == patch.fg
            &&& shown > 2 ==> drawn[3].content == " "@ && drawn[3].style.fg == patch.fg
        }),
{
    lemma_counts_drawn(ahead, behind, dirty, palette, patch);
    style::override_wins(count_style(palette.green), patch);
    style::override_wins(count_style(palette.red), patch);
    style::override_wins(count_style(palette.yellow), patch);
    style::override_wins(style::plain_style(), patch);
}

spec fn count_style(color: Color) -> Style {
    Style { fg: Some(color), bg: None, underline_color: None, add_modifier: 0, sub_modifier: 0 }
}

/// The spans of a token whose text has `columns` columns.
pub open spec fn one_drawn(
    token: ResolvedToken,
    icon: Seq<char>,
    styles: RowStyles,
    columns: usize,
    short: spec_fn(Seq<char>, usize) -> Seq<char>,
) -> Seq<SpanSpec> {
    match token.kind {
        ResolvedTokenKind::GitStatus { ahead, behind, dirty } => counts_drawn(
            ahead,
            behind,
            dirty,
            styles.palette,
            token.style,
        ),
        _ => seq![
            SpanSpec {
                content: match text_of(token.kind) {
                    Some(text) => short(text, columns),
                    None => icon,
                },
                style: style::patched(style_of(token.kind, styles), token.style),
            },
        ],
    }
}

proof fn lemma_one_drawn(
    token: ResolvedToken,
    icon: Seq<char>,
    styles: RowStyles,
    columns: usize,
    short: spec_fn(Seq<char>, usize) -> Seq<char>,
)
    ensures
        spans::token_drawn(token, icon, styles, columns, short) =~= one_drawn(
            token,
            icon,
            styles,
            columns,
            short,
        ),
{
    match token.kind {
        ResolvedTokenKind::GitStatus { ahead, behind, dirty } => {
            lemma_counts_drawn(ahead, behind, dirty, styles.palette, token.style);
        },
        _ => {},
    }
}

/// The span between two neighbours: dim, in the colour of the overlay.
pub open spec fn gap_span(
    left: ResolvedToken,
    right: ResolvedToken,
    palette: Palette,
    between: spec_fn(ResolvedToken, ResolvedToken) -> Seq<char>,
) -> SpanSpec {
    SpanSpec {
        content: between(left, right),
        style: Style {
            fg: Some(palette.overlay0),
            bg: None,
            underline_color: None,
            add_modifier: 2,
            sub_modifier: 0,
        },
    }
}

proof fn lemma_gap_span(
    left: ResolvedToken,
    right: ResolvedToken,
    palette: Palette,
    between: spec_fn(ResolvedToken, ResolvedToken) -> Seq<char>,
)
    ensures
        spans::separator_drawn(between, left, right, palette) == gap_span(
            left,
            right,
            palette,
            between,
        ),
{
    assert(0u16 | 2 == 2 && 0u16 & !2u16 == 0) by (bit_vector);
}

/// Columns of the git counts: those of the ones that count anything, and one
/// between two of them.
pub open spec fn counts_width(
    ahead: usize,
    behind: usize,
    dirty: usize,
    width: spec_fn(Seq<char>) -> usize,
) -> int {
    let texts = tokens::git_status_texts(ahead, behind, dirty);
    let shown = (if ahead > 0 {
        1int
    } else {
        0
    }) + (if behind > 0 {
        1int
    } else {
        0
    }) + (if dirty > 0 {
        1int
    } else {
        0
    });
    (if ahead > 0 {
        width(texts[0]) as int
    } else {
        0
    }) + (if behind > 0 {
        width(texts[1]) as int
    } else {
        0
    }) + (if dirty > 0 {
        width(texts[2]) as int
    } else {
        0
    }) + (if shown > 1 {
        shown - 1
    } else {
        0
    })
}

/// Columns of a token outside its text.
pub open spec fn outside_text(
    kind: ResolvedTokenKind,
    icon: Seq<char>,
    width: spec_fn(Seq<char>) -> usize,
) -> int {
    match kind {
        ResolvedTokenKind::StateIcon => width(icon) as int,
        ResolvedTokenKind::GitStatus { ahead, behind, dirty } => counts_width(
            ahead,
            behind,
            dirty,
            width,
        ),
        _ => 0,
    }
}

/// Columns of a token's text in full.
pub open spec fn text_width(kind: ResolvedTokenKind, width: spec_fn(Seq<char>) -> usize) -> int {
    match text_of(kind) {
        Some(text) => width(text) as int,
        None => 0,
    }
}

proof fn lemma_row(
    resolved: Seq<ResolvedToken>,
    icon: Seq<char>,
    width: spec_fn(Seq<char>) -> usize,
    between: spec_fn(ResolvedToken, ResolvedToken) -> Seq<char>,
)
    ensures
        ({
            let row = spans::row_of(resolved, icon, width, between);
            &&& row.wf()
            &&& row.flexible.len() == resolved.len()
            &&& forall|i: int|
                0 <= i < resolved.len() ==> {
                    &&& #[trigger] row.fixed[i] == outside_text(resolved[i].kind, icon, width)
                    &&& row.flexible[i] == text_width(resolved[i].kind, width)
                }
            &&& forall|i: int|
                0 <= i < resolved.len() ==> #[trigger] row.flexible[i] == text_width(
                    resolved[i].kind,
                    width,
                )
            &&& forall|i: int, j: int|
                0 <= i < resolved.len() && 0 <= j < resolved.len() ==> #[trigger] row.gap[i][j]
                    == width(between(resolved[i], resolved[j]))
        }),
{
    reveal_with_fuel(spans::parts_width, 4);
    reveal_with_fuel(spans::parts_count, 4);
}

/// The last of the first `count` tokens that is shown; -1 for none.
pub open spec fn last_shown(active: Seq<bool>, count: int) -> int
    decreases count,
{
    if count <= 0 {
        -1
    } else if active[count - 1] {
        count - 1
    } else {
        last_shown(active, count - 1)
    }
}

proof fn lemma_last_shown(active: Seq<bool>, count: int)
    requires
        0 <= count <= active.len(),
    ensures
        ({
            let shown = budget::visible(active.take(count));
            let last = last_shown(active, count);
            &&& -1 <= last < count
            &&& last == -1 ==> shown.len() == 0
            &&& last >= 0 ==> shown.len() > 0 && shown.last() == last
        }),
    decreases count,
{
    if count > 0 {
        lemma_last_shown(active, count - 1);
        assert(active.take(count).drop_last() =~= active.take(count - 1));
    } else {
        assert(active.take(0) =~= Seq::empty());
    }
}

/// Columns that the shown ones of the first `count` tokens need, with every text
/// cut to one column.
pub open spec fn needed(
    resolved: Seq<ResolvedToken>,
    active: Seq<bool>,
    icon: Seq<char>,
    width: spec_fn(Seq<char>) -> usize,
    between: spec_fn(ResolvedToken, ResolvedToken) -> Seq<char>,
    count: int,
) -> int
    decreases count,
{
    if count <= 0 {
        0
    } else {
        let before = needed(resolved, active, icon, width, between, count - 1);
        let token = resolved[count - 1];
        let last = last_shown(active, count - 1);
        if !active[count - 1] {
            before
        } else {
            before + outside_text(token.kind, icon, width) + (if text_width(token.kind, width) > 0 {
                1int
            } else {
                0
            }) + (if last >= 0 {
                width(between(resolved[last], token)) as int
            } else {
                0
            })
        }
    }
}

proof fn lemma_needed(
    resolved: Seq<ResolvedToken>,
    active: Seq<bool>,
    icon: Seq<char>,
    width: spec_fn(Seq<char>) -> usize,
    between: spec_fn(ResolvedToken, ResolvedToken) -> Seq<char>,
    count: int,
)
    requires
        active.len() == resolved.len(),
        0 <= count <= active.len(),
    ensures
        needed(resolved, active, icon, width, between, count) == budget::minimum_width(
            spans::row_of(resolved, icon, width, between),
            active.take(count),
        ),
    decreases count,
{
    let row = spans::row_of(resolved, icon, width, between);
    lemma_row(resolved, icon, width, between);
    if count > 0 {
        lemma_needed(resolved, active, icon, width, between, count - 1);
        lemma_last_shown(active, count - 1);
        let shown = budget::visible(active.take(count - 1));
        assert(active.take(count).drop_last() =~= active.take(count - 1));
        if active[count - 1] {
            assert(budget::visible(active.take(count)) == shown.push(count - 1));
            assert(shown.push(count - 1).drop_last() =~= shown);
            assert(row.fixed[count - 1] == outside_text(resolved[count - 1].kind, icon, width));
            let last = last_shown(active, count - 1);
            if last >= 0 {
                assert(shown.push(count - 1)[shown.len() - 1] == last);
                assert(row.gap[last][count - 1] == width(
                    between(resolved[last], resolved[count - 1]),
                ));
            }
        }
    } else {
        assert(active.take(0) =~= Seq::empty());
    }
}

/// The spans of the shown ones of the first `count` tokens, each behind the span
/// between it and the one shown before.
pub open spec fn shown_drawn(
    resolved: Seq<ResolvedToken>,
    active: Seq<bool>,
    budgets: Seq<usize>,
    icon: Seq<char>,
    styles: RowStyles,
    short: spec_fn(Seq<char>, usize) -> Seq<char>,
    between: spec_fn(ResolvedToken, ResolvedToken) -> Seq<char>,
    count: int,
) -> Seq<SpanSpec>
    decreases count,
{
    if count <= 0 {
        Seq::empty()
    } else {
        let before = shown_drawn(
            resolved,
            active,
            budgets,
            icon,
            styles,
            short,
            between,
            count - 1,
        );
        let token = resolved[count - 1];
        let last = last_shown(active, count - 1);
        let drawn = one_drawn(token, icon, styles, budgets[count - 1], short);
        if !active[count - 1] {
            before
        } else if last >= 0 {
            before.push(gap_span(resolved[last], token, styles.palette, between)) + drawn
        } else {
            drawn
        }
    }
}

proof fn lemma_shown_drawn(
    resolved: Seq<ResolvedToken>,
    active: Seq<bool>,
    budgets: Seq<usize>,
    icon: Seq<char>,
    styles: RowStyles,
    short: spec_fn(Seq<char>, usize) -> Seq<char>,
    between: spec_fn(ResolvedToken, ResolvedToken) -> Seq<char>,
    count: int,
)
    requires
        0 <= count <= active.len(),
    ensures
        spans::row_drawn(
            resolved,
            budget::visible(active.take(count)),
            budgets,
            icon,
            styles,
            short,
            between,
        ) == shown_drawn(resolved, active, budgets, icon, styles, short, between, count),
    decreases count,
{
    if count > 0 {
        lemma_shown_drawn(resolved, active, budgets, icon, styles, short, between, count - 1);
        lemma_last_shown(active, count - 1);
        let shown = budget::visible(active.take(count - 1));
        assert(active.take(count).drop_last() =~= active.take(count - 1));
        if active[count - 1] {
            let token = resolved[count - 1];
            let drawn = one_drawn(token, icon, styles, budgets[count - 1], short);
            let last = last_shown(active, count - 1);
            assert(budget::visible(active.take(count)) == shown.push(count - 1));
            assert(shown.push(count - 1).drop_last() =~= shown);
            lemma_one_drawn(token, icon, styles, budgets[count - 1], short);
            if last >= 0 {
                assert(shown.push(count - 1)[shown.len() - 1] == last);
                lemma_gap_span(resolved[last], token, styles.palette, between);
            } else {
                assert(shown =~= Seq::empty());
                assert(Seq::<SpanSpec>::empty() + drawn =~= drawn);
            }
        }
    } else {
        assert(active.take(0) =~= Seq::empty());
    }
}

/// The tokens that a row shows, and the columns of their texts.
pub struct Choice {
    pub active: Seq<bool>,
    pub budgets: Seq<usize>,
}

/// Every token with `i` alone, and the later ones that are shown, among those with
/// a text.
pub open spec fn beside(
    resolved: Seq<ResolvedToken>,
    active: Seq<bool>,
    width: spec_fn(Seq<char>) -> usize,
    i: int,
) -> Seq<bool> {
    Seq::new(
        active.len(),
        |k: int| k == i || text_width(resolved[k].kind, width) == 0 || (k > i && active[k]),
    )
}

/// A row shows every token without a text. A token with a text is shown exactly if
/// all tokens fit with every text cut to one column, or if it so fits beside those
/// without a text and the later ones shown. The texts share what is left evenly:
/// the row takes all columns it may, or every shown text has its full width; where
/// nothing is left, each has one column. The spans are those of the shown tokens,
/// in order, each behind what stands between it and the one before.
pub proof fn row_shows_what_fits<
    W: Fn(&str) -> usize,
    T: Fn(&str, usize) -> String,
    S: Fn(&ResolvedToken, &ResolvedToken) -> &'static str,
>(
    resolved: &[ResolvedToken],
    icon: &str,
    styles: RowStyles,
    max_width: usize,
    display_width: W,
    truncate_end: T,
    separator: S,
    drawn: Vec<Span>,
    width: spec_fn(Seq<char>) -> usize,
    short: spec_fn(Seq<char>, usize) -> Seq<char>,
    between: spec_fn(ResolvedToken, ResolvedToken) -> Seq<char>,
) -> (choice: Choice)
    requires
        call_ensures(
            resolved_token_spans::<W, T, S>,
            (
                resolved,
                (icon, styles.state_icon),
                styles.state_text,
                styles.workspace,
                styles.secondary,
                styles.custom,
                &styles.palette,
                max_width,
                display_width,
                truncate_end,
                separator,
            ),
            drawn,
        ),
        answer(display_width, truncate_end, separator, width, short, between),
    ensures
        ({
            let n = resolved@.len() as int;
            let (active, budgets) = (choice.active, choice.budgets);
            let all = Seq::new(n as nat, |k: int| true);
            let least = needed(resolved@, active, icon@, width, between, n);
            let drawn_width = least + columns::total(budgets) - texts_shown(
                resolved@,
                active,
                width,
                n,
            );
            &&& active.len() == n && budgets.len() == n
            &&& forall|i: int|
                0 <= i < n ==> #[trigger] active[i] == (text_width(resolved@[i].kind, width) == 0
                    || needed(resolved@, all, icon@, width, between, n) <= max_width || needed(
                    resolved@,
                    beside(resolved@, active, width, i),
                    icon@,
                    width,
                    between,
                    n,
                ) <= max_width)
            &&& columns::is_even(
                Seq::new(n as nat, |k: int| text_width(resolved@[k].kind, width) as nat),
                active,
                budgets,
            )
            &&& least <= max_width ==> drawn_width <= max_width && (drawn_width == max_width
                || forall|i: int|
                0 <= i < n && active[i] ==> #[trigger] budgets[i] == text_width(
                    resolved@[i].kind,
                    width,
                ))
            &&& least > max_width ==> forall|i: int|
                0 <= i < n && active[i] && text_width(resolved@[i].kind, width) > 0
                    ==> #[trigger] budgets[i] == 1
            &&& told(drawn@) == shown_drawn(
                resolved@,
                active,
                budgets,
                icon@,
                styles,
                short,
                between,
                n,
            )
        }),
{
    let n = resolved@.len() as int;
    let row = spans::row_of(resolved@, icon@, width, between);
    lemma_row(resolved@, icon@, width, between);
    let active = budget::active_tokens(row, max_width as nat);
    budget::lemma_active_len(row, max_width as nat);
    let spare = budget::spare_width(row, active, max_width as nat);
    let all = Seq::new(n as nat, |k: int| true);
    assert(spans::answer_as(display_width, truncate_end, separator, width, short, between));
    let views = spans::span_views(drawn@);
    assert(told(drawn@) =~= views);
    let rebuilt = RowStyles {
        state_icon: styles.state_icon,
        state_text: styles.state_text,
        workspace: styles.workspace,
        secondary: styles.secondary,
        custom: styles.custom,
        palette: styles.palette,
    };
    assert(rebuilt == styles);
    assert(spans::draws_as_answered(
        views,
        resolved@,
        icon@,
        rebuilt,
        max_width,
        display_width,
        truncate_end,
        separator,
    ));
    assert(spans::draws_row(
        views,
        resolved@,
        icon@,
        rebuilt,
        max_width,
        width,
        short,
        between,
    ));
    let budgets = choose|budgets: Seq<usize>|
        {
            &&& budgets.len() == resolved@.len()
            &&& budget::is_fair_share(
                budget::capacities(row, active),
                spare,
                budget::nats(budgets),
            )
            &&& views == #[trigger] spans::row_drawn(
                resolved@,
                budget::visible(active),
                budgets,
                icon@,
                styles,
                short,
                between,
            )
        };
    let flexible = Seq::new(n as nat, |k: int| text_width(resolved@[k].kind, width) as nat);
    assert(row.flexible =~= flexible);
    columns::lemma_even(flexible, row, active, spare, budgets);
    assert(active.take(n) =~= active);
    lemma_shown_drawn(resolved@, active, budgets, icon@, styles, short, between, n);
    lemma_needed(resolved@, active, icon@, width, between, n);
    lemma_texts_shown(resolved@, active, icon@, width, between, n);
    assert forall|i: int| 0 <= i < n implies #[trigger] active[i] == (text_width(
        resolved@[i].kind,
        width,
    ) == 0 || needed(resolved@, all, icon@, width, between, n) <= max_width || needed(
        resolved@,
        beside(resolved@, active, width, i),
        icon@,
        width,
        between,
        n,
    ) <= max_width) by {
        assert(row.flexible[i] == text_width(resolved@[i].kind, width));
        if row.flexible[i] == 0 {
            budget::tokens_without_text_stay(row, max_width as nat, i);
        } else {
            let others = beside(resolved@, active, width, i);
            budget::text_stays_where_it_fits(row, max_width as nat, i);
            assert forall|k: int| 0 <= k < n implies others[k] == budget::beside(
                row,
                active,
                i,
            )[k] by {
                assert(row.flexible[k] == text_width(resolved@[k].kind, width));
            }
            assert(others =~= budget::beside(row, active, i));
            assert(others.take(n) =~= others);
            assert(all.take(n) =~= all);
            assert(all =~= Seq::new(row.flexible.len(), |k: int| true));
            lemma_needed(resolved@, others, icon@, width, between, n);
            lemma_needed(resolved@, all, icon@, width, between, n);
        }
    }
    Choice { active, budgets }
}

/// How many of the first `count` tokens are shown and have a text.
pub open spec fn texts_shown(
    resolved: Seq<ResolvedToken>,
    active: Seq<bool>,
    width: spec_fn(Seq<char>) -> usize,
    count: int,
) -> int
    decreases count,
{
    if count <= 0 {
        0
    } else {
        texts_shown(resolved, active, width, count - 1) + if active[count - 1] && text_width(
            resolved[count - 1].kind,
            width,
        ) > 0 {
            1int
        } else {
            0
        }
    }
}

proof fn lemma_texts_shown(
    resolved: Seq<ResolvedToken>,
    active: Seq<bool>,
    icon: Seq<char>,
    width: spec_fn(Seq<char>) -> usize,
    between: spec_fn(ResolvedToken, ResolvedToken) -> Seq<char>,
    count: int,
)
    requires
        active.len() == resolved.len(),
        0 <= count <= active.len(),
    ensures
        texts_shown(resolved, active, width, count) == budget::text_count(
            spans::row_of(resolved, icon, width, between),
            budget::visible(active.take(count)),
        ),
    decreases count,
{
    if count > 0 {
        lemma_row(resolved, icon, width, between);
        lemma_texts_shown(resolved, active, icon, width, between, count - 1);
        let shown = budget::visible(active.take(count - 1));
        assert(active.take(count).drop_last() =~= active.take(count - 1));
        if active[count - 1] {
            assert(shown.push(count - 1).drop_last() =~= shown);
        }
    } else {
        assert(active.take(0) =~= Seq::empty());
    }
}

/// Columns of the first `count` tokens when all are drawn in full.
pub open spec fn full_width(
    resolved: Seq<ResolvedToken>,
    icon: Seq<char>,
    width: spec_fn(Seq<char>) -> usize,
    between: spec_fn(ResolvedToken, ResolvedToken) -> Seq<char>,
    count: int,
) -> int
    decreases count,
{
    if count <= 0 {
        0
    } else {
        full_width(resolved, icon, width, between, count - 1) + outside_text(
            resolved[count - 1].kind,
            icon,
            width,
        ) + text_width(resolved[count - 1].kind, width) + (if count > 1 {
            width(between(resolved[count - 2], resolved[count - 1])) as int
        } else {
            0
        })
    }
}

/// The full widths of the texts of the first `count` tokens.
spec fn text_widths(
    resolved: Seq<ResolvedToken>,
    width: spec_fn(Seq<char>) -> usize,
    count: int,
) -> Seq<usize> {
    Seq::new(count as nat, |k: int| text_width(resolved[k].kind, width) as usize)
}

proof fn lemma_full_width(
    resolved: Seq<ResolvedToken>,
    active: Seq<bool>,
    icon: Seq<char>,
    width: spec_fn(Seq<char>) -> usize,
    between: spec_fn(ResolvedToken, ResolvedToken) -> Seq<char>,
    count: int,
)
    requires
        0 <= count <= resolved.len(),
        active.len() == resolved.len(),
        forall|k: int| 0 <= k < resolved.len() ==> #[trigger] active[k],
    ensures
        full_width(resolved, icon, width, between, count) == needed(
            resolved,
            active,
            icon,
            width,
            between,
            count,
        ) - texts_shown(resolved, active, width, count) + columns::total(
            text_widths(resolved, width, count),
        ),
        full_width(resolved, icon, width, between, count) >= needed(
            resolved,
            active,
            icon,
            width,
            between,
            count,
        ),
        last_shown(active, count) == count - 1,
    decreases count,
{
    if count > 0 {
        lemma_full_width(resolved, active, icon, width, between, count - 1);
        let all = text_widths(resolved, width, count);
        assert(all.drop_last() =~= text_widths(resolved, width, count - 1));
        assert(active[count - 1]);
    }
}

proof fn lemma_wide_choice(
    resolved: Seq<ResolvedToken>,
    icon: Seq<char>,
    max_width: usize,
    width: spec_fn(Seq<char>) -> usize,
    between: spec_fn(ResolvedToken, ResolvedToken) -> Seq<char>,
    choice: Choice,
)
    requires
        full_width(resolved, icon, width, between, resolved.len() as int) <= max_width,
        choice.active.len() == resolved.len(),
        choice.budgets.len() == resolved.len(),
        forall|i: int|
            0 <= i < resolved.len() ==> #[trigger] choice.active[i] == (text_width(
                resolved[i].kind,
                width,
            ) == 0 || needed(
                resolved,
                Seq::new(resolved.len(), |k: int| true),
                icon,
                width,
                between,
                resolved.len() as int,
            ) <= max_width || needed(
                resolved,
                beside(resolved, choice.active, width, i),
                icon,
                width,
                between,
                resolved.len() as int,
            ) <= max_width),
        columns::is_even(
            Seq::new(resolved.len(), |k: int| text_width(resolved[k].kind, width) as nat),
            choice.active,
            choice.budgets,
        ),
        ({
            let least = needed(
                resolved,
                choice.active,
                icon,
                width,
                between,
                resolved.len() as int,
            );
            let drawn_width = least + columns::total(choice.budgets) - texts_shown(
                resolved,
                choice.active,
                width,
                resolved.len() as int,
            );
            least <= max_width ==> drawn_width <= max_width && (drawn_width == max_width
                || forall|i: int|
                0 <= i < resolved.len() && choice.active[i] ==> #[trigger] choice.budgets[i]
                    == text_width(resolved[i].kind, width))
        }),
    ensures
        forall|i: int| 0 <= i < resolved.len() ==> #[trigger] choice.active[i],
        choice.budgets == text_widths(resolved, width, resolved.len() as int),
{
    let n = resolved.len() as int;
    let all = Seq::new(resolved.len(), |k: int| true);
    let widths = text_widths(resolved, width, n);
    lemma_full_width(resolved, all, icon, width, between, n);
    assert(choice.active =~= all);
    columns::lemma_total(choice.budgets);
    columns::lemma_total(widths);
    let a = budget::nats(choice.budgets);
    let b = budget::nats(widths);
    assert forall|i: int| 0 <= i < a.len() implies #[trigger] a[i] <= b[i] by {
        assert(choice.budgets[i] <= text_width(resolved[i].kind, width));
    }
    budget::lemma_sum_order(a, b);
    assert forall|i: int| 0 <= i < n implies choice.budgets[i] == widths[i] by {
        if columns::total(choice.budgets) == columns::total(widths) {
            assert(a[i] == b[i]);
        } else {
            assert(choice.active[i]);
        }
    }
    assert(choice.budgets =~= widths);
}

proof fn lemma_drawn_alike(
    a: Seq<ResolvedToken>,
    b: Seq<ResolvedToken>,
    active_a: Seq<bool>,
    active_b: Seq<bool>,
    budgets_a: Seq<usize>,
    budgets_b: Seq<usize>,
    icon: Seq<char>,
    styles: RowStyles,
    short: spec_fn(Seq<char>, usize) -> Seq<char>,
    between: spec_fn(ResolvedToken, ResolvedToken) -> Seq<char>,
    count: int,
)
    requires
        forall|k: int|
            0 <= k < count ==> {
                &&& #[trigger] a[k] == b[k]
                &&& active_a[k] && active_b[k]
                &&& budgets_a[k] == budgets_b[k]
            },
    ensures
        shown_drawn(a, active_a, budgets_a, icon, styles, short, between, count) == shown_drawn(
            b,
            active_b,
            budgets_b,
            icon,
            styles,
            short,
            between,
            count,
        ),
        count > 0 ==> last_shown(active_a, count) == count - 1,
        count > 0 ==> last_shown(active_b, count) == count - 1,
    decreases count,
{
    if count > 0 {
        lemma_drawn_alike(
            a,
            b,
            active_a,
            active_b,
            budgets_a,
            budgets_b,
            icon,
            styles,
            short,
            between,
            count - 1,
        );
        assert(a[count - 1] == b[count - 1]);
        if count > 1 {
            assert(a[count - 2] == b[count - 2]);
        }
    }
}

proof fn lemma_full_width_alike(
    a: Seq<ResolvedToken>,
    b: Seq<ResolvedToken>,
    icon: Seq<char>,
    width: spec_fn(Seq<char>) -> usize,
    between: spec_fn(ResolvedToken, ResolvedToken) -> Seq<char>,
    count: int,
)
    requires
        forall|k: int| 0 <= k < count ==> #[trigger] a[k] == b[k],
    ensures
        full_width(a, icon, width, between, count) == full_width(b, icon, width, between, count),
    decreases count,
{
    if count > 0 {
        lemma_full_width_alike(a, b, icon, width, between, count - 1);
        assert(a[count - 1] == b[count - 1]);
        if count > 1 {
            assert(a[count - 2] == b[count - 2]);
        }
    }
}

/// A row without a token is drawn as nothing.
pub proof fn no_token_draws_nothing<
    W: Fn(&str) -> usize,
    T: Fn(&str, usize) -> String,
    S: Fn(&ResolvedToken, &ResolvedToken) -> &'static str,
>(
    resolved: &[ResolvedToken],
    icon: &str,
    styles: RowStyles,
    max_width: usize,
    display_width: W,
    truncate_end: T,
    separator: S,
    drawn: Vec<Span>,
    width: spec_fn(Seq<char>) -> usize,
    short: spec_fn(Seq<char>, usize) -> Seq<char>,
    between: spec_fn(ResolvedToken, ResolvedToken) -> Seq<char>,
)
    requires
        call_ensures(
            resolved_token_spans::<W, T, S>,
            (
                resolved,
                (icon, styles.state_icon),
                styles.state_text,
                styles.workspace,
                styles.secondary,
                styles.custom,
                &styles.palette,
                max_width,
                display_width,
                truncate_end,
                separator,
            ),
            drawn,
        ),
        answer(display_width, truncate_end, separator, width, short, between),
        resolved@.len() == 0,
    ensures
        drawn@.len() == 0,
{
    let choice = row_shows_what_fits(
        resolved,
        icon,
        styles,
        max_width,
        display_width,
        truncate_end,
        separator,
        drawn,
        width,
        short,
        between,
    );
    assert(told(drawn@).len() == 0);
}

/// A row that is wide enough for one token more shows it behind the row without it:
/// behind what stands between it and its neighbour, dim in the colour of the
/// overlay, comes the icon in its style, or the text, cut to no less than its full
/// width, in the style of its kind, or the git counts, each in its colour; all with
/// the token's overrides.
pub proof fn wide_row_shows_one_token_more<
    W: Fn(&str) -> usize,
    T: Fn(&str, usize) -> String,
    S: Fn(&ResolvedToken, &ResolvedToken) -> &'static str,
>(
    before: &[ResolvedToken],
    after: &[ResolvedToken],
    token: ResolvedToken,
    icon: &str,
    styles: RowStyles,
    max_width: usize,
    display_width: W,
    truncate_end: T,
    separator: S,
    old_spans: Vec<Span>,
    new_spans: Vec<Span>,
    width: spec_fn(Seq<char>) -> usize,
    short: spec_fn(Seq<char>, usize) -> Seq<char>,
    between: spec_fn(ResolvedToken, ResolvedToken) -> Seq<char>,
)
    requires
        call_ensures(
            resolved_token_spans::<W, T, S>,
            (
                before,
                (icon, styles.state_icon),
                styles.state_text,
                styles.workspace,
                styles.secondary,
                styles.custom,
                &styles.palette,
                max_width,
                display_width,
                truncate_end,
                separator,
            ),
            old_spans,
        ),
        call_ensures(
            resolved_token_spans::<W, T, S>,
            (
                after,
                (icon, styles.state_icon),
                styles.state_text,
                styles.workspace,
                styles.secondary,
                styles.custom,
                &styles.palette,
                max_width,
                display_width,
                truncate_end,
                separator,
            ),
            new_spans,
        ),
        answer(display_width, truncate_end, separator, width, short, between),
        after@ == before@.push(token),
        full_width(after@, icon@, width, between, after@.len() as int) <= max_width,
    ensures
        ({
            let spaced = if before@.len() == 0 {
                told(old_spans@)
            } else {
                told(old_spans@).push(
                    SpanSpec {
                        content: between(before@.last(), token),
                        style: Style {
                            fg: Some(styles.palette.overlay0),
                            bg: None,
                            underline_color: None,
                            add_modifier: 2,
                            sub_modifier: 0,
                        },
                    },
                )
            };
            let styled = |content: Seq<char>, base: Style|
                spaced.push(SpanSpec { content, style: style::patched(base, token.style) });
            told(new_spans@) == match token.kind {
                ResolvedTokenKind::StateIcon => styled(icon@, styles.state_icon),
                ResolvedTokenKind::StateText(text) => styled(
                    short(text@, width(text@)),
                    styles.state_text,
                ),
                ResolvedTokenKind::Workspace(text) => styled(
                    short(text@, width(text@)),
                    styles.workspace,
                ),
                ResolvedTokenKind::Tab(text) => styled(
                    short(text@, width(text@)),
                    styles.secondary,
                ),
                ResolvedTokenKind::Pane(text) => styled(
                    short(text@, width(text@)),
                    styles.secondary,
                ),
                ResolvedTokenKind::Agent(text) => styled(
                    short(text@, width(text@)),
                    styles.secondary,
                ),
                ResolvedTokenKind::Branch(text) => styled(
                    short(text@, width(text@)),
                    styles.secondary,
                ),
                ResolvedTokenKind::TerminalTitle(text) => styled(
                    short(text@, width(text@)),
                    styles.custom,
                ),
                ResolvedTokenKind::Custom(text) => styled(
                    short(text@, width(text@)),
                    styles.custom,
                ),
                ResolvedTokenKind::GitStatus { ahead, behind, dirty } => spaced + counts_drawn(
                    ahead,
                    behind,
                    dirty,
                    styles.palette,
                    token.style,
                ),
            }
        }),
{
    let n = before@.len() as int;
    let old_choice = row_shows_what_fits(
        before,
        icon,
        styles,
        max_width,
        display_width,
        truncate_end,
        separator,
        old_spans,
        width,
        short,
        between,
    );
    let new_choice = row_shows_what_fits(
        after,
        icon,
        styles,
        max_width,
        display_width,
        truncate_end,
        separator,
        new_spans,
        width,
        short,
        between,
    );
    lemma_full_width_alike(before@, after@, icon@, width, between, n);
    assert(full_width(after@, icon@, width, between, n) <= full_width(
        after@,
        icon@,
        width,
        between,
        n + 1,
    ));
    lemma_wide_choice(before@, icon@, max_width, width, between, old_choice);
    lemma_wide_choice(after@, icon@, max_width, width, between, new_choice);
    assert forall|k: int| 0 <= k < n implies {
        &&& #[trigger] before@[k] == after@[k]
        &&& old_choice.active[k] && new_choice.active[k]
        &&& old_choice.budgets[k] == new_choice.budgets[k]
    } by {
        assert(old_choice.budgets[k] == text_widths(before@, width, n)[k]);
        assert(new_choice.budgets[k] == text_widths(after@, width, n + 1)[k]);
    }
    lemma_drawn_alike(
        before@,
        after@,
        old_choice.active,
        new_choice.active,
        old_choice.budgets,
        new_choice.budgets,
        icon@,
        styles,
        short,
        between,
        n,
    );
    assert(after@[n] == token);
    assert(new_choice.active[n]);
    assert(new_choice.budgets[n] == text_widths(after@, width, n + 1)[n]);
    let drawn = one_drawn(token, icon@, styles, new_choice.budgets[n], short);
    let before_token = told(old_spans@);
    if n == 0 {
        assert(before_token =~= Seq::empty());
        assert(before_token + drawn =~= drawn);
    } else {
        assert(after@[n - 1] == before@.last());
    }
    if !(token.kind is GitStatus) {
        let spaced = if n == 0 {
            before_token
        } else {
            before_token.push(gap_span(before@.last(), token, styles.palette, between))
        };
        assert(spaced + drawn =~= spaced.push(drawn[0]));
    }
}

proof fn lemma_shows_text(
    resolved: Seq<ResolvedToken>,
    active: Seq<bool>,
    budgets: Seq<usize>,
    icon: Seq<char>,
    styles: RowStyles,
    short: spec_fn(Seq<char>, usize) -> Seq<char>,
    between: spec_fn(ResolvedToken, ResolvedToken) -> Seq<char>,
    count: int,
    i: int,
) -> (p: int)
    requires
        0 <= i < count,
        active[i],
        text_of(resolved[i].kind) is Some,
    ensures
        ({
            let drawn = shown_drawn(
                resolved,
                active,
                budgets,
                icon,
                styles,
                short,
                between,
                count,
            );
            &&& 0 <= p < drawn.len()
            &&& drawn[p].content == short(text_of(resolved[i].kind)->0, budgets[i])
            &&& drawn[p].style == style::patched(
                style_of(resolved[i].kind, styles),
                resolved[i].style,
            )
        }),
    decreases count,
{
    let drawn = shown_drawn(resolved, active, budgets, icon, styles, short, between, count);
    if i == count - 1 {
        drawn.len() - 1
    } else {
        lemma_last_of(active, count - 1, i);
        lemma_shows_text(
            resolved,
            active,
            budgets,
            icon,
            styles,
            short,
            between,
            count - 1,
            i,
        )
    }
}

proof fn lemma_last_of(active: Seq<bool>, count: int, i: int)
    requires
        0 <= i < count,
        active[i],
    ensures
        last_shown(active, count) >= i,
    decreases count,
{
    if i < count - 1 {
        lemma_last_of(active, count - 1, i);
    }
}

/// A row that is wide enough for all its tokens in full shows every text, whatever
/// its kind, cut to no less than its full width; so where a text that fits is left
/// as it is, every text stands there whole.
pub proof fn wide_row_shows_every_text<
    W: Fn(&str) -> usize,
    T: Fn(&str, usize) -> String,
    S: Fn(&ResolvedToken, &ResolvedToken) -> &'static str,
>(
    resolved: &[ResolvedToken],
    icon: &str,
    styles: RowStyles,
    max_width: usize,
    display_width: W,
    truncate_end: T,
    separator: S,
    drawn: Vec<Span>,
    width: spec_fn(Seq<char>) -> usize,
    short: spec_fn(Seq<char>, usize) -> Seq<char>,
    between: spec_fn(ResolvedToken, ResolvedToken) -> Seq<char>,
    i: int,
) -> (p: int)
    requires
        call_ensures(
            resolved_token_spans::<W, T, S>,
            (
                resolved,
                (icon, styles.state_icon),
                styles.state_text,
                styles.workspace,
                styles.secondary,
                styles.custom,
                &styles.palette,
                max_width,
                display_width,
                truncate_end,
                separator,
            ),
            drawn,
        ),
        answer(display_width, truncate_end, separator, width, short, between),
        full_width(resolved@, icon@, width, between, resolved@.len() as int) <= max_width,
        0 <= i < resolved@.len(),
        text_of(resolved@[i].kind) is Some,
    ensures
        0 <= p < drawn@.len(),
        ({
            let text = text_of(resolved@[i].kind)->0;
            &&& drawn@[p].content@ == short(text, width(text))
            &&& drawn@[p].style == style::patched(
                style_of(resolved@[i].kind, styles),
                resolved@[i].style,
            )
            &&& short(text, width(text)) == text ==> drawn@[p].content@ == text
        }),
{
    let n = resolved@.len() as int;
    let choice = row_shows_what_fits(
        resolved,
        icon,
        styles,
        max_width,
        display_width,
        truncate_end,
        separator,
        drawn,
        width,
        short,
        between,
    );
    lemma_wide_choice(resolved@, icon@, max_width, width, between, choice);
    assert(choice.active[i]);
    assert(choice.budgets[i] == text_widths(resolved@, width, n)[i]);
    let p = lemma_shows_text(
        resolved@,
        choice.active,
        choice.budgets,
        icon@,
        styles,
        short,
        between,
        n,
        i,
    );
    assert(told(drawn@)[p].content == drawn@[p].content@);
    p
}

} // verus!
