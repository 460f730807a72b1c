//! Draws one row of resolved tokens as styled spans.
//!
//! How wide a text is drawn, how it is shortened and what stands between two
//! tokens is up to the caller, who hands in three functions. The contracts speak
//! of what these functions answer: `width` gives the columns of a text, `short` a
//! text cut to some columns, and `between` the text between two neighbours.

use super::budget;
use super::budget::{RowSpec, RowWidths};
use super::style;
use super::style::{apply_token_style, Color, SidebarTokenStyle, Style, MODIFIER_DIM};
use super::tokens;
use super::tokens::{git_status_parts, ResolvedToken, ResolvedTokenKind};
use vstd::prelude::*;
use vstd::string::*;

verus! {

/// A text drawn in one style.
#[derive(Clone, Debug, PartialEq, Eq)]
pub struct Span {
    pub content: String,
    pub style: Style,
}

/// A span, as the contracts speak of it.
#[verifier::ext_equal]
pub struct SpanSpec {
    pub content: Seq<char>,
    pub style: Style,
}

impl View for Span {
    type V = SpanSpec;

    open spec fn view(&self) -> SpanSpec {
        SpanSpec { content: self.content@, style: self.style }
    }
}

pub open spec fn span_views(spans: Seq<Span>) -> Seq<SpanSpec> {
    spans.map_values(|span: Span| span@)
}

/// The colours of the theme that a row uses.
#[derive(Clone, Copy, Debug, PartialEq, Eq)]
pub struct Palette {
    pub green: Color,
    pub red: Color,
    pub yellow: Color,
    pub overlay0: Color,
}

/// The styles that the tokens of a row are drawn in, before their overrides.
#[derive(Clone, Copy, Debug, PartialEq, Eq)]
pub struct RowStyles {
    pub state_icon: Style,
    pub state_text: Style,
    pub workspace: Style,
    pub secondary: Style,
    pub custom: Style,
    pub palette: Palette,
}

/// `display_width` gives texts the columns that `width` says.
pub open spec fn measures_as<W: Fn(&str) -> usize>(
    display_width: W,
    width: spec_fn(Seq<char>) -> usize,
) -> bool {
    forall|text: &str, columns: usize| #[trigger]
        display_width.ensures((text,), columns) ==> columns == width(text@)
}

/// `truncate_end` cuts texts as `short` says.
pub open spec fn truncates_as<T: Fn(&str, usize) -> String>(
    truncate_end: T,
    short: spec_fn(Seq<char>, usize) -> Seq<char>,
) -> bool {
    forall|text: &str, columns: usize, cut: String| #[trigger]
        truncate_end.ensures((text, columns), cut) ==> cut@ == short(text@, columns)
}

/// `separator` puts between two tokens what `between` says.
pub open spec fn separates_as<S: Fn(&ResolvedToken, &ResolvedToken) -> &'static str>(
    separator: S,
    between: spec_fn(ResolvedToken, ResolvedToken) -> Seq<char>,
) -> bool {
    forall|left: &ResolvedToken, right: &ResolvedToken, text: &'static str| #[trigger]
        separator.ensures((left, right), text) ==> text@ == between(*left, *right)
}

/// The three functions answer as `width`, `short` and `between` say.
pub open spec fn answer_as<
    W: Fn(&str) -> usize,
    T: Fn(&str, usize) -> String,
    S: Fn(&ResolvedToken, &ResolvedToken) -> &'static str,
>(
    display_width: W,
    truncate_end: T,
    separator: S,
    width: spec_fn(Seq<char>) -> usize,
    short: spec_fn(Seq<char>, usize) -> Seq<char>,
    between: spec_fn(ResolvedToken, ResolvedToken) -> Seq<char>,
) -> bool {
    &&& measures_as(display_width, width)
    &&& truncates_as(truncate_end, short)
    &&& separates_as(separator, between)
}

/// `display_width` takes any text.
pub open spec fn measures_any<W: Fn(&str) -> usize>(display_width: W) -> bool {
    forall|text: &str| #[trigger] display_width.requires((text,))
}

/// `truncate_end` takes any text and any number of columns.
pub open spec fn truncates_any<T: Fn(&str, usize) -> String>(truncate_end: T) -> bool {
    forall|text: &str, columns: usize| #[trigger] truncate_end.requires((text, columns))
}

/// `separator` takes any two tokens.
pub open spec fn separates_any<S: Fn(&ResolvedToken, &ResolvedToken) -> &'static str>(
    separator: S,
) -> bool {
    forall|left: &ResolvedToken, right: &ResolvedToken| #[trigger] separator.requires((left, right))
}

/// Columns of the first `count` git status parts, without the spaces between
/// them.
pub open spec fn parts_width(
    width: spec_fn(Seq<char>) -> usize,
    ahead: usize,
    behind: usize,
    dirty: usize,
    count: int,
) -> nat
    decreases count,
{
    if count <= 0 {
        0
    } else {
        parts_width(width, ahead, behind, dirty, count - 1) + if tokens::git_status_shown(
            ahead,
            behind,
            dirty,
        )[count - 1] {
            width(tokens::git_status_texts(ahead, behind, dirty)[count - 1]) as nat
        } else {
            0
        }
    }
}

/// How many of the first `count` git status parts show.
pub open spec fn parts_count(ahead: usize, behind: usize, dirty: usize, count: int) -> nat
    decreases count,
{
    if count <= 0 {
        0
    } else {
        parts_count(ahead, behind, dirty, count - 1) + if tokens::git_status_shown(ahead, behind, dirty)[count
            - 1] {
            1nat
        } else {
            0
        }
    }
}

/// Columns that a token takes outside its text: an icon takes its own width, the
/// git counts that show theirs and one column between two of them.
pub open spec fn fixed_width(
    width: spec_fn(Seq<char>) -> usize,
    icon: Seq<char>,
    kind: ResolvedTokenKind,
) -> nat {
    match kind {
        ResolvedTokenKind::StateIcon => width(icon) as nat,
        ResolvedTokenKind::GitStatus { ahead, behind, dirty } => parts_width(
            width,
            ahead,
            behind,
            dirty,
            3,
        ) + budget::minus(parts_count(ahead, behind, dirty, 3), 1),
        _ => 0,
    }
}

/// Columns that the text of a token takes in full.
pub open spec fn flexible_width(
    width: spec_fn(Seq<char>) -> usize,
    kind: ResolvedTokenKind,
) -> nat {
    match kind.text() {
        Some(text) => width(text) as nat,
        None => 0,
    }
}

/// The widths of a row of tokens.
pub open spec fn row_of(
    resolved: Seq<ResolvedToken>,
    icon: Seq<char>,
    width: spec_fn(Seq<char>) -> usize,
    between: spec_fn(ResolvedToken, ResolvedToken) -> Seq<char>,
) -> RowSpec {
    RowSpec {
        fixed: Seq::new(resolved.len(), |i: int| fixed_width(width, icon, resolved[i].kind)),
        flexible: Seq::new(resolved.len(), |i: int| flexible_width(width, resolved[i].kind)),
        gap: Seq::new(
            resolved.len(),
            |i: int|
                Seq::new(
                    resolved.len(),
                    |j: int| width(between(resolved[i], resolved[j])) as nat,
                ),
        ),
    }
}

fn measure_fixed<W: Fn(&str) -> usize>(display_width: &W, icon: &str, kind: &ResolvedTokenKind)
    -> (total: u128)
    requires
        measures_any(*display_width),
    ensures
        forall|width: spec_fn(Seq<char>) -> usize| #[trigger]
            measures_as(*display_width, width) ==> total == fixed_width(width, icon@, *kind),
{
    match kind {
        ResolvedTokenKind::StateIcon => (*display_width)(icon) as u128,
        ResolvedTokenKind::GitStatus { ahead, behind, dirty } => {
            let parts = git_status_parts(*ahead, *behind, *dirty);
            let mut total: u128 = 0;
            let mut shown: u128 = 0;
            for k in 0..3usize
                invariant
                    measures_any(*display_width),
                    forall|i: int|
                        0 <= i < 3 ==> (#[trigger] parts@[i]).0 == tokens::git_status_shown(
                            *ahead,
                            *behind,
                            *dirty,
                        )[i] && parts@[i].1@ == tokens::git_status_texts(*ahead, *behind, *dirty)[i],
                    forall|width: spec_fn(Seq<char>) -> usize| #[trigger]
                        measures_as(*display_width, width) ==> total == parts_width(
                            width,
                            *ahead,
                            *behind,
                            *dirty,
                            k as int,
                        ),
                    shown == parts_count(*ahead, *behind, *dirty, k as int),
                    shown <= k,
                    total <= k * u64::MAX,
            {
                if parts[k].0 {
                    total = total + (*display_width)(parts[k].1.as_str()) as u128;
                    shown = shown + 1;
                }
            }
            total + shown.saturating_sub(1)
        },
        _ => 0,
    }
}

/// Measures a row of tokens.
fn measure_row<W: Fn(&str) -> usize, S: Fn(&ResolvedToken, &ResolvedToken) -> &'static str>(
    resolved: &[ResolvedToken],
    icon: &str,
    display_width: &W,
    separator: &S,
) -> (row: RowWidths)
    requires
        measures_any(*display_width),
        separates_any(*separator),
    ensures
        forall|
            width: spec_fn(Seq<char>) -> usize,
            between: spec_fn(ResolvedToken, ResolvedToken) -> Seq<char>,
        | #[trigger]
            measures_as(*display_width, width) && #[trigger] separates_as(*separator, between)
                ==> row@ == row_of(resolved@, icon@, width, between),
        row@.flexible.len() == resolved@.len(),
        row.wf(),
{
    let count = resolved.len();
    let mut fixed: Vec<u128> = Vec::new();
    let mut flexible: Vec<usize> = Vec::new();
    let mut gap: Vec<Vec<usize>> = Vec::new();
    for i in 0..count
        invariant
            measures_any(*display_width),
            separates_any(*separator),
            count == resolved@.len(),
            fixed@.len() == i,
            flexible@.len() == i,
            gap@.len() == i,
            forall|k: int| 0 <= k < i ==> (#[trigger] gap@[k])@.len() == count,
            forall|width: spec_fn(Seq<char>) -> usize, k: int| #[trigger]
                measures_as(*display_width, width) && 0 <= k < i ==> #[trigger] fixed@[k]
                    == fixed_width(width, icon@, resolved@[k].kind),
            forall|width: spec_fn(Seq<char>) -> usize, k: int| #[trigger]
                measures_as(*display_width, width) && 0 <= k < i ==> #[trigger] flexible@[k]
                    == flexible_width(width, resolved@[k].kind),
            forall|
                width: spec_fn(Seq<char>) -> usize,
                between: spec_fn(ResolvedToken, ResolvedToken) -> Seq<char>,
                k: int,
                l: int,
            | #[trigger]
                measures_as(*display_width, width) && #[trigger] separates_as(*separator, between)
                    && 0 <= k < i && 0 <= l < count ==> #[trigger] gap@[k]@[l] == width(
                    between(resolved@[k], resolved@[l]),
                ),
    {
        fixed.push(measure_fixed(display_width, icon, &resolved[i].kind));
        flexible.push(
            match resolved[i].kind.flexible_text() {
                Some(text) => (*display_width)(text.as_str()),
                None => 0,
            },
        );
        let mut after: Vec<usize> = Vec::new();
        for j in 0..count
            invariant
                measures_any(*display_width),
                separates_any(*separator),
                count == resolved@.len(),
                i < count,
                after@.len() == j,
                forall|
                    width: spec_fn(Seq<char>) -> usize,
                    between: spec_fn(ResolvedToken, ResolvedToken) -> Seq<char>,
                    l: int,
                | #[trigger]
                    measures_as(*display_width, width) && #[trigger] separates_as(
                        *separator,
                        between,
                    ) && 0 <= l < j ==> #[trigger] after@[l] == width(
                        between(resolved@[i as int], resolved@[l]),
                    ),
        {
            let text = (*separator)(&resolved[i], &resolved[j]);
            after.push((*display_width)(text));
        }
        gap.push(after);
    }
    let widths = RowWidths { fixed, flexible, gap };
    assert forall|
        width: spec_fn(Seq<char>) -> usize,
        between: spec_fn(ResolvedToken, ResolvedToken) -> Seq<char>,
    | #[trigger]
        measures_as(*display_width, width) && #[trigger] separates_as(*separator, between) implies
        widths@ == row_of(resolved@, icon@, width, between) by {
        assert(widths@ =~~= row_of(resolved@, icon@, width, between));
    }
    widths
}

/// The style that a token with a text is drawn in, before its overrides.
pub open spec fn base_style(styles: RowStyles, kind: ResolvedTokenKind) -> Style {
    match kind {
        ResolvedTokenKind::StateText(_) => styles.state_text,
        ResolvedTokenKind::Workspace(_) => styles.workspace,
        ResolvedTokenKind::TerminalTitle(_) => styles.custom,
        ResolvedTokenKind::Custom(_) => styles.custom,
        _ => styles.secondary,
    }
}

/// The colours of the git status parts, in draw order.
pub open spec fn part_colors(palette: Palette) -> Seq<Color> {
    seq![palette.green, palette.red, palette.yellow]
}

/// The space between two git status parts.
pub open spec fn part_space(patch: SidebarTokenStyle) -> SpanSpec {
    SpanSpec { content: " "@, style: style::patched(style::plain_style(), patch) }
}

/// The git status part at position `k`.
pub open spec fn part_span(
    palette: Palette,
    patch: SidebarTokenStyle,
    texts: Seq<Seq<char>>,
    k: int,
) -> SpanSpec {
    SpanSpec {
        content: texts[k],
        style: style::patched(
            style::with_fg(style::plain_style(), part_colors(palette)[k]),
            patch,
        ),
    }
}

/// The spans of the first `count` git status parts: those that show, with a space
/// between two of them.
pub open spec fn parts_drawn(
    palette: Palette,
    patch: SidebarTokenStyle,
    ahead: usize,
    behind: usize,
    dirty: usize,
    count: int,
) -> Seq<SpanSpec>
    decreases count,
{
    if count <= 0 {
        Seq::empty()
    } else {
        let before = parts_drawn(palette, patch, ahead, behind, dirty, count - 1);
        let part = part_span(
            palette,
            patch,
            tokens::git_status_texts(ahead, behind, dirty),
            count - 1,
        );
        if !tokens::git_status_shown(ahead, behind, dirty)[count - 1] {
            before
        } else if before.len() == 0 {
            seq![part]
        } else {
            before.push(part_space(patch)).push(part)
        }
    }
}

/// The spans of one token whose text gets `budget` columns.
pub open spec fn token_drawn(
    token: ResolvedToken,
    icon: Seq<char>,
    styles: RowStyles,
    budget: usize,
    short: spec_fn(Seq<char>, usize) -> Seq<char>,
) -> Seq<SpanSpec> {
    match token.kind {
        ResolvedTokenKind::StateIcon => seq![
            SpanSpec { content: icon, style: style::patched(styles.state_icon, token.style) },
        ],
        ResolvedTokenKind::GitStatus { ahead, behind, dirty } => parts_drawn(
            styles.palette,
            token.style,
            ahead,
            behind,
            dirty,
            3,
        ),
        _ => seq![
            SpanSpec {
                content: short(token.kind.text()->0, budget),
                style: style::patched(base_style(styles, token.kind), token.style),
            },
        ],
    }
}

/// The span between two neighbours.
pub open spec fn separator_drawn(
    between: spec_fn(ResolvedToken, ResolvedToken) -> Seq<char>,
    left: ResolvedToken,
    right: ResolvedToken,
    palette: Palette,
) -> SpanSpec {
    SpanSpec {
        content: between(left, right),
        style: style::with_modifier(
            style::with_fg(style::plain_style(), palette.overlay0),
            MODIFIER_DIM,
        ),
    }
}

/// The spans of the tokens at `shown`, each behind its separator but the first.
pub open spec fn row_drawn(
    resolved: Seq<ResolvedToken>,
    shown: Seq<int>,
    budgets: Seq<usize>,
    icon: Seq<char>,
    styles: RowStyles,
    short: spec_fn(Seq<char>, usize) -> Seq<char>,
    between: spec_fn(ResolvedToken, ResolvedToken) -> Seq<char>,
) -> Seq<SpanSpec>
    decreases shown.len(),
{
    if shown.len() == 0 {
        Seq::empty()
    } else {
        let before = row_drawn(resolved, shown.drop_last(), budgets, icon, styles, short, between);
        let index = shown.last();
        let token = token_drawn(resolved[index], icon, styles, budgets[index], short);
        if shown.len() == 1 {
            before + token
        } else {
            before.push(
                separator_drawn(
                    between,
                    resolved[shown[shown.len() - 2]],
                    resolved[index],
                    styles.palette,
                ),
            ) + token
        }
    }
}

proof fn lemma_push_view(spans: Seq<Span>, span: Span)
    ensures
        span_views(spans.push(span)) == span_views(spans).push(span@),
{
    assert(span_views(spans.push(span)) =~= span_views(spans).push(span@));
}

fn push_git_status(
    spans: &mut Vec<Span>,
    ahead: usize,
    behind: usize,
    dirty: usize,
    palette: &Palette,
    patch: SidebarTokenStyle,
)
    ensures
        span_views(final(spans)@) == span_views(old(spans)@) + parts_drawn(
            *palette,
            patch,
            ahead,
            behind,
            dirty,
            3,
        ),
{
    let parts = git_status_parts(ahead, behind, dirty);
    let colors = [palette.green, palette.red, palette.yellow];
    let mut wrote: bool = false;
    let ghost start = span_views(spans@);
    assert(start + parts_drawn(*palette, patch, ahead, behind, dirty, 0) =~= start);
    for k in 0..3usize
        invariant
            forall|i: int|
                0 <= i < 3 ==> (#[trigger] parts@[i]).0 == tokens::git_status_shown(
                    ahead,
                    behind,
                    dirty,
                )[i] && parts@[i].1@ == tokens::git_status_texts(ahead, behind, dirty)[i],
            colors@ == part_colors(*palette),
            start == span_views(old(spans)@),
            span_views(spans@) == start + parts_drawn(
                *palette,
                patch,
                ahead,
                behind,
                dirty,
                k as int,
            ),
            wrote == (parts_drawn(*palette, patch, ahead, behind, dirty, k as int).len() > 0),
    {
        let ghost before = parts_drawn(*palette, patch, ahead, behind, dirty, k as int);
        let ghost after = parts_drawn(*palette, patch, ahead, behind, dirty, k + 1);
        if parts[k].0 {
            if wrote {
                let space = Span {
                    content: " ".to_owned(),
                    style: apply_token_style(Style::default(), patch),
                };
                proof {
                    lemma_push_view(spans@, space);
                }
                spans.push(space);
                assert(span_views(spans@) =~= start + before.push(part_space(patch)));
            }
            let part = Span {
                content: parts[k].1.clone(),
                style: apply_token_style(Style::default().fg(colors[k]), patch),
            };
            proof {
                lemma_push_view(spans@, part);
            }
            spans.push(part);
            wrote = true;
        }
        assert(span_views(spans@) =~= start + after);
    }
}

fn push_token<T: Fn(&str, usize) -> String>(
    spans: &mut Vec<Span>,
    token: &ResolvedToken,
    icon: &str,
    styles: &RowStyles,
    budget: usize,
    truncate_end: &T,
)
    requires
        truncates_any(*truncate_end),
    ensures
        forall|short: spec_fn(Seq<char>, usize) -> Seq<char>| #[trigger]
            truncates_as(*truncate_end, short) ==> span_views(final(spans)@) == span_views(
                old(spans)@,
            ) + token_drawn(*token, icon@, *styles, budget, short),
{
    let ghost start = span_views(spans@);
    let span = match &token.kind {
        ResolvedTokenKind::GitStatus { ahead, behind, dirty } => {
            push_git_status(spans, *ahead, *behind, *dirty, &styles.palette, token.style);
            return ;
        },
        ResolvedTokenKind::StateIcon => Span {
            content: icon.to_owned(),
            style: apply_token_style(styles.state_icon, token.style),
        },
        ResolvedTokenKind::StateText(text) => Span {
            content: (*truncate_end)(text.as_str(), budget),
            style: apply_token_style(styles.state_text, token.style),
        },
        ResolvedTokenKind::Workspace(text) => Span {
            content: (*truncate_end)(text.as_str(), budget),
            style: apply_token_style(styles.workspace, token.style),
        },
        ResolvedTokenKind::Tab(text)
        | ResolvedTokenKind::Pane(text)
        | ResolvedTokenKind::Agent(text)
        | ResolvedTokenKind::Branch(text) => Span {
            content: (*truncate_end)(text.as_str(), budget),
            style: apply_token_style(styles.secondary, token.style),
        },
        ResolvedTokenKind::TerminalTitle(text) | ResolvedTokenKind::Custom(text) => Span {
            content: (*truncate_end)(text.as_str(), budget),
            style: apply_token_style(styles.custom, token.style),
        },
    };
    let ghost drawn = span@;
    proof {
        lemma_push_view(spans@, span);
    }
    spans.push(span);
    assert forall|short: spec_fn(Seq<char>, usize) -> Seq<char>| #[trigger]
        truncates_as(*truncate_end, short) implies span_views(spans@) == start + token_drawn(
        *token,
        icon@,
        *styles,
        budget,
        short,
    ) by {
        assert(token_drawn(*token, icon@, *styles, budget, short) =~= seq![drawn]);
        assert(start.push(drawn) =~= start + seq![drawn]);
    }
}

/// `spans` draws the row of `resolved` in at most `max_width` columns: the tokens
/// that `budget::active_tokens` picks, in order, with the columns left over
/// shared fairly between their texts.
pub open spec fn draws_row(
    spans: Seq<SpanSpec>,
    resolved: Seq<ResolvedToken>,
    icon: Seq<char>,
    styles: RowStyles,
    max_width: usize,
    width: spec_fn(Seq<char>) -> usize,
    short: spec_fn(Seq<char>, usize) -> Seq<char>,
    between: spec_fn(ResolvedToken, ResolvedToken) -> Seq<char>,
) -> bool {
    let row = row_of(resolved, icon, width, between);
    let active = budget::active_tokens(row, max_width as nat);
    exists|budgets: Seq<usize>|
        {
            &&& budgets.len() == resolved.len()
            &&& budget::is_fair_share(
                budget::capacities(row, active),
                budget::spare_width(row, active, max_width as nat),
                budget::nats(budgets),
            )
            &&& spans == #[trigger] row_drawn(
                resolved,
                budget::visible(active),
                budgets,
                icon,
                styles,
                short,
                between,
            )
        }
}

/// `spans` draws the row of `resolved` as the three functions answer, whatever that
/// is.
pub open spec fn draws_as_answered<
    W: Fn(&str) -> usize,
    T: Fn(&str, usize) -> String,
    S: Fn(&ResolvedToken, &ResolvedToken) -> &'static str,
>(
    spans: Seq<SpanSpec>,
    resolved: Seq<ResolvedToken>,
    icon: Seq<char>,
    styles: RowStyles,
    max_width: usize,
    display_width: W,
    truncate_end: T,
    separator: S,
) -> bool {
    forall|
        width: spec_fn(Seq<char>) -> usize,
        short: spec_fn(Seq<char>, usize) -> Seq<char>,
        between: spec_fn(ResolvedToken, ResolvedToken) -> Seq<char>,
    | #[trigger]
        answer_as(display_width, truncate_end, separator, width, short, between) ==> draws_row(
            spans,
            resolved,
            icon,
            styles,
            max_width,
            width,
            short,
            between,
        )
}

/// Draws a row of tokens in at most `max_width` columns.
///
/// `state_icon` is the icon of the row's state with its style; the other styles
/// are those of the kinds of text. `display_width` measures a text,
/// `truncate_end` shortens one, and `separator` says what stands between two
/// neighbours. Whatever these three answer as, the row is drawn accordingly.
pub fn resolved_token_spans<
    W: Fn(&str) -> usize,
    T: Fn(&str, usize) -> String,
    S: Fn(&ResolvedToken, &ResolvedToken) -> &'static str,
>(
    resolved: &[ResolvedToken],
    state_icon: (&str, Style),
    state_text_style: Style,
    workspace_style: Style,
    secondary_style: Style,
    custom_style: Style,
    palette: &Palette,
    max_width: usize,
    display_width: W,
    truncate_end: T,
    separator: S,
) -> (spans: Vec<Span>)
    requires
        measures_any(display_width),
        truncates_any(truncate_end),
        separates_any(separator),
    ensures
        forall|
            width: spec_fn(Seq<char>) -> usize,
            short: spec_fn(Seq<char>, usize) -> Seq<char>,
            between: spec_fn(ResolvedToken, ResolvedToken) -> Seq<char>,
        | #[trigger]
            answer_as(display_width, truncate_end, separator, width, short, between) ==> draws_row(
                span_views(spans@),
                resolved@,
                state_icon.0@,
                (RowStyles {
                    state_icon: state_icon.1,
                    state_text: state_text_style,
                    workspace: workspace_style,
                    secondary: secondary_style,
                    custom: custom_style,
                    palette: *palette,
                }),
                max_width,
                width,
                short,
                between,
            ),
        draws_as_answered(
            span_views(spans@),
            resolved@,
            state_icon.0@,
            (RowStyles {
                state_icon: state_icon.1,
                state_text: state_text_style,
                workspace: workspace_style,
                secondary: secondary_style,
                custom: custom_style,
                palette: *palette,
            }),
            max_width,
            display_width,
            truncate_end,
            separator,
        ),
{
    let icon = state_icon.0;
    let styles = RowStyles {
        state_icon: state_icon.1,
        state_text: state_text_style,
        workspace: workspace_style,
        secondary: secondary_style,
        custom: custom_style,
        palette: *palette,
    };
    let row = measure_row(resolved, icon, &display_width, &separator);
    let active = row.active_tokens(max_width);
    let budgets = row.text_budgets(&active, max_width);

    let mut spans: Vec<Span> = Vec::new();
    let mut previous: Option<usize> = None;
    let ghost shown = budget::visible(active@.take(0));
    assert(active@.take(0) =~= Seq::empty());
    assert(span_views(spans@) =~= Seq::empty());
    for index in 0..resolved.len()
        invariant
            truncates_any(truncate_end),
            separates_any(separator),
            active@.len() == resolved@.len(),
            budgets@.len() == resolved@.len(),
            styles.palette == *palette,
            icon@ == state_icon.0@,
            shown == budget::visible(active@.take(index as int)),
            match previous {
                Some(p) => shown.len() > 0 && p == shown.last() && p < index,
                None => shown.len() == 0,
            },
            forall|
                short: spec_fn(Seq<char>, usize) -> Seq<char>,
                between: spec_fn(ResolvedToken, ResolvedToken) -> Seq<char>,
            | #[trigger]
                truncates_as(truncate_end, short) && #[trigger] separates_as(separator, between)
                    ==> span_views(spans@) == row_drawn(
                    resolved@,
                    shown,
                    budgets@,
                    icon@,
                    styles,
                    short,
                    between,
                ),
    {
        assert(active@.take(index + 1).drop_last() =~= active@.take(index as int));
        if active[index] {
            let ghost next = shown.push(index as int);
            assert(next.drop_last() =~= shown);
            let token = &resolved[index];
            if let Some(p) = previous {
                let ghost before = span_views(spans@);
                let between = Span {
                    content: separator(&resolved[p], token).to_owned(),
                    style: Style::default().fg(palette.overlay0).add_modifier(MODIFIER_DIM),
                };
                let ghost drawn = between@;
                spans.push(between);
                assert(span_views(spans@) =~= before.push(drawn));
            }
            push_token(&mut spans, token, icon, &styles, budgets[index], &truncate_end);
            previous = Some(index);
            proof {
                shown = next;
            }
        }
    }
    assert(active@.take(active@.len() as int) =~= active@);
    spans
}

/// A row is drawn in one way only: the tokens, their styles, the width and what
/// the three functions answer settle the spans.
pub proof fn drawing_is_settled(
    a: Seq<SpanSpec>,
    b: Seq<SpanSpec>,
    resolved: Seq<ResolvedToken>,
    icon: Seq<char>,
    styles: RowStyles,
    max_width: usize,
    width: spec_fn(Seq<char>) -> usize,
    short: spec_fn(Seq<char>, usize) -> Seq<char>,
    between: spec_fn(ResolvedToken, ResolvedToken) -> Seq<char>,
)
    requires
        draws_row(a, resolved, icon, styles, max_width, width, short, between),
        draws_row(b, resolved, icon, styles, max_width, width, short, between),
    ensures
        a == b,
{
    let row = row_of(resolved, icon, width, between);
    let active = budget::active_tokens(row, max_width as nat);
    let shown = budget::visible(active);
    let capacity = budget::capacities(row, active);
    let spare = budget::spare_width(row, active, max_width as nat);
    let x = choose|budgets: Seq<usize>|
        {
            &&& budgets.len() == resolved.len()
            &&& budget::is_fair_share(capacity, spare, budget::nats(budgets))
            &&& a == #[trigger] row_drawn(resolved, shown, budgets, icon, styles, short, between)
        };
    let y = choose|budgets: Seq<usize>|
        {
            &&& budgets.len() == resolved.len()
            &&& budget::is_fair_share(capacity, spare, budget::nats(budgets))
            &&& b == #[trigger] row_drawn(resolved, shown, budgets, icon, styles, short, between)
        };
    budget::fair_share_is_unique(capacity, spare, budget::nats(x), budget::nats(y));
    assert forall|i: int| 0 <= i < x.len() implies x[i] == y[i] by {
        assert(budget::nats(x)[i] == budget::nats(y)[i]);
    }
    assert(x =~= y);
}

/// Columns that a run of spans takes.
pub open spec fn spans_width(width: spec_fn(Seq<char>) -> usize, spans: Seq<SpanSpec>) -> nat
    decreases spans.len(),
{
    if spans.len() == 0 {
        0
    } else {
        spans_width(width, spans.drop_last()) + width(spans.last().content) as nat
    }
}

proof fn lemma_spans_width_push(
    width: spec_fn(Seq<char>) -> usize,
    spans: Seq<SpanSpec>,
    span: SpanSpec,
)
    ensures
        spans_width(width, spans.push(span)) == spans_width(width, spans) + width(span.content),
{
    assert(spans.push(span).drop_last() =~= spans);
}

proof fn lemma_spans_width_add(
    width: spec_fn(Seq<char>) -> usize,
    a: Seq<SpanSpec>,
    b: Seq<SpanSpec>,
)
    ensures
        spans_width(width, a + b) == spans_width(width, a) + spans_width(width, b),
    decreases b.len(),
{
    if b.len() == 0 {
        assert(a + b =~= a);
    } else {
        lemma_spans_width_add(width, a, b.drop_last());
        assert((a + b).drop_last() =~= a + b.drop_last());
    }
}

/// The git counts are drawn exactly as wide as they are measured, given that a
/// space takes one column.
pub proof fn git_status_is_drawn_as_measured(
    width: spec_fn(Seq<char>) -> usize,
    icon: Seq<char>,
    palette: Palette,
    patch: SidebarTokenStyle,
    ahead: usize,
    behind: usize,
    dirty: usize,
)
    requires
        width(" "@) == 1,
    ensures
        spans_width(width, parts_drawn(palette, patch, ahead, behind, dirty, 3))
            == fixed_width(width, icon, ResolvedTokenKind::GitStatus { ahead, behind, dirty }),
{
    lemma_parts_width(width, palette, patch, ahead, behind, dirty, 3);
}

proof fn lemma_parts_width(
    width: spec_fn(Seq<char>) -> usize,
    palette: Palette,
    patch: SidebarTokenStyle,
    ahead: usize,
    behind: usize,
    dirty: usize,
    count: int,
)
    requires
        width(" "@) == 1,
    ensures
        spans_width(width, parts_drawn(palette, patch, ahead, behind, dirty, count))
            == parts_width(width, ahead, behind, dirty, count) + budget::minus(
            parts_count(ahead, behind, dirty, count),
            1,
        ),
        parts_drawn(palette, patch, ahead, behind, dirty, count).len() == parts_count(
            ahead,
            behind,
            dirty,
            count,
        ) + budget::minus(parts_count(ahead, behind, dirty, count), 1),
    decreases count,
{
    if count > 0 {
        lemma_parts_width(width, palette, patch, ahead, behind, dirty, count - 1);
        let before = parts_drawn(palette, patch, ahead, behind, dirty, count - 1);
        let texts = tokens::git_status_texts(ahead, behind, dirty);
        let part = part_span(palette, patch, texts, count - 1);
        let spaced = before.push(part_space(patch));
        lemma_spans_width_push(width, before, part_space(patch));
        lemma_spans_width_push(width, spaced, part);
        lemma_spans_width_push(width, Seq::empty(), part);
        assert(Seq::<SpanSpec>::empty().push(part) =~= seq![part]);
    }
}

/// An overridden foreground reaches every span of the git counts, the spaces
/// included.
pub proof fn git_status_override_reaches_every_part(
    palette: Palette,
    patch: SidebarTokenStyle,
    ahead: usize,
    behind: usize,
    dirty: usize,
    count: int,
    k: int,
)
    requires
        patch.fg is Some,
        0 <= k < parts_drawn(palette, patch, ahead, behind, dirty, count).len(),
    ensures
        parts_drawn(palette, patch, ahead, behind, dirty, count)[k].style.fg == patch.fg,
    decreases count,
{
    if count > 0 {
        let before = parts_drawn(palette, patch, ahead, behind, dirty, count - 1);
        if k < before.len() {
            git_status_override_reaches_every_part(
                palette,
                patch,
                ahead,
                behind,
                dirty,
                count - 1,
                k,
            );
        }
    }
}

/// Columns given to the texts of the tokens at `shown`.
pub open spec fn shown_budget(budgets: Seq<usize>, shown: Seq<int>) -> nat
    decreases shown.len(),
{
    if shown.len() == 0 {
        0
    } else {
        shown_budget(budgets, shown.drop_last()) + budgets[shown.last()] as nat
    }
}

proof fn lemma_shown_budget(budgets: Seq<usize>, active: Seq<bool>)
    requires
        budgets.len() == active.len(),
    ensures
        shown_budget(budgets, budget::visible(active)) <= budget::sum(budget::nats(budgets)),
    decreases active.len(),
{
    if active.len() > 0 {
        let shorter = budgets.drop_last();
        lemma_shown_budget(shorter, active.drop_last());
        assert(budget::nats(budgets).drop_last() =~= budget::nats(shorter));
        budget::lemma_visible(active.drop_last());
        lemma_shown_budget_local(budgets, shorter, budget::visible(active.drop_last()));
        if active.last() {
            assert(budget::visible(active).drop_last() =~= budget::visible(active.drop_last()));
        }
    }
}

proof fn lemma_shown_budget_local(a: Seq<usize>, b: Seq<usize>, shown: Seq<int>)
    requires
        forall|k: int| 0 <= k < shown.len() ==> a[#[trigger] shown[k]] == b[shown[k]],
    ensures
        shown_budget(a, shown) == shown_budget(b, shown),
    decreases shown.len(),
{
    if shown.len() > 0 {
        lemma_shown_budget_local(a, b, shown.drop_last());
    }
}

/// `short` keeps to the columns it is given.
pub open spec fn keeps_to_width(
    width: spec_fn(Seq<char>) -> usize,
    short: spec_fn(Seq<char>, usize) -> Seq<char>,
) -> bool {
    forall|text: Seq<char>, columns: usize| width(#[trigger] short(text, columns)) <= columns
}

proof fn lemma_row_width(
    resolved: Seq<ResolvedToken>,
    shown: Seq<int>,
    budgets: Seq<usize>,
    icon: Seq<char>,
    styles: RowStyles,
    width: spec_fn(Seq<char>) -> usize,
    short: spec_fn(Seq<char>, usize) -> Seq<char>,
    between: spec_fn(ResolvedToken, ResolvedToken) -> Seq<char>,
)
    requires
        keeps_to_width(width, short),
        width(" "@) == 1,
        forall|k: int| 0 <= k < shown.len() ==> 0 <= #[trigger] shown[k] < resolved.len(),
    ensures
        spans_width(
            width,
            row_drawn(resolved, shown, budgets, icon, styles, short, between),
        ) <= budget::fixed_total(row_of(resolved, icon, width, between), shown)
            + budget::gap_total(row_of(resolved, icon, width, between), shown)
            + shown_budget(budgets, shown),
    decreases shown.len(),
{
    if shown.len() > 0 {
        let row = row_of(resolved, icon, width, between);
        let rest = shown.drop_last();
        lemma_row_width(resolved, rest, budgets, icon, styles, width, short, between);
        let before = row_drawn(resolved, rest, budgets, icon, styles, short, between);
        let index = shown.last();
        let token = resolved[index];
        let drawn = token_drawn(token, icon, styles, budgets[index], short);
        assert(spans_width(width, drawn) <= row.fixed[index] + budgets[index]) by {
            match token.kind {
                ResolvedTokenKind::GitStatus { ahead, behind, dirty } => {
                    git_status_is_drawn_as_measured(
                        width,
                        icon,
                        styles.palette,
                        token.style,
                        ahead,
                        behind,
                        dirty,
                    );
                },
                _ => {
                    assert(drawn =~= Seq::empty().push(drawn[0]));
                    lemma_spans_width_push(width, Seq::empty(), drawn[0]);
                },
            }
        }
        lemma_spans_width_add(width, before, drawn);
        if shown.len() > 1 {
            let left = shown[shown.len() - 2];
            let span = separator_drawn(between, resolved[left], token, styles.palette);
            lemma_spans_width_push(width, before, span);
            lemma_spans_width_add(width, before.push(span), drawn);
            assert(0 <= left < resolved.len());
            assert(row.gap[left][index] == width(span.content));
        }
    }
}

/// A row is never drawn wider than the columns it was given, as long as its
/// icons and git counts fit, a space takes one column and texts are cut to the
/// columns they get.
pub proof fn drawn_spans_fit(
    spans: Seq<SpanSpec>,
    resolved: Seq<ResolvedToken>,
    icon: Seq<char>,
    styles: RowStyles,
    max_width: usize,
    width: spec_fn(Seq<char>) -> usize,
    short: spec_fn(Seq<char>, usize) -> Seq<char>,
    between: spec_fn(ResolvedToken, ResolvedToken) -> Seq<char>,
)
    requires
        draws_row(spans, resolved, icon, styles, max_width, width, short, between),
        ({
            let row = row_of(resolved, icon, width, between);
            budget::minimum_width(row, budget::without_texts(row)) <= max_width
        }),
        width(" "@) == 1,
        keeps_to_width(width, short),
    ensures
        spans_width(width, spans) <= max_width,
{
    let row = row_of(resolved, icon, width, between);
    let active = budget::active_tokens(row, max_width as nat);
    let shown = budget::visible(active);
    let budgets = choose|budgets: Seq<usize>|
        {
            &&& budgets.len() == resolved.len()
            &&& budget::is_fair_share(
                budget::capacities(row, active),
                budget::spare_width(row, active, max_width as nat),
                budget::nats(budgets),
            )
            &&& spans == #[trigger] row_drawn(
                resolved,
                shown,
                budgets,
                icon,
                styles,
                short,
                between,
            )
        };
    budget::drawn_row_fits(row, max_width as nat, budget::nats(budgets));
    budget::lemma_active_len(row, max_width as nat);
    budget::lemma_visible(active);
    lemma_row_width(resolved, shown, budgets, icon, styles, width, short, between);
    lemma_shown_budget(budgets, active);
}

} // verus!
