use herdr::sidebar::agent_panel::{
    agent_panel_entries_from, collect_agent_panel_entries, AgentPanelEntry, AgentState, PaneDetail,
};
use herdr::sidebar::budget::RowWidths;
use herdr::sidebar::layout::{
    expanded_sidebar_sections, sidebar_content, sidebar_section_divider_rect,
    sidebar_section_heights, Rect,
};
use herdr::sidebar::spans::{resolved_token_spans, Palette, Span};
use herdr::sidebar::style::{
    apply_token_style, Color, SidebarTokenStyle, Style, MODIFIER_BOLD, MODIFIER_DIM,
};
use herdr::sidebar::tokens::{git_status_parts, ResolvedToken, ResolvedTokenKind};
use std::collections::HashMap;

fn catppuccin() -> Palette {
    Palette {
        green: Color::Rgb(0xa6, 0xe3, 0xa1),
        red: Color::Rgb(0xf3, 0x8b, 0xa8),
        yellow: Color::Rgb(0xf9, 0xe2, 0xaf),
        overlay0: Color::Rgb(0x6c, 0x70, 0x86),
    }
}

fn display_width(text: &str) -> usize {
    text.chars().count()
}

fn truncate_end(text: &str, max_width: usize) -> String {
    if display_width(text) <= max_width {
        return text.to_string();
    }
    if max_width == 0 {
        return String::new();
    }
    let mut cut: String = text.chars().take(max_width - 1).collect();
    cut.push('…');
    cut
}

fn separator(left: &ResolvedToken, _right: &ResolvedToken) -> &'static str {
    match left.kind {
        ResolvedTokenKind::StateIcon => " ",
        _ => " · ",
    }
}

fn token(kind: ResolvedTokenKind) -> ResolvedToken {
    ResolvedToken {
        kind,
        style: SidebarTokenStyle::default(),
    }
}

fn row_spans(row: &[ResolvedToken], max_width: usize) -> Vec<Span> {
    resolved_token_spans(
        row,
        ("●", Style::default().fg(Color::Red)),
        Style::default().fg(Color::Blue),
        Style::default().fg(Color::Cyan),
        Style::default().fg(Color::Gray),
        Style::default().fg(Color::White),
        &catppuccin(),
        max_width,
        display_width,
        truncate_end,
        separator,
    )
}

fn texts(spans: &[Span]) -> Vec<&str> {
    spans.iter().map(|span| span.content.as_str()).collect()
}

fn git_status_spans(kind: ResolvedTokenKind, style: SidebarTokenStyle) -> Vec<Span> {
    let palette = catppuccin();
    resolved_token_spans(
        &[ResolvedToken { kind, style }],
        ("●", Style::default()),
        Style::default(),
        Style::default(),
        Style::default(),
        Style::default(),
        &palette,
        80,
        display_width,
        truncate_end,
        separator,
    )
}

#[test]
fn git_status_spans_color_each_part() {
    let palette = catppuccin();
    let spans = git_status_spans(
        ResolvedTokenKind::GitStatus {
            ahead: 1,
            behind: 2,
            dirty: 3,
        },
        SidebarTokenStyle::default(),
    );

    assert_eq!(spans.len(), 5);
    assert_eq!(spans[0].content, "↑1");
    assert_eq!(spans[0].style.fg, Some(palette.green));
    assert_eq!(spans[1].content, " ");
    assert_eq!(spans[2].content, "↓2");
    assert_eq!(spans[2].style.fg, Some(palette.red));
    assert_eq!(spans[3].content, " ");
    assert_eq!(spans[4].content, "~3");
    assert_eq!(spans[4].style.fg, Some(palette.yellow));
}

#[test]
fn git_status_spans_hide_zero_parts() {
    let spans = git_status_spans(
        ResolvedTokenKind::GitStatus {
            ahead: 0,
            behind: 2,
            dirty: 0,
        },
        SidebarTokenStyle::default(),
    );

    assert_eq!(spans.len(), 1);
    assert_eq!(spans[0].content, "↓2");
}

#[test]
fn git_status_style_override_applies_to_every_part() {
    let expected_fg = Color::Rgb(0xff, 0x00, 0xaa);
    let style = SidebarTokenStyle {
        fg: Some(expected_fg),
        bold: None,
        dim: None,
    };

    let spans = git_status_spans(
        ResolvedTokenKind::GitStatus {
            ahead: 1,
            behind: 2,
            dirty: 3,
        },
        style,
    );

    assert_eq!(spans[0].style.fg, Some(expected_fg));
    assert_eq!(spans[2].style.fg, Some(expected_fg));
    assert_eq!(spans[4].style.fg, Some(expected_fg));
}

#[test]
fn git_status_parts_show_what_counts() {
    assert_eq!(
        git_status_parts(0, 10, 1_234_567_890),
        [
            (false, "↑0".to_string()),
            (true, "↓10".to_string()),
            (true, "~1234567890".to_string()),
        ]
    );
    assert_eq!(
        git_status_parts(usize::MAX, 0, 0)[0],
        (true, format!("↑{}", usize::MAX))
    );
}

#[test]
fn wide_row_is_drawn_in_full() {
    let row = [
        token(ResolvedTokenKind::StateIcon),
        token(ResolvedTokenKind::Workspace("herdr".to_string())),
        token(ResolvedTokenKind::Branch("main".to_string())),
        token(ResolvedTokenKind::GitStatus {
            ahead: 0,
            behind: 0,
            dirty: 12,
        }),
    ];

    let spans = row_spans(&row, 40);

    assert_eq!(
        texts(&spans),
        vec!["●", " ", "herdr", " · ", "main", " · ", "~12"]
    );
    assert_eq!(spans[0].style, Style::default().fg(Color::Red));
    assert_eq!(
        spans[1].style,
        Style {
            fg: Some(catppuccin().overlay0),
            bg: None,
            underline_color: None,
            add_modifier: MODIFIER_DIM,
            sub_modifier: 0,
        }
    );
    assert_eq!(spans[2].style, Style::default().fg(Color::Cyan));
    assert_eq!(spans[4].style, Style::default().fg(Color::Gray));
    assert_eq!(
        spans[6].style,
        Style::default().fg(catppuccin().yellow)
    );
}

#[test]
fn every_kind_of_text_has_its_style() {
    let row = [
        token(ResolvedTokenKind::StateText("s".to_string())),
        token(ResolvedTokenKind::Tab("t".to_string())),
        token(ResolvedTokenKind::Pane("p".to_string())),
        token(ResolvedTokenKind::Agent("a".to_string())),
        token(ResolvedTokenKind::TerminalTitle("x".to_string())),
        token(ResolvedTokenKind::Custom("c".to_string())),
    ];

    let spans = row_spans(&row, 80);
    let colors: Vec<Option<Color>> = spans.iter().step_by(2).map(|span| span.style.fg).collect();

    assert_eq!(
        colors,
        vec![
            Some(Color::Blue),
            Some(Color::Gray),
            Some(Color::Gray),
            Some(Color::Gray),
            Some(Color::White),
            Some(Color::White),
        ]
    );
}

#[test]
fn texts_share_the_columns_evenly_with_the_first_ahead() {
    let row = [
        token(ResolvedTokenKind::Workspace("abcdefgh".to_string())),
        token(ResolvedTokenKind::Branch("ijklmnop".to_string())),
    ];

    assert_eq!(texts(&row_spans(&row, 12)), vec!["abcd…", " · ", "ijk…"]);
    assert_eq!(texts(&row_spans(&row, 5)), vec!["…", " · ", "…"]);
}

#[test]
fn narrow_row_keeps_the_last_texts() {
    let row = [
        token(ResolvedTokenKind::Workspace("abc".to_string())),
        token(ResolvedTokenKind::StateIcon),
        token(ResolvedTokenKind::Branch("def".to_string())),
    ];

    assert_eq!(texts(&row_spans(&row, 4)), vec!["●", " ", "d…"]);
    assert_eq!(texts(&row_spans(&row, 2)), vec!["●"]);
    assert_eq!(texts(&row_spans(&row, 0)), vec!["●"]);
    assert!(row_spans(&[], 10).is_empty());
}

#[test]
fn drawn_row_keeps_to_its_width() {
    let row = [
        token(ResolvedTokenKind::StateIcon),
        token(ResolvedTokenKind::Workspace("workspace".to_string())),
        token(ResolvedTokenKind::GitStatus {
            ahead: 3,
            behind: 14,
            dirty: 1,
        }),
        token(ResolvedTokenKind::Custom("custom".to_string())),
    ];

    for max_width in 11..40 {
        let drawn: usize = row_spans(&row, max_width)
            .iter()
            .map(|span| display_width(&span.content))
            .sum();
        assert!(drawn <= max_width, "width {max_width}: {drawn}");
    }
}

fn widths(fixed: &[u128], flexible: &[usize], gap: usize) -> RowWidths {
    RowWidths {
        fixed: fixed.to_vec(),
        flexible: flexible.to_vec(),
        gap: vec![vec![gap; fixed.len()]; fixed.len()],
    }
}

#[test]
fn budgets_fill_short_texts_first() {
    let row = widths(&[2, 0, 0], &[0, 3, 9], 1);
    let active = row.active_tokens(14);

    assert_eq!(active, vec![true, true, true]);
    assert_eq!(row.text_budgets(&active, 14), vec![0, 3, 7]);
    assert_eq!(row.text_budgets(&active, 100), vec![0, 3, 9]);
    assert_eq!(row.text_budgets(&active, 6), vec![0, 1, 1]);
    assert_eq!(row.text_budgets(&active, 0), vec![0, 1, 1]);
    assert!(row.fits(&active, 6));
    assert!(!row.fits(&active, 5));
}

#[test]
fn text_is_shown_where_it_fits_beside_the_later_ones() {
    let row = widths(&[0, 2, 4, 0], &[5, 0, 5, 5], 1);

    assert_eq!(row.active_tokens(12), vec![true, true, true, true]);
    assert_eq!(row.active_tokens(11), vec![false, true, true, true]);
    assert_eq!(row.active_tokens(10), vec![false, true, true, true]);
    assert_eq!(row.active_tokens(9), vec![true, true, false, true]);
    assert_eq!(row.active_tokens(6), vec![true, true, false, true]);
    assert_eq!(row.active_tokens(5), vec![false, true, false, true]);
    assert_eq!(row.active_tokens(4), vec![false, true, false, true]);
    assert_eq!(row.active_tokens(3), vec![false, true, false, false]);
}

#[test]
fn widths_beyond_any_row_do_not_fit() {
    let row = widths(&[u128::MAX, u128::MAX], &[0, 5], usize::MAX);
    let all = vec![true, true];

    assert!(!row.fits(&all, usize::MAX));
    assert_eq!(row.active_tokens(usize::MAX), vec![true, false]);
    assert_eq!(row.totals(&all).fixed, None);
    assert_eq!(row.totals(&all).texts, 1);
    assert_eq!(row.totals(&all).gaps, Some(usize::MAX as u128));
    assert_eq!(row.text_budgets(&all, usize::MAX), vec![0, 1]);
}

#[test]
fn modifiers_are_laid_out_as_in_ratatui() {
    assert_eq!(MODIFIER_BOLD, ratatui::style::Modifier::BOLD.bits());
    assert_eq!(MODIFIER_DIM, ratatui::style::Modifier::DIM.bits());
}

#[test]
fn modifiers_are_switched_in_both_sets() {
    let style = Style {
        add_modifier: 0b1010,
        sub_modifier: 0b0101,
        ..Style::default()
    };

    let on = style.add_modifier(MODIFIER_BOLD);
    assert_eq!((on.add_modifier, on.sub_modifier), (0b1011, 0b0100));
    let off = style.remove_modifier(MODIFIER_DIM);
    assert_eq!((off.add_modifier, off.sub_modifier), (0b1000, 0b0111));

    let unnamed = style.add_modifier(0x8000);
    assert_eq!(unnamed.add_modifier, 0x800a);
}

#[test]
fn override_wins_over_the_style_below() {
    let below = Style {
        fg: Some(Color::Green),
        bg: Some(Color::Black),
        underline_color: Some(Color::Indexed(7)),
        add_modifier: MODIFIER_DIM,
        sub_modifier: MODIFIER_BOLD,
    };
    let patch = SidebarTokenStyle {
        fg: Some(Color::Red),
        bold: Some(true),
        dim: Some(false),
    };

    let styled = apply_token_style(below, patch);

    assert_eq!(
        styled,
        Style {
            fg: Some(Color::Red),
            bg: Some(Color::Black),
            underline_color: Some(Color::Indexed(7)),
            add_modifier: MODIFIER_BOLD,
            sub_modifier: MODIFIER_DIM,
        }
    );
    assert_eq!(apply_token_style(styled, patch), styled);
    assert_eq!(
        apply_token_style(below, SidebarTokenStyle::default()),
        below
    );
    let opposite = SidebarTokenStyle {
        fg: None,
        bold: Some(false),
        dim: Some(true),
    };
    assert_eq!(
        apply_token_style(styled, opposite),
        Style {
            fg: Some(Color::Red),
            add_modifier: MODIFIER_DIM,
            sub_modifier: MODIFIER_BOLD,
            ..styled
        }
    );
}

#[test]
fn rectangles_end_within_the_screen() {
    assert_eq!(
        Rect::new(65_530, 65_000, 10, 1_000),
        Rect {
            x: 65_530,
            y: 65_000,
            width: 5,
            height: 535,
        }
    );
    let clamped = ratatui::layout::Rect::new(65_530, 65_000, 10, 1_000);
    assert_eq!((clamped.width, clamped.height), (5, 535));
    assert!(Rect::new(3, 4, 0, 5).is_empty());
    assert!(Rect::new(3, 4, 5, 0).is_empty());
    assert!(!Rect::new(3, 4, 1, 1).is_empty());
}

#[test]
fn section_heights_follow_the_request_within_bounds() {
    assert_eq!(sidebar_section_heights(0, 7), (0, 0));
    assert_eq!(sidebar_section_heights(1, 7), (1, 0));
    assert_eq!(sidebar_section_heights(4, 7), (2, 2));
    assert_eq!(sidebar_section_heights(5, 0), (3, 2));
    assert_eq!(sidebar_section_heights(6, 0), (3, 3));
    assert_eq!(sidebar_section_heights(20, 12), (12, 8));
    assert_eq!(sidebar_section_heights(20, 1), (3, 17));
    assert_eq!(sidebar_section_heights(20, 19), (17, 3));
    assert_eq!(
        sidebar_section_heights(u16::MAX, u16::MAX),
        (u16::MAX - 3, 3)
    );
}

#[test]
fn sections_stack_below_each_other() {
    let area = Rect::new(2, 5, 30, 20);

    assert_eq!(sidebar_content(area), Rect::new(2, 5, 29, 20));
    assert_eq!(
        expanded_sidebar_sections(area, 12),
        (Rect::new(2, 5, 29, 12), Rect::new(2, 17, 29, 8))
    );
    assert_eq!(
        sidebar_section_divider_rect(area, 12),
        Rect::new(2, 17, 29, 1)
    );
}

#[test]
fn sidebar_without_room_has_no_sections() {
    let none = Rect::default();

    assert_eq!(
        expanded_sidebar_sections(Rect::new(2, 5, 1, 20), 12),
        (none, none)
    );
    assert_eq!(
        expanded_sidebar_sections(Rect::new(2, 5, 30, 0), 12),
        (none, none)
    );
    assert_eq!(
        sidebar_section_divider_rect(Rect::new(2, 5, 30, 5), 2),
        none
    );
    assert_eq!(
        sidebar_section_divider_rect(Rect::new(2, 5, 0, 20), 12),
        none
    );
    assert_eq!(
        expanded_sidebar_sections(Rect::new(2, 5, 30, 5), 1),
        (Rect::new(2, 5, 29, 3), Rect::new(2, 8, 29, 2))
    );
}

fn detail(pane_id: u64) -> PaneDetail {
    PaneDetail {
        tab_idx: pane_id as usize / 10,
        pane_id,
        agent_kind_label: Some("gemini".to_string()),
        state: AgentState { code: 2 },
        seen: pane_id % 2 == 0,
        last_agent_state_change_seq: Some(pane_id + 100),
        tokens: HashMap::from([("model".to_string(), "large".to_string())]),
    }
}

fn entry(ws_idx: usize, pane_id: u64) -> AgentPanelEntry {
    let PaneDetail {
        tab_idx,
        pane_id,
        agent_kind_label,
        state,
        seen,
        last_agent_state_change_seq,
        tokens,
    } = detail(pane_id);
    AgentPanelEntry {
        ws_idx,
        tab_idx,
        pane_id,
        agent_kind_label,
        state,
        seen,
        last_agent_state_change_seq,
        tokens,
    }
}

#[test]
fn panel_has_an_entry_for_each_pane() {
    let workspaces = || vec![vec![detail(11), detail(12)], Vec::new(), vec![detail(31)]];

    assert_eq!(
        collect_agent_panel_entries(workspaces()),
        vec![entry(0, 11), entry(0, 12), entry(2, 31)]
    );
    assert_eq!(
        agent_panel_entries_from(workspaces(), |mut entries: Vec<AgentPanelEntry>| {
            entries.reverse();
            entries
        }),
        vec![entry(2, 31), entry(0, 12), entry(0, 11)]
    );
    assert!(agent_panel_entries_from(Vec::new(), |entries| entries).is_empty());
}
