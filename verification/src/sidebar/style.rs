//! Text styles of the sidebar and the overrides a configured token puts on them.

use vstd::prelude::*;

verus! {

/// A terminal colour.
#[derive(Clone, Copy, Debug, PartialEq, Eq, Structural)]
pub enum Color {
    Reset,
    Black,
    Red,
    Green,
    Yellow,
    Blue,
    Magenta,
    Cyan,
    Gray,
    DarkGray,
    LightRed,
    LightGreen,
    LightYellow,
    LightBlue,
    LightMagenta,
    LightCyan,
    White,
    Rgb(u8, u8, u8),
    Indexed(u8),
}

/// The bit of bold text in a set of text modifiers.
pub const MODIFIER_BOLD: u16 = 1;

/// The bit of dim text in a set of text modifiers.
pub const MODIFIER_DIM: u16 = 2;

/// How a text differs from the style below it. The modifiers are sets of bits,
/// as ratatui's `Modifier` lays them out.
#[derive(Clone, Copy, Debug, PartialEq, Eq)]
pub struct Style {
    pub fg: Option<Color>,
    pub bg: Option<Color>,
    pub underline_color: Option<Color>,
    pub add_modifier: u16,
    pub sub_modifier: u16,
}

/// The style that changes nothing.
pub open spec fn plain_style() -> Style {
    Style { fg: None, bg: None, underline_color: None, add_modifier: 0, sub_modifier: 0 }
}

impl Default for Style {
    fn default() -> (style: Style)
        ensures
            style == plain_style(),
    {
        Style { fg: None, bg: None, underline_color: None, add_modifier: 0, sub_modifier: 0 }
    }
}

pub open spec fn with_fg(style: Style, color: Color) -> Style {
    Style { fg: Some(color), ..style }
}

pub open spec fn with_modifier(style: Style, modifier: u16) -> Style {
    Style {
        add_modifier: style.add_modifier | modifier,
        sub_modifier: style.sub_modifier & !modifier,
        ..style
    }
}

pub open spec fn without_modifier(style: Style, modifier: u16) -> Style {
    Style {
        add_modifier: style.add_modifier & !modifier,
        sub_modifier: style.sub_modifier | modifier,
        ..style
    }
}

/// `ratatui::style::Style::add_modifier` on the two modifier sets of a style:
/// the modifier joins the set to add and leaves the set to remove. Neither set
/// loses a bit that names no modifier.
#[verifier::external_body]
fn ratatui_add_modifier(add_modifier: u16, sub_modifier: u16, modifier: u16) -> (sets: (u16, u16))
    ensures
        sets.0 == add_modifier | modifier,
        sets.1 == sub_modifier & !modifier,
{
    let mut style = ratatui::style::Style::default();
    style.add_modifier = ratatui::style::Modifier::from_bits_retain(add_modifier);
    style.sub_modifier = ratatui::style::Modifier::from_bits_retain(sub_modifier);
    let style = style.add_modifier(ratatui::style::Modifier::from_bits_retain(modifier));
    (style.add_modifier.bits(), style.sub_modifier.bits())
}

/// `ratatui::style::Style::remove_modifier` on the two modifier sets of a style:
/// the modifier leaves the set to add and joins the set to remove.
#[verifier::external_body]
fn ratatui_remove_modifier(add_modifier: u16, sub_modifier: u16, modifier: u16) -> (sets: (u16, u16))
    ensures
        sets.0 == add_modifier & !modifier,
        sets.1 == sub_modifier | modifier,
{
    let mut style = ratatui::style::Style::default();
    style.add_modifier = ratatui::style::Modifier::from_bits_retain(add_modifier);
    style.sub_modifier = ratatui::style::Modifier::from_bits_retain(sub_modifier);
    let style = style.remove_modifier(ratatui::style::Modifier::from_bits_retain(modifier));
    (style.add_modifier.bits(), style.sub_modifier.bits())
}

impl Style {
    /// The style with this foreground.
    pub fn fg(self, color: Color) -> (style: Style)
        ensures
            style == with_fg(self, color),
    {
        Style { fg: Some(color), ..self }
    }

    /// The style with this modifier switched on.
    pub fn add_modifier(self, modifier: u16) -> (style: Style)
        ensures
            style == with_modifier(self, modifier),
    {
        let (add_modifier, sub_modifier) = ratatui_add_modifier(
            self.add_modifier,
            self.sub_modifier,
            modifier,
        );
        Style { add_modifier, sub_modifier, ..self }
    }

    /// The style with this modifier switched off.
    pub fn remove_modifier(self, modifier: u16) -> (style: Style)
        ensures
            style == without_modifier(self, modifier),
    {
        let (add_modifier, sub_modifier) = ratatui_remove_modifier(
            self.add_modifier,
            self.sub_modifier,
            modifier,
        );
        Style { add_modifier, sub_modifier, ..self }
    }
}

/// What a configured token overrides in the style it is drawn with.
#[derive(Clone, Copy, Debug, PartialEq, Eq)]
pub struct SidebarTokenStyle {
    pub fg: Option<Color>,
    pub bold: Option<bool>,
    pub dim: Option<bool>,
}

/// The override that overrides nothing.
pub open spec fn no_override() -> SidebarTokenStyle {
    SidebarTokenStyle { fg: None, bold: None, dim: None }
}

impl Default for SidebarTokenStyle {
    fn default() -> (patch: SidebarTokenStyle)
        ensures
            patch == no_override(),
    {
        SidebarTokenStyle { fg: None, bold: None, dim: None }
    }
}

/// `style` with `modifier` switched as `wish` says, if it says anything.
pub open spec fn switched(style: Style, modifier: u16, wish: Option<bool>) -> Style {
    match wish {
        Some(true) => with_modifier(style, modifier),
        Some(false) => without_modifier(style, modifier),
        None => style,
    }
}

/// `style` with the overrides of `patch` put on it.
pub open spec fn patched(style: Style, patch: SidebarTokenStyle) -> Style {
    let coloured = match patch.fg {
        Some(color) => with_fg(style, color),
        None => style,
    };
    switched(switched(coloured, MODIFIER_BOLD, patch.bold), MODIFIER_DIM, patch.dim)
}

/// Puts a token's overrides on the style it is drawn with.
pub fn apply_token_style(style: Style, patch: SidebarTokenStyle) -> (result: Style)
    ensures
        result == patched(style, patch),
{
    let mut style = style;
    if let Some(foreground) = patch.fg {
        style = style.fg(foreground);
    }
    if let Some(bold) = patch.bold {
        style = if bold {
            style.add_modifier(MODIFIER_BOLD)
        } else {
            style.remove_modifier(MODIFIER_BOLD)
        };
    }
    if let Some(dim) = patch.dim {
        style = if dim {
            style.add_modifier(MODIFIER_DIM)
        } else {
            style.remove_modifier(MODIFIER_DIM)
        };
    }
    style
}

/// Whether the style switches `modifier` on, and does not also switch it off.
pub open spec fn switches_on(style: Style, modifier: u16) -> bool {
    style.add_modifier & modifier == modifier && style.sub_modifier & modifier == 0
}

/// Whether the style switches `modifier` off, and does not also switch it on.
pub open spec fn switches_off(style: Style, modifier: u16) -> bool {
    style.add_modifier & modifier == 0 && style.sub_modifier & modifier == modifier
}

/// What an override says wins over the style below it; what it leaves open stays
/// as it was, and so does everything it cannot speak of.
pub proof fn override_wins(style: Style, patch: SidebarTokenStyle)
    ensures
        patched(style, patch).fg == (if patch.fg is Some {
            patch.fg
        } else {
            style.fg
        }),
        patched(style, patch).bg == style.bg,
        patched(style, patch).underline_color == style.underline_color,
        patch.bold == Some(true) ==> switches_on(patched(style, patch), MODIFIER_BOLD),
        patch.bold == Some(false) ==> switches_off(patched(style, patch), MODIFIER_BOLD),
        patch.dim == Some(true) ==> switches_on(patched(style, patch), MODIFIER_DIM),
        patch.dim == Some(false) ==> switches_off(patched(style, patch), MODIFIER_DIM),
        patched(style, patch).add_modifier & !3u16 == style.add_modifier & !3u16,
        patched(style, patch).sub_modifier & !3u16 == style.sub_modifier & !3u16,
        patch.bold is None ==> patched(style, patch).add_modifier & 1 == style.add_modifier & 1
            && patched(style, patch).sub_modifier & 1 == style.sub_modifier & 1,
        patch.dim is None ==> patched(style, patch).add_modifier & 2 == style.add_modifier & 2
            && patched(style, patch).sub_modifier & 2 == style.sub_modifier & 2,
{
    let bolded = switched(style, MODIFIER_BOLD, patch.bold);
    lemma_modifier_bits(style.add_modifier);
    lemma_modifier_bits(style.sub_modifier);
    lemma_modifier_bits(bolded.add_modifier);
    lemma_modifier_bits(bolded.sub_modifier);
}

/// Switching one of the bits 1 and 2 settles it and touches no other bit.
proof fn lemma_modifier_bits(set: u16)
    ensures
        (set | 1) & 1 == 1 && (set | 1) & 2 == set & 2 && (set | 1) & !3u16 == set & !3u16,
        (set | 2) & 2 == 2 && (set | 2) & 1 == set & 1 && (set | 2) & !3u16 == set & !3u16,
        (set & !1u16) & 1 == 0 && (set & !1u16) & 2 == set & 2 && (set & !1u16) & !3u16 == set
            & !3u16,
        (set & !2u16) & 2 == 0 && (set & !2u16) & 1 == set & 1 && (set & !2u16) & !3u16 == set
            & !3u16,
{
    assert((set | 1) & 1 == 1 && (set | 1) & 2 == set & 2 && (set | 1) & !3u16 == set & !3u16)
        by (bit_vector);
    assert((set | 2) & 2 == 2 && (set | 2) & 1 == set & 1 && (set | 2) & !3u16 == set & !3u16)
        by (bit_vector);
    assert((set & !1u16) & 1 == 0 && (set & !1u16) & 2 == set & 2 && (set & !1u16) & !3u16 == set
        & !3u16) by (bit_vector);
    assert((set & !2u16) & 2 == 0 && (set & !2u16) & 1 == set & 1 && (set & !2u16) & !3u16 == set
        & !3u16) by (bit_vector);
}

/// Putting the same override on twice is putting it on once.
pub proof fn override_is_idempotent(style: Style, patch: SidebarTokenStyle)
    ensures
        patched(patched(style, patch), patch) == patched(style, patch),
{
    assert forall|set: u16|
        #![trigger set | 1]
        #![trigger set & !1u16]
        {
            &&& (set | 1) | 1 == set | 1
            &&& (set & !1u16) & !1u16 == set & !1u16
            &&& (((set | 1) | 2) | 1) | 2 == (set | 1) | 2
            &&& (((set | 1) & !2u16) | 1) & !2u16 == (set | 1) & !2u16
            &&& (((set & !1u16) | 2) & !1u16) | 2 == (set & !1u16) | 2
            &&& (((set & !1u16) & !2u16) & !1u16) & !2u16 == (set & !1u16) & !2u16
        } by {
        assert((set | 1) | 1 == set | 1 && (set & !1u16) & !1u16 == set & !1u16) by (bit_vector);
        assert((((set | 1) | 2) | 1) | 2 == (set | 1) | 2) by (bit_vector);
        assert((((set | 1) & !2u16) | 1) & !2u16 == (set | 1) & !2u16) by (bit_vector);
        assert((((set & !1u16) | 2) & !1u16) | 2 == (set & !1u16) | 2) by (bit_vector);
        assert((((set & !1u16) & !2u16) & !1u16) & !2u16 == (set & !1u16) & !2u16) by (bit_vector);
    }
    let a = style.add_modifier;
    let s = style.sub_modifier;
    assert((a | 2) | 2 == a | 2 && (a & !2u16) & !2u16 == a & !2u16) by (bit_vector);
    assert((s | 2) | 2 == s | 2 && (s & !2u16) & !2u16 == s & !2u16) by (bit_vector);
}

} // verus!
