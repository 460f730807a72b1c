//! Laws of text styles.

use crate::sidebar::style::{apply_token_style, Color, SidebarTokenStyle, Style};
use vstd::prelude::*;

verus! {

/// The default style sets nothing, and the default override overrides nothing.
pub proof fn defaults_are_empty(style: Style, patch: SidebarTokenStyle)
    requires
        call_ensures(<Style as Default>::default, (), style),
        call_ensures(<SidebarTokenStyle as Default>::default, (), patch),
    ensures
        style.fg is None && style.bg is None && style.underline_color is None,
        style.add_modifier == 0 && style.sub_modifier == 0,
        patch.fg is None && patch.bold is None && patch.dim is None,
{
}

/// Setting the foreground sets that and nothing else.
pub proof fn foreground_is_set(style: Style, color: Color, result: Style)
    requires
        call_ensures(Style::fg, (style, color), result),
    ensures
        result.fg == Some(color),
        result.bg == style.bg,
        result.underline_color == style.underline_color,
        result.add_modifier == style.add_modifier,
        result.sub_modifier == style.sub_modifier,
{
}

/// A modifier that is switched on joins the set to add and leaves the set to
/// remove.
pub proof fn modifier_is_switched_on(style: Style, modifier: u16, result: Style)
    requires
        call_ensures(Style::add_modifier, (style, modifier), result),
    ensures
        result.add_modifier == style.add_modifier | modifier,
        result.sub_modifier == style.sub_modifier & !modifier,
        result.fg == style.fg,
        result.bg == style.bg,
        result.underline_color == style.underline_color,
{
}

/// A modifier that is switched off leaves the set to add and joins the set to
/// remove.
pub proof fn modifier_is_switched_off(style: Style, modifier: u16, result: Style)
    requires
        call_ensures(Style::remove_modifier, (style, modifier), result),
    ensures
        result.add_modifier == style.add_modifier & !modifier,
        result.sub_modifier == style.sub_modifier | modifier,
        result.fg == style.fg,
        result.bg == style.bg,
        result.underline_color == style.underline_color,
{
}

/// Whether the bit of `modifier` is in the set.
pub open spec fn has(set: u16, modifier: u16) -> bool {
    set & modifier != 0
}

/// A token's overrides win over the style they are put on: a foreground replaces
/// the one below, bold (bit one) and dim (bit two) are on or off as they say, and
/// what they leave open stays.
pub proof fn token_overrides_win(style: Style, patch: SidebarTokenStyle, result: Style)
    requires
        call_ensures(apply_token_style, (style, patch), result),
    ensures
        match patch.fg {
            Some(color) => result.fg == Some(color),
            None => result.fg == style.fg,
        },
        result.bg == style.bg,
        result.underline_color == style.underline_color,
        match patch.bold {
            Some(bold) => has(result.add_modifier, 1) == bold && has(result.sub_modifier, 1)
                == !bold,
            None => has(result.add_modifier, 1) == has(style.add_modifier, 1) && has(
                result.sub_modifier,
                1,
            ) == has(style.sub_modifier, 1),
        },
        match patch.dim {
            Some(dim) => has(result.add_modifier, 2) == dim && has(result.sub_modifier, 2) == !dim,
            None => has(result.add_modifier, 2) == has(style.add_modifier, 2) && has(
                result.sub_modifier,
                2,
            ) == has(style.sub_modifier, 2),
        },
        result.add_modifier & 0xfffc == style.add_modifier & 0xfffc,
        result.sub_modifier & 0xfffc == style.sub_modifier & 0xfffc,
{
    lemma_bits(style.add_modifier);
    lemma_bits(style.sub_modifier);
    let bolded = crate::sidebar::style::switched(style, 1, patch.bold);
    lemma_bits(bolded.add_modifier);
    lemma_bits(bolded.sub_modifier);
}

proof fn lemma_bits(set: u16)
    ensures
        (set | 1) & 1 == 1 && (set | 1) & 2 == set & 2 && (set | 1) & 0xfffc == set & 0xfffc,
        (set | 2) & 2 == 2 && (set | 2) & 1 == set & 1 && (set | 2) & 0xfffc == set & 0xfffc,
        (set & !1u16) & 1 == 0 && (set & !1u16) & 2 == set & 2 && (set & !1u16) & 0xfffc == set
            & 0xfffc,
        (set & !2u16) & 2 == 0 && (set & !2u16) & 1 == set & 1 && (set & !2u16) & 0xfffc == set
            & 0xfffc,
{
    assert((set | 1) & 1 == 1 && (set | 1) & 2 == set & 2 && (set | 1) & 0xfffc == set & 0xfffc)
        by (bit_vector);
    assert((set | 2) & 2 == 2 && (set | 2) & 1 == set & 1 && (set | 2) & 0xfffc == set & 0xfffc)
        by (bit_vector);
    assert((set & !1u16) & 1 == 0 && (set & !1u16) & 2 == set & 2 && (set & !1u16) & 0xfffc == set
        & 0xfffc) by (bit_vector);
    assert((set & !2u16) & 2 == 0 && (set & !2u16) & 1 == set & 1 && (set & !2u16) & 0xfffc == set
        & 0xfffc) by (bit_vector);
}

} // verus!
