//! Laws of the sidebar's sections.

use crate::sidebar::layout::{
    expanded_sidebar_sections, sidebar_content, sidebar_section_divider_rect,
    sidebar_section_heights, Rect,
};
use vstd::prelude::*;

verus! {

/// A rectangle keeps its corner, and its size as far as it ends within `u16`.
pub proof fn rectangle_is_cut_at_the_end(x: u16, y: u16, width: u16, height: u16, rect: Rect)
    requires
        call_ensures(Rect::new, (x, y, width, height), rect),
    ensures
        rect.x == x,
        rect.y == y,
        x + width <= u16::MAX ==> rect.width == width,
        x + width > u16::MAX ==> x + rect.width == u16::MAX,
        y + height <= u16::MAX ==> rect.height == height,
        y + height > u16::MAX ==> y + rect.height == u16::MAX,
{
}

/// The default rectangle lies at the origin and holds no cell.
pub proof fn default_rectangle_is_nowhere(rect: Rect)
    requires
        call_ensures(<Rect as Default>::default, (), rect),
    ensures
        rect.x == 0 && rect.y == 0 && rect.width == 0 && rect.height == 0,
{
}

/// A rectangle is empty exactly if it has no column or no row.
pub proof fn empty_rectangle_has_no_cell(rect: Rect, empty: bool)
    requires
        call_ensures(Rect::is_empty, (rect,), empty),
    ensures
        empty == (rect.width * rect.height == 0),
{
    assert((rect.width == 0 || rect.height == 0) == (rect.width * rect.height == 0))
        by (nonlinear_arith);
}

/// The two sections share all rows between them.
pub proof fn sections_share_all_rows(total: u16, requested: u16, heights: (u16, u16))
    requires
        call_ensures(sidebar_section_heights, (total, requested), heights),
    ensures
        heights.0 + heights.1 == total,
{
}

/// Where the requested height leaves both sections three rows, the workspace
/// section is exactly as high as requested.
pub proof fn requested_height_is_given(total: u16, requested: u16, heights: (u16, u16))
    requires
        call_ensures(sidebar_section_heights, (total, requested), heights),
        3 <= requested,
        requested + 3 <= total,
    ensures
        heights.0 == requested,
        heights.1 == total - requested,
{
}

/// Of six rows or more each section keeps three: a request beyond that is cut.
pub proof fn request_is_cut_to_the_minimum(total: u16, requested: u16, heights: (u16, u16))
    requires
        call_ensures(sidebar_section_heights, (total, requested), heights),
        total >= 6,
    ensures
        requested < 3 ==> heights.0 == 3,
        requested + 3 > total ==> heights.1 == 3,
{
}

/// Fewer than six rows are halved whatever was requested, with the odd one on top.
pub proof fn low_sidebar_is_halved(total: u16, requested: u16, heights: (u16, u16))
    requires
        call_ensures(sidebar_section_heights, (total, requested), heights),
        total < 6,
    ensures
        heights.0 == heights.1 || heights.0 == heights.1 + 1,
{
}

/// Asking for more rows never gives fewer, and two requests in bounds that differ
/// give heights that differ.
pub proof fn heights_follow_the_request(
    total: u16,
    less: u16,
    more: u16,
    low: (u16, u16),
    high: (u16, u16),
)
    requires
        call_ensures(sidebar_section_heights, (total, less), low),
        call_ensures(sidebar_section_heights, (total, more), high),
        less < more,
    ensures
        low.0 <= high.0,
        low.1 >= high.1,
        3 <= less && more + 3 <= total ==> low.0 < high.0 && high.0 - low.0 == more - less,
{
}

/// The sidebar draws in all columns of its area but the last, and in all its rows.
pub proof fn content_leaves_out_the_last_column(area: Rect, content: Rect)
    requires
        call_ensures(sidebar_content, (area,), content),
        area.x + area.width <= u16::MAX,
        area.y + area.height <= u16::MAX,
    ensures
        content.x == area.x && content.y == area.y,
        content.height == area.height,
        area.width > 0 ==> content.width == area.width - 1,
        area.width == 0 ==> content.width == 0,
{
}

/// An area that ends beyond `u16` has content up to there.
pub proof fn content_ends_with_the_screen(area: Rect, content: Rect)
    requires
        call_ensures(sidebar_content, (area,), content),
    ensures
        content.x == area.x && content.y == area.y,
        area.width > 0 && area.x + area.width - 1 > u16::MAX ==> content.x + content.width
            == u16::MAX,
        area.width > 0 && area.x + area.width - 1 <= u16::MAX ==> content.width == area.width - 1,
        area.y + area.height > u16::MAX ==> content.y + content.height == u16::MAX,
        area.y + area.height <= u16::MAX ==> content.height == area.height,
{
}

/// The sections have the columns of the content and the rows that its height is
/// split into, the workspace section on top.
pub proof fn sections_stand_in_the_content(
    area: Rect,
    requested: u16,
    content: Rect,
    heights: (u16, u16),
    sections: (Rect, Rect),
)
    requires
        call_ensures(sidebar_content, (area,), content),
        call_ensures(sidebar_section_heights, (content.height, requested), heights),
        call_ensures(expanded_sidebar_sections, (area, requested), sections),
        content.width > 0,
        content.height > 0,
    ensures
        sections.0.x == area.x && sections.1.x == area.x,
        sections.0.width == content.width && sections.1.width == content.width,
        sections.0.y == area.y && sections.1.y == area.y + heights.0,
        sections.0.height == heights.0 && sections.1.height == heights.1,
{
}

/// In an area with room the workspace section has exactly the requested rows, and
/// the detail section those below.
pub proof fn sections_follow_the_request(area: Rect, requested: u16, sections: (Rect, Rect))
    requires
        call_ensures(expanded_sidebar_sections, (area, requested), sections),
        area.width >= 2,
        area.x + area.width <= u16::MAX,
        area.y + area.height <= u16::MAX,
        3 <= requested,
        requested + 3 <= area.height,
    ensures
        sections.0 == (Rect {
            x: area.x,
            y: area.y,
            width: (area.width - 1) as u16,
            height: requested,
        }),
        sections.1 == (Rect {
            x: area.x,
            y: (area.y + requested) as u16,
            width: (area.width - 1) as u16,
            height: (area.height - requested) as u16,
        }),
{
}

/// Without a column or a row for content there are no sections.
pub proof fn no_content_has_no_sections(area: Rect, requested: u16, sections: (Rect, Rect))
    requires
        call_ensures(expanded_sidebar_sections, (area, requested), sections),
        area.width <= 1 || area.height == 0 || area.x == u16::MAX || area.y == u16::MAX,
    ensures
        sections.0 == (Rect { x: 0, y: 0, width: 0, height: 0 }),
        sections.1 == (Rect { x: 0, y: 0, width: 0, height: 0 }),
{
}

/// From six rows of content on the divider is the first row of the detail section,
/// in all its columns.
pub proof fn divider_lies_between_the_sections(
    area: Rect,
    requested: u16,
    content: Rect,
    sections: (Rect, Rect),
    divider: Rect,
)
    requires
        call_ensures(sidebar_content, (area,), content),
        call_ensures(expanded_sidebar_sections, (area, requested), sections),
        call_ensures(sidebar_section_divider_rect, (area, requested), divider),
    ensures
        content.width > 0 && content.height >= 6 ==> divider.x == sections.1.x && divider.y
            == sections.1.y && divider.width == sections.1.width && divider.height == 1,
        content.width == 0 || content.height < 6 ==> divider == (Rect {
            x: 0,
            y: 0,
            width: 0,
            height: 0,
        }),
{
}

} // verus!
