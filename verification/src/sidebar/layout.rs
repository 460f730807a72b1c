//! Where the two sections of the sidebar lie.

use vstd::prelude::*;

verus! {

/// A rectangle of terminal cells.
#[derive(Clone, Copy, Debug, PartialEq, Eq, Structural)]
pub struct Rect {
    pub x: u16,
    pub y: u16,
    pub width: u16,
    pub height: u16,
}

/// The rectangle at the origin without any cell.
pub open spec fn no_area() -> Rect {
    Rect { x: 0, y: 0, width: 0, height: 0 }
}

/// The largest length up to `length` that ends within `u16` when it starts at
/// `start`.
pub open spec fn clipped(start: u16, length: u16) -> u16 {
    if start + length <= u16::MAX {
        length
    } else {
        (u16::MAX - start) as u16
    }
}

/// The rectangle with these corners, cut where it would end beyond `u16`.
pub open spec fn clipped_rect(x: u16, y: u16, width: u16, height: u16) -> Rect {
    Rect { x, y, width: clipped(x, width), height: clipped(y, height) }
}

impl Default for Rect {
    fn default() -> (rect: Rect)
        ensures
            rect == no_area(),
    {
        Rect { x: 0, y: 0, width: 0, height: 0 }
    }
}

/// `ratatui::layout::Rect::new`, as its four coordinates: the rectangle with this
/// corner and size, where a width or a height that would end beyond `u16` is cut
/// to end there.
#[verifier::external_body]
fn ratatui_rect_new(x: u16, y: u16, width: u16, height: u16) -> (rect: Rect)
    ensures
        rect == clipped_rect(x, y, width, height),
{
    let rect = ratatui::layout::Rect::new(x, y, width, height);
    Rect { x: rect.x, y: rect.y, width: rect.width, height: rect.height }
}

impl Rect {
    /// The rectangle with this corner and size, cut where it would end beyond
    /// `u16`.
    pub fn new(x: u16, y: u16, width: u16, height: u16) -> (rect: Rect)
        ensures
            rect == clipped_rect(x, y, width, height),
    {
        ratatui_rect_new(x, y, width, height)
    }

    /// Whether the rectangle holds no cell.
    pub fn is_empty(self) -> (empty: bool)
        ensures
            empty == (self.width == 0 || self.height == 0),
    {
        self.width == 0 || self.height == 0
    }
}

/// Rows below which the sidebar has no room for a divider between its sections.
pub const MIN_DIVIDED_HEIGHT: u16 = 6;

/// Rows that each section has at least in a divided sidebar.
pub const MIN_SECTION_HEIGHT: u16 = 3;

/// Rows of the workspace section in `total_height` rows, of which
/// `requested_height` were asked for.
pub open spec fn workspace_rows(total_height: u16, requested_height: u16) -> int {
    if total_height < MIN_DIVIDED_HEIGHT {
        (total_height as int + 1) / 2
    } else if requested_height < MIN_SECTION_HEIGHT {
        MIN_SECTION_HEIGHT as int
    } else if requested_height > total_height - MIN_SECTION_HEIGHT {
        total_height - MIN_SECTION_HEIGHT
    } else {
        requested_height as int
    }
}

/// Splits the rows of the sidebar into those of the workspace section and those
/// of the detail section. `requested_height` is the share of the workspace
/// section as configured, in whole rows; a sidebar too low to be divided is cut
/// in the middle instead.
pub fn sidebar_section_heights(total_height: u16, requested_height: u16) -> (heights: (u16, u16))
    ensures
        heights.0 == workspace_rows(total_height, requested_height),
        heights.1 == total_height - heights.0,
{
    if total_height == 0 {
        return (0, 0);
    }
    if total_height < MIN_DIVIDED_HEIGHT {
        let workspace_height = total_height / 2 + total_height % 2;
        return (workspace_height, total_height - workspace_height);
    }
    let most = total_height - MIN_SECTION_HEIGHT;
    let workspace_height = if requested_height < MIN_SECTION_HEIGHT {
        MIN_SECTION_HEIGHT
    } else if requested_height > most {
        most
    } else {
        requested_height
    };
    (workspace_height, total_height - workspace_height)
}

/// What the sidebar draws in: all of `area` but the last column.
pub open spec fn content_of(area: Rect) -> Rect {
    clipped_rect(
        area.x,
        area.y,
        if area.width > 0 {
            (area.width - 1) as u16
        } else {
            0
        },
        area.height,
    )
}

/// All of `area` but its last column, which belongs to the sidebar's border.
pub fn sidebar_content(area: Rect) -> (content: Rect)
    ensures
        content == content_of(area),
        content.x + content.width <= u16::MAX,
        content.y + content.height <= u16::MAX,
{
    Rect::new(area.x, area.y, area.width.saturating_sub(1), area.height)
}

/// The two sections of an expanded sidebar.
pub open spec fn sections(area: Rect, requested_height: u16) -> (Rect, Rect) {
    let content = content_of(area);
    let rows = workspace_rows(content.height, requested_height);
    if content.width == 0 || content.height == 0 {
        (no_area(), no_area())
    } else {
        (
            Rect { height: rows as u16, ..content },
            Rect {
                y: (content.y + rows) as u16,
                height: (content.height - rows) as u16,
                ..content
            },
        )
    }
}

/// The workspace section and, below it, the detail section of an expanded
/// sidebar. `requested_height` is the configured share of the workspace section
/// in the rows of `sidebar_content(area)`.
pub fn expanded_sidebar_sections(area: Rect, requested_height: u16) -> (result: (Rect, Rect))
    ensures
        result == sections(area, requested_height),
{
    let content = sidebar_content(area);
    if content.is_empty() {
        return (Rect::default(), Rect::default());
    }
    let (workspace_height, detail_height) = sidebar_section_heights(
        content.height,
        requested_height,
    );
    (
        Rect::new(content.x, content.y, content.width, workspace_height),
        Rect::new(content.x, content.y + workspace_height, content.width, detail_height),
    )
}

/// The row that divides the two sections.
pub open spec fn divider(area: Rect, requested_height: u16) -> Rect {
    let content = content_of(area);
    if content.width == 0 || content.height < MIN_DIVIDED_HEIGHT {
        no_area()
    } else {
        Rect {
            y: (content.y + workspace_rows(content.height, requested_height)) as u16,
            height: 1,
            ..content
        }
    }
}

/// The row that divides the two sections, or no area where the sidebar is too
/// low to be divided.
pub fn sidebar_section_divider_rect(area: Rect, requested_height: u16) -> (rect: Rect)
    ensures
        rect == divider(area, requested_height),
{
    let content = sidebar_content(area);
    if content.width == 0 || content.height < MIN_DIVIDED_HEIGHT {
        return Rect::default();
    }
    let (workspace_height, _) = sidebar_section_heights(content.height, requested_height);
    Rect::new(content.x, content.y + workspace_height, content.width, 1)
}

/// The sections stack without overlap and cover the content exactly; in a
/// sidebar that is high enough both have their minimum of rows, whatever was
/// asked for.
pub proof fn sections_tile_the_content(area: Rect, requested_height: u16)
    requires
        content_of(area).width > 0,
        content_of(area).height > 0,
    ensures
        ({
            let content = content_of(area);
            let (upper, lower) = sections(area, requested_height);
            &&& upper.x == content.x && upper.width == content.width && upper.y == content.y
            &&& lower.x == content.x && lower.width == content.width
            &&& lower.y == upper.y + upper.height
            &&& lower.y + lower.height == content.y + content.height
            &&& content.height >= MIN_DIVIDED_HEIGHT ==> upper.height >= MIN_SECTION_HEIGHT
                && lower.height >= MIN_SECTION_HEIGHT
        }),
{
}

/// Where there is a divider it is the first row of the detail section.
pub proof fn divider_heads_the_detail_section(area: Rect, requested_height: u16)
    requires
        content_of(area).width > 0,
        content_of(area).height >= MIN_DIVIDED_HEIGHT,
    ensures
        divider(area, requested_height) == (Rect { height: 1, ..sections(area, requested_height).1 }),
{
}

} // verus!
