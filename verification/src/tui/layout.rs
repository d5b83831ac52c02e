//! Screen regions.

use ratatui::layout::{Constraint as Size, Direction as Flow, Layout, Rect as Cells, Spacing};
use vstd::prelude::*;

use crate::config::{
    BORDER_HEIGHT, OUTPUT_FOOTER_HEIGHT, PREVIEW_CODE_WRAP_OVERHEAD, PTY_DEFAULT_COLS, PTY_DEFAULT_ROWS, VERTICAL_LAYOUT_HEIGHT_THRESHOLD, VERTICAL_MENU_HEIGHT,
};
use crate::num::{fit_u16, larger, less_by, smaller};
use crate::rect::Rect;

verus! {

/// How much room one part of a split area gets.
#[derive(Clone, Copy, Debug, PartialEq, Eq, Structural)]
pub enum Constraint {
    Min(u16),
    Length(u16),
    Fill(u16),
    Percentage(u16),
}

/// In which direction an area is split.
#[derive(Clone, Copy, Debug, PartialEq, Eq, Structural)]
pub enum Direction {
    Vertical,
    Horizontal,
}

/// How far an area reaches in a direction, within the cells that can be addressed.
pub open spec fn room(area: Rect, direction: Direction) -> int {
    match direction {
        Direction::Vertical => fit_u16(area.y + area.height) - area.y,
        Direction::Horizontal => fit_u16(area.x + area.width) - area.x,
    }
}

/// The part of an area that starts `from` cells into it in a direction, and takes
/// the whole of it in the other.
pub open spec fn pane(area: Rect, direction: Direction, from: int, len: int) -> Rect {
    match direction {
        Direction::Vertical => Rect { y: (area.y + from) as u16, height: len as u16, ..area },
        Direction::Horizontal => Rect { x: (area.x + from) as u16, width: len as u16, ..area },
    }
}

/// Where a part starts within an area.
pub open spec fn part_start(area: Rect, direction: Direction, part: Rect) -> int {
    match direction {
        Direction::Vertical => part.y - area.y,
        Direction::Horizontal => part.x - area.x,
    }
}

/// How long a part is in a direction.
pub open spec fn part_len(direction: Direction, part: Rect) -> int {
    match direction {
        Direction::Vertical => part.height as int,
        Direction::Horizontal => part.width as int,
    }
}

/// A part of `area` that was split in a direction: it lies in the area, and in the
/// other direction it takes the whole of it.
pub open spec fn is_part(area: Rect, direction: Direction, part: Rect) -> bool {
    &&& match direction {
        Direction::Vertical => part.x == area.x && part.width == area.width,
        Direction::Horizontal => part.y == area.y && part.height == area.height,
    }
    &&& 0 <= part_start(area, direction, part)
    &&& part_start(area, direction, part) + part_len(direction, part) <= room(area, direction)
}

/// A part that takes what is left.
pub open spec fn is_flexible(constraint: Constraint) -> bool {
    constraint == Constraint::Min(0) || constraint == Constraint::Fill(1)
}

/// The lengths that are asked for, in all.
pub open spec fn asked_length(constraints: Seq<Constraint>) -> int
    decreases constraints.len(),
{
    if constraints.len() == 0 {
        0
    } else {
        asked_length(constraints.drop_last()) + match constraints.last() {
            Constraint::Length(n) => n as int,
            _ => 0,
        }
    }
}

/// Some lengths are asked for, and what is left goes to flexible parts.
pub open spec fn leaves_a_rest(constraints: Seq<Constraint>) -> bool {
    &&& forall|i: int|
        0 <= i < constraints.len() ==> (#[trigger] constraints[i]) is Length || is_flexible(
            constraints[i],
        )
    &&& exists|i: int| 0 <= i < constraints.len() && is_flexible(#[trigger] constraints[i])
}

/// The parts cover an area from its start to its end, one behind the other.
pub open spec fn tiles(area: Rect, direction: Direction, parts: Seq<Rect>) -> bool {
    &&& parts.len() > 0
    &&& part_start(area, direction, parts[0]) == 0
    &&& forall|i: int|
        0 < i < parts.len() ==> part_start(area, direction, #[trigger] parts[i]) == part_start(
            area,
            direction,
            parts[i - 1],
        ) + part_len(direction, parts[i - 1])
    &&& part_start(area, direction, parts.last()) + part_len(direction, parts.last()) == room(
        area,
        direction,
    )
}

/// Parts of a fixed length have it, and flexible parts are as long as each other, up
/// to rounding.
pub open spec fn shared_out(direction: Direction, constraints: Seq<Constraint>, parts: Seq<Rect>) -> bool {
    &&& forall|i: int|
        0 <= i < constraints.len() ==> ((#[trigger] constraints[i]) matches Constraint::Length(n)
            ==> part_len(direction, parts[i]) == n)
    &&& forall|i: int, j: int|
        0 <= i < constraints.len() && 0 <= j < constraints.len() && is_flexible(
            #[trigger] constraints[i],
        ) && is_flexible(#[trigger] constraints[j]) ==> part_len(direction, parts[i]) <= part_len(
            direction,
            parts[j],
        ) + 1
}

/// Lengths that fit are kept, and flexible parts share the rest.
pub open spec fn rest_shared(
    area: Rect,
    direction: Direction,
    constraints: Seq<Constraint>,
    parts: Seq<Rect>,
) -> bool {
    leaves_a_rest(constraints) && asked_length(constraints) <= room(area, direction) ==> tiles(
        area,
        direction,
        parts,
    ) && shared_out(direction, constraints, parts)
}

/// A single length that does not fit takes the whole area.
pub open spec fn too_long_fills(
    area: Rect,
    direction: Direction,
    constraints: Seq<Constraint>,
    parts: Seq<Rect>,
) -> bool {
    leaves_a_rest(constraints) && asked_length(constraints) >= room(area, direction)
        ==> forall|i: int|
        0 <= i < constraints.len() && #[trigger] constraints[i] is Length
            && constraints[i]->Length_0 == asked_length(constraints) ==> part_len(
            direction,
            parts[i],
        ) == room(area, direction)
}

/// Two shares in percent that make up the whole are rounded to cells.
pub open spec fn percent_rounded(
    area: Rect,
    direction: Direction,
    constraints: Seq<Constraint>,
    parts: Seq<Rect>,
) -> bool {
    constraints.len() == 2 && constraints[0] is Percentage && constraints[1] is Percentage
        && constraints[0]->Percentage_0 + constraints[1]->Percentage_0 == 100 ==> tiles(
        area,
        direction,
        parts,
    ) && part_len(direction, parts[0]) == (room(area, direction) * constraints[0]->Percentage_0
        + 50) / 100
}

/// A length beside one flexible part is kept, but never less than their overlap.
pub open spec fn length_beside_rest(
    area: Rect,
    direction: Direction,
    constraints: Seq<Constraint>,
    overlap: u16,
    parts: Seq<Rect>,
) -> bool {
    let whole = room(area, direction);
    let first = smaller(larger(constraints[0]->Length_0 as int, overlap as int), whole);
    constraints.len() == 2 && constraints[0] is Length && constraints[1] == Constraint::Min(0)
        && overlap <= whole ==> {
        &&& part_start(area, direction, parts[0]) == 0
        &&& part_len(direction, parts[0]) == first
        &&& part_start(area, direction, parts[1]) == first - overlap
        &&& part_len(direction, parts[1]) == whole - first + overlap
    }
}

/// A length after one flexible part is kept. The two overlap, and the flexible part
/// takes what the length leaves, but does not pass the end of the area.
pub open spec fn length_after_rest(
    area: Rect,
    direction: Direction,
    constraints: Seq<Constraint>,
    overlap: u16,
    parts: Seq<Rect>,
) -> bool {
    let whole = room(area, direction);
    let last = smaller(larger(constraints[1]->Length_0 as int, overlap as int), whole);
    constraints.len() == 2 && constraints[0] == Constraint::Min(0) && constraints[1] is Length
        && overlap <= whole ==> {
        &&& part_start(area, direction, parts[0]) == 0
        &&& part_len(direction, parts[0]) == whole - last + overlap
        &&& part_start(area, direction, parts[1]) == whole - last
        &&& part_len(direction, parts[1]) == smaller(constraints[1]->Length_0 as int, whole)
    }
}

/// `Layout::split`: splits an area into one part for each constraint, with
/// neighbouring parts overlapping by `overlap` cells. Each part lies in the area and
/// takes the whole of it across the split. In the solver's weights the order of parts
/// and their overlap come first, then lengths, then shares in percent, and only then
/// growth. So where lengths fit into the area, they are kept and flexible parts share
/// the rest; a single length that does not fit takes the whole area; a length before
/// one flexible part is kept with any overlap, but is never less than it, as the other
/// part may not begin before the area; a length after one flexible part is kept with any
/// overlap, and cells that it leaves at the end stay empty; and two shares that make up
/// the whole are rounded to cells. Nothing is said where several lengths do not fit, as
/// the solver is free to choose among them, nor of other constraints.
#[verifier::external_body]
pub(crate) fn split(area: Rect, direction: Direction, constraints: &[Constraint], overlap: u16) -> (
    parts: Vec<Rect>)
    requires
        overlap <= 0x7FFF,
    ensures
        parts@.len() == constraints@.len(),
        forall|i: int| 0 <= i < parts@.len() ==> is_part(area, direction, #[trigger] parts@[i]),
        overlap == 0 ==> rest_shared(area, direction, constraints@, parts@),
        overlap == 0 ==> too_long_fills(area, direction, constraints@, parts@),
        overlap == 0 ==> percent_rounded(area, direction, constraints@, parts@),
        length_beside_rest(area, direction, constraints@, overlap, parts@),
        length_after_rest(area, direction, constraints@, overlap, parts@),
{
    let flow = match direction {
        Direction::Vertical => Flow::Vertical,
        Direction::Horizontal => Flow::Horizontal,
    };
    let sizes = constraints.iter().map(|c| match *c {
        Constraint::Min(n) => Size::Min(n),
        Constraint::Length(n) => Size::Length(n),
        Constraint::Fill(n) => Size::Fill(n),
        Constraint::Percentage(n) => Size::Percentage(n),
    });
    let layout = Layout::new(flow, sizes).spacing(Spacing::Overlap(overlap));
    let Rect { x, y, width, height } = area;
    let cells = layout.split(Cells { x, y, width, height });
    cells.iter().map(|r| Rect { x: r.x, y: r.y, width: r.width, height: r.height }).collect()
}

/// A row, what lies between, and another row, from top to bottom. Where there is
/// room for one row only, the parts just lie in the area.
pub open spec fn rows_around(area: Rect, first: Rect, middle: Rect, last: Rect) -> bool {
    let height = room(area, Direction::Vertical);
    &&& is_part(area, Direction::Vertical, first)
    &&& is_part(area, Direction::Vertical, middle)
    &&& is_part(area, Direction::Vertical, last)
    &&& height >= 2 ==> {
        &&& first == pane(area, Direction::Vertical, 0, 1)
        &&& middle == pane(area, Direction::Vertical, 1, height - 2)
        &&& last == pane(area, Direction::Vertical, height - 1, 1)
    }
}

/// Splits an area into a row, what lies between, and another row.
pub fn split_rows(area: Rect) -> (rows: (Rect, Rect, Rect))
    ensures
        rows_around(area, rows.0, rows.1, rows.2),
{
    let rows = [Constraint::Length(1), Constraint::Min(0), Constraint::Length(1)];
    let parts = split(area, Direction::Vertical, rows.as_slice(), 0);
    proof {
        let all = rows@;
        assert(is_flexible(all[1]));
        assert(all.drop_last().drop_last().drop_last() =~= Seq::empty());
        assert(all.drop_last()[1] == all[1] && all.drop_last().drop_last()[0] == all[0]);
        reveal_with_fuel(asked_length, 4);
        assert(asked_length(all) == 2);
        assert(is_part(area, Direction::Vertical, parts@[0]));
        assert(is_part(area, Direction::Vertical, parts@[1]));
        assert(is_part(area, Direction::Vertical, parts@[2]));
    }
    (parts[0], parts[1], parts[2])
}

/// The first of two columns that share an area in percent, and the second.
pub open spec fn columns_of(area: Rect, percent: int) -> (Rect, Rect) {
    let width = room(area, Direction::Horizontal);
    let first = (width * percent + 50) / 100;
    (
        pane(area, Direction::Horizontal, 0, first),
        pane(area, Direction::Horizontal, first, width - first),
    )
}

/// Splits an area into two columns that share it in percent.
pub fn split_columns(area: Rect, percent: u16) -> (columns: (Rect, Rect))
    requires
        percent <= 100,
    ensures
        columns == columns_of(area, percent as int),
{
    let columns = [Constraint::Percentage(percent), Constraint::Percentage(100 - percent)];
    let parts = split(area, Direction::Horizontal, columns.as_slice(), 0);
    assert(is_part(area, Direction::Horizontal, parts@[0]));
    assert(is_part(area, Direction::Horizontal, parts@[1]));
    (parts[0], parts[1])
}

/// Screen regions for the menu, preview, and footer areas.
#[derive(Clone, Copy)]
pub struct Area {
    pub menu: Rect,
    pub preview: Rect,
    pub footer: Rect,
    pub last_area: Rect,
    /// The menu width that the regions were laid out for.
    pub last_menu_width: u16,
}

impl Default for Area {
    fn default() -> (area: Area)
        ensures
            area.menu == (Rect { x: 0, y: 0, width: 0, height: 0 }),
            area.preview == area.menu,
            area.footer == area.menu,
            area.last_area == area.menu,
            area.last_menu_width == 0,
    {
        Area {
            menu: Rect::default(),
            preview: Rect::default(),
            footer: Rect::default(),
            last_area: Rect::default(),
            last_menu_width: 0,
        }
    }
}

/// The direction in which menu and preview are laid out: stacked on a low
/// terminal, else side by side.
pub open spec fn panes_direction(height: u16) -> Direction {
    if height < VERTICAL_LAYOUT_HEIGHT_THRESHOLD {
        Direction::Vertical
    } else {
        Direction::Horizontal
    }
}

/// The room the menu gets in the direction of the panes.
pub open spec fn menu_room(height: u16, menu_width: u16) -> u16 {
    if height < VERTICAL_LAYOUT_HEIGHT_THRESHOLD {
        VERTICAL_MENU_HEIGHT
    } else {
        menu_width
    }
}

/// The last row of an area, and what lies above it.
pub open spec fn last_row_off(area: Rect, above: Rect, footer: Rect) -> bool {
    let height = room(area, Direction::Vertical);
    let rows = smaller(1, height);
    &&& above == pane(area, Direction::Vertical, 0, height - rows)
    &&& footer == pane(area, Direction::Vertical, height - rows, rows)
}

/// Splits the last row off an area.
pub fn split_footer(area: Rect) -> (parts: (Rect, Rect))
    ensures
        last_row_off(area, parts.0, parts.1),
{
    let rows = [Constraint::Min(0), Constraint::Length(1)];
    let parts = split(area, Direction::Vertical, rows.as_slice(), 0);
    proof {
        let all = rows@;
        assert(is_flexible(all[0]));
        assert(all.drop_last().drop_last() =~= Seq::empty());
        assert(all.drop_last()[0] == all[0]);
        reveal_with_fuel(asked_length, 3);
        assert(asked_length(all) == 1);
        assert(all[1] is Length);
        assert(is_part(area, Direction::Vertical, parts@[0]));
        assert(is_part(area, Direction::Vertical, parts@[1]));
    }
    (parts[0], parts[1])
}

/// Splits an area for the menu and the preview, which share a border.
fn split_panes(area: Rect, direction: Direction, length: u16) -> (parts: (Rect, Rect))
    ensures
        ({
            let menu = smaller(larger(length as int, 1), room(area, direction));
            &&& parts.0 == pane(area, direction, 0, menu)
            &&& parts.1 == pane(
                area,
                direction,
                less_by(menu, 1),
                room(area, direction) - less_by(menu, 1),
            )
        }),
{
    let columns = [Constraint::Length(length), Constraint::Min(0)];
    let parts = split(area, direction, columns.as_slice(), 1);
    assert(is_part(area, direction, parts@[0]));
    assert(is_part(area, direction, parts@[1]));
    (parts[0], parts[1])
}

/// The last rows of an area and what lies above them, which share a border.
pub open spec fn split_below(area: Rect, rows: int, above: Rect, below: Rect) -> bool {
    let height = room(area, Direction::Vertical);
    let last = smaller(larger(rows, 1), height);
    &&& above == pane(area, Direction::Vertical, 0, height - less_by(last, 1))
    &&& below == pane(area, Direction::Vertical, height - last, smaller(rows, height))
}

/// Splits rows off the end of an area, which share a border with what is above.
pub fn split_bottom(area: Rect, rows: u16) -> (parts: (Rect, Rect))
    ensures
        split_below(area, rows as int, parts.0, parts.1),
{
    let all = [Constraint::Min(0), Constraint::Length(rows)];
    let parts = split(area, Direction::Vertical, all.as_slice(), 1);
    assert(is_part(area, Direction::Vertical, parts@[0]));
    assert(is_part(area, Direction::Vertical, parts@[1]));
    (parts[0], parts[1])
}

/// One rectangle lies in another.
pub open spec fn lies_in(part: Rect, area: Rect) -> bool {
    &&& area.x <= part.x
    &&& area.y <= part.y
    &&& part.x + part.width <= area.x + area.width
    &&& part.y + part.height <= area.y + area.height
}

/// All regions lie in the terminal, once they were laid out for it.
pub proof fn law_regions_lie_in_the_terminal(regions: Area, before: Area, area: Rect, menu_width: u16)
    requires
        before.stale(area, menu_width),
        regions.laid(&before, area, menu_width),
    ensures
        lies_in(regions.menu, area),
        lies_in(regions.preview, area),
        lies_in(regions.footer, area),
{
}

impl Area {
    /// The regions have to be laid out anew.
    pub open spec fn stale(&self, area: Rect, menu_width: u16) -> bool {
        self.last_area != area || self.last_menu_width != menu_width
    }

    /// How the panes are laid out: the direction, and the room for the menu.
    pub fn panes(height: u16, menu_width: u16) -> (panes: (Direction, u16))
        ensures
            panes == (panes_direction(height), menu_room(height, menu_width)),
    {
        if height < VERTICAL_LAYOUT_HEIGHT_THRESHOLD {
            (Direction::Vertical, VERTICAL_MENU_HEIGHT)
        } else {
            (Direction::Horizontal, menu_width)
        }
    }

    /// Takes over regions that were laid out for an area and a menu width.
    pub fn place(&mut self, area: Rect, menu_width: u16, menu: Rect, preview: Rect, footer: Rect)
        ensures
            final(self).last_area == area,
            final(self).last_menu_width == menu_width,
            final(self).menu == menu,
            final(self).preview == preview,
            final(self).footer == footer,
    {
        self.last_area = area;
        self.last_menu_width = menu_width;
        self.menu = menu;
        self.preview = preview;
        self.footer = footer;
    }

    /// The regions of an area: one row at the bottom for the footer where there is
    /// room, and above it the menu and the preview, which share a border.
    pub open spec fn regions(area: Rect, menu_width: u16) -> Area {
        let height = room(area, Direction::Vertical);
        let footer = smaller(1, height);
        let main = pane(area, Direction::Vertical, 0, height - footer);
        let direction = panes_direction(area.height);
        let length = room(main, direction);
        let menu = smaller(larger(menu_room(area.height, menu_width) as int, 1), length);
        Area {
            menu: pane(main, direction, 0, menu),
            preview: pane(main, direction, less_by(menu, 1), length - less_by(menu, 1)),
            footer: pane(area, Direction::Vertical, height - footer, footer),
            last_area: area,
            last_menu_width: menu_width,
        }
    }

    /// The regions are laid out for an area and a menu width; where neither has
    /// changed they are as before.
    pub open spec fn laid(&self, before: &Area, area: Rect, menu_width: u16) -> bool {
        if !before.stale(area, menu_width) {
            *self == *before
        } else {
            *self == Area::regions(area, menu_width)
        }
    }

    /// Lays the regions out, unless neither the area nor the menu width has
    /// changed: the footer takes one row, menu and preview share the rest.
    pub fn update(&mut self, area: Rect, menu_width: u16)
        ensures
            final(self).laid(old(self), area, menu_width),
    {
        if self.last_area == area && self.last_menu_width == menu_width {
            return ;
        }
        let (above, footer) = split_footer(area);
        let (direction, length) = Self::panes(area.height, menu_width);
        let (menu, preview) = split_panes(above, direction, length);
        self.place(area, menu_width, menu, preview, footer);
    }

    pub fn total_width(&self) -> (width: u16)
        ensures
            width == self.last_area.width,
    {
        self.last_area.width
    }

    /// Recomputes layout with a new menu width but the same area.
    pub fn update_menu_width(&mut self, menu_width: u16)
        ensures
            final(self).laid(old(self), old(self).last_area, menu_width),
    {
        let area = self.last_area;
        self.update(area, menu_width);
    }

    /// The PTY size (columns, rows) for a preview of the given size.
    pub open spec fn pty_size_for(preview: Rect, extra_overhead: u16) -> (int, int) {
        let overhead = PREVIEW_CODE_WRAP_OVERHEAD + extra_overhead;
        if less_by(preview.height as int, 3) < 5 {
            (larger(less_by(PTY_DEFAULT_COLS as int, overhead), 10), PTY_DEFAULT_ROWS as int)
        } else {
            (
                larger(less_by(preview.width as int, overhead), 10),
                less_by(preview.height as int, 3),
            )
        }
    }

    /// Returns the printable PTY size (columns, rows) based on the preview pane
    /// dimensions.
    pub fn pty_size(&self, extra_overhead: u16) -> (size: (u16, u16))
        requires
            PREVIEW_CODE_WRAP_OVERHEAD + extra_overhead <= u16::MAX,
        ensures
            (size.0 as int, size.1 as int) == Self::pty_size_for(self.preview, extra_overhead),
    {
        let overhead: u16 = PREVIEW_CODE_WRAP_OVERHEAD as u16 + extra_overhead;
        let cols: u16 = self.preview.width.saturating_sub(overhead).max(10);
        let rows: u16 = self.preview.height.saturating_sub(3);
        if rows < 5 {
            (PTY_DEFAULT_COLS.saturating_sub(overhead).max(10), PTY_DEFAULT_ROWS)
        } else {
            (cols, rows)
        }
    }
}

impl Area {
    /// The rows of the preview inside its border.
    pub fn preview_viewport_rows(&self) -> (rows: usize)
        ensures
            rows == less_by(self.preview.height as int, BORDER_HEIGHT as int),
    {
        (self.preview.height as usize).saturating_sub(BORDER_HEIGHT)
    }

    /// The PTY size (columns, rows) where a task's output takes the whole screen.
    pub fn output_pty_size(&self) -> (size: (u16, u16))
        ensures
            size.0 == self.last_area.width,
            size.1 == less_by(self.last_area.height as int, OUTPUT_FOOTER_HEIGHT as int),
    {
        (self.last_area.width, self.last_area.height.saturating_sub(OUTPUT_FOOTER_HEIGHT))
    }
}

/// A share of a length, but no less than `least`, as 16 bits hold it.
pub open spec fn share(length: u16, percent: u16, least: int) -> u16 {
    larger((length * percent) / 100, least) as u16
}

/// The size (width, height) of a popup that takes a share of an area.
pub fn popup_size(percent_x: u16, percent_y: u16, r: Rect) -> (size: (u16, u16))
    ensures
        size.0 == share(r.width, percent_x, 20),
        size.1 == share(r.height, percent_y, 6),
{
    proof {
        assert(0 <= r.height * percent_y <= 65535 * 65535) by (nonlinear_arith)
            requires
                0 <= r.height <= 65535,
                0 <= percent_y <= 65535,
        ;
        assert(0 <= r.width * percent_x <= 65535 * 65535) by (nonlinear_arith)
            requires
                0 <= r.width <= 65535,
                0 <= percent_x <= 65535,
        ;
    }
    let height: u32 = ((r.height as u32 * percent_y as u32) / 100).max(6);
    let width: u32 = ((r.width as u32 * percent_x as u32) / 100).max(20);
    (trimmed_u16(width), trimmed_u16(height))
}

#[verifier::truncate]
fn trimmed_u16(n: u32) -> (out: u16)
    ensures
        out == n as u16,
{
    n as u16
}

/// A part in the middle of a length: as long as asked, but not longer than the
/// length, and as far from both ends, up to rounding.
pub open spec fn is_centered(start: int, len: int, asked: int, whole: int) -> bool {
    let behind = whole - start - len;
    &&& len == smaller(asked, whole)
    &&& 0 <= start
    &&& 0 <= behind
    &&& -1 <= start - behind <= 1
}

/// The middle of an area, a share of it in width and height.
pub open spec fn is_middle(rect: Rect, percent_x: u16, percent_y: u16, r: Rect) -> bool {
    &&& is_centered(
        rect.x - r.x,
        rect.width as int,
        share(r.width, percent_x, 20) as int,
        room(r, Direction::Horizontal),
    )
    &&& is_centered(
        rect.y - r.y,
        rect.height as int,
        share(r.height, percent_y, 6) as int,
        room(r, Direction::Vertical),
    )
}

/// The part in the middle of an area, of a length in a direction.
fn split_middle(area: Rect, direction: Direction, length: u16) -> (part: Rect)
    ensures
        is_part(area, direction, part),
        is_centered(
            part_start(area, direction, part),
            part_len(direction, part),
            length as int,
            room(area, direction),
        ),
{
    let sizes = [Constraint::Fill(1), Constraint::Length(length), Constraint::Fill(1)];
    let parts = split(area, direction, sizes.as_slice(), 0);
    proof {
        let all = sizes@;
        assert(is_flexible(all[0]) && is_flexible(all[2]));
        assert(all.drop_last().drop_last().drop_last() =~= Seq::empty());
        assert(all.drop_last()[1] == all[1] && all.drop_last().drop_last()[0] == all[0]);
        reveal_with_fuel(asked_length, 4);
        assert(asked_length(all) == length);
        assert(all[1] is Length);
        assert(is_part(area, direction, parts@[0]));
        assert(is_part(area, direction, parts@[1]));
        assert(is_part(area, direction, parts@[2]));
    }
    parts[1]
}

/// The middle of an area, a share of it in width and height.
pub fn centered_rect(percent_x: u16, percent_y: u16, r: Rect) -> (rect: Rect)
    ensures
        is_middle(rect, percent_x, percent_y, r),
{
    let (width, height) = popup_size(percent_x, percent_y, r);
    let rows = split_middle(r, Direction::Vertical, height);
    split_middle(rows, Direction::Horizontal, width)
}

/// The area inside of a popup's border and its horizontal padding of one.
pub open spec fn inside_popup(area: Rect) -> Rect {
    let x = step_in(area.x as int, area.width as int);
    let y = step_in(area.y as int, area.height as int);
    Rect {
        x: fit_u16(x + 1) as u16,
        y: y as u16,
        width: less_by(area.width as int, 4) as u16,
        height: less_by(area.height as int, 2) as u16,
    }
}

/// One further than `start`, but neither past the end of a length from there
/// nor out of range.
pub open spec fn step_in(start: int, len: int) -> int {
    smaller(fit_u16(start + 1), fit_u16(start + len))
}

/// The area inside of a popup's border and its horizontal padding of one.
pub fn popup_inner(area: Rect) -> (inner: Rect)
    ensures
        inner == inside_popup(area),
{
    let right: u16 = area.x.saturating_add(area.width);
    let bottom: u16 = area.y.saturating_add(area.height);
    let x: u16 = area.x.saturating_add(1).min(right);
    let y: u16 = area.y.saturating_add(1).min(bottom);
    Rect {
        x: x.saturating_add(1),
        y,
        width: area.width.saturating_sub(1).saturating_sub(1).saturating_sub(2),
        height: area.height.saturating_sub(1).saturating_sub(1),
    }
}

/// The menu and the preview lie side by side and share one border, or one above the
/// other in a low terminal; the footer has the last row. Together they fill the terminal.
pub proof fn law_regions_fill_the_terminal(area: Rect, menu_width: u16)
    requires
        area.x + area.width <= u16::MAX,
        area.y + area.height <= u16::MAX,
        area.height >= 2,
        area.width >= 1,
    ensures
        ({
            let regions = Area::regions(area, menu_width);
            &&& regions.footer.height == 1
            &&& regions.footer.y + 1 == area.y + area.height
            &&& regions.footer.width == area.width
            &&& regions.menu.x == area.x && regions.menu.y == area.y
            &&& area.height >= 20 ==> {
                &&& regions.menu.height == area.height - 1
                &&& regions.preview.height == area.height - 1
                &&& regions.preview.x + 1 == regions.menu.x + regions.menu.width
                &&& regions.preview.x + regions.preview.width == area.x + area.width
                &&& 1 <= menu_width <= area.width ==> regions.menu.width == menu_width
            }
            &&& area.height < 20 ==> {
                &&& regions.menu.width == area.width
                &&& regions.preview.width == area.width
                &&& regions.preview.y + 1 == regions.menu.y + regions.menu.height
                &&& regions.preview.y + regions.preview.height + 1 == area.y + area.height
                &&& area.height >= 4 ==> regions.menu.height == 3
            }
        }),
{
}

/// A program gets a screen that fits into the preview beside the gutter and the frame,
/// and never less than ten columns.
pub proof fn law_screens_fit_into_the_preview(preview: Rect, extra_overhead: u16)
    ensures
        ({
            let (cols, rows) = Area::pty_size_for(preview, extra_overhead);
            &&& cols >= 10
            &&& rows >= 5
            &&& preview.height >= 8 ==> rows + 3 == preview.height
            &&& preview.height >= 8 && preview.width >= 16 + extra_overhead ==> cols + 6
                + extra_overhead == preview.width
            &&& preview.height < 8 ==> rows == 24
            &&& preview.height < 8 && extra_overhead == 0 ==> cols == 74
        }),
{
}

/// Two columns stand side by side and fill the area; half and half differ by one cell at
/// most.
pub proof fn law_columns_fill_the_area(area: Rect, percent: int)
    requires
        area.x + area.width <= u16::MAX,
        0 <= percent <= 100,
    ensures
        ({
            let (left, right) = columns_of(area, percent);
            &&& left.x == area.x
            &&& left.x + left.width == right.x
            &&& right.x + right.width == area.x + area.width
            &&& left.y == area.y && right.y == area.y
            &&& left.height == area.height && right.height == area.height
            &&& percent == 50 ==> 0 <= left.width - right.width <= 1
            &&& percent == 0 ==> left.width == 0
            &&& percent == 100 ==> right.width == 0
        }),
{
    let width = area.width as int;
    assert(0 <= width * percent <= width * 100) by (nonlinear_arith)
        requires
            0 <= percent <= 100,
            0 <= width,
    ;
}

/// The content of a popup keeps off its border, one row above and below and two columns
/// on either side.
pub proof fn law_popups_have_a_border(area: Rect)
    requires
        area.x + area.width <= u16::MAX,
        area.y + area.height <= u16::MAX,
        area.width >= 4,
        area.height >= 2,
    ensures
        ({
            let inner = inside_popup(area);
            &&& inner.x == area.x + 2
            &&& inner.y == area.y + 1
            &&& inner.x + inner.width + 2 == area.x + area.width
            &&& inner.y + inner.height + 1 == area.y + area.height
        }),
{
}

/// A footer is the last row of an area, and what stands above it is the rest.
pub proof fn law_footers_have_the_last_row(area: Rect, above: Rect, footer: Rect)
    requires
        last_row_off(area, above, footer),
        area.y + area.height <= u16::MAX,
        area.height >= 1,
    ensures
        footer.height == 1,
        footer.y + 1 == area.y + area.height,
        above.y == area.y,
        above.y + above.height == footer.y,
        above.width == area.width && footer.width == area.width,
        above.x == area.x && footer.x == area.x,
{
}

/// A dialog in the middle takes its share of the area, but not less than its least size
/// where there is room for it.
pub proof fn law_dialogs_take_their_share(rect: Rect, percent_x: u16, percent_y: u16, r: Rect)
    requires
        is_middle(rect, percent_x, percent_y, r),
        r.x + r.width <= u16::MAX,
        r.y + r.height <= u16::MAX,
        percent_x <= 100,
        percent_y <= 100,
    ensures
        lies_in(rect, r),
        r.width >= 20 ==> rect.width >= 20,
        r.height >= 6 ==> rect.height >= 6,
        r.width < 20 ==> rect.width == r.width,
        r.height < 6 ==> rect.height == r.height,
        percent_x == 100 ==> rect.width == r.width,
        percent_y == 100 ==> rect.height == r.height,
        rect.width >= 21 ==> rect.width * 100 <= r.width * percent_x < (rect.width + 1) * 100,
        rect.height >= 7 ==> rect.height * 100 <= r.height * percent_y < (rect.height + 1) * 100,
{
    let w = r.width * percent_x;
    let h = r.height * percent_y;
    assert(0 <= w <= r.width * 100) by (nonlinear_arith)
        requires
            w == r.width * percent_x,
            percent_x <= 100,
    ;
    assert(0 <= h <= r.height * 100) by (nonlinear_arith)
        requires
            h == r.height * percent_y,
            percent_y <= 100,
    ;
}

/// What is split off below has its rows at the bottom, and shares one row, the border,
/// with what stands above.
pub proof fn law_split_areas_share_a_border(area: Rect, rows: int, above: Rect, below: Rect)
    requires
        split_below(area, rows, above, below),
        area.y + area.height <= u16::MAX,
        1 <= rows <= area.height,
    ensures
        below.height == rows,
        below.y + below.height == area.y + area.height,
        above.y == area.y,
        above.y + above.height == below.y + 1,
        above.width == area.width && below.width == area.width,
{
}

/// The first row and the last row stand around the rest, which they leave no gap to.
pub proof fn law_rows_stand_around_the_rest(area: Rect, first: Rect, middle: Rect, last: Rect)
    requires
        rows_around(area, first, middle, last),
        area.y + area.height <= u16::MAX,
        area.height >= 2,
    ensures
        first.height == 1 && first.y == area.y,
        middle.y == first.y + 1,
        last.y == middle.y + middle.height,
        last.height == 1 && last.y + 1 == area.y + area.height,
        first.width == area.width && middle.width == area.width && last.width == area.width,
{
}

} // verus!
