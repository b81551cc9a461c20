//! Screen rectangles and the centred popup area, laid out by ratatui.
use ratatui::layout::{Constraint, Direction, Layout, Rect};
use vstd::prelude::*;

verus! {

/// A rectangle of terminal cells: its top-left corner and its size.
#[derive(Clone, Copy, Debug, PartialEq, Eq, Structural)]
pub struct Area {
    pub x: u16,
    pub y: u16,
    pub width: u16,
    pub height: u16,
}

/// The three parts ratatui's layout solver cuts `area` into, top to bottom
/// when `vertical` and left to right otherwise, taking `a`, `b` and `c`
/// percent of it.
pub uninterp spec fn percent_split(area: Area, vertical: bool, a: u16, b: u16, c: u16) -> Seq<Area>;

/// `ratatui::layout::Layout::split` with three `Constraint::Percentage`
/// constraints and the given direction (no margin, default flex): its
/// result depends on these arguments alone and holds one rectangle per
/// constraint. Which rectangles they are, the outcome of ratatui's
/// constraint solver, is only named here, by `percent_split`.
#[verifier::external_body]
fn split_by_percent(area: Area, vertical: bool, a: u16, b: u16, c: u16) -> (parts: Vec<Area>)
    ensures
        parts@ == percent_split(area, vertical, a, b, c),
        parts@.len() == 3,
{
    let direction = if vertical { Direction::Vertical } else { Direction::Horizontal };
    let rect = Rect { x: area.x, y: area.y, width: area.width, height: area.height };
    let parts = Layout::default().direction(direction).constraints(
        [Constraint::Percentage(a), Constraint::Percentage(b), Constraint::Percentage(c)],
    ).split(rect);
    parts.iter().map(|r| Area { x: r.x, y: r.y, width: r.width, height: r.height }).collect()
}

/// The area `percent_x` percent wide and `percent_y` percent tall in the
/// middle of `r`: the middle of three rows of `(100 - percent_y) / 2`,
/// `percent_y` and `(100 - percent_y) / 2` percent, then the middle of
/// three columns of that row split likewise by `percent_x`.
pub fn centered_rect(percent_x: u16, percent_y: u16, r: Area) -> (c: Area)
    requires
        percent_x <= 100,
        percent_y <= 100,
    ensures
        c == percent_split(
            percent_split(r, true, ((100 - percent_y) / 2) as u16, percent_y, ((100 - percent_y) / 2) as u16)[1],
            false,
            ((100 - percent_x) / 2) as u16,
            percent_x,
            ((100 - percent_x) / 2) as u16,
        )[1],
{
    let rows = split_by_percent(r, true, (100 - percent_y) / 2, percent_y, (100 - percent_y) / 2);
    let cols = split_by_percent(rows[1], false, (100 - percent_x) / 2, percent_x, (100 - percent_x) / 2);
    cols[1]
}

/// The five rows ratatui's layout solver cuts the screen into, inside a
/// one-cell margin: title (3 rows), dealer (9), player (at least 9),
/// message (3) and controls (3).
pub uninterp spec fn table_rows(screen: Area) -> Seq<Area>;

/// `ratatui::layout::Layout::split`, vertical, with a margin of one cell
/// and the constraints `Length(3)`, `Length(9)`, `Min(9)`, `Length(3)`,
/// `Length(3)`: its result depends on the screen area alone and holds one
/// rectangle per constraint. Which rectangles they are is only named here,
/// by `table_rows`.
#[verifier::external_body]
fn split_table(screen: Area) -> (rows: Vec<Area>)
    ensures
        rows@ == table_rows(screen),
        rows@.len() == 5,
{
    let rect = Rect { x: screen.x, y: screen.y, width: screen.width, height: screen.height };
    let rows = Layout::default().direction(Direction::Vertical).margin(1).constraints(
        [
            Constraint::Length(3),
            Constraint::Length(9),
            Constraint::Min(9),
            Constraint::Length(3),
            Constraint::Length(3),
        ],
    ).split(rect);
    rows.iter().map(|r| Area { x: r.x, y: r.y, width: r.width, height: r.height }).collect()
}

/// The rows of the table on a screen: title, dealer's hand, player's hand,
/// message and controls, in that order.
pub fn table_areas(screen: Area) -> (rows: Vec<Area>)
    ensures
        rows@ == table_rows(screen),
        rows@.len() == 5,
{
    split_table(screen)
}

/// The area inside a hand's box where its cards go: two columns in from
/// the left, one row down, four columns narrower and two rows shorter (none
/// when the box is smaller). `None` when the inner corner would lie past
/// the last addressable column or row.
pub fn hand_inner(area: Area) -> (inner: Option<Area>)
    ensures
        inner is None <==> area.x + 2 > u16::MAX || area.y + 1 > u16::MAX,
        inner matches Some(a) ==> a.x == area.x + 2 && a.y == area.y + 1 && a.width == (
        if area.width < 4 {
            0
        } else {
            area.width - 4
        }) && a.height == (if area.height < 2 {
            0
        } else {
            area.height - 2
        }),
{
    let x = match area.x.checked_add(2) {
        Some(x) => x,
        None => {
            return None;
        },
    };
    let y = match area.y.checked_add(1) {
        Some(y) => y,
        None => {
            return None;
        },
    };
    Some(Area { x, y, width: area.width.saturating_sub(4), height: area.height.saturating_sub(2) })
}

} // verus!
