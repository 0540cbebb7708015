//! How the screen is divided into the file list, the tag list, the input
//! line and the status line.
use vstd::prelude::*;
use crate::tui::AppMode;
use ratatui::layout::{Constraint, Direction, Layout, Rect};

verus! {

/// A rectangle of terminal cells.
#[derive(Clone, Copy, PartialEq, Eq, Structural, Debug)]
pub struct Area {
    pub x: u16,
    pub y: u16,
    pub width: u16,
    pub height: u16,
}

/// The direction in which an area is divided.
#[derive(Clone, Copy, PartialEq, Eq, Structural, Debug)]
pub enum Axis {
    /// Into rows, top to bottom.
    Vertical,
    /// Into columns, left to right.
    Horizontal,
}

/// What one part of a divided area asks for along the axis.
#[derive(Clone, Copy, PartialEq, Eq, Structural, Debug)]
pub enum Size {
    /// At least this many cells.
    Min(u16),
    /// Exactly this many cells.
    Length(u16),
    /// This share, in percent, of the whole.
    Percentage(u16),
}

/// The parts into which ratatui's constraint solver divides `area` along
/// `axis` for the given sizes, one per size, in order.
pub uninterp spec fn layout_split(area: Area, axis: Axis, sizes: Seq<Size>) -> Seq<Area>;

/// Divides `area` along `axis` with ratatui's `Layout::split`: the result is
/// the solver's answer for these arguments, one part per size (the solver
/// makes one segment for each constraint).
#[verifier::external_body]
fn split_area(area: Area, axis: Axis, sizes: &Vec<Size>) -> (parts: Vec<Area>)
    ensures
        parts@ == layout_split(area, axis, sizes@),
        parts@.len() == sizes@.len(),
{
    let direction = match axis {
        Axis::Vertical => Direction::Vertical,
        Axis::Horizontal => Direction::Horizontal,
    };
    let constraints = sizes.iter().map(|s| match *s {
        Size::Min(n) => Constraint::Min(n),
        Size::Length(n) => Constraint::Length(n),
        Size::Percentage(n) => Constraint::Percentage(n),
    });
    let rect = Rect { x: area.x, y: area.y, width: area.width, height: area.height };
    let rects = Layout::default().direction(direction).constraints(constraints).split(rect);
    rects.iter().map(|r| Area { x: r.x, y: r.y, width: r.width, height: r.height }).collect()
}

/// The parts of the screen.
pub struct Panes {
    pub files: Area,
    /// Shown only while tags are assigned.
    pub tags: Option<Area>,
    pub input: Area,
    pub info: Area,
}

/// The rows of the screen: the lists over at least three rows, then the
/// input line and the status line, three rows each.
pub open spec fn screen_rows(area: Area) -> Seq<Area> {
    layout_split(area, Axis::Vertical, seq![Size::Min(3), Size::Length(3), Size::Length(3)])
}

/// The columns of the top row while tags are assigned: the file list over
/// 70 percent, the tag list over 30.
pub open spec fn list_columns(top: Area) -> Seq<Area> {
    layout_split(top, Axis::Horizontal, seq![Size::Percentage(70), Size::Percentage(30)])
}

/// How the screen is divided in `mode`.
pub fn screen_panes(area: Area, mode: AppMode) -> (p: Panes)
    ensures
        p.input == screen_rows(area)[1],
        p.info == screen_rows(area)[2],
        mode == AppMode::TagAssign ==> p.files == list_columns(screen_rows(area)[0])[0]
            && p.tags == Some(list_columns(screen_rows(area)[0])[1]),
        mode != AppMode::TagAssign ==> p.files == screen_rows(area)[0] && p.tags is None,
{
    let row_sizes = vec![Size::Min(3), Size::Length(3), Size::Length(3)];
    assert(row_sizes@ =~= seq![Size::Min(3), Size::Length(3), Size::Length(3)]);
    let rows = split_area(area, Axis::Vertical, &row_sizes);
    if mode == AppMode::TagAssign {
        let column_sizes = vec![Size::Percentage(70), Size::Percentage(30)];
        assert(column_sizes@ =~= seq![Size::Percentage(70), Size::Percentage(30)]);
        let cols = split_area(rows[0], Axis::Horizontal, &column_sizes);
        Panes { files: cols[0], tags: Some(cols[1]), input: rows[1], info: rows[2] }
    } else {
        Panes { files: rows[0], tags: None, input: rows[1], info: rows[2] }
    }
}

} // verus!
