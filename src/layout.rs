//! Panels, screen rectangles and the geometry of the dashboard.
use vstd::prelude::*;

verus! {

/// The panels of the dashboard.
#[derive(Clone, Copy, Debug, PartialEq, Eq, Structural, Hash)]
pub enum Panel {
    RequestList,
    RequestDetail,
    SqlInfo,
    LogStream,
}

/// The panels in focus order; the one place that lists them.
pub open spec fn panel_cycle() -> Seq<Panel> {
    seq![Panel::RequestList, Panel::RequestDetail, Panel::SqlInfo, Panel::LogStream]
}

/// The place of a panel in focus order.
pub open spec fn panel_index(p: Panel) -> int {
    match p {
        Panel::RequestList => 0,
        Panel::RequestDetail => 1,
        Panel::SqlInfo => 2,
        Panel::LogStream => 3,
    }
}

/// The panel after `p` in focus order, wrapping around.
pub open spec fn next_panel(p: Panel) -> Panel {
    panel_cycle()[(panel_index(p) + 1) % 4]
}

/// The panel before `p` in focus order, wrapping around.
pub open spec fn previous_panel(p: Panel) -> Panel {
    panel_cycle()[(panel_index(p) + 3) % 4]
}

impl Panel {
    /// Every panel, in focus order.
    pub fn all() -> (r: [Panel; 4])
        ensures
            r@ == panel_cycle(),
    {
        let r = [Panel::RequestList, Panel::RequestDetail, Panel::SqlInfo, Panel::LogStream];
        assert(r@ =~= panel_cycle());
        r
    }

    /// The panel after this one in focus order, wrapping around.
    pub fn next(self) -> (r: Panel)
        ensures
            r == next_panel(self),
    {
        match self {
            Panel::RequestList => Panel::RequestDetail,
            Panel::RequestDetail => Panel::SqlInfo,
            Panel::SqlInfo => Panel::LogStream,
            Panel::LogStream => Panel::RequestList,
        }
    }

    /// The panel before this one in focus order, wrapping around.
    pub fn previous(self) -> (r: Panel)
        ensures
            r == previous_panel(self),
    {
        match self {
            Panel::RequestList => Panel::LogStream,
            Panel::RequestDetail => Panel::RequestList,
            Panel::SqlInfo => Panel::RequestDetail,
            Panel::LogStream => Panel::SqlInfo,
        }
    }
}

/// Moving focus backward undoes moving it forward, and the reverse; every
/// panel is reached from every other.
pub proof fn lemma_focus_cycle(p: Panel)
    ensures
        previous_panel(next_panel(p)) == p,
        next_panel(previous_panel(p)) == p,
        panel_cycle()[panel_index(p)] == p,
        next_panel(next_panel(next_panel(next_panel(p)))) == p,
{
}

/// A screen rectangle in terminal cells.
#[derive(Clone, Copy, Debug, PartialEq, Eq, Structural)]
pub struct Rect {
    pub x: u16,
    pub y: u16,
    pub width: u16,
    pub height: u16,
}

impl Rect {
    pub fn new(x: u16, y: u16, width: u16, height: u16) -> (r: Rect)
        ensures
            r == (Rect { x, y, width, height }),
    {
        Rect { x, y, width, height }
    }

    /// The empty rectangle at the origin.
    pub fn zero() -> (r: Rect)
        ensures
            r == (Rect { x: 0, y: 0, width: 0, height: 0 }),
    {
        Rect { x: 0, y: 0, width: 0, height: 0 }
    }
}

/// The rectangle of each panel, where one was set.
#[derive(Clone, Copy, Debug)]
pub struct LayoutInfo {
    pub request_list: Option<Rect>,
    pub request_detail: Option<Rect>,
    pub sql_info: Option<Rect>,
    pub log_stream: Option<Rect>,
}

impl LayoutInfo {
    /// The rectangle set for `p`.
    pub open spec fn slot(&self, p: Panel) -> Option<Rect> {
        match p {
            Panel::RequestList => self.request_list,
            Panel::RequestDetail => self.request_detail,
            Panel::SqlInfo => self.sql_info,
            Panel::LogStream => self.log_stream,
        }
    }

    /// The rectangle of `p`; the empty one where none was set.
    pub open spec fn region_of(&self, p: Panel) -> Rect {
        match self.slot(p) {
            Some(r) => r,
            None => Rect { x: 0, y: 0, width: 0, height: 0 },
        }
    }

    /// A layout with no rectangle set.
    pub fn new() -> (r: Self)
        ensures
            forall|p: Panel| r.slot(p) is None,
    {
        LayoutInfo { request_list: None, request_detail: None, sql_info: None, log_stream: None }
    }

    /// This layout with the rectangle of `panel` set to `rect`.
    pub fn with_region(self, panel: Panel, rect: Rect) -> (r: Self)
        ensures
            r.slot(panel) == Some(rect),
            forall|p: Panel| p != panel ==> r.slot(p) == self.slot(p),
    {
        let mut r = self;
        match panel {
            Panel::RequestList => r.request_list = Some(rect),
            Panel::RequestDetail => r.request_detail = Some(rect),
            Panel::SqlInfo => r.sql_info = Some(rect),
            Panel::LogStream => r.log_stream = Some(rect),
        }
        r
    }

    /// The rectangle of `panel`; the empty one where none was set.
    pub fn region(&self, panel: Panel) -> (r: Rect)
        ensures
            r == self.region_of(panel),
    {
        let slot = match panel {
            Panel::RequestList => self.request_list,
            Panel::RequestDetail => self.request_detail,
            Panel::SqlInfo => self.sql_info,
            Panel::LogStream => self.log_stream,
        };
        match slot {
            Some(r) => r,
            None => Rect::zero(),
        }
    }

    /// The number of panels whose rectangle is set.
    pub fn region_count(&self) -> (r: usize)
        ensures
            r == (if self.request_list is Some { 1int } else { 0 }) + (if self.request_detail is Some { 1int } else { 0 })
                + (if self.sql_info is Some { 1int } else { 0 }) + (if self.log_stream is Some { 1int } else { 0 }),
    {
        let mut n: usize = 0;
        if self.request_list.is_some() {
            n += 1;
        }
        if self.request_detail.is_some() {
            n += 1;
        }
        if self.sql_info.is_some() {
            n += 1;
        }
        if self.log_stream.is_some() {
            n += 1;
        }
        n
    }
}

/// What ratatui's layout solver makes of `area` cut along one axis (rows
/// where `vertical`) into parts sized by `ratios` (numerator, denominator).
pub uninterp spec fn ratio_split(area: Rect, vertical: bool, ratios: Seq<(u32, u32)>) -> Seq<Rect>;

/// Relies on ratatui's `Layout::split`: `area` cut along one axis into one
/// part per ratio constraint.
#[verifier::external_body]
fn split_by_ratios(area: Rect, vertical: bool, ratios: &Vec<(u32, u32)>) -> (r: Vec<Rect>)
    ensures
        r@ == ratio_split(area, vertical, ratios@),
        r@.len() == ratios@.len(),
{
    let direction = if vertical { ratatui::layout::Direction::Vertical } else { ratatui::layout::Direction::Horizontal };
    let constraints = ratios.iter().map(|&(n, d)| ratatui::layout::Constraint::Ratio(n, d));
    let whole = ratatui::layout::Rect { x: area.x, y: area.y, width: area.width, height: area.height };
    let parts = ratatui::layout::Layout::default().direction(direction).constraints(constraints).split(whole);
    parts.iter().map(|p| Rect { x: p.x, y: p.y, width: p.width, height: p.height }).collect()
}

pub open spec fn row_ratios() -> Seq<(u32, u32)> {
    seq![(7u32, 10u32), (3u32, 10u32)]
}

pub open spec fn top_ratios() -> Seq<(u32, u32)> {
    seq![(2u32, 10u32), (8u32, 10u32)]
}

pub open spec fn bottom_ratios() -> Seq<(u32, u32)> {
    seq![(4u32, 10u32), (6u32, 10u32)]
}

/// The dashboard's geometry for a screen `area`: a top row with the request
/// list left of the request detail, and a bottom row with the SQL summary
/// left of the log stream.
pub open spec fn layout_for(area: Rect) -> LayoutInfo {
    let rows = ratio_split(area, true, row_ratios());
    let top = ratio_split(rows[0], false, top_ratios());
    let bottom = ratio_split(rows[1], false, bottom_ratios());
    LayoutInfo {
        request_list: Some(top[0]),
        request_detail: Some(top[1]),
        sql_info: Some(bottom[0]),
        log_stream: Some(bottom[1]),
    }
}

/// The dashboard's geometry for a screen `area`.
pub fn calculate_layout(area: Rect) -> (r: LayoutInfo)
    ensures
        r == layout_for(area),
{
    let row_spec = vec![(7u32, 10u32), (3u32, 10u32)];
    let top_spec = vec![(2u32, 10u32), (8u32, 10u32)];
    let bottom_spec = vec![(4u32, 10u32), (6u32, 10u32)];
    assert(row_spec@ == row_ratios());
    assert(top_spec@ == top_ratios());
    assert(bottom_spec@ == bottom_ratios());
    let rows = split_by_ratios(area, true, &row_spec);
    let top = split_by_ratios(rows[0], false, &top_spec);
    let bottom = split_by_ratios(rows[1], false, &bottom_spec);
    LayoutInfo::new().with_region(Panel::RequestList, top[0]).with_region(
        Panel::RequestDetail,
        top[1],
    ).with_region(Panel::SqlInfo, bottom[0]).with_region(Panel::LogStream, bottom[1])
}

} // verus!
