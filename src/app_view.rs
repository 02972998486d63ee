//! The view state: which panel has focus, the scroll offset of each panel,
//! and the geometry last computed for the screen.
use vstd::prelude::*;
use crate::layout::{panel_cycle, LayoutInfo, Panel, Rect};

verus! {

/// A scroll request: a number of rows up or down.
#[derive(Clone, Copy, Debug)]
pub enum ScrollDirection {
    Up(usize),
    Down(usize),
}

/// The rows that a panel's border and padding take from its height.
pub const VIEW_PADDING: u16 = 4;

/// `v` brought into `[lo, hi]`.
pub open spec fn clamp(v: int, lo: int, hi: int) -> int {
    if v < lo {
        lo
    } else if v > hi {
        hi
    } else {
        v
    }
}

/// The offset that a scroll from `current` leads to, kept within
/// `[0, max_scroll]`.
pub open spec fn scrolled(current: int, direction: ScrollDirection, max_scroll: int) -> int {
    match direction {
        ScrollDirection::Down(n) => clamp(current + n, 0, max_scroll),
        ScrollDirection::Up(n) => clamp(current - n, 0, max_scroll),
    }
}

/// The offset that keeps row `index` in a window of `height` rows that
/// starts at `offset`: unchanged where it is inside, else moved just enough.
pub open spec fn offset_showing(offset: int, height: int, index: int) -> int {
    if index < offset {
        index
    } else if index >= offset + height {
        if height == 0 {
            index
        } else {
            index - height + 1
        }
    } else {
        offset
    }
}

/// `(x, y)` lies in `area`, each axis half-open.
pub open spec fn in_rect(x: int, y: int, area: Rect) -> bool {
    area.x <= x < area.x + area.width && area.y <= y < area.y + area.height
}

/// The first panel, in focus order, whose rectangle holds `(x, y)`.
pub open spec fn hit_panel(layout: LayoutInfo, x: int, y: int) -> Option<Panel> {
    if in_rect(x, y, layout.region_of(Panel::RequestList)) {
        Some(Panel::RequestList)
    } else if in_rect(x, y, layout.region_of(Panel::RequestDetail)) {
        Some(Panel::RequestDetail)
    } else if in_rect(x, y, layout.region_of(Panel::SqlInfo)) {
        Some(Panel::SqlInfo)
    } else if in_rect(x, y, layout.region_of(Panel::LogStream)) {
        Some(Panel::LogStream)
    } else {
        None
    }
}

/// Every scroll leaves the offset within `[0, max_scroll]`, whatever the
/// offset before and however large the step.
pub proof fn lemma_scroll_in_range(current: int, direction: ScrollDirection, max_scroll: int)
    requires
        max_scroll >= 0,
    ensures
        0 <= scrolled(current, direction, max_scroll) <= max_scroll,
{
}

/// The offset after scrolling by each of `directions` in turn.
pub open spec fn scrolled_all(current: int, directions: Seq<ScrollDirection>, max_scroll: int) -> int {
    directions.fold_left(current, |o: int, d: ScrollDirection| scrolled(o, d, max_scroll))
}

/// After any non-empty sequence of scrolls the offset lies within
/// `[0, max_scroll]`.
pub proof fn lemma_scroll_sequence_in_range(
    current: int,
    directions: Seq<ScrollDirection>,
    max_scroll: int,
)
    requires
        max_scroll >= 0,
        directions.len() > 0,
    ensures
        0 <= scrolled_all(current, directions, max_scroll) <= max_scroll,
{
    let prev = directions.drop_last();
    lemma_scroll_in_range(scrolled_all(current, prev, max_scroll), directions.last(), max_scroll);
}

/// Keeping a row in view puts it inside the window whenever the window has
/// at least one row.
pub proof fn lemma_offset_shows_index(offset: int, height: int, index: int)
    requires
        height > 0,
        0 <= offset,
        0 <= index,
    ensures
        offset_showing(offset, height, index) <= index < offset_showing(offset, height, index)
            + height,
        0 <= offset_showing(offset, height, index),
{
}

/// Focus, scroll offsets and geometry of the dashboard.
pub struct AppView {
    pub focused_panel: Panel,
    pub list_offset: usize,
    pub detail_offset: usize,
    pub sql_offset: usize,
    pub stream_offset: usize,
    pub layout_info: LayoutInfo,
}

impl AppView {
    /// The scroll offset of `p`.
    pub open spec fn offset(&self, p: Panel) -> int {
        match p {
            Panel::RequestList => self.list_offset as int,
            Panel::RequestDetail => self.detail_offset as int,
            Panel::SqlInfo => self.sql_offset as int,
            Panel::LogStream => self.stream_offset as int,
        }
    }

    /// The rows of content that `p` shows at once.
    pub open spec fn viewport(&self, p: Panel) -> int {
        let h = self.layout_info.region_of(p).height as int;
        if h > VIEW_PADDING {
            h - VIEW_PADDING
        } else {
            0
        }
    }

    /// The columns of content that `p` shows at once.
    pub open spec fn viewport_cols(&self, p: Panel) -> int {
        let w = self.layout_info.region_of(p).width as int;
        if w > VIEW_PADDING {
            w - VIEW_PADDING
        } else {
            0
        }
    }

    /// All offsets but that of `p` are those of `other`.
    pub open spec fn same_offsets_but(&self, other: &AppView, p: Panel) -> bool {
        forall|q: Panel| q != p ==> self.offset(q) == other.offset(q)
    }

    /// The request list has focus, every offset is 0 and no geometry is known.
    pub fn new() -> (r: Self)
        ensures
            r.focused_panel == Panel::RequestList,
            forall|p: Panel| r.offset(p) == 0 && r.layout_info.slot(p) is None,
    {
        AppView {
            focused_panel: Panel::RequestList,
            list_offset: 0,
            detail_offset: 0,
            sql_offset: 0,
            stream_offset: 0,
            layout_info: LayoutInfo::new(),
        }
    }

    pub fn get_scroll_offset(&self, panel: Panel) -> (r: usize)
        ensures
            r == self.offset(panel),
    {
        match panel {
            Panel::RequestList => self.list_offset,
            Panel::RequestDetail => self.detail_offset,
            Panel::SqlInfo => self.sql_offset,
            Panel::LogStream => self.stream_offset,
        }
    }

    pub fn set_scroll_offset(&mut self, panel: Panel, offset: usize)
        ensures
            final(self).offset(panel) == offset,
            final(self).same_offsets_but(old(self), panel),
            final(self).focused_panel == old(self).focused_panel,
            final(self).layout_info == old(self).layout_info,
    {
        match panel {
            Panel::RequestList => self.list_offset = offset,
            Panel::RequestDetail => self.detail_offset = offset,
            Panel::SqlInfo => self.sql_offset = offset,
            Panel::LogStream => self.stream_offset = offset,
        }
    }

    /// Scrolls `panel` by `direction`, keeping its offset within
    /// `[0, max_scroll]`.
    pub fn apply_scroll(&mut self, panel: Panel, direction: ScrollDirection, max_scroll: usize)
        ensures
            final(self).offset(panel) == scrolled(old(self).offset(panel), direction, max_scroll as int),
            0 <= final(self).offset(panel) <= max_scroll,
            final(self).same_offsets_but(old(self), panel),
            final(self).focused_panel == old(self).focused_panel,
            final(self).layout_info == old(self).layout_info,
    {
        let current = self.get_scroll_offset(panel);
        let target = match direction {
            ScrollDirection::Down(n) => {
                let t = current.saturating_add(n);
                if t > max_scroll {
                    max_scroll
                } else {
                    t
                }
            },
            ScrollDirection::Up(n) => {
                let t = current.saturating_sub(n);
                if t > max_scroll {
                    max_scroll
                } else {
                    t
                }
            },
        };
        self.set_scroll_offset(panel, target);
    }

    /// The rows of content that `panel` shows at once: its height less the
    /// padding, and 0 where it is smaller.
    pub fn viewport_height(&self, panel: Panel) -> (r: usize)
        ensures
            r == self.viewport(panel),
    {
        let region = self.layout_info.region(panel);
        region.height.saturating_sub(VIEW_PADDING) as usize
    }

    /// The columns of content that `panel` shows at once.
    pub fn viewport_width(&self, panel: Panel) -> (r: usize)
        ensures
            r == self.viewport_cols(panel),
    {
        let region = self.layout_info.region(panel);
        region.width.saturating_sub(VIEW_PADDING) as usize
    }

    /// Scrolls `panel` just enough that row `index` is in view.
    pub fn adjust_scroll_for_index(&mut self, panel: Panel, index: usize)
        ensures
            final(self).offset(panel) == offset_showing(
                old(self).offset(panel),
                old(self).viewport(panel),
                index as int,
            ),
            old(self).viewport(panel) > 0 ==> final(self).offset(panel) <= index
                < final(self).offset(panel) + old(self).viewport(panel),
            final(self).same_offsets_but(old(self), panel),
            final(self).focused_panel == old(self).focused_panel,
            final(self).layout_info == old(self).layout_info,
    {
        let height = self.viewport_height(panel);
        let current = self.get_scroll_offset(panel);
        if index < current {
            self.set_scroll_offset(panel, index);
        } else if index - current >= height {
            self.set_scroll_offset(panel, index - height.saturating_sub(1));
        }
    }

    /// Whether `(x, y)` lies in `area`, each axis half-open.
    pub fn is_in_region(x: u16, y: u16, area: &Rect) -> (r: bool)
        ensures
            r == in_rect(x as int, y as int, *area),
    {
        x >= area.x && x - area.x < area.width && y >= area.y && y - area.y < area.height
    }

    /// The first panel, in focus order, whose rectangle holds `(x, y)`.
    pub fn panel_at_point(&self, x: u16, y: u16) -> (r: Option<Panel>)
        ensures
            r == hit_panel(self.layout_info, x as int, y as int),
            match r {
                Some(p) => in_rect(x as int, y as int, self.layout_info.region_of(p)) && forall|i: int|
                    0 <= i < crate::layout::panel_index(p) ==> !in_rect(
                        x as int,
                        y as int,
                        self.layout_info.region_of(#[trigger] panel_cycle()[i]),
                    ),
                None => forall|p: Panel| !in_rect(x as int, y as int, self.layout_info.region_of(p)),
            },
    {
        let panels = Panel::all();
        let mut i: usize = 0;
        while i < 4
            invariant
                i <= 4,
                panels@ == panel_cycle(),
                forall|j: int|
                    0 <= j < i ==> !in_rect(
                        x as int,
                        y as int,
                        self.layout_info.region_of(#[trigger] panel_cycle()[j]),
                    ),
            decreases 4 - i,
        {
            let p = panels[i];
            if Self::is_in_region(x, y, &self.layout_info.region(p)) {
                assert(i == 0 ==> !in_rect(x as int, y as int, self.layout_info.region_of(panel_cycle()[0])) || p == Panel::RequestList);
                assert(i >= 1 ==> !in_rect(x as int, y as int, self.layout_info.region_of(panel_cycle()[0])));
                assert(i >= 2 ==> !in_rect(x as int, y as int, self.layout_info.region_of(panel_cycle()[1])));
                assert(i >= 3 ==> !in_rect(x as int, y as int, self.layout_info.region_of(panel_cycle()[2])));
                return Some(p);
            }
            i += 1;
        }
        proof {
            assert forall|p: Panel| !in_rect(x as int, y as int, self.layout_info.region_of(p)) by {
                assert(panel_cycle()[crate::layout::panel_index(p)] == p);
            }
        }
        assert(!in_rect(x as int, y as int, self.layout_info.region_of(panel_cycle()[0])));
        assert(!in_rect(x as int, y as int, self.layout_info.region_of(panel_cycle()[1])));
        assert(!in_rect(x as int, y as int, self.layout_info.region_of(panel_cycle()[2])));
        None
    }
}

} // verus!
