use lucy::app_view::{AppView, ScrollDirection};
use lucy::layout::{calculate_layout, LayoutInfo, Panel, Rect};

#[test]
fn test_app_view_new() {
    let view = AppView::new();
    assert_eq!(view.focused_panel, Panel::RequestList);
    assert_eq!(view.get_scroll_offset(Panel::RequestList), 0);
    assert_eq!(view.get_scroll_offset(Panel::RequestDetail), 0);
    assert_eq!(view.get_scroll_offset(Panel::LogStream), 0);
    assert_eq!(view.get_scroll_offset(Panel::SqlInfo), 0);
}

#[test]
fn test_set_scroll_offset() {
    let mut view = AppView::new();

    view.set_scroll_offset(Panel::RequestList, 5);
    assert_eq!(view.get_scroll_offset(Panel::RequestList), 5);

    view.set_scroll_offset(Panel::RequestDetail, 10);
    assert_eq!(view.get_scroll_offset(Panel::RequestDetail), 10);
}

#[test]
fn test_apply_scroll() {
    let mut view = AppView::new();

    view.apply_scroll(Panel::LogStream, ScrollDirection::Down(3), 10);
    assert_eq!(view.get_scroll_offset(Panel::LogStream), 3);

    view.apply_scroll(Panel::LogStream, ScrollDirection::Down(5), 10);
    assert_eq!(view.get_scroll_offset(Panel::LogStream), 8);

    view.apply_scroll(Panel::LogStream, ScrollDirection::Down(5), 10);
    assert_eq!(view.get_scroll_offset(Panel::LogStream), 10);

    view.apply_scroll(Panel::LogStream, ScrollDirection::Up(4), 10);
    assert_eq!(view.get_scroll_offset(Panel::LogStream), 6);

    view.apply_scroll(Panel::LogStream, ScrollDirection::Up(10), 10);
    assert_eq!(view.get_scroll_offset(Panel::LogStream), 0);
}

#[test]
fn test_is_in_region() {
    let rect = Rect::new(10, 10, 20, 15);

    assert!(AppView::is_in_region(15, 15, &rect));
    assert!(AppView::is_in_region(10, 10, &rect));
    assert!(AppView::is_in_region(29, 24, &rect));

    assert!(!AppView::is_in_region(9, 15, &rect));
    assert!(!AppView::is_in_region(30, 15, &rect));
    assert!(!AppView::is_in_region(15, 9, &rect));
    assert!(!AppView::is_in_region(15, 25, &rect));
}

#[test]
fn scrolling_stays_in_range_for_any_steps() {
    let mut view = AppView::new();
    let steps = [
        ScrollDirection::Down(usize::MAX),
        ScrollDirection::Up(3),
        ScrollDirection::Up(usize::MAX),
        ScrollDirection::Down(7),
    ];
    for max in [0usize, 1, 5] {
        for step in steps {
            view.apply_scroll(Panel::SqlInfo, step, max);
            assert!(view.get_scroll_offset(Panel::SqlInfo) <= max);
        }
    }
    view.set_scroll_offset(Panel::SqlInfo, 50);
    view.apply_scroll(Panel::SqlInfo, ScrollDirection::Up(1), 5);
    assert_eq!(view.get_scroll_offset(Panel::SqlInfo), 5);
    view.apply_scroll(Panel::SqlInfo, ScrollDirection::Down(2), 0);
    assert_eq!(view.get_scroll_offset(Panel::SqlInfo), 0);
}

#[test]
fn adjusting_keeps_the_index_in_view() {
    let mut view = AppView::new();
    view.layout_info = LayoutInfo::new().with_region(Panel::RequestList, Rect::new(0, 0, 30, 9));
    assert_eq!(view.viewport_height(Panel::RequestList), 5);
    view.adjust_scroll_for_index(Panel::RequestList, 7);
    assert_eq!(view.get_scroll_offset(Panel::RequestList), 3);
    view.adjust_scroll_for_index(Panel::RequestList, 5);
    assert_eq!(view.get_scroll_offset(Panel::RequestList), 3);
    view.adjust_scroll_for_index(Panel::RequestList, 1);
    assert_eq!(view.get_scroll_offset(Panel::RequestList), 1);
    for index in 0..40 {
        view.adjust_scroll_for_index(Panel::RequestList, index);
        let offset = view.get_scroll_offset(Panel::RequestList);
        assert!(offset <= index && index < offset + 5);
    }
}

#[test]
fn zero_viewport_does_not_underflow() {
    let mut view = AppView::new();
    view.layout_info = LayoutInfo::new().with_region(Panel::RequestDetail, Rect::new(0, 0, 3, 3));
    assert_eq!(view.viewport_height(Panel::RequestDetail), 0);
    assert_eq!(view.viewport_width(Panel::RequestDetail), 0);
    view.adjust_scroll_for_index(Panel::RequestDetail, 9);
    assert_eq!(view.get_scroll_offset(Panel::RequestDetail), 9);
}

#[test]
fn hit_testing_uses_half_open_rectangles() {
    let mut view = AppView::new();
    view.layout_info = LayoutInfo::new()
        .with_region(Panel::RequestList, Rect::new(0, 0, 10, 10))
        .with_region(Panel::RequestDetail, Rect::new(10, 0, 10, 10));
    assert_eq!(view.panel_at_point(9, 9), Some(Panel::RequestList));
    assert_eq!(view.panel_at_point(10, 0), Some(Panel::RequestDetail));
    assert_eq!(view.panel_at_point(20, 0), None);
    assert_eq!(view.panel_at_point(0, 10), None);
}

#[test]
fn test_layout_info_with_region() {
    let rect = Rect::new(0, 0, 10, 10);
    let layout = LayoutInfo::new().with_region(Panel::RequestList, rect);

    assert_eq!(layout.region_count(), 1);
    assert_eq!(layout.region(Panel::RequestList), rect);
}

#[test]
fn test_calculate_layout() {
    let area = Rect::new(0, 0, 100, 100);
    let layout = calculate_layout(area);

    for panel in Panel::all().iter() {
        let region = layout.region(*panel);
        assert!(region.width > 0);
        assert!(region.height > 0);
    }

    let request_list = layout.region(Panel::RequestList);
    let request_detail = layout.region(Panel::RequestDetail);
    let sql_info = layout.region(Panel::SqlInfo);

    assert_eq!(request_list.y, 0);
    assert_eq!(request_detail.y, 0);

    assert!(sql_info.y > request_detail.y);

    assert!(request_list.x < request_detail.x);
}

#[test]
fn layout_splits_by_ratio() {
    let layout = calculate_layout(Rect::new(0, 0, 100, 100));
    assert_eq!(layout.region(Panel::RequestList), Rect::new(0, 0, 20, 70));
    assert_eq!(layout.region(Panel::RequestDetail), Rect::new(20, 0, 80, 70));
    assert_eq!(layout.region(Panel::SqlInfo), Rect::new(0, 70, 40, 30));
    assert_eq!(layout.region(Panel::LogStream), Rect::new(40, 70, 60, 30));
    assert_eq!(layout.region_count(), 4);
}

#[test]
fn focus_cycles_both_ways() {
    for p in Panel::all() {
        assert_eq!(p.next().previous(), p);
        assert_eq!(p.previous().next(), p);
        assert_eq!(p.next().next().next().next(), p);
    }
    assert_eq!(Panel::RequestList.next(), Panel::RequestDetail);
    assert_eq!(Panel::LogStream.next(), Panel::RequestList);
    assert_eq!(Panel::RequestList.previous(), Panel::LogStream);
}
