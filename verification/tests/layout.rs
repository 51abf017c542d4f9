use ccui::rect::Rect;
use ccui::style::{Border, BorderKind, Dimension, Display, FlexDirection, RectOffset, Style};

fn rect(x: u16, y: u16, width: u16, height: u16) -> Rect {
    Rect { x, y, width, height }
}

fn transposed(r: Rect) -> Rect {
    rect(r.y, r.x, r.height, r.width)
}

#[test]
fn rect_new_keeps_a_rectangle_that_fits() {
    assert_eq!(Rect::new(1, 2, 3, 4), rect(1, 2, 3, 4));
}

#[test]
fn rect_new_cuts_the_size_at_the_largest_coordinate() {
    assert_eq!(Rect::new(65530, 65000, 100, 1000), rect(65530, 65000, 5, 535));
    assert_eq!(Rect::new(65535, 0, 1, 1), rect(65535, 0, 0, 1));
}

#[test]
fn rect_zero_and_default_are_empty_at_the_origin() {
    assert_eq!(Rect::zero(), rect(0, 0, 0, 0));
    assert_eq!(Rect::default(), rect(0, 0, 0, 0));
}

#[test]
fn rect_contains_its_cells_and_not_its_far_edges() {
    let r = rect(2, 3, 4, 5);
    assert!(r.contains(2, 3));
    assert!(r.contains(5, 7));
    assert!(!r.contains(6, 3));
    assert!(!r.contains(2, 8));
    assert!(!r.contains(1, 3));
    assert!(!r.contains(2, 2));
}

#[test]
fn rect_contains_nothing_when_empty() {
    assert!(!rect(0, 0, 0, 0).contains(0, 0));
    assert!(!rect(5, 5, 0, 3).contains(5, 5));
}

#[test]
fn rect_contains_saturates_at_the_far_edge() {
    let r = rect(65530, 0, 100, 1);
    assert!(r.contains(65534, 0));
    assert!(!r.contains(65535, 0));
}

#[test]
fn default_style_is_a_plain_column() {
    let s = Style::default();
    assert_eq!(s.display, Display::Tiled);
    assert_eq!(s.flex_direction, FlexDirection::Column);
    assert_eq!(s.width, Dimension::Auto);
    assert_eq!(s.height, Dimension::Auto);
    assert_eq!(s.gap, 0);
    assert_eq!(s.padding, RectOffset::new(0, 0, 0, 0));
    assert_eq!(s.margin, RectOffset::new(0, 0, 0, 0));
    assert_eq!(s.border, Border { shown: false, kind: BorderKind::Plain });
    assert_eq!(Style::new(), s);
}

#[test]
fn builders_set_one_property_each() {
    let base = Style::new();
    assert_eq!(base.row().flex_direction, FlexDirection::Row);
    assert_eq!(base.row().column().flex_direction, FlexDirection::Column);
    assert_eq!(base.floating(3, 4).display, Display::Floating { x: 3, y: 4 });
    assert_eq!(base.floating(3, 4).tiled().display, Display::Tiled);
    assert_eq!(base.width(Dimension::Fixed(7)).width, Dimension::Fixed(7));
    assert_eq!(base.height(Dimension::Percent(50)).height, Dimension::Percent(50));
    assert_eq!(base.gap(2).gap, 2);
    assert_eq!(base.padding(RectOffset::new(1, 2, 3, 4)).padding, RectOffset::new(1, 2, 3, 4));
    assert_eq!(base.margin(RectOffset::new(4, 3, 2, 1)).margin, RectOffset::new(4, 3, 2, 1));
    assert_eq!(base.padding_all(5).padding, RectOffset::all(5));
    assert_eq!(base.margin_all(6).margin, RectOffset::all(6));
    assert_eq!(base.border(Border::shown(BorderKind::Double)).border, Border { shown: true, kind: BorderKind::Double });
    assert_eq!(base.row().gap(2), Style { flex_direction: FlexDirection::Row, gap: 2, ..base });
}

#[test]
fn size_builders_set_width_and_height() {
    let fixed = Style::new().fixed_size(10, 20);
    assert_eq!(fixed.width, Dimension::Fixed(10));
    assert_eq!(fixed.height, Dimension::Fixed(20));
    let percent = Style::new().percent_size(30, 40);
    assert_eq!(percent.width, Dimension::Percent(30));
    assert_eq!(percent.height, Dimension::Percent(40));
}

#[test]
fn rect_offset_all_and_new() {
    assert_eq!(RectOffset::all(3), RectOffset { top: 3, right: 3, bottom: 3, left: 3 });
    assert_eq!(RectOffset::new(1, 2, 3, 4), RectOffset { top: 1, right: 2, bottom: 3, left: 4 });
}

#[test]
fn border_constructors() {
    assert_eq!(Border::hidden(), Border { shown: false, kind: BorderKind::Plain });
    assert_eq!(Border::shown(BorderKind::Rounded), Border { shown: true, kind: BorderKind::Rounded });
}

#[test]
fn no_children_give_no_areas() {
    assert!(Style::new().calculate_children_areas(rect(0, 0, 80, 24), 0).is_empty());
    assert!(Style::new().row().gap(3).calculate_children_areas(rect(0, 0, 0, 0), 0).is_empty());
}

#[test]
fn a_column_splits_its_height_evenly() {
    let areas = Style::new().column().calculate_children_areas(rect(0, 0, 80, 24), 2);
    assert_eq!(areas, vec![rect(0, 0, 80, 12), rect(0, 12, 80, 12)]);
}

#[test]
fn a_row_splits_its_width_evenly() {
    let areas = Style::new().row().calculate_children_areas(rect(0, 0, 80, 24), 4);
    assert_eq!(areas, vec![rect(0, 0, 20, 24), rect(20, 0, 20, 24), rect(40, 0, 20, 24), rect(60, 0, 20, 24)]);
}

#[test]
fn a_single_child_fills_the_content_area() {
    assert_eq!(Style::new().calculate_children_areas(rect(3, 4, 50, 20), 1), vec![rect(3, 4, 50, 20)]);
    assert_eq!(Style::new().row().gap(9).calculate_children_areas(rect(3, 4, 50, 20), 1), vec![rect(3, 4, 50, 20)]);
}

#[test]
fn gaps_are_taken_off_before_the_division() {
    let areas = Style::new().row().gap(2).calculate_children_areas(rect(0, 0, 100, 10), 3);
    assert_eq!(areas, vec![rect(0, 0, 32, 10), rect(34, 0, 32, 10), rect(68, 0, 32, 10)]);
}

#[test]
fn cells_left_over_by_the_division_stay_unused() {
    let areas = Style::new().row().calculate_children_areas(rect(0, 0, 10, 1), 3);
    assert_eq!(areas, vec![rect(0, 0, 3, 1), rect(3, 0, 3, 1), rect(6, 0, 3, 1)]);
    let areas = Style::new().column().calculate_children_areas(rect(0, 0, 80, 25), 2);
    assert_eq!(areas, vec![rect(0, 0, 80, 12), rect(0, 12, 80, 12)]);
}

#[test]
fn padding_shrinks_the_content_area() {
    let style = Style::new().padding(RectOffset::new(1, 2, 3, 4));
    assert_eq!(style.shrink(rect(10, 20, 50, 30)), rect(14, 21, 44, 26));
    let areas = style.calculate_children_areas(rect(10, 20, 50, 30), 2);
    assert_eq!(areas, vec![rect(14, 21, 44, 13), rect(14, 34, 44, 13)]);
}

#[test]
fn a_border_takes_one_cell_on_every_side() {
    let style = Style::new().border(Border::shown(BorderKind::Plain));
    assert_eq!(style.shrink(rect(0, 0, 20, 10)), rect(1, 1, 18, 8));
    let padded = style.padding_all(2);
    assert_eq!(padded.shrink(rect(0, 0, 20, 10)), rect(3, 3, 14, 4));
}

#[test]
fn bordered_children_share_a_boundary_line() {
    let style = Style::new().row().border(Border::shown(BorderKind::Plain));
    let areas = style.calculate_children_areas(rect(0, 0, 20, 10), 2);
    assert_eq!(areas, vec![rect(1, 1, 9, 8), rect(9, 1, 10, 8)]);
    let style = Style::new().column().gap(1).border(Border::shown(BorderKind::Thick));
    let areas = style.calculate_children_areas(rect(0, 0, 20, 13), 3);
    assert_eq!(areas, vec![rect(1, 1, 18, 3), rect(1, 4, 18, 4), rect(1, 8, 18, 4)]);
}

#[test]
fn sizes_saturate_at_zero() {
    let style = Style::new().padding_all(10);
    assert_eq!(style.shrink(rect(0, 0, 5, 30)), rect(10, 10, 0, 10));
    let areas = style.calculate_children_areas(rect(0, 0, 5, 5), 2);
    assert_eq!(areas, vec![rect(10, 10, 0, 0), rect(10, 10, 0, 0)]);
    let bordered = Style::new().border(Border::shown(BorderKind::Plain));
    assert_eq!(bordered.shrink(rect(4, 4, 1, 1)), rect(5, 5, 0, 0));
}

#[test]
fn gaps_wider_than_the_area_leave_empty_children() {
    let areas = Style::new().row().gap(10).calculate_children_areas(rect(0, 0, 5, 2), 3);
    assert_eq!(areas, vec![rect(0, 0, 0, 2), rect(10, 0, 0, 2), rect(20, 0, 0, 2)]);
}

#[test]
fn positions_saturate_at_the_largest_coordinate() {
    let style = Style::new().padding(RectOffset::new(0, 0, 0, 10));
    assert_eq!(style.shrink(rect(65530, 0, 5, 5)), rect(65535, 0, 0, 5));
    let areas = Style::new().row().gap(40000).calculate_children_areas(rect(0, 0, 10, 1), 3);
    assert_eq!(areas, vec![rect(0, 0, 0, 1), rect(40000, 0, 0, 1), rect(65535, 0, 0, 1)]);
}

#[test]
fn many_children_of_a_small_area_are_empty() {
    let areas = Style::new().row().calculate_children_areas(rect(7, 7, 3, 1), 70000);
    assert_eq!(areas.len(), 70000);
    assert_eq!(areas[0], rect(7, 7, 0, 1));
    assert_eq!(areas[69999], rect(7, 7, 0, 1));
}

#[test]
fn children_stay_inside_the_content_area() {
    let style = Style::new().row().gap(3).padding(RectOffset::new(1, 2, 3, 4));
    let area = rect(5, 6, 120, 40);
    let content = style.shrink(area);
    let areas = style.calculate_children_areas(area, 7);
    assert_eq!(areas.len(), 7);
    for child in areas.iter() {
        assert!(child.x >= content.x);
        assert!(child.x + child.width <= content.x + content.width);
        assert_eq!(child.y, content.y);
        assert_eq!(child.height, content.height);
    }
    assert_eq!(areas[0].x, content.x);
}

#[test]
fn bordered_children_stay_inside_the_content_area() {
    let style = Style::new().column().gap(1).border(Border::shown(BorderKind::Rounded));
    let area = rect(0, 0, 30, 50);
    let content = style.shrink(area);
    let areas = style.calculate_children_areas(area, 5);
    for child in areas.iter() {
        assert!(child.y >= content.y);
        assert!(child.y + child.height <= content.y + content.height);
        assert_eq!(child.x, content.x);
        assert_eq!(child.width, content.width);
    }
}

#[test]
fn row_and_column_layout_are_transposes() {
    let style = Style::new().row().gap(2).padding(RectOffset::new(1, 2, 3, 4)).border(Border::shown(BorderKind::Plain));
    let other = Style::new().column().gap(2).padding(RectOffset::new(4, 3, 2, 1)).border(Border::shown(BorderKind::Plain));
    let area = rect(3, 9, 70, 20);
    let rows = style.calculate_children_areas(area, 4);
    let columns = other.calculate_children_areas(transposed(area), 4);
    assert_eq!(rows.len(), columns.len());
    for i in 0..rows.len() {
        assert_eq!(columns[i], transposed(rows[i]));
    }
}

#[test]
fn swapping_direction_and_size_transposes_a_symmetric_layout() {
    let style = Style::new().row().gap(1).padding_all(2);
    let area = rect(5, 5, 60, 21);
    let rows = style.calculate_children_areas(area, 3);
    let columns = style.column().calculate_children_areas(rect(5, 5, 21, 60), 3);
    assert_eq!(rows, vec![rect(7, 7, 18, 17), rect(26, 7, 18, 17), rect(45, 7, 18, 17)]);
    for i in 0..3 {
        assert_eq!(columns[i], transposed(rows[i]));
    }
}

#[test]
fn a_tiled_area_is_the_parent_without_the_margin() {
    let style = Style::new().margin(RectOffset::new(1, 2, 3, 4));
    assert_eq!(style.calculate_area(rect(10, 20, 50, 30)), rect(14, 21, 44, 26));
    assert_eq!(Style::new().calculate_area(rect(10, 20, 50, 30)), rect(10, 20, 50, 30));
}

#[test]
fn a_tiled_area_takes_its_fixed_or_percent_size() {
    let area = rect(0, 0, 80, 24);
    assert_eq!(Style::new().fixed_size(10, 5).calculate_area(area), rect(0, 0, 10, 5));
    assert_eq!(Style::new().fixed_size(100, 50).calculate_area(area), rect(0, 0, 100, 50));
    assert_eq!(Style::new().percent_size(50, 25).calculate_area(area), rect(0, 0, 40, 6));
    assert_eq!(Style::new().percent_size(33, 100).calculate_area(area), rect(0, 0, 26, 24));
    assert_eq!(Style::new().margin_all(2).percent_size(50, 50).calculate_area(area), rect(2, 2, 38, 10));
}

#[test]
fn a_percentage_beyond_a_coordinate_wraps_around() {
    let style = Style::new().width(Dimension::Percent(200));
    assert_eq!(style.calculate_area(rect(0, 0, 40000, 1)), rect(0, 0, 14464, 1));
}

#[test]
fn a_margin_larger_than_the_parent_leaves_nothing() {
    let style = Style::new().margin_all(40);
    assert_eq!(style.calculate_area(rect(0, 0, 50, 100)), rect(40, 40, 0, 20));
}

#[test]
fn a_floating_area_sits_at_its_own_position() {
    let area = rect(10, 10, 80, 24);
    assert_eq!(Style::new().floating(3, 4).calculate_area(area), rect(3, 4, 40, 12));
    assert_eq!(Style::new().floating(3, 4).fixed_size(7, 9).calculate_area(area), rect(3, 4, 7, 9));
    assert_eq!(Style::new().floating(3, 4).width(Dimension::Fixed(7)).calculate_area(area), rect(3, 4, 7, 12));
    assert_eq!(Style::new().floating(3, 4).percent_size(10, 10).calculate_area(area), rect(3, 4, 40, 12));
    assert_eq!(Style::new().floating(65535, 0).fixed_size(7, 9).calculate_area(area), rect(65535, 0, 0, 9));
}

#[test]
fn areas_are_deterministic() {
    let style = Style::new().row().gap(2).padding_all(1);
    let area = rect(1, 2, 77, 13);
    assert_eq!(style.calculate_children_areas(area, 5), style.calculate_children_areas(area, 5));
}
