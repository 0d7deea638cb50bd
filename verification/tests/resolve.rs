use rsvg_internals::attributes::Attribute;
use rsvg_internals::drawing_ctx::DrawingCtx;
use rsvg_internals::length::{Length, LengthDir, LengthUnit};
use rsvg_internals::node::{NodeType, Tree};
use rsvg_internals::property::{BaselineShift, FontSize};
use rsvg_internals::property_bag::PropertyBag;
use rsvg_internals::ratio::Ratio;
use rsvg_internals::state;
use rsvg_internals::state::State;

fn ctx() -> DrawingCtx {
    DrawingCtx::new(
        Ratio::from_int(96),
        Ratio::from_int(96),
        Ratio::from_int(100),
        Ratio::from_int(100),
    )
}

fn sized(num: i64, den: i64, unit: LengthUnit) -> State {
    let mut st = state::new();
    st.font_size = Some(FontSize(Length { length: Ratio::new(num, den), unit, dir: LengthDir::Both }));
    st
}

#[test]
fn font_size_halves_down_a_chain_of_percentages() {
    for k in 1..=6u32 {
        let mut ctx = ctx();
        ctx.state_push();
        ctx.state_reinherit_top(&sized(10, 1, LengthUnit::Default), 0).unwrap();
        for _ in 0..k {
            ctx.state_push();
            // Overwrite the inherited font size with this frame's own 50%.
            let frame = sized(1, 2, LengthUnit::Percent);
            ctx.state_reinherit_top(&frame, 0).unwrap();
        }
        let size = ctx.get_normalized_font_size().unwrap();
        let expected = Ratio::new(10, 2i64.pow(k));
        assert!(size.same_value(expected));
    }
}

#[test]
fn font_size_defaults_to_twelve_units() {
    let mut ctx = ctx();
    ctx.state_push();
    assert!(ctx.get_normalized_font_size().unwrap().same_value(Ratio::from_int(12)));
}

#[test]
fn relative_keywords_scale_by_six_fifths() {
    let mut ctx = ctx();
    ctx.state_push();
    ctx.state_reinherit_top(&sized(10, 1, LengthUnit::Default), 0).unwrap();

    ctx.state_push();
    ctx.state_reinherit_top(&sized(0, 1, LengthUnit::RelativeLarger), 0).unwrap();
    assert!(ctx.get_normalized_font_size().unwrap().same_value(Ratio::from_int(12)));

    ctx.state_pop();
    ctx.state_push();
    ctx.state_reinherit_top(&sized(0, 1, LengthUnit::RelativeSmaller), 0).unwrap();
    assert!(ctx.get_normalized_font_size().unwrap().same_value(Ratio::new(25, 3)));
}

#[test]
fn absolute_inches_resolve_against_dpi() {
    let mut ctx = ctx();
    ctx.state_push();
    ctx.state_reinherit_top(&sized(1, 1, LengthUnit::Inch), 0).unwrap();
    assert!(ctx.get_normalized_font_size().unwrap().same_value(Ratio::from_int(96)));
}

#[test]
fn baseline_shift_accumulates_over_ancestors() {
    let mut ctx = ctx();
    ctx.state_push();
    ctx.state_reinherit_top(&sized(10, 1, LengthUnit::Default), 0).unwrap();

    // A `sub` shift: one fifth of the parent's size down.
    ctx.state_push();
    let mut sub = state::new();
    sub.baseline_shift = Some(BaselineShift(Ratio::new(-1, 5)));
    ctx.state_reinherit_top(&sub, 0).unwrap();
    let shift = ctx.get_accumulated_baseline_shift().unwrap();
    assert!(shift.same_value(Ratio::from_int(-2)));

    // A further `super` shift two fifths up, relative to the same size.
    ctx.state_push();
    let mut sup = state::new();
    sup.baseline_shift = Some(BaselineShift(Ratio::new(2, 5)));
    ctx.state_reinherit_top(&sup, 0).unwrap();
    let shift = ctx.get_accumulated_baseline_shift().unwrap();
    assert!(shift.same_value(Ratio::from_int(2)));
}

#[test]
fn frames_without_shift_contribute_nothing() {
    let mut ctx = ctx();
    ctx.state_push();
    ctx.state_reinherit_top(&sized(10, 1, LengthUnit::Default), 0).unwrap();
    ctx.state_push();
    ctx.state_reinherit_top(&state::new(), 0).unwrap();
    let shift = ctx.get_accumulated_baseline_shift().unwrap();
    assert!(shift.same_value(Ratio::from_int(0)));
}

#[test]
fn view_box_stack_nests() {
    let mut ctx = ctx();
    let (w, h) = ctx.get_view_box_size();
    assert!(w.same_value(Ratio::from_int(100)));
    assert!(h.same_value(Ratio::from_int(100)));

    ctx.push_view_box(Ratio::from_int(30), Ratio::from_int(40));
    let (w, h) = ctx.get_view_box_size();
    assert!(w.same_value(Ratio::from_int(30)));
    assert!(h.same_value(Ratio::from_int(40)));

    ctx.pop_view_box();
    let (w, _) = ctx.get_view_box_size();
    assert!(w.same_value(Ratio::from_int(100)));

    let (dx, dy) = ctx.get_dpi();
    assert!(dx.same_value(Ratio::from_int(96)));
    assert!(dy.same_value(Ratio::from_int(96)));
}

#[test]
fn three_level_tree_resolves_percentage_against_root() {
    // root (font-size: 20) -> group -> shape (font-size: 150%).
    let mut tree = Tree::new();
    let root = tree.new_node(NodeType::Svg, None, state::new());
    let group = tree.new_node(NodeType::Group, Some(root), state::new());
    tree.add_child(root, group);
    let shape = tree.new_node(NodeType::Rect, Some(group), state::new());
    tree.add_child(group, shape);

    let mut bag = PropertyBag::new();
    bag.push(Attribute::FontSize, String::from("20"));
    tree.set_atts(root, &bag);
    assert!(tree.get_result(root).is_ok());

    let mut bag = PropertyBag::new();
    bag.push(Attribute::FontSize, String::from("150%"));
    tree.set_atts(shape, &bag);
    assert!(tree.get_result(shape).is_ok());

    // Walk the tree the way a draw pass does: one frame per level, each
    // cascading the node's specified state in the normal mode.
    let mut ctx = ctx();
    ctx.state_push();
    ctx.state_reinherit_top(tree.get_state(root), 0).unwrap();
    ctx.state_push();
    ctx.state_reinherit_top(tree.get_state(group), 0).unwrap();
    ctx.state_push();
    ctx.state_reinherit_top(tree.get_state(shape), 0).unwrap();

    let size = ctx.get_normalized_font_size().unwrap();
    assert!(size.same_value(Ratio::from_int(30)));
}
