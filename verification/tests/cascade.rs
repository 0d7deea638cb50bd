use rsvg_internals::drawing_ctx::DrawingCtx;
use rsvg_internals::matrix::Matrix;
use rsvg_internals::node::{NodeType, Tree};
use rsvg_internals::property::{CompOp, Display, FontSize, Visibility};
use rsvg_internals::ratio::Ratio;
use rsvg_internals::state;
use rsvg_internals::state::State;

fn plain_ctx() -> DrawingCtx {
    DrawingCtx::new(
        Ratio::from_int(96),
        Ratio::from_int(96),
        Ratio::from_int(100),
        Ratio::from_int(100),
    )
}

fn font_size_state(num: i64, den: i64) -> State {
    let mut st = state::new();
    st.font_size = Some(FontSize(rsvg_internals::length::Length {
        length: Ratio::new(num, den),
        unit: rsvg_internals::length::LengthUnit::Default,
        dir: rsvg_internals::length::LengthDir::Both,
    }));
    st
}

#[test]
fn push_then_pop_restores_prior_frame() {
    let mut ctx = plain_ctx();
    ctx.state_push();
    let mut src = font_size_state(20, 1);
    src.visibility = Some(Visibility::Hidden);
    ctx.state_reinherit_top(&src, 0).unwrap();
    let before = ctx.get_current_state().clone();
    let depth = ctx.state_stack.len();

    ctx.state_push();
    ctx.state_pop();

    assert_eq!(ctx.state_stack.len(), depth);
    assert!(ctx.get_current_state().same_as(&before));

    // The same holds one level deeper.
    ctx.state_push();
    let before2 = ctx.get_current_state().clone();
    ctx.state_push();
    ctx.state_pop();
    assert!(ctx.get_current_state().same_as(&before2));
}

#[test]
fn force_mode_replaces_styles_and_keeps_transform() {
    let mut ctx = plain_ctx();
    ctx.state_push();

    // Give the top frame a distinctive transform.
    let mut top_src = state::new();
    top_src.affine = Matrix {
        xx: Ratio::new(2, 1),
        yx: Ratio::new(0, 1),
        xy: Ratio::new(0, 1),
        yy: Ratio::new(2, 1),
        x0: Ratio::new(7, 1),
        y0: Ratio::new(-3, 1),
    };
    ctx.state_reinherit_top(&top_src, 0).unwrap();
    let transform_before = ctx.get_current_state().affine;

    // An arbitrary source state.
    let mut src = font_size_state(42, 1);
    src.comp_op = Some(CompOp::Screen);
    src.display = Some(Display::Block);
    src.affine = Matrix::identity();

    ctx.state_reinherit_top(&src, 2).unwrap();

    let top = ctx.get_current_state();
    assert_eq!(top.affine, transform_before);
    let mut expected = src.clone();
    expected.affine = transform_before;
    assert!(top.same_as(&expected));
}

#[test]
fn normal_inherit_fills_unset_slots_from_parent() {
    let mut ctx = plain_ctx();
    ctx.state_push();
    let mut parent = font_size_state(20, 1);
    parent.comp_op = Some(CompOp::Screen);
    ctx.state_reinherit_top(&parent, 0).unwrap();

    ctx.state_push();
    let child = state::new();
    ctx.state_reinherit_top(&child, 0).unwrap();

    let top = ctx.get_current_state();
    // The auto-inheriting slot came down; the compositing operator never
    // inherits automatically.
    assert!(top.font_size.is_some());
    assert_eq!(top.font_size.unwrap().0.length.num, 20);
    assert!(top.comp_op.is_none());
}

#[test]
fn normal_inherit_keeps_explicit_child_value() {
    let mut ctx = plain_ctx();
    ctx.state_push();
    ctx.state_reinherit_top(&font_size_state(20, 1), 0).unwrap();

    ctx.state_push();
    ctx.state_reinherit_top(&font_size_state(8, 1), 0).unwrap();

    let top = ctx.get_current_state();
    assert_eq!(top.font_size.unwrap().0.length.num, 8);
}

#[test]
fn dominate_mode_lets_parent_value_win() {
    let mut ctx = plain_ctx();
    ctx.state_push();
    ctx.state_reinherit_top(&font_size_state(20, 1), 0).unwrap();

    ctx.state_push();
    // Mode 1: the parent frame's explicit value beats the child's own.
    ctx.state_reinherit_top(&font_size_state(8, 1), 1).unwrap();

    let top = ctx.get_current_state();
    assert_eq!(top.font_size.unwrap().0.length.num, 20);
}

#[test]
fn cascade_composes_transforms_local_then_parent() {
    let mut ctx = plain_ctx();
    ctx.state_push();
    let mut parent = state::new();
    parent.affine = Matrix {
        xx: Ratio::new(2, 1),
        yx: Ratio::new(0, 1),
        xy: Ratio::new(0, 1),
        yy: Ratio::new(3, 1),
        x0: Ratio::new(10, 1),
        y0: Ratio::new(20, 1),
    };
    ctx.state_reinherit_top(&parent, 0).unwrap();
    let parent_affine = ctx.get_current_state().affine;

    ctx.state_push();
    let mut child = state::new();
    child.affine = Matrix {
        xx: Ratio::new(1, 1),
        yx: Ratio::new(0, 1),
        xy: Ratio::new(0, 1),
        yy: Ratio::new(1, 1),
        x0: Ratio::new(5, 1),
        y0: Ratio::new(7, 1),
    };
    ctx.state_reinherit_top(&child, 0).unwrap();

    let expected = Matrix::multiply(&child.affine, &parent_affine).unwrap();
    assert_eq!(ctx.get_current_state().affine, expected);
    // The local translation is scaled by the parent: x0 = 5*2 + 10.
    let got = ctx.get_current_state().affine;
    assert!(got.x0.same_value(Ratio::from_int(20)));
    assert!(got.y0.same_value(Ratio::from_int(41)));
}

#[test]
fn reconstruct_rebuilds_from_ancestors_nearest_wins() {
    let mut tree = Tree::new();
    let root = tree.new_node(NodeType::Svg, None, font_size_state(20, 1));
    let mut mid_state = font_size_state(8, 1);
    mid_state.visibility = Some(Visibility::Hidden);
    let mid = tree.new_node(NodeType::Group, Some(root), mid_state);
    tree.add_child(root, mid);
    let leaf = tree.new_node(NodeType::Rect, Some(mid), state::new());
    tree.add_child(mid, leaf);

    let mut st = state::new();
    state::reconstruct(&tree, leaf, &mut st);

    // The nearer ancestor's explicit font size wins over the root's.
    assert_eq!(st.font_size.unwrap().0.length.num, 8);
    assert_eq!(st.visibility, Some(Visibility::Hidden));

    // A root contributes nothing to its own reconstruction.
    let mut st_root = state::new();
    state::reconstruct(&tree, root, &mut st_root);
    assert!(st_root.font_size.is_none());
}

#[test]
fn visibility_and_overflow_predicates() {
    let mut st = state::new();
    assert!(state::is_visible(&st));
    assert!(!state::is_overflow(&st));

    st.display = Some(Display::NoDisplay);
    assert!(!state::is_visible(&st));

    st.display = Some(Display::Inline);
    st.visibility = Some(Visibility::Hidden);
    assert!(!state::is_visible(&st));
    st.visibility = Some(Visibility::Visible);
    assert!(state::is_visible(&st));

    st.overflow = Some(rsvg_internals::property::Overflow::Auto);
    assert!(state::is_overflow(&st));
    st.overflow = Some(rsvg_internals::property::Overflow::Hidden);
    assert!(!state::is_overflow(&st));
}

#[test]
fn drawing_restores_stack_and_layers() {
    let mut tree = Tree::new();
    let root = tree.new_node(NodeType::Group, None, font_size_state(20, 1));
    let a = tree.new_node(NodeType::Group, Some(root), state::new());
    tree.add_child(root, a);
    let b = tree.new_node(NodeType::Rect, Some(a), state::new());
    tree.add_child(a, b);

    let mut ctx = plain_ctx();
    ctx.state_push();

    let depth = ctx.state_stack.len();
    let layers = ctx.layer_depth;
    rsvg_internals::drawing_ctx::draw_node_from_stack(&tree, root, &mut ctx, 0, false).unwrap();
    assert_eq!(ctx.state_stack.len(), depth);
    assert_eq!(ctx.layer_depth, layers);
}

#[test]
fn drawing_skips_node_in_error() {
    let mut tree = Tree::new();
    let root = tree.new_node(NodeType::Group, None, state::new());
    let mut bag = rsvg_internals::property_bag::PropertyBag::new();
    bag.push(
        rsvg_internals::attributes::Attribute::Visibility,
        String::from("not-a-keyword"),
    );
    tree.set_atts(root, &bag);
    assert!(tree.get_result(root).is_err());

    let mut ctx = plain_ctx();
    ctx.state_push();
    let before = ctx.get_current_state().clone();
    rsvg_internals::drawing_ctx::draw_node_from_stack(&tree, root, &mut ctx, 0, false).unwrap();
    // Nothing was cascaded onto the surrounding frame.
    assert!(ctx.get_current_state().same_as(&before));
}

#[test]
fn transform_overflow_is_reported_and_changes_nothing() {
    let mut ctx = plain_ctx();
    ctx.state_push();
    let mut parent = state::new();
    parent.affine = Matrix {
        xx: Ratio::new(i64::MAX, 1),
        yx: Ratio::new(0, 1),
        xy: Ratio::new(0, 1),
        yy: Ratio::new(1, 1),
        x0: Ratio::new(0, 1),
        y0: Ratio::new(0, 1),
    };
    ctx.state_reinherit_top(&parent, 0).unwrap();

    ctx.state_push();
    let before = ctx.get_current_state().clone();
    let mut child = state::new();
    child.affine = Matrix {
        xx: Ratio::new(3, 1),
        yx: Ratio::new(0, 1),
        xy: Ratio::new(0, 1),
        yy: Ratio::new(1, 1),
        x0: Ratio::new(0, 1),
        y0: Ratio::new(0, 1),
    };
    let r = ctx.state_reinherit_top(&child, 0);
    assert_eq!(r, Err(rsvg_internals::error::RenderError::Overflow));
    assert!(ctx.get_current_state().same_as(&before));
}
