use rsvg_internals::drawing_ctx::DrawingCtx;
use rsvg_internals::node::{NodeType, Tree};
use rsvg_internals::ratio::Ratio;
use rsvg_internals::state;

fn ctx() -> DrawingCtx {
    DrawingCtx::new(
        Ratio::from_int(96),
        Ratio::from_int(96),
        Ratio::from_int(100),
        Ratio::from_int(100),
    )
}

fn tree_with_ids() -> (Tree, usize, usize) {
    let mut tree = Tree::new();
    let pattern = tree.new_node(NodeType::Pattern, None, state::new());
    let gradient = tree.new_node(NodeType::LinearGradient, None, state::new());
    tree.register_id("pattern-a", pattern);
    tree.register_id("gradient-b", gradient);
    (tree, pattern, gradient)
}

#[test]
fn acquire_resolves_registered_ids() {
    let (tree, pattern, _) = tree_with_ids();
    let mut ctx = ctx();

    let handle = ctx.acquire_node(&tree, "pattern-a").unwrap();
    assert_eq!(handle.get(), pattern);
    assert!(ctx.acquire_node(&tree, "no-such-id").is_none());
}

#[test]
fn acquiring_an_active_id_fails() {
    let (tree, _, _) = tree_with_ids();
    let mut ctx = ctx();

    let first = ctx.acquire_node(&tree, "pattern-a").unwrap();
    // The id is active: a second acquisition is the degenerate cycle.
    assert!(ctx.acquire_node(&tree, "pattern-a").is_none());

    ctx.release_node(first);
    assert!(ctx.acquire_node(&tree, "pattern-a").is_some());
}

#[test]
fn longer_reference_cycles_are_caught() {
    let (tree, _, _) = tree_with_ids();
    let mut ctx = ctx();

    // Resolving A pulls in B, which (erroneously) references A again.
    let a = ctx.acquire_node(&tree, "pattern-a").unwrap();
    let b = ctx.acquire_node(&tree, "gradient-b").unwrap();
    assert!(ctx.acquire_node(&tree, "pattern-a").is_none());

    ctx.release_node(b);
    assert!(ctx.acquire_node(&tree, "gradient-b").is_some());
    ctx.release_node(a);
}

#[test]
fn typed_acquisition_checks_the_kind() {
    let (tree, pattern, _) = tree_with_ids();
    let mut ctx = ctx();

    assert!(ctx.acquire_node_of_type(&tree, "pattern-a", NodeType::LinearGradient).is_none());
    // The failed attempt released the id again.
    let handle = ctx.acquire_node_of_type(&tree, "pattern-a", NodeType::Pattern).unwrap();
    assert_eq!(handle.get(), pattern);
}

#[test]
fn first_registration_of_an_id_wins() {
    let mut tree = Tree::new();
    let first = tree.new_node(NodeType::Mask, None, state::new());
    let second = tree.new_node(NodeType::Mask, None, state::new());
    tree.register_id("m", first);
    tree.register_id("m", second);

    let mut ctx = ctx();
    assert_eq!(ctx.acquire_node(&tree, "m").unwrap().get(), first);
}
