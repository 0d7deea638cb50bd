use rsvg_internals::attributes::Attribute;
use rsvg_internals::node::{NodeType, Tree};
use rsvg_internals::property_bag::PropertyBag;
use rsvg_internals::state;

fn fresh_node(tree: &mut Tree, parent: Option<usize>) -> usize {
    tree.new_node(NodeType::Path, parent, state::new())
}

#[test]
fn node_is_its_own_ancestor() {
    let mut tree = Tree::new();
    let node = fresh_node(&mut tree, None);

    assert!(tree.is_ancestor(node, node));
}

#[test]
fn node_is_ancestor_of_child() {
    let mut tree = Tree::new();
    let node = fresh_node(&mut tree, None);
    let child = fresh_node(&mut tree, Some(node));

    tree.add_child(node, child);

    assert!(tree.is_ancestor(node, child));
    assert!(!tree.is_ancestor(child, node));
}

#[test]
fn node_children_iterator() {
    let mut tree = Tree::new();
    let node = fresh_node(&mut tree, None);
    let child = fresh_node(&mut tree, Some(node));
    let second_child = fresh_node(&mut tree, Some(node));

    tree.add_child(node, child);
    tree.add_child(node, second_child);

    let mut children = tree.children(node);

    let c = children.next();
    assert!(c.is_some());
    assert_eq!(c.unwrap(), child);

    let c = children.next_back();
    assert!(c.is_some());
    assert_eq!(c.unwrap(), second_child);

    assert!(children.next().is_none());
    assert!(children.next_back().is_none());
}

#[test]
fn children_alternating_consumption_yields_each_once() {
    let mut tree = Tree::new();
    let node = fresh_node(&mut tree, None);
    let mut ids = Vec::new();
    for _ in 0..5 {
        let c = fresh_node(&mut tree, Some(node));
        tree.add_child(node, c);
        ids.push(c);
    }

    let mut children = tree.children(node);
    assert_eq!(children.remaining(), 5);

    let mut seen = Vec::new();
    // Alternate front and back until the cursors meet.
    seen.push(children.next().unwrap());
    seen.push(children.next_back().unwrap());
    seen.push(children.next().unwrap());
    seen.push(children.next_back().unwrap());
    seen.push(children.next().unwrap());
    assert!(children.next().is_none());
    assert!(children.next_back().is_none());
    assert_eq!(children.remaining(), 0);

    seen.sort();
    assert_eq!(seen, ids);
}

#[test]
fn tree_getters_report_creation_data() {
    let mut tree = Tree::new();
    let root = tree.new_node(NodeType::Svg, None, state::new());
    let leaf = tree.new_node(NodeType::Rect, Some(root), state::new());
    tree.add_child(root, leaf);

    assert_eq!(tree.len(), 2);
    assert_eq!(tree.get_type(root), NodeType::Svg);
    assert_eq!(tree.get_type(leaf), NodeType::Rect);
    assert_eq!(tree.get_parent(root), None);
    assert_eq!(tree.get_parent(leaf), Some(root));
    assert!(tree.has_children(root));
    assert!(!tree.has_children(leaf));
    assert!(tree.get_result(root).is_ok());
}

#[test]
fn set_atts_applies_recognized_attributes() {
    let mut tree = Tree::new();
    let node = fresh_node(&mut tree, None);

    let mut bag = PropertyBag::new();
    bag.push(Attribute::Visibility, String::from("hidden"));
    bag.push(Attribute::FontSize, String::from("20"));
    bag.push(Attribute::D, String::from("M 0 0"));

    tree.set_atts(node, &bag);

    assert!(tree.get_result(node).is_ok());
    let st = tree.get_state(node);
    assert!(st.visibility.is_some());
    assert!(st.font_size.is_some());
    let fs = st.font_size.unwrap();
    assert_eq!(fs.0.length.num, 20);
    assert_eq!(fs.0.length.den, 1);
}

#[test]
fn set_atts_stops_at_first_failing_attribute() {
    let mut tree = Tree::new();
    let node = fresh_node(&mut tree, None);

    let mut bag = PropertyBag::new();
    bag.push(Attribute::Display, String::from("block"));
    bag.push(Attribute::ClipRule, String::from("bogus"));
    bag.push(Attribute::Visibility, String::from("hidden"));

    tree.set_atts(node, &bag);

    let result = tree.get_result(node);
    assert!(result.is_err());
    let err = result.unwrap_err();
    assert_eq!(err.attribute, Attribute::ClipRule);

    let st = tree.get_state(node);
    // The attribute before the failure keeps its effect; the one after it
    // was never processed.
    assert!(st.display.is_some());
    assert!(st.clip_rule.is_none());
    assert!(st.visibility.is_none());
}

#[test]
fn set_error_marks_node_in_error() {
    let mut tree = Tree::new();
    let node = fresh_node(&mut tree, None);
    assert!(tree.get_result(node).is_ok());

    let mut bag = PropertyBag::new();
    bag.push(Attribute::FillRule, String::from("not-a-rule"));
    tree.set_atts(node, &bag);
    assert!(tree.get_result(node).is_err());
}
