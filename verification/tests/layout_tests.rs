use turubai::color::Color;
use turubai::composition::HStack;
use turubai::composition::Spacer;
use turubai::composition::VStack;
use turubai::elements::Element;
use turubai::elements::Modifiers;
use turubai::elements::Text;
use turubai::elements::ViewContainer;
use turubai::measure::request_dimensions;
use turubai::measure::request_minimum_dimensions;
use turubai::measure::update_node_sizes;
use turubai::pal::MonospaceMeasurer;
use turubai::postprocessing::BackgroundColor;
use turubai::postprocessing::Padding;
use turubai::shadow::NodeKind;
use turubai::style::AlignItems;
use turubai::style::FlexDirection;
use turubai::tree::ShadowTree;
use turubai::units::Unit;

// The default font is 12 points, so the monospace measurer advances 6 per
// character and reports a line height of 14.
fn text(s: &str) -> Element {
    Element::Text(Text::new(s, Modifiers::default()))
}

#[test]
fn test_background_layout() {
    let child = Element::View(ViewContainer::new(Vec::new()));
    let bg = BackgroundColor::new(&Color::SystemRed, Box::new(child));

    let mut tree = ShadowTree::new();
    let mut measurer = MonospaceMeasurer {};
    let root_node = tree.create_node_from_element(&Element::BackgroundColor(bg), &mut measurer);

    if let NodeKind::BackgroundColor { color } = &root_node.kind {
        assert!(matches!(color, Color::SystemRed));
    } else {
        panic!("Root node is not BackgroundColor");
    }

    assert_eq!(root_node.children.len(), 1, "BackgroundColor should have 1 child");

    let style = tree.style(root_node.node_id).unwrap();
    assert_eq!(
        style.flex_direction,
        FlexDirection::Column,
        "BackgroundColor should use Column flex direction"
    );
    assert_eq!(
        style.align_items,
        Some(AlignItems::Stretch),
        "BackgroundColor should stretch children horizontally"
    );
}

#[test]
fn spacer_duality() {
    let mut tree = ShadowTree::new();
    let mut measurer = MonospaceMeasurer {};
    let node = tree.create_node_from_element(&Element::Spacer(Spacer::new()), &mut measurer);

    let wants = request_dimensions(&node, 500, 400);
    assert_eq!(wants, (Unit::Percent(100), Unit::Percent(100)));
    let min = request_minimum_dimensions(&node, 500);
    assert_eq!(min, (0, 0));
}

#[test]
fn stack_additivity() {
    let stack = HStack::new(Modifiers::default(), vec![text("AB"), text("C")]);
    let mut tree = ShadowTree::new();
    let mut measurer = MonospaceMeasurer {};
    let node = tree.create_node_from_element(&Element::HStack(stack), &mut measurer);

    // Widths 12 and 6 with the default spacing of zero.
    assert_eq!(
        request_dimensions(&node, 1000, 1000),
        (Unit::Absolute(18), Unit::Absolute(14))
    );

    let empty = HStack::new(Modifiers::default(), Vec::new());
    let empty_node = tree.create_node_from_element(&Element::HStack(empty), &mut measurer);
    assert_eq!(
        request_dimensions(&empty_node, 1000, 1000),
        (Unit::Absolute(0), Unit::Absolute(0))
    );
}

#[test]
fn stack_additivity_with_spacing() {
    let mut mods = Modifiers::default();
    mods.inner.h_stack.spacing = Unit::px(5);
    let stack = HStack::new(mods, vec![text("AB"), text("C")]);
    let mut tree = ShadowTree::new();
    let mut measurer = MonospaceMeasurer {};
    let node = tree.create_node_from_element(&Element::HStack(stack), &mut measurer);

    assert_eq!(
        request_dimensions(&node, 1000, 1000),
        (Unit::Absolute(23), Unit::Absolute(14))
    );
}

#[test]
fn padding_round_trip() {
    let padded = Padding::new(
        Unit::px(1),
        Unit::px(2),
        Unit::px(3),
        Unit::px(4),
        Box::new(text("A")),
    );
    let mut tree = ShadowTree::new();
    let mut measurer = MonospaceMeasurer {};
    let node = tree.create_node_from_element(&Element::Padding(padded), &mut measurer);

    // Child is 6 by 14; padding adds left+right = 7 and top+bottom = 3.
    assert_eq!(
        request_dimensions(&node, 100, 100),
        (Unit::Absolute(13), Unit::Absolute(17))
    );
    assert_eq!(request_minimum_dimensions(&node, 100), (13, 17));
}

#[test]
fn minimum_collapses_spacers() {
    let stack = VStack::new(
        Modifiers::default(),
        vec![text("A"), Element::Spacer(Spacer::new()), text("B")],
    );
    let mut tree = ShadowTree::new();
    let mut measurer = MonospaceMeasurer {};
    let node = tree.create_node_from_element(&Element::VStack(stack), &mut measurer);

    // Spacers contribute nothing to the minimum; text is 6 by 14 each.
    assert_eq!(request_minimum_dimensions(&node, 500), (6, 28));
    // But the stack's request wants the full height because of the spacer.
    let wants = request_dimensions(&node, 500, 500);
    assert_eq!(wants.1, Unit::Percent(100));
}

#[test]
fn fill_propagation() {
    let stack = VStack::new(
        Modifiers::default(),
        vec![Element::Spacer(Spacer::new()), text("A")],
    );
    let mut tree = ShadowTree::new();
    let mut measurer = MonospaceMeasurer {};
    let node = tree.create_node_from_element(&Element::VStack(stack), &mut measurer);

    let needs = update_node_sizes(&node, &mut tree, 800, 600);
    // The spacer requests both axes, so the stack reports both.
    assert_eq!(needs, (true, true));
    // The text leaf was pinned to its intrinsic size.
    let text_style = tree.style(1).unwrap();
    assert_eq!(text_style.size_width, turubai::style::Dimension::Length(6));
    assert_eq!(text_style.size_height, turubai::style::Dimension::Length(14));
    // The stack itself was pinned to the full size on both axes.
    let stack_style = tree.style(node.node_id).unwrap();
    assert_eq!(stack_style.size_height, turubai::style::Dimension::Percent(100));
}

#[test]
fn end_to_end_spacer_scenario() {
    // A root VStack of [Text("A"), Spacer, Text("B")] solved at 200 x 100:
    // the first text sits at the top, the second ends flush with the
    // bottom, and the spacer absorbs exactly the gap between them.
    let stack = VStack::new(
        Modifiers::default(),
        vec![text("A"), Element::Spacer(Spacer::new()), text("B")],
    );
    let mut tree = ShadowTree::new();
    let mut measurer = MonospaceMeasurer {};
    let node = tree.create_node_from_element(&Element::VStack(stack), &mut measurer);

    update_node_sizes(&node, &mut tree, 200, 100);
    tree.compute_layout(&node, 200, 100);

    // Handles: text A = 0, spacer = 1, text B = 2, stack = 3.
    let root = tree.get_layout(3).unwrap();
    assert_eq!((root.x, root.y), (0, 0));
    assert_eq!(root.height, 100);

    let a = tree.get_layout(0).unwrap();
    assert_eq!(a.y, 0);
    assert_eq!(a.height, 14);

    let spacer = tree.get_layout(1).unwrap();
    assert_eq!(spacer.y, 14);
    assert_eq!(spacer.height, 100 - 28);

    let b = tree.get_layout(2).unwrap();
    assert_eq!(b.y, 100 - 14);
    assert_eq!(b.height, 14);
}

#[test]
fn layout_generation_consistency() {
    let stack = VStack::new(
        Modifiers::default(),
        vec![text("A"), Element::Spacer(Spacer::new()), text("B")],
    );
    let mut tree = ShadowTree::new();
    let mut measurer = MonospaceMeasurer {};
    let node = tree.create_node_from_element(&Element::VStack(stack), &mut measurer);

    update_node_sizes(&node, &mut tree, 200, 100);
    tree.compute_layout(&node, 200, 100);
    tree.compute_layout(&node, 300, 50);

    // Every node reflects only the second solve.
    let root = tree.get_layout(3).unwrap();
    assert_eq!(root.height, 50);
    let a = tree.get_layout(0).unwrap();
    assert_eq!(a.y, 0);
    let spacer = tree.get_layout(1).unwrap();
    assert_eq!(spacer.y, 14);
    assert_eq!(spacer.height, 50 - 28);
    let b = tree.get_layout(2).unwrap();
    assert_eq!(b.y, 50 - 14);
}

#[test]
fn window_passes_through_to_its_child() {
    let mut mods = Modifiers::default();
    mods.inner.window_template.title = String::from("Demo");
    let window = turubai::runtime::WindowTemplate::new_0(mods, Some(Box::new(text("Hi"))));
    assert_eq!(window.title(), "Demo");

    let mut tree = ShadowTree::new();
    let mut measurer = MonospaceMeasurer {};
    let node = tree.create_node_from_element(&Element::Window(window), &mut measurer);
    // "Hi" is two characters: 12 wide, 14 tall.
    assert_eq!(
        request_dimensions(&node, 640, 480),
        (Unit::Absolute(12), Unit::Absolute(14))
    );
}

#[test]
fn modifiers_fork_is_independent() {
    let base = Modifiers::default();
    let mut forked = base.fork();
    forked.inner.h_stack.spacing = Unit::px(9);
    assert_eq!(base.inner.h_stack.spacing, Unit::px(0));
    assert_eq!(forked.inner.h_stack.spacing, Unit::px(9));
}

#[test]
fn element_names() {
    let spacer = Element::Spacer(Spacer::new());
    assert_eq!(spacer.name(), "spacer");
    assert_eq!(spacer.display_name(), "Spacer");
    assert_eq!(spacer.child_count(), 0);
    let stack = Element::HStack(HStack::new(Modifiers::default(), vec![text("x")]));
    assert_eq!(stack.name(), "h_stack");
    assert_eq!(stack.child_count(), 1);
}
