use std::cell::RefCell;
use std::rc::Rc;

use ccui::event::{EventContext, EventType, ListenerId};
use ccui::internal::{Node, ListenerEntry};
use ccui::rect::Rect;
use ccui::style::{FlexDirection, Style};
use ccui::widget::{Text, Widget};

type Callback = Rc<dyn Fn(EventContext)>;
type Tree = Node<Text, Callback>;

/// A widget of a fixed size that asks for no style.
struct Block {
    width: u16,
    height: u16,
}

impl Widget for Block {
    fn content_size(&self, _area: Rect) -> (u16, u16) {
        (self.width, self.height)
    }
}

/// A widget that says nothing about itself.
struct Filler;

impl Widget for Filler {}

fn rect(x: u16, y: u16, width: u16, height: u16) -> Rect {
    Rect { x, y, width, height }
}

fn root() -> Tree {
    Node::new("root".to_string())
}

fn silent() -> Callback {
    Rc::new(|_ctx: EventContext| {})
}

fn context(event_type: EventType, target: &str) -> EventContext {
    EventContext {
        event_type,
        target_id: target.to_string(),
        mouse_x: Some(1),
        mouse_y: Some(2),
        scroll_delta: None,
        key_code: None,
    }
}

fn ids(node: &Tree) -> Vec<String> {
    node.children.iter().map(|child| child.id.clone()).collect()
}

/// root
///   col (column)
///     a (text "hello")
///     b (text "hi\nthere")
///   side (container)
fn sample() -> Tree {
    let mut tree = root();
    tree.add_container("root", "col".to_string(), Style::new().column());
    tree.add_widget("col", "a".to_string(), Text::new("hello"), None);
    tree.add_widget("col", "b".to_string(), Text::new("hi\nthere"), None);
    tree.add_container("root", "side".to_string(), Style::new());
    tree
}

#[test]
fn a_new_node_is_an_empty_column() {
    let node = root();
    assert_eq!(node.id, "root");
    assert_eq!(node.style, Style::new().column());
    assert_eq!(node.style.flex_direction, FlexDirection::Column);
    assert_eq!(node.area, rect(0, 0, 0, 0));
    assert_eq!(node.content_area, rect(0, 0, 0, 0));
    assert!(node.widget.is_none());
    assert!(node.children.is_empty());
    assert!(node.listeners.is_empty());
}

#[test]
fn add_container_appends_below_the_parent() {
    let mut tree = root();
    tree.add_container("root", "first".to_string(), Style::new().row());
    tree.add_container("root", "second".to_string(), Style::new());
    tree.add_container("first", "inner".to_string(), Style::new().gap(2));
    assert_eq!(ids(&tree), vec!["first", "second"]);
    assert_eq!(ids(&tree.children[0]), vec!["inner"]);
    assert_eq!(tree.children[0].style, Style::new().row());
    assert_eq!(tree.children[0].children[0].style, Style::new().gap(2));
    assert!(tree.children[0].widget.is_none());
    assert_eq!(tree.children[0].area, rect(0, 0, 0, 0));
    assert!(tree.children[1].children.is_empty());
}

#[test]
fn add_widget_box_appends_a_leaf() {
    let mut tree = root();
    tree.add_widget_box("root", "title".to_string(), Text::new("hello"), Style::new().gap(1));
    assert_eq!(ids(&tree), vec!["title"]);
    let leaf = &tree.children[0];
    assert_eq!(leaf.widget.as_ref().map(|w| w.content()), Some("hello"));
    assert_eq!(leaf.style, Style::new().gap(1));
    assert!(leaf.children.is_empty());
    assert!(leaf.listeners.is_empty());
}

#[test]
fn add_widget_takes_the_style_that_the_widget_asks_for() {
    let mut tree: Node<Block, Callback> = Node::new("root".to_string());
    tree.add_widget("root", "plain".to_string(), Block { width: 1, height: 1 }, None);
    tree.add_widget("root", "styled".to_string(), Block { width: 1, height: 1 }, Some(Style::new().row().gap(4)));
    assert_eq!(tree.children[0].style, Style::default());
    assert_eq!(tree.children[1].style, Style::new().row().gap(4));
    let mut texts = root();
    texts.add_widget("root", "t".to_string(), Text::new("x"), None);
    assert_eq!(texts.children[0].style, Style::new().column());
}

#[test]
fn add_under_a_missing_parent_changes_nothing() {
    let mut tree = sample();
    tree.add_widget("nowhere", "x".to_string(), Text::new("x"), None);
    tree.add_widget_box("nowhere", "x".to_string(), Text::new("x"), Style::new());
    tree.add_container("nowhere", "y".to_string(), Style::new());
    tree.add_container("nowhere", "y".to_string(), Style::new());
    assert_eq!(ids(&tree), vec!["col", "side"]);
    assert_eq!(ids(&tree.children[0]), vec!["a", "b"]);
    assert!(tree.children[1].children.is_empty());
    assert!(tree.find_child("x").is_none());
    assert!(tree.find_child("y").is_none());
}

#[test]
fn lookups_take_the_first_match_depth_first() {
    let mut tree = root();
    tree.add_container("root", "left".to_string(), Style::new());
    tree.add_container("root", "right".to_string(), Style::new());
    tree.add_container("left", "dup".to_string(), Style::new().gap(1));
    tree.add_container("right", "dup".to_string(), Style::new().gap(2));
    tree.add_container("dup", "child".to_string(), Style::new());
    assert_eq!(ids(&tree.children[0].children[0]), vec!["child"]);
    assert!(tree.children[1].children[0].children.is_empty());
    assert_eq!(tree.find_child("dup").map(|n| n.style.gap), Some(1));
}

#[test]
fn find_child_finds_nodes_at_any_depth() {
    let tree = sample();
    assert_eq!(tree.find_child("root").map(|n| n.children.len()), Some(2));
    assert_eq!(tree.find_child("b").and_then(|n| n.widget.as_ref()).map(|w| w.content()), Some("hi\nthere"));
    assert_eq!(tree.find_child("side").map(|n| n.id.as_str()), Some("side"));
    assert!(tree.find_child("missing").is_none());
}

#[test]
fn remove_child_on_the_node_itself_clears_it() {
    let mut tree = sample();
    tree.add_event_listener("root", EventType::Click, silent(), ListenerId(1));
    tree.update_style("root", Style::new().row());
    tree.layout(rect(0, 0, 80, 24));
    tree.remove_child("root");
    assert_eq!(tree.id, "root");
    assert_eq!(tree.style, Style::new().row());
    assert_eq!(tree.area, rect(0, 0, 80, 24));
    assert!(tree.widget.is_none());
    assert!(tree.children.is_empty());
    assert!(tree.listeners.is_empty());
}

#[test]
fn remove_child_clears_the_widget_of_a_leaf_called_by_name() {
    let mut leaf: Tree = Node::new("leaf".to_string());
    leaf.update_widget_box("leaf", Text::new("x"));
    assert!(leaf.widget.is_some());
    leaf.remove_child("leaf");
    assert!(leaf.widget.is_none());
    assert_eq!(leaf.id, "leaf");
}

#[test]
fn remove_child_removes_a_direct_child_with_all_below_it() {
    let mut tree = sample();
    tree.remove_child("col");
    assert_eq!(ids(&tree), vec!["side"]);
    assert!(tree.find_child("a").is_none());
    assert!(tree.find_child("b").is_none());
}

#[test]
fn remove_child_does_not_search_below_the_children() {
    let mut tree = sample();
    tree.remove_child("a");
    assert_eq!(ids(&tree), vec!["col", "side"]);
    assert_eq!(ids(&tree.children[0]), vec!["a", "b"]);
    tree.children[0].remove_child("a");
    assert_eq!(ids(&tree.children[0]), vec!["b"]);
}

#[test]
fn remove_child_removes_only_the_first_child_of_a_name() {
    let mut tree = root();
    tree.add_container("root", "x".to_string(), Style::new().gap(1));
    tree.add_container("root", "y".to_string(), Style::new());
    tree.add_container("root", "x".to_string(), Style::new().gap(2));
    tree.remove_child("x");
    assert_eq!(ids(&tree), vec!["y", "x"]);
    assert_eq!(tree.children[1].style.gap, 2);
}

#[test]
fn remove_child_of_a_missing_name_changes_nothing() {
    let mut tree = sample();
    tree.remove_child("missing");
    assert_eq!(ids(&tree), vec!["col", "side"]);
    assert_eq!(ids(&tree.children[0]), vec!["a", "b"]);
}

#[test]
fn update_widget_box_replaces_the_widget_in_place() {
    let mut tree = sample();
    tree.update_widget_box("b", Text::new("new"));
    assert_eq!(tree.children[0].children[1].widget.as_ref().map(|w| w.content()), Some("new"));
    assert_eq!(tree.children[0].children[0].widget.as_ref().map(|w| w.content()), Some("hello"));
    tree.update_widget_box("missing", Text::new("lost"));
    assert_eq!(ids(&tree), vec!["col", "side"]);
    assert!(tree.widget.is_none());
}

#[test]
fn update_style_replaces_the_style_in_place() {
    let mut tree = sample();
    tree.update_style("col", Style::new().row().gap(3));
    assert_eq!(tree.children[0].style, Style::new().row().gap(3));
    assert_eq!(ids(&tree.children[0]), vec!["a", "b"]);
    tree.update_style("missing", Style::new().gap(9));
    assert_eq!(tree.style, Style::new());
    assert_eq!(tree.children[1].style, Style::new());
}

#[test]
fn layout_of_two_leaves_in_a_column() {
    let mut tree = root();
    tree.add_container("root", "col".to_string(), Style::new().column());
    tree.add_widget("col", "a".to_string(), Text::new("hello"), None);
    tree.add_widget("col", "b".to_string(), Text::new("hi\nthere"), None);
    tree.layout(rect(0, 0, 80, 24));
    assert_eq!(tree.area, rect(0, 0, 80, 24));
    assert_eq!(tree.content_area, rect(0, 0, 80, 24));
    let col = &tree.children[0];
    assert_eq!(col.area, rect(0, 0, 80, 24));
    assert_eq!(col.content_area, rect(0, 0, 80, 24));
    let a = &col.children[0];
    let b = &col.children[1];
    assert_eq!(a.style, Style::new().column());
    assert_eq!(b.style, Style::new().column());
    assert_eq!(a.area, rect(0, 0, 80, 12));
    assert_eq!(b.area, rect(0, 12, 80, 12));
    assert_eq!(a.area.height + b.area.height, col.content_area.height);
    assert!(a.area.y < b.area.y);
    assert_eq!(a.content_area, rect(0, 0, 5, 1));
    assert_eq!(b.content_area, rect(0, 12, 5, 2));
}

#[test]
fn layout_of_an_odd_height_loses_the_last_row() {
    let mut tree = root();
    tree.add_widget("root", "a".to_string(), Text::new("x"), None);
    tree.add_widget("root", "b".to_string(), Text::new("y"), None);
    tree.layout(rect(0, 0, 80, 25));
    assert_eq!(tree.children[0].area, rect(0, 0, 80, 12));
    assert_eq!(tree.children[1].area, rect(0, 12, 80, 12));
}

#[test]
fn layout_follows_the_style_of_each_container() {
    let mut tree = root();
    tree.update_style("root", Style::new().row().gap(2).padding_all(1));
    tree.add_container("root", "left".to_string(), Style::new().column());
    tree.add_container("root", "right".to_string(), Style::new().column().gap(1));
    tree.add_container("right", "top".to_string(), Style::new());
    tree.add_container("right", "bottom".to_string(), Style::new());
    tree.layout(rect(0, 0, 42, 13));
    assert_eq!(tree.children[0].area, rect(1, 1, 19, 11));
    assert_eq!(tree.children[1].area, rect(22, 1, 19, 11));
    assert_eq!(tree.children[1].children[0].area, rect(22, 1, 19, 5));
    assert_eq!(tree.children[1].children[1].area, rect(22, 7, 19, 5));
}

#[test]
fn layout_cuts_the_content_of_a_widget_at_the_largest_coordinate() {
    let mut tree: Node<Block, Callback> = Node::new("root".to_string());
    tree.add_widget("root", "big".to_string(), Block { width: 500, height: 7 }, None);
    tree.layout(rect(65500, 3, 30, 10));
    assert_eq!(tree.children[0].area, rect(65500, 3, 30, 10));
    assert_eq!(tree.children[0].content_area, rect(65500, 3, 35, 7));
}

#[test]
fn a_widget_that_says_nothing_fills_its_area_and_asks_for_no_style() {
    assert_eq!(Filler.node_style_hint(), None);
    assert_eq!(Filler.content_size(rect(3, 4, 50, 6)), (50, 6));
    let mut tree: Node<Filler, Callback> = Node::new("root".to_string());
    tree.add_widget("root", "fill".to_string(), Filler, None);
    tree.layout(rect(2, 3, 40, 10));
    assert_eq!(tree.children[0].style, Style::default());
    assert_eq!(tree.children[0].content_area, rect(2, 3, 40, 10));
}

#[test]
fn layout_twice_gives_the_same_areas() {
    let mut tree = sample();
    tree.layout(rect(0, 0, 80, 24));
    let first = tree.children[0].children[1].area;
    tree.layout(rect(0, 0, 80, 24));
    assert_eq!(tree.children[0].children[1].area, first);
}

#[test]
fn nothing_is_hit_outside_the_root() {
    let mut tree = sample();
    tree.layout(rect(0, 0, 80, 24));
    assert_eq!(tree.find_widget_at(80, 0), None);
    assert_eq!(tree.find_widget_at(0, 24), None);
    assert_eq!(tree.find_widget_at(200, 200), None);
}

#[test]
fn nothing_is_hit_before_layout() {
    let tree = sample();
    assert_eq!(tree.find_widget_at(0, 0), None);
}

#[test]
fn the_deepest_container_under_the_pointer_is_hit() {
    let mut tree = root();
    tree.update_style("root", Style::new().row());
    tree.add_container("root", "left".to_string(), Style::new().column());
    tree.add_container("root", "right".to_string(), Style::new().column());
    tree.add_container("right", "top".to_string(), Style::new());
    tree.add_container("right", "bottom".to_string(), Style::new().padding_all(2));
    tree.add_container("bottom", "core".to_string(), Style::new());
    tree.layout(rect(0, 0, 80, 24));
    assert_eq!(tree.find_widget_at(0, 0), Some("left".to_string()));
    assert_eq!(tree.find_widget_at(39, 23), Some("left".to_string()));
    assert_eq!(tree.find_widget_at(40, 0), Some("top".to_string()));
    assert_eq!(tree.find_widget_at(40, 12), Some("bottom".to_string()));
    assert_eq!(tree.find_widget_at(42, 14), Some("core".to_string()));
    assert_eq!(tree.find_widget_at(79, 23), Some("bottom".to_string()));
}

#[test]
fn a_leaf_is_hit_only_in_its_content() {
    let mut tree = sample();
    tree.layout(rect(0, 0, 80, 24));
    assert_eq!(tree.find_widget_at(0, 0), Some("a".to_string()));
    assert_eq!(tree.find_widget_at(4, 0), Some("a".to_string()));
    assert_eq!(tree.find_widget_at(5, 0), Some("col".to_string()));
    assert_eq!(tree.find_widget_at(0, 1), Some("col".to_string()));
    assert_eq!(tree.find_widget_at(4, 6), Some("b".to_string()));
    assert_eq!(tree.find_widget_at(4, 7), Some("b".to_string()));
    assert_eq!(tree.find_widget_at(4, 8), Some("col".to_string()));
}

#[test]
fn a_leaf_alone_is_not_hit_outside_its_content() {
    let mut leaf: Tree = Node::new("leaf".to_string());
    leaf.update_widget_box("leaf", Text::new("abc"));
    leaf.layout(rect(0, 0, 10, 10));
    assert_eq!(leaf.find_widget_at(2, 0), Some("leaf".to_string()));
    assert_eq!(leaf.find_widget_at(3, 0), None);
    assert_eq!(leaf.find_widget_at(0, 1), None);
}

#[test]
fn the_first_child_under_the_pointer_wins() {
    let mut tree: Node<Block, Callback> = Node::new("root".to_string());
    tree.add_container("root", "under".to_string(), Style::new());
    tree.add_container("root", "over".to_string(), Style::new());
    tree.layout(rect(0, 0, 10, 10));
    tree.children[1].layout(rect(0, 0, 10, 10));
    assert_eq!(tree.find_widget_at(3, 3), Some("under".to_string()));
    assert_eq!(tree.find_widget_at(3, 7), Some("over".to_string()));
}

#[test]
fn render_lists_widgets_parent_first_and_in_child_order() {
    let mut tree = sample();
    tree.add_widget("side", "c".to_string(), Text::new("c"), Some(Style::new().gap(7)));
    tree.update_widget_box("col", Text::new("header"));
    tree.layout(rect(0, 0, 80, 24));
    let draws = tree.render();
    let contents: Vec<&str> = draws.iter().map(|d| d.widget.content()).collect();
    assert_eq!(contents, vec!["header", "hello", "hi\nthere", "c"]);
    assert_eq!(draws[0].area, rect(0, 0, 80, 12));
    assert_eq!(draws[1].area, rect(0, 0, 80, 6));
    assert_eq!(draws[2].area, rect(0, 6, 80, 6));
    assert_eq!(draws[3].area, rect(0, 12, 80, 12));
    assert_eq!(draws[3].style, Style::new().gap(7));
    assert_eq!(draws[1].style, Style::new().column());
}

#[test]
fn render_of_containers_alone_is_empty() {
    let mut tree = root();
    tree.add_container("root", "col".to_string(), Style::new());
    tree.layout(rect(0, 0, 80, 24));
    assert!(tree.render().is_empty());
}

#[test]
fn listeners_are_registered_on_the_named_node() {
    let mut tree = sample();
    tree.add_event_listener("b", EventType::Click, silent(), ListenerId(7));
    assert!(tree.listeners.is_empty());
    assert!(tree.children[0].listeners.is_empty());
    let b = &tree.children[0].children[1];
    assert_eq!(b.listeners.len(), 1);
    assert_eq!(b.listeners[0].event_type, EventType::Click);
    assert_eq!(b.listeners[0].id, ListenerId(7));
    tree.add_event_listener("missing", EventType::Click, silent(), ListenerId(8));
    assert_eq!(tree.children[0].children[1].listeners.len(), 1);
}

#[test]
fn a_listener_is_registered_on_every_topmost_node_of_the_name() {
    let mut tree = root();
    tree.add_container("root", "left".to_string(), Style::new());
    tree.add_container("root", "right".to_string(), Style::new());
    tree.add_container("left", "dup".to_string(), Style::new());
    tree.add_container("right", "dup".to_string(), Style::new());
    tree.children[0].children[0].add_container("dup", "dup".to_string(), Style::new());
    tree.add_event_listener("dup", EventType::Hover, silent(), ListenerId(3));
    assert_eq!(tree.children[0].children[0].listeners.len(), 1);
    assert_eq!(tree.children[1].children[0].listeners.len(), 1);
    assert!(tree.children[0].children[0].children[0].listeners.is_empty());
}

#[test]
fn registering_again_replaces_the_listener() {
    let log = Rc::new(RefCell::new(Vec::<&'static str>::new()));
    let first = log.clone();
    let second = log.clone();
    let mut tree = root();
    tree.add_event_listener("root", EventType::Click, Rc::new(move |_| first.borrow_mut().push("first")), ListenerId(1));
    tree.add_event_listener("root", EventType::Hover, silent(), ListenerId(1));
    tree.add_event_listener("root", EventType::Click, Rc::new(move |_| second.borrow_mut().push("second")), ListenerId(1));
    assert_eq!(tree.listeners.len(), 2);
    assert_eq!(tree.listeners[0].event_type, EventType::Click);
    assert_eq!(tree.listeners[1].event_type, EventType::Hover);
    for call in tree.trigger_event(&EventType::Click, context(EventType::Click, "root")) {
        (call.listener)(call.context);
    }
    assert_eq!(*log.borrow(), vec!["second"]);
}

#[test]
fn trigger_event_calls_the_listeners_of_the_type_in_order() {
    let log = Rc::new(RefCell::new(Vec::<(u32, String)>::new()));
    let mut tree = root();
    for (n, event_type) in [(1, EventType::Click), (2, EventType::Hover), (3, EventType::Click)] {
        let log = log.clone();
        tree.add_event_listener(
            "root",
            event_type,
            Rc::new(move |ctx: EventContext| log.borrow_mut().push((n, ctx.target_id))),
            ListenerId(n as u64),
        );
    }
    let calls = tree.trigger_event(&EventType::Click, context(EventType::Click, "root"));
    assert_eq!(calls.len(), 2);
    for call in calls {
        assert_eq!(call.context.event_type, EventType::Click);
        assert_eq!(call.context.mouse_x, Some(1));
        assert_eq!(call.context.mouse_y, Some(2));
        (call.listener)(call.context);
    }
    assert_eq!(*log.borrow(), vec![(1, "root".to_string()), (3, "root".to_string())]);
    assert!(tree.trigger_event(&EventType::ScrollUp, context(EventType::ScrollUp, "root")).is_empty());
}

#[test]
fn trigger_event_reaches_only_the_node_it_is_called_on() {
    let mut tree = sample();
    tree.add_event_listener("col", EventType::Click, silent(), ListenerId(1));
    assert!(tree.trigger_event(&EventType::Click, context(EventType::Click, "root")).is_empty());
    assert_eq!(tree.children[0].trigger_event(&EventType::Click, context(EventType::Click, "col")).len(), 1);
    assert!(tree.children[0].children[0].trigger_event(&EventType::Click, context(EventType::Click, "a")).is_empty());
}

#[test]
fn removing_a_listener_removes_it_everywhere() {
    let mut tree = sample();
    tree.add_event_listener("root", EventType::Click, silent(), ListenerId(5));
    tree.add_event_listener("a", EventType::Click, silent(), ListenerId(5));
    tree.add_event_listener("a", EventType::Hover, silent(), ListenerId(5));
    tree.add_event_listener("a", EventType::Click, silent(), ListenerId(6));
    tree.add_event_listener("side", EventType::ScrollUp, silent(), ListenerId(5));
    tree.remove_event_listener(ListenerId(5));
    assert!(tree.listeners.is_empty());
    assert!(tree.children[1].listeners.is_empty());
    let a = &tree.children[0].children[0];
    assert_eq!(a.listeners.len(), 1);
    assert_eq!(a.listeners[0].id, ListenerId(6));
    let all = [EventType::Click, EventType::DoubleClick, EventType::RightClick, EventType::ScrollUp, EventType::ScrollDown, EventType::Hover];
    for event_type in all {
        assert!(tree.trigger_event(&event_type, context(event_type, "root")).is_empty());
        assert!(tree.children[1].trigger_event(&event_type, context(event_type, "side")).is_empty());
    }
    assert_eq!(a.trigger_event(&EventType::Click, context(EventType::Click, "a")).len(), 1);
    assert!(a.trigger_event(&EventType::Hover, context(EventType::Hover, "a")).is_empty());
    assert_eq!(ids(&tree), vec!["col", "side"]);
}

#[test]
fn removing_an_unknown_listener_changes_nothing() {
    let mut tree = sample();
    tree.add_event_listener("a", EventType::Click, silent(), ListenerId(1));
    tree.remove_event_listener(ListenerId(2));
    assert_eq!(tree.children[0].children[0].listeners.len(), 1);
}

#[test]
fn listener_entries_hold_what_was_registered() {
    let entry: ListenerEntry<u8> = ListenerEntry { event_type: EventType::Hover, id: ListenerId(9), callback: 4 };
    let mut node: Node<Text, u8> = Node::new("n".to_string());
    node.add_event_listener("n", entry.event_type, entry.callback, entry.id);
    assert_eq!(node.listeners[0].callback, 4);
    assert_eq!(node.listeners[0].id, ListenerId(9));
}
