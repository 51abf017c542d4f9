//! Laws of the tree: what holds of every tree and every call.

use vstd::prelude::*;
use crate::event::{EventType, ListenerId};
use crate::rect::Rect;
use crate::widget::Widget;
use crate::internal::view::{
    callbacks_for, entry_index, has_listener, ids_for, lemma_node_at_child, registered,
    unregistered, ListenerEntry, NodeView,
};

verus! {

/// Adding a child below a name that no node has leaves the tree as it was,
/// however often it is tried.
pub proof fn lemma_add_under_missing_parent<W, L>(
    tree: NodeView<W, L>,
    parent_id: Seq<char>,
    child: NodeView<W, L>,
)
    requires
        !tree.contains_id(parent_id),
    ensures
        tree.with_child_under(parent_id, child) == tree,
        tree.with_child_under(parent_id, child).with_child_under(parent_id, child) == tree,
{
}

/// Updating a widget or a style under a name that no node has leaves the
/// tree as it was.
pub proof fn lemma_update_missing<W, L>(
    tree: NodeView<W, L>,
    id: Seq<char>,
    widget: W,
    style: crate::style::Style,
)
    requires
        !tree.contains_id(id),
    ensures
        tree.with_widget_in(id, widget) == tree,
        tree.with_style_in(id, style) == tree,
{
}

/// Removing a node by its own name clears it and keeps it: it has the same
/// name, style and areas as before, and no widget, children or listeners.
pub proof fn lemma_remove_self_clears<W, L>(tree: NodeView<W, L>)
    ensures
        tree.without_child(tree.id) == tree.cleared(),
        tree.without_child(tree.id).id == tree.id,
        tree.without_child(tree.id).style == tree.style,
        tree.without_child(tree.id).area == tree.area,
        tree.without_child(tree.id).content_area == tree.content_area,
        tree.without_child(tree.id).widget is None,
        tree.without_child(tree.id).children.len() == 0,
        tree.without_child(tree.id).listeners.len() == 0,
{
}

/// A pointer outside the area of a node hits nothing in the tree below it.
pub proof fn lemma_hit_inside_area<W, L>(tree: NodeView<W, L>, x: u16, y: u16)
    ensures
        !tree.area.spec_contains(x, y) ==> tree.hit(x, y) is None && tree.hit_id(x, y) is None,
{
}

/// The hit test goes as deep as it can. The path it returns leads to a node
/// of the tree; the area of that node and of every node on the way to it
/// holds the pointer; and no child of that node is hit.
pub proof fn lemma_hit_deepest<W, L>(tree: NodeView<W, L>, x: u16, y: u16)
    ensures
        tree.hit(x, y) matches Some(path) ==> {
            &&& tree.valid_path(path)
            &&& forall|n: int|
                0 <= n <= path.len() ==> (#[trigger] tree.node_at(path.take(n))).area.spec_contains(
                    x,
                    y,
                )
            &&& forall|i: int|
                0 <= i < tree.node_at(path).children.len() ==> (#[trigger] tree.node_at(
                    path,
                ).children[i]).hit(x, y) is None
        },
    decreases tree, 1nat, 0nat,
{
    if tree.area.spec_contains(x, y) {
        lemma_hit_among_deepest(tree.children, x, y, 0);
        match NodeView::hit_among(tree.children, x, y, 0) {
            Some(path) => {
                let first = path[0];
                let rest = path.drop_first();
                assert(path =~= seq![first] + rest);
                lemma_node_at_child(tree, first, rest);
                assert forall|n: int| 0 <= n <= path.len() implies (#[trigger] tree.node_at(
                    path.take(n),
                )).area.spec_contains(x, y) by {
                    if n > 0 {
                        assert(path.take(n) =~= seq![first] + rest.take(n - 1));
                        lemma_node_at_child(tree, first, rest.take(n - 1));
                    }
                }
            },
            None => {
                if tree.hit(x, y) is Some {
                    let path = Seq::<int>::empty();
                    assert forall|n: int| 0 <= n <= path.len() implies (#[trigger] tree.node_at(
                        path.take(n),
                    )).area.spec_contains(x, y) by {
                        assert(path.take(n) =~= path);
                    }
                }
            },
        }
    }
}

/// The same for the hit test among the children of a node, and: where it
/// hits nothing, no child from `from` on is hit.
pub proof fn lemma_hit_among_deepest<W, L>(nodes: Seq<NodeView<W, L>>, x: u16, y: u16, from: int)
    requires
        0 <= from,
    ensures
        match NodeView::hit_among(nodes, x, y, from) {
            Some(path) => {
                &&& path.len() > 0
                &&& from <= path[0] < nodes.len()
                &&& nodes[path[0]].hit(x, y) == Some(path.drop_first())
                &&& nodes[path[0]].valid_path(path.drop_first())
                &&& forall|n: int|
                    0 <= n <= path.len() - 1 ==> (#[trigger] nodes[path[0]].node_at(
                        path.drop_first().take(n),
                    )).area.spec_contains(x, y)
                &&& forall|i: int|
                    0 <= i < nodes[path[0]].node_at(path.drop_first()).children.len() ==> (
                    #[trigger] nodes[path[0]].node_at(path.drop_first()).children[i]).hit(x, y)
                        is None
            },
            None => forall|i: int| from <= i < nodes.len() ==> (#[trigger] nodes[i]).hit(x, y) is None,
        },
    decreases nodes, 0nat, nodes.len() - from,
{
    if from < nodes.len() {
        match nodes[from].hit(x, y) {
            Some(rest) => {
                lemma_hit_deepest(nodes[from], x, y);
                assert((seq![from] + rest).drop_first() =~= rest);
            },
            None => {
                lemma_hit_among_deepest(nodes, x, y, from + 1);
            },
        }
    }
}

/// Whether no node of the tree holds a widget.
pub open spec fn all_containers<W, L>(tree: NodeView<W, L>) -> bool
    decreases tree,
{
    &&& tree.widget is None
    &&& forall|i: int|
        0 <= i < tree.children.len() ==> all_containers(#[trigger] tree.children[i])
}

/// In a tree of nested containers a pointer inside the area of the root
/// always hits a node, and the node it hits is the deepest one under the
/// pointer: no child of it has the pointer in its area.
pub proof fn lemma_hit_nested_containers<W, L>(tree: NodeView<W, L>, x: u16, y: u16)
    requires
        all_containers(tree),
        tree.area.spec_contains(x, y),
    ensures
        tree.hit(x, y) is Some,
        tree.valid_path(tree.hit(x, y).unwrap()),
        tree.node_at(tree.hit(x, y).unwrap()).area.spec_contains(x, y),
        forall|i: int|
            0 <= i < tree.node_at(tree.hit(x, y).unwrap()).children.len() ==> !(
            #[trigger] tree.node_at(tree.hit(x, y).unwrap()).children[i]).area.spec_contains(x, y),
    decreases tree,
{
    let path = tree.hit(x, y).unwrap();
    lemma_hit_deepest(tree, x, y);
    assert(path.take(path.len() as int) =~= path);
    assert(tree.node_at(path.take(path.len() as int)).area.spec_contains(x, y));
    lemma_all_containers_at(tree, path);
    let target = tree.node_at(path);
    assert forall|i: int| 0 <= i < target.children.len() implies !(#[trigger] target.children[i]).area.spec_contains(
        x,
        y,
    ) by {
        assert(all_containers(target.children[i]));
        assert(target.children[i].hit(x, y) is None);
        assert(target.children[i].widget is None);
    }
}

/// Below a tree of containers there are only containers.
pub proof fn lemma_all_containers_at<W, L>(tree: NodeView<W, L>, path: Seq<int>)
    requires
        all_containers(tree),
        tree.valid_path(path),
    ensures
        all_containers(tree.node_at(path)),
    decreases path.len(),
{
    if path.len() > 0 {
        assert(all_containers(tree.children[path[0]]));
        lemma_all_containers_at(tree.children[path[0]], path.drop_first());
    }
}

/// Once the listeners with an identifier are taken out, no entry carries it.
pub proof fn lemma_unregistered_gone<L>(entries: Seq<ListenerEntry<L>>, id: ListenerId)
    ensures
        !has_listener(unregistered(entries, id), id),
        unregistered(entries, id).len() <= entries.len(),
    decreases entries.len(),
{
    if entries.len() > 0 {
        lemma_unregistered_gone(entries.drop_last(), id);
        let rest = unregistered(entries.drop_last(), id);
        if entries.last().id != id {
            assert forall|i: int| 0 <= i < rest.push(entries.last()).len() implies (
            #[trigger] rest.push(entries.last())[i]).id != id by {
                if i < rest.len() {
                    assert(rest[i].id != id);
                }
            }
        }
    }
}

/// A table without an identifier calls nothing under it: the identifiers
/// that an event type reaches do not include it.
pub proof fn lemma_ids_for_without<L>(
    entries: Seq<ListenerEntry<L>>,
    event_type: EventType,
    id: ListenerId,
)
    requires
        !has_listener(entries, id),
    ensures
        !ids_for(entries, event_type).contains(id),
        ids_for(entries, event_type).len() == callbacks_for(entries, event_type).len(),
    decreases entries.len(),
{
    if entries.len() > 0 {
        let rest = entries.drop_last();
        assert forall|i: int| 0 <= i < rest.len() implies (#[trigger] rest[i]).id != id by {
            assert(entries[i].id != id);
        }
        lemma_ids_for_without(rest, event_type, id);
        assert(entries[entries.len() - 1].id != id);
        lemma_ids_len(entries, event_type);
    }
}

/// An event type reaches as many listeners as identifiers.
pub proof fn lemma_ids_len<L>(entries: Seq<ListenerEntry<L>>, event_type: EventType)
    ensures
        ids_for(entries, event_type).len() == callbacks_for(entries, event_type).len(),
    decreases entries.len(),
{
    if entries.len() > 0 {
        lemma_ids_len(entries.drop_last(), event_type);
    }
}

/// Removal of a listener is global: after it the tree has the shape it had,
/// and no node anywhere in it holds a listener with that identifier, so none
/// is called under it for any event type.
pub proof fn lemma_removed_listener_gone<W, L>(
    tree: NodeView<W, L>,
    id: ListenerId,
    path: Seq<int>,
    event_type: EventType,
)
    requires
        tree.valid_path(path),
    ensures
        tree.without_listener(id).valid_path(path),
        tree.without_listener(id).node_at(path) == tree.node_at(path).without_listener(id),
        !has_listener(tree.without_listener(id).node_at(path).listeners, id),
        !ids_for(tree.without_listener(id).node_at(path).listeners, event_type).contains(id),
    decreases path.len(),
{
    if path.len() > 0 {
        lemma_removed_listener_gone(tree.children[path[0]], id, path.drop_first(), event_type);
    } else {
        lemma_unregistered_gone(tree.listeners, id);
        lemma_ids_for_without(unregistered(tree.listeners, id), event_type, id);
    }
}

/// Whether no two entries of the table are for the same event type and carry
/// the same identifier.
pub open spec fn distinct_entries<L>(entries: Seq<ListenerEntry<L>>) -> bool {
    forall|i: int, j: int|
        0 <= i < j < entries.len() ==> !((#[trigger] entries[i]).event_type == (
        #[trigger] entries[j]).event_type && entries[i].id == entries[j].id)
}

/// The index that the search for an entry returns is the first at which such
/// an entry stands, or the length of the table.
pub proof fn lemma_entry_index_first<L>(
    entries: Seq<ListenerEntry<L>>,
    event_type: EventType,
    id: ListenerId,
)
    ensures
        0 <= entry_index(entries, event_type, id) <= entries.len(),
        entry_index(entries, event_type, id) < entries.len() ==> {
            let at = entry_index(entries, event_type, id);
            entries[at].event_type == event_type && entries[at].id == id
        },
        forall|i: int|
            0 <= i < entry_index(entries, event_type, id) ==> !((#[trigger] entries[i]).event_type
                == event_type && entries[i].id == id),
    decreases entries.len(),
{
    if entries.len() > 0 && !(entries[0].event_type == event_type && entries[0].id == id) {
        let rest = entries.drop_first();
        lemma_entry_index_first(rest, event_type, id);
        assert forall|i: int| 0 <= i < entry_index(entries, event_type, id) implies !((
        #[trigger] entries[i]).event_type == event_type && entries[i].id == id) by {
            if i > 0 {
                assert(entries[i] == rest[i - 1]);
            }
        }
    }
}

/// Registration keeps a table free of doubles, and the entry that was
/// registered is in the table afterwards.
pub proof fn lemma_registered_distinct<L>(entries: Seq<ListenerEntry<L>>, entry: ListenerEntry<L>)
    ensures
        distinct_entries(entries) ==> distinct_entries(registered(entries, entry)),
        exists|i: int|
            0 <= i < registered(entries, entry).len() && registered(entries, entry)[i] == entry,
{
    lemma_entry_index_first(entries, entry.event_type, entry.id);
    let at = entry_index(entries, entry.event_type, entry.id);
    let after = registered(entries, entry);
    assert(after[at] == entry);
    if distinct_entries(entries) {
        assert forall|i: int, j: int| 0 <= i < j < after.len() implies !((
        #[trigger] after[i]).event_type == (#[trigger] after[j]).event_type && after[i].id
            == after[j].id) by {
            if at < entries.len() {
                if i != at && j != at {
                    assert(after[i] == entries[i] && after[j] == entries[j]);
                } else if i == at {
                    assert(after[j] == entries[j]);
                    assert(entries[at].event_type == entry.event_type);
                } else {
                    assert(after[i] == entries[i]);
                }
            } else {
                if j < entries.len() {
                    assert(after[i] == entries[i] && after[j] == entries[j]);
                } else {
                    assert(after[i] == entries[i]);
                }
            }
        }
    }
}

/// A listener in the table is among those that its event type reaches.
pub proof fn lemma_callbacks_hold<L>(entries: Seq<ListenerEntry<L>>, at: int)
    requires
        0 <= at < entries.len(),
    ensures
        callbacks_for(entries, entries[at].event_type).contains(entries[at].callback),
    decreases entries.len(),
{
    let event_type = entries[at].event_type;
    let rest = callbacks_for(entries.drop_last(), event_type);
    if at == entries.len() - 1 {
        assert(rest.push(entries.last().callback)[rest.len() as int] == entries[at].callback);
    } else {
        lemma_callbacks_hold(entries.drop_last(), at);
        let k = choose|k: int| 0 <= k < rest.len() && rest[k] == entries[at].callback;
        if entries.last().event_type == event_type {
            assert(rest.push(entries.last().callback)[k] == entries[at].callback);
        }
    }
}

/// A listener that was registered is called for its event type.
pub proof fn lemma_registered_fires<L>(entries: Seq<ListenerEntry<L>>, entry: ListenerEntry<L>)
    ensures
        callbacks_for(registered(entries, entry), entry.event_type).contains(entry.callback),
{
    lemma_entry_index_first(entries, entry.event_type, entry.id);
    let at = entry_index(entries, entry.event_type, entry.id);
    assert(registered(entries, entry)[at] == entry);
    lemma_callbacks_hold(registered(entries, entry), at);
}

/// What is left after a removal stood in the table before, in the same
/// order: every entry that is left has an entry before it in the old table
/// for each entry before it in the new one.
pub proof fn lemma_unregistered_keeps_order<L>(entries: Seq<ListenerEntry<L>>, id: ListenerId)
    ensures
        exists|from: Seq<int>|
            {
                &&& from.len() == unregistered(entries, id).len()
                &&& forall|k: int|
                    0 <= k < from.len() ==> 0 <= #[trigger] from[k] < entries.len()
                        && unregistered(entries, id)[k] == entries[from[k]]
                &&& forall|k: int, l: int| 0 <= k < l < from.len() ==> from[k] < from[l]
            },
    decreases entries.len(),
{
    if entries.len() == 0 {
        let from = Seq::<int>::empty();
        assert(from.len() == unregistered(entries, id).len());
    } else {
        let rest = entries.drop_last();
        lemma_unregistered_keeps_order(rest, id);
        let from = choose|from: Seq<int>|
            {
                &&& from.len() == unregistered(rest, id).len()
                &&& forall|k: int|
                    0 <= k < from.len() ==> 0 <= #[trigger] from[k] < rest.len() && unregistered(
                        rest,
                        id,
                    )[k] == rest[from[k]]
                &&& forall|k: int, l: int| 0 <= k < l < from.len() ==> from[k] < from[l]
            };
        if entries.last().id == id {
            assert forall|k: int| 0 <= k < from.len() implies 0 <= #[trigger] from[k]
                < entries.len() && unregistered(entries, id)[k] == entries[from[k]] by {
                assert(rest[from[k]] == entries[from[k]]);
            }
        } else {
            let more = from.push(entries.len() - 1);
            assert forall|k: int| 0 <= k < more.len() implies 0 <= #[trigger] more[k]
                < entries.len() && unregistered(entries, id)[k] == entries[more[k]] by {
                if k < from.len() {
                    assert(more[k] == from[k]);
                    assert(rest[from[k]] == entries[from[k]]);
                }
            }
            assert forall|k: int, l: int| 0 <= k < l < more.len() implies more[k] < more[l] by {
                if l < from.len() {
                    assert(more[k] == from[k] && more[l] == from[l]);
                } else {
                    assert(more[k] == from[k]);
                }
            }
            assert(more.len() == unregistered(entries, id).len());
        }
    }
}

/// Removal keeps a table free of doubles.
pub proof fn lemma_unregistered_distinct<L>(entries: Seq<ListenerEntry<L>>, id: ListenerId)
    requires
        distinct_entries(entries),
    ensures
        distinct_entries(unregistered(entries, id)),
{
    lemma_unregistered_keeps_order(entries, id);
    let after = unregistered(entries, id);
    let from = choose|from: Seq<int>|
        {
            &&& from.len() == after.len()
            &&& forall|k: int|
                0 <= k < from.len() ==> 0 <= #[trigger] from[k] < entries.len() && after[k]
                    == entries[from[k]]
            &&& forall|k: int, l: int| 0 <= k < l < from.len() ==> from[k] < from[l]
        };
    assert forall|i: int, j: int| 0 <= i < j < after.len() implies !((
    #[trigger] after[i]).event_type == (#[trigger] after[j]).event_type && after[i].id
        == after[j].id) by {
        assert(after[i] == entries[from[i]]);
        assert(after[j] == entries[from[j]]);
        assert(from[i] < from[j]);
    }
}

/// The path that the search returns leads to a node with the identifier
/// that was searched for.
pub proof fn lemma_path_to_finds<W, L>(node: NodeView<W, L>, id: Seq<char>)
    ensures
        node.path_to(id) matches Some(path) ==> node.valid_path(path) && node.node_at(path).id
            == id,
    decreases node, 1nat, 0nat,
{
    if node.id != id {
        lemma_path_among_finds(node.children, id, 0);
        match NodeView::path_among(node.children, id, 0) {
            Some(path) => {
                let first = path[0];
                let rest = path.drop_first();
                assert(path =~= seq![first] + rest);
                lemma_node_at_child(node, first, rest);
            },
            None => {},
        }
    }
}

/// The same for the search among the children of a node.
pub proof fn lemma_path_among_finds<W, L>(nodes: Seq<NodeView<W, L>>, id: Seq<char>, from: int)
    ensures
        NodeView::path_among(nodes, id, from) matches Some(path) ==> {
            &&& path.len() > 0
            &&& from <= path[0] < nodes.len()
            &&& 0 <= path[0]
            &&& nodes[path[0]].valid_path(path.drop_first())
            &&& nodes[path[0]].node_at(path.drop_first()).id == id
        },
    decreases nodes, 0nat, nodes.len() - from,
{
    if 0 <= from < nodes.len() {
        match nodes[from].path_to(id) {
            Some(rest) => {
                lemma_path_to_finds(nodes[from], id);
                assert((seq![from] + rest).drop_first() =~= rest);
            },
            None => {
                lemma_path_among_finds(nodes, id, from + 1);
            },
        }
    }
}

/// A name that some node has is found by the search.
pub proof fn lemma_existing_id_found<W, L>(tree: NodeView<W, L>, path: Seq<int>)
    requires
        tree.valid_path(path),
    ensures
        tree.contains_id(tree.node_at(path).id),
    decreases path.len(),
{
    let id = tree.node_at(path).id;
    if path.len() > 0 && tree.id != id {
        let first = path[0];
        lemma_existing_id_found(tree.children[first], path.drop_first());
        lemma_path_among_finds_first(tree.children, id, 0, first);
    }
}

/// Where a child holds `id`, the search among the children finds something.
pub proof fn lemma_path_among_finds_first<W, L>(
    nodes: Seq<NodeView<W, L>>,
    id: Seq<char>,
    from: int,
    holder: int,
)
    requires
        0 <= from <= holder < nodes.len(),
        nodes[holder].path_to(id) is Some,
    ensures
        NodeView::path_among(nodes, id, from) is Some,
    decreases holder - from,
{
    if from < holder && nodes[from].path_to(id) is None {
        lemma_path_among_finds_first(nodes, id, from + 1, holder);
    }
}

/// The node that the hit test reports is in the tree, so a search for its
/// name finds a node.
pub proof fn lemma_hit_id_found<W, L>(tree: NodeView<W, L>, x: u16, y: u16)
    ensures
        tree.hit_id(x, y) matches Some(id) ==> tree.contains_id(id),
{
    if tree.hit(x, y) is Some {
        lemma_hit_deepest(tree, x, y);
        lemma_existing_id_found(tree, tree.hit(x, y).unwrap());
    }
}

/// Layout moves nothing: every name is found where it was found before.
pub proof fn lemma_layout_keeps_names<W: Widget, L>(
    before: NodeView<W, L>,
    after: NodeView<W, L>,
    area: Rect,
    id: Seq<char>,
)
    requires
        before.laid_out(after, area),
    ensures
        after.path_to(id) == before.path_to(id),
    decreases before, 1nat, 0nat,
{
    if before.id != id {
        lemma_layout_keeps_names_among(before, after, area, id, 0);
    }
}

/// The same for the search among the children from `from` on.
pub proof fn lemma_layout_keeps_names_among<W: Widget, L>(
    before: NodeView<W, L>,
    after: NodeView<W, L>,
    area: Rect,
    id: Seq<char>,
    from: int,
)
    requires
        before.laid_out(after, area),
        0 <= from,
    ensures
        NodeView::path_among(after.children, id, from) == NodeView::path_among(
            before.children,
            id,
            from,
        ),
    decreases before, 0nat, before.children.len() - from,
{
    if from < before.children.len() {
        let areas = before.style.spec_children_areas(area, before.children.len());
        assert(before.children[from].laid_out(after.children[from], areas[from]));
        lemma_layout_keeps_names(before.children[from], after.children[from], areas[from], id);
        lemma_layout_keeps_names_among(before, after, area, id, from + 1);
    }
}

/// Putting a node in the place of another keeps the path to that place, and
/// the new node is what the path leads to.
pub proof fn lemma_with_node_at_leads<W, L>(
    tree: NodeView<W, L>,
    path: Seq<int>,
    node: NodeView<W, L>,
)
    requires
        tree.valid_path(path),
    ensures
        tree.with_node_at(path, node).valid_path(path),
        tree.with_node_at(path, node).node_at(path) == node,
    decreases path.len(),
{
    if path.len() > 0 {
        lemma_with_node_at_leads(tree.children[path[0]], path.drop_first(), node);
    }
}

/// A path can be walked in two parts.
pub proof fn lemma_node_at_concat<W, L>(tree: NodeView<W, L>, path: Seq<int>, more: Seq<int>)
    requires
        tree.valid_path(path),
    ensures
        tree.valid_path(path + more) == tree.node_at(path).valid_path(more),
        tree.node_at(path + more) == tree.node_at(path).node_at(more),
    decreases path.len(),
{
    if path.len() == 0 {
        assert(path + more =~= more);
    } else {
        assert((path + more).drop_first() =~= path.drop_first() + more);
        lemma_node_at_concat(tree.children[path[0]], path.drop_first(), more);
    }
}

/// A child that was added below a parent that the tree holds is in the tree
/// afterwards: it is the last child of that parent, and its name is found.
pub proof fn lemma_added_child_found<W, L>(
    tree: NodeView<W, L>,
    parent_id: Seq<char>,
    child: NodeView<W, L>,
)
    requires
        tree.contains_id(parent_id),
    ensures
        ({
            let path = tree.path_to(parent_id).unwrap();
            let after = tree.with_child_under(parent_id, child);
            let last = tree.node_at(path).children.len() as int;
            &&& after.valid_path(path.push(last))
            &&& after.node_at(path.push(last)) == child
            &&& after.node_at(path).children.len() == last + 1
            &&& after.contains_id(child.id)
        }),
{
    let path = tree.path_to(parent_id).unwrap();
    lemma_path_to_finds(tree, parent_id);
    let parent = tree.node_at(path).with_child(child);
    let after = tree.with_child_under(parent_id, child);
    let last = tree.node_at(path).children.len() as int;
    lemma_with_node_at_leads(tree, path, parent);
    lemma_node_at_concat(after, path, seq![last]);
    assert(path.push(last) =~= path + seq![last]);
    assert(seq![last] + Seq::<int>::empty() =~= seq![last]);
    lemma_node_at_child(parent, last, Seq::empty());
    assert(parent.children[last] == child);
    assert(parent.valid_path(seq![last]));
    assert(parent.node_at(seq![last]) == child);
    lemma_existing_id_found(after, path.push(last));
}

/// Whether no two nodes of the tree have the same name.
pub open spec fn unique_names<W, L>(tree: NodeView<W, L>) -> bool {
    forall|p: Seq<int>, q: Seq<int>|
        tree.valid_path(p) && tree.valid_path(q) && (#[trigger] tree.node_at(p)).id == (
        #[trigger] tree.node_at(q)).id ==> p == q
}

/// Where names are unique, a name is found at the node that has it.
pub proof fn lemma_unique_name_found<W, L>(tree: NodeView<W, L>, path: Seq<int>)
    requires
        unique_names(tree),
        tree.valid_path(path),
    ensures
        tree.path_to(tree.node_at(path).id) == Some(path),
{
    let id = tree.node_at(path).id;
    lemma_existing_id_found(tree, path);
    lemma_path_to_finds(tree, id);
    let found = tree.path_to(id).unwrap();
    assert(tree.node_at(found).id == tree.node_at(path).id);
}

/// Where names are unique, a pointer event reaches the listeners of the very
/// node that the pointer hits.
pub proof fn lemma_dispatch_reaches_hit_node<W, L>(tree: NodeView<W, L>, x: u16, y: u16)
    requires
        unique_names(tree),
    ensures
        tree.hit(x, y) matches Some(path) ==> tree.path_to(tree.hit_id(x, y).unwrap()) == Some(
            path,
        ),
{
    if tree.hit(x, y) is Some {
        lemma_hit_deepest(tree, x, y);
        lemma_unique_name_found(tree, tree.hit(x, y).unwrap());
    }
}

/// Whether every listener table in the tree is free of doubles.
pub open spec fn tables_distinct<W, L>(tree: NodeView<W, L>) -> bool
    decreases tree,
{
    &&& distinct_entries(tree.listeners)
    &&& forall|i: int|
        0 <= i < tree.children.len() ==> tables_distinct(#[trigger] tree.children[i])
}

/// In a table free of doubles an event type reaches no identifier twice: a
/// listener is called at most once for an event.
pub proof fn lemma_distinct_ids_fire_once<L>(
    entries: Seq<ListenerEntry<L>>,
    event_type: EventType,
)
    requires
        distinct_entries(entries),
    ensures
        ids_for(entries, event_type).no_duplicates(),
        forall|k: int|
            0 <= k < ids_for(entries, event_type).len() ==> has_listener(
                entries,
                #[trigger] ids_for(entries, event_type)[k],
            ),
    decreases entries.len(),
{
    if entries.len() > 0 {
        let rest = entries.drop_last();
        let last = entries.last();
        assert forall|i: int, j: int| 0 <= i < j < rest.len() implies !((
        #[trigger] rest[i]).event_type == (#[trigger] rest[j]).event_type && rest[i].id
            == rest[j].id) by {
            assert(rest[i] == entries[i] && rest[j] == entries[j]);
        }
        lemma_distinct_ids_fire_once(rest, event_type);
        let before = ids_for(rest, event_type);
        let after = ids_for(entries, event_type);
        assert forall|k: int| 0 <= k < after.len() implies has_listener(
            entries,
            #[trigger] after[k],
        ) by {
            if k < before.len() {
                assert(has_listener(rest, before[k]));
                let at = choose|at: int| 0 <= at < rest.len() && (#[trigger] rest[at]).id == before[k];
                assert(entries[at].id == before[k]);
            } else {
                assert(entries[entries.len() - 1].id == after[k]);
            }
        }
        if last.event_type == event_type {
            lemma_ids_hold_entries(rest, event_type);
            assert forall|i: int, j: int| 0 <= i < j < after.len() implies after[i] != after[j] by {
                if j == before.len() {
                    assert(registered_for(rest, event_type, before[i]));
                    let at = choose|at: int|
                        0 <= at < rest.len() && (#[trigger] rest[at]).event_type == event_type
                            && rest[at].id == before[i];
                    assert(entries[at] == rest[at]);
                    assert(entries[entries.len() - 1] == last);
                }
            }
        }
    }
}

/// Whether some entry is for `event_type` and carries the identifier `id`.
pub open spec fn registered_for<L>(
    entries: Seq<ListenerEntry<L>>,
    event_type: EventType,
    id: ListenerId,
) -> bool {
    exists|at: int|
        0 <= at < entries.len() && (#[trigger] entries[at]).event_type == event_type
            && entries[at].id == id
}

/// Every identifier that an event type reaches stands in an entry for that
/// event type.
pub proof fn lemma_ids_hold_entries<L>(entries: Seq<ListenerEntry<L>>, event_type: EventType)
    ensures
        forall|k: int|
            0 <= k < ids_for(entries, event_type).len() ==> registered_for(
                entries,
                event_type,
                #[trigger] ids_for(entries, event_type)[k],
            ),
    decreases entries.len(),
{
    if entries.len() > 0 {
        let rest = entries.drop_last();
        lemma_ids_hold_entries(rest, event_type);
        let before = ids_for(rest, event_type);
        let after = ids_for(entries, event_type);
        assert forall|k: int| 0 <= k < after.len() implies registered_for(
            entries,
            event_type,
            #[trigger] after[k],
        ) by {
            if k < before.len() {
                assert(registered_for(rest, event_type, before[k]));
                let at = choose|at: int|
                    0 <= at < rest.len() && (#[trigger] rest[at]).event_type == event_type
                        && rest[at].id == before[k];
                assert(entries[at] == rest[at]);
            } else {
                assert(entries[entries.len() - 1].id == after[k]);
            }
        }
    }
}

/// What stands below a tree with tables free of doubles has such tables,
/// and so has the tree when such a node is put into it.
pub proof fn lemma_tables_distinct_at<W, L>(
    tree: NodeView<W, L>,
    path: Seq<int>,
    node: NodeView<W, L>,
)
    requires
        tables_distinct(tree),
        tree.valid_path(path),
    ensures
        tables_distinct(tree.node_at(path)),
        tables_distinct(node) ==> tables_distinct(tree.with_node_at(path, node)),
    decreases path.len(),
{
    if path.len() > 0 {
        let first = path[0];
        assert(tables_distinct(tree.children[first]));
        lemma_tables_distinct_at(tree.children[first], path.drop_first(), node);
        if tables_distinct(node) {
            let after = tree.with_node_at(path, node);
            assert forall|i: int| 0 <= i < after.children.len() implies tables_distinct(
                #[trigger] after.children[i],
            ) by {
                if i != first {
                    assert(tables_distinct(tree.children[i]));
                }
            }
        }
    }
}

/// A node keeps tables free of doubles when something other than its tables
/// and its children changes.
proof fn lemma_same_tables<W, L>(node: NodeView<W, L>, other: NodeView<W, L>)
    requires
        tables_distinct(node),
        other.listeners == node.listeners,
        other.children == node.children,
    ensures
        tables_distinct(other),
{
    assert forall|i: int| 0 <= i < other.children.len() implies tables_distinct(
        #[trigger] other.children[i],
    ) by {
        assert(tables_distinct(node.children[i]));
    }
}

/// Replacing a widget keeps the tables free of doubles.
pub proof fn lemma_widgets_keep_tables<W, L>(tree: NodeView<W, L>, id: Seq<char>, widget: W)
    requires
        tables_distinct(tree),
    ensures
        tables_distinct(tree.with_widget_in(id, widget)),
{
    lemma_path_to_finds(tree, id);
    match tree.path_to(id) {
        Some(path) => {
            let node = tree.node_at(path);
            lemma_tables_distinct_at(tree, path, node);
            lemma_same_tables(node, node.with_widget(widget));
            lemma_tables_distinct_at(tree, path, node.with_widget(widget));
        },
        None => {},
    }
}

/// Adding a child whose tables are free of doubles keeps the tables free of
/// doubles.
pub proof fn lemma_containers_keep_tables<W, L>(
    tree: NodeView<W, L>,
    parent_id: Seq<char>,
    child: NodeView<W, L>,
)
    requires
        tables_distinct(tree),
        tables_distinct(child),
    ensures
        tables_distinct(tree.with_child_under(parent_id, child)),
{
    lemma_path_to_finds(tree, parent_id);
    match tree.path_to(parent_id) {
        Some(path) => {
            let node = tree.node_at(path);
            lemma_tables_distinct_at(tree, path, node);
            let more = node.with_child(child);
            assert forall|i: int| 0 <= i < more.children.len() implies tables_distinct(
                #[trigger] more.children[i],
            ) by {
                if i < node.children.len() {
                    assert(tables_distinct(node.children[i]));
                }
            }
            lemma_tables_distinct_at(tree, path, more);
        },
        None => {},
    }
}

/// Replacing a style keeps the tables free of doubles.
pub proof fn lemma_styles_keep_tables<W, L>(
    tree: NodeView<W, L>,
    id: Seq<char>,
    style: crate::style::Style,
)
    requires
        tables_distinct(tree),
    ensures
        tables_distinct(tree.with_style_in(id, style)),
{
    lemma_path_to_finds(tree, id);
    match tree.path_to(id) {
        Some(path) => {
            let node = tree.node_at(path);
            lemma_tables_distinct_at(tree, path, node);
            lemma_same_tables(node, node.with_style(style));
            lemma_tables_distinct_at(tree, path, node.with_style(style));
        },
        None => {},
    }
}

/// Removing a child, or clearing the node, keeps the tables free of doubles.
pub proof fn lemma_removal_keeps_tables<W, L>(tree: NodeView<W, L>, id: Seq<char>)
    requires
        tables_distinct(tree),
    ensures
        tables_distinct(tree.without_child(id)),
{
    let removed = tree.without_child(id);
    assert forall|i: int| 0 <= i < removed.children.len() implies tables_distinct(
        #[trigger] removed.children[i],
    ) by {
        let at = NodeView::child_index(tree.children, id);
        if tree.id != id {
            if 0 <= at < tree.children.len() {
                if i < at {
                    assert(tables_distinct(tree.children[i]));
                } else {
                    assert(tables_distinct(tree.children[i + 1]));
                }
            } else {
                assert(tables_distinct(tree.children[i]));
            }
        }
    }
}

/// Registering a listener keeps the tables free of doubles.
pub proof fn lemma_listener_added_keeps_tables<W, L: Clone>(
    before: NodeView<W, L>,
    after: NodeView<W, L>,
    target_id: Seq<char>,
    event_type: EventType,
    id: ListenerId,
    callback: L,
)
    requires
        tables_distinct(before),
        before.listener_added(after, target_id, event_type, id, callback),
    ensures
        tables_distinct(after),
    decreases before,
{
    if before.id == target_id {
        let stored = choose|stored: L|
            cloned(callback, stored) && after.listeners == registered(
                before.listeners,
                ListenerEntry { event_type, id, callback: stored },
            );
        lemma_registered_distinct(
            before.listeners,
            ListenerEntry { event_type, id, callback: stored },
        );
        assert forall|i: int| 0 <= i < after.children.len() implies tables_distinct(
            #[trigger] after.children[i],
        ) by {
            assert(tables_distinct(before.children[i]));
        }
    } else {
        assert forall|i: int| 0 <= i < after.children.len() implies tables_distinct(
            #[trigger] after.children[i],
        ) by {
            assert(tables_distinct(before.children[i]));
            assert(before.children[i].listener_added(
                after.children[i],
                target_id,
                event_type,
                id,
                callback,
            ));
            lemma_listener_added_keeps_tables(
                before.children[i],
                after.children[i],
                target_id,
                event_type,
                id,
                callback,
            );
        }
    }
}

/// Removing a listener keeps the tables free of doubles.
pub proof fn lemma_without_listener_keeps_tables<W, L>(tree: NodeView<W, L>, id: ListenerId)
    requires
        tables_distinct(tree),
    ensures
        tables_distinct(tree.without_listener(id)),
    decreases tree,
{
    lemma_unregistered_distinct(tree.listeners, id);
    let after = tree.without_listener(id);
    assert forall|i: int| 0 <= i < after.children.len() implies tables_distinct(
        #[trigger] after.children[i],
    ) by {
        assert(tables_distinct(tree.children[i]));
        lemma_without_listener_keeps_tables(tree.children[i], id);
    }
}

/// Layout keeps the tables free of doubles.
pub proof fn lemma_layout_keeps_tables<W: Widget, L>(
    before: NodeView<W, L>,
    after: NodeView<W, L>,
    area: Rect,
)
    requires
        tables_distinct(before),
        before.laid_out(after, area),
    ensures
        tables_distinct(after),
    decreases before,
{
    assert forall|i: int| 0 <= i < after.children.len() implies tables_distinct(
        #[trigger] after.children[i],
    ) by {
        let areas = before.style.spec_children_areas(area, before.children.len());
        assert(tables_distinct(before.children[i]));
        assert(before.children[i].laid_out(after.children[i], areas[i]));
        lemma_layout_keeps_tables(before.children[i], after.children[i], areas[i]);
    }
}

} // verus!
