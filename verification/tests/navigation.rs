use atspi_common::RelationType;
use odilia::accessible::AccessiblePrimitive;
use odilia::navigation::{caret_children, decide, edge_children, edges_of, sibling_indices, NextDecision, NextSearch};
use odilia::relations::RelationSet;

fn k(id: &str) -> AccessiblePrimitive {
    AccessiblePrimitive::from_event(":1.1", id)
}

#[test]
fn siblings_by_direction() {
    assert_eq!(sibling_indices(4, 1, None), vec![0, 2, 3]);
    assert_eq!(sibling_indices(4, 1, Some(false)), vec![0]);
    assert_eq!(sibling_indices(4, 1, Some(true)), vec![2, 3]);
}

#[test]
fn children_from_caret() {
    let starts = [Some(0), Some(5), None, Some(10)];
    assert_eq!(caret_children(&starts, 5, true), vec![0, 1, 2]);
    assert_eq!(caret_children(&starts, 5, false), vec![1, 2, 3]);
}

#[test]
fn edges_and_search() {
    let edges = edges_of(vec![k("/c")], vec![k("/s")], k("/p"));
    assert_eq!(edges, vec![k("/c"), k("/s"), k("/p")]);
    let mut search = NextSearch::new(edges.clone());
    assert_eq!(search.next_item(), Some(k("/p")));
    assert_eq!(decide(false, false), NextDecision::Continue);
    search.push_edges(edges);
    // the parent again is skipped: it was looked at already
    assert_eq!(search.next_item(), Some(k("/s")));
    assert_eq!(search.next_item(), Some(k("/c")));
    assert_eq!(search.next_item(), None);
    assert_eq!(decide(true, true), NextDecision::Stop);
    assert_eq!(decide(false, true), NextDecision::Found);
}

#[test]
fn relations_of_one_type() {
    let set = RelationSet(vec![
        (RelationType::LabelledBy, vec![k("/a")]),
        (RelationType::ControllerFor, vec![k("/b")]),
        (RelationType::LabelledBy, vec![k("/c"), k("/d")]),
    ]);
    assert_eq!(set.get_relations(RelationType::LabelledBy), vec![k("/a"), k("/c"), k("/d")]);
}

#[test]
fn first_relation_list_only() {
    let set = RelationSet(vec![
        (RelationType::ControllerFor, vec![k("/b")]),
        (RelationType::LabelledBy, vec![k("/a")]),
        (RelationType::LabelledBy, vec![k("/c"), k("/d")]),
    ]);
    assert_eq!(set.first_relations(RelationType::LabelledBy), vec![k("/a")]);
    let none = RelationSet(vec![(RelationType::ControllerFor, vec![k("/b")])]);
    assert!(none.first_relations(RelationType::LabelledBy).is_empty());
}

#[test]
fn edge_children_choice() {
    let all = vec![k("/1"), k("/2"), k("/3")];
    let kept = vec![k("/3")];
    assert_eq!(edge_children(all.clone(), Some(kept.clone()), Some(true)), kept);
    assert_eq!(edge_children(all.clone(), None, Some(false)), all);
    assert_eq!(edge_children(all.clone(), Some(kept), None), all);
}
