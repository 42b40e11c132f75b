use query_trails::{make_query_trail, QueryTrail, SelectionNode, TrailState};

fn leaf(name: &str) -> SelectionNode {
    SelectionNode { name: name.to_string(), children: vec![] }
}

fn node(name: &str, children: Vec<SelectionNode>) -> SelectionNode {
    SelectionNode { name: name.to_string(), children }
}

#[test]
fn root_trail_is_walked_and_sees_selected_scalars() {
    let selection = node("query", vec![leaf("id"), leaf("name")]);
    let trail = make_query_trail(&selection, "Query".to_string());

    assert!(matches!(trail.state, TrailState::Walked));
    assert!(trail.scalar_field_selected(&"id".to_string()));
    assert!(trail.scalar_field_selected(&"name".to_string()));
    assert!(!trail.scalar_field_selected(&"email".to_string()));
}

#[test]
fn walking_into_a_selected_field_keeps_its_subtree() {
    let selection = node("query", vec![node("friend", vec![leaf("id")])]);
    let trail = make_query_trail(&selection, "Query".to_string());

    let friend = trail.walk_field(&"friend".to_string(), "Person".to_string());
    assert!(matches!(friend.state, TrailState::NotWalked));
    assert_eq!(friend.node_type, "Person");

    let walked = friend.walk().expect("the field was selected");
    assert!(matches!(walked.state, TrailState::Walked));
    assert!(walked.scalar_field_selected(&"id".to_string()));
    assert!(!walked.scalar_field_selected(&"name".to_string()));
}

#[test]
fn walking_an_absent_trail_yields_none_not_a_fault() {
    let selection = node("query", vec![leaf("id")]);
    let trail = make_query_trail(&selection, "Query".to_string());

    let absent = trail.walk_field(&"friend".to_string(), "Person".to_string());
    assert!(absent.look_ahead.is_none());
    assert!(absent.walk().is_none());
}

#[test]
fn absence_propagates_through_the_whole_descendant_subtree() {
    let selection = node("query", vec![leaf("id")]);
    let trail = make_query_trail(&selection, "Query".to_string());

    let absent = trail.walk_field(&"friend".to_string(), "Person".to_string());
    let deeper = absent.walk_field(&"pet".to_string(), "Animal".to_string());
    assert!(deeper.look_ahead.is_none());
    assert!(!deeper.scalar_field_selected(&"species".to_string()));
    assert!(deeper.walk().is_none());
}

#[test]
fn select_child_takes_the_first_match() {
    let selection = node(
        "query",
        vec![node("friend", vec![leaf("first")]), node("friend", vec![leaf("second")])],
    );
    let first = selection.select_child(&"friend".to_string()).expect("a selected child");
    assert_eq!(1, first.children.len());
    assert_eq!(first.children[0].name, "first");
}

#[test]
fn fresh_trail_from_parts_can_be_walked_once_present() {
    let selection = leaf("lonely");
    let trail = QueryTrail {
        look_ahead: Some(&selection),
        node_type: "Lonely".to_string(),
        state: TrailState::NotWalked,
    };
    let walked = trail.walk().expect("link present");
    assert_eq!(walked.node_type, "Lonely");
    assert!(matches!(walked.state, TrailState::Walked));
}
