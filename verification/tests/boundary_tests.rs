use error_boundary::ErrorBoundary;
use error_boundary::ErrorValue;
use error_boundary::SharedContext;
use error_boundary::ViewNode;

fn text(s: &str) -> ViewNode {
    ViewNode::Text(s.to_string())
}

fn throw(s: &str) -> ViewNode {
    ViewNode::Throw(ErrorValue::new(s.to_string()))
}

fn pair(a: ViewNode, b: ViewNode) -> ViewNode {
    ViewNode::Pair(Box::new(a), Box::new(b))
}

#[test]
fn empty_registry_builds_children_first() {
    let mut b = ErrorBoundary(text("<p>ok</p>"), text("<p>fallback</p>"), None);
    let state = b.build();
    assert!(state.fallback.is_none());
    assert_eq!(state.children.content, "<p>ok</p>");
    assert!(!state.children.mounted);
    assert!(!state.children.hydrated);
}

#[test]
fn prepopulated_registry_shows_fallback_on_first_build() {
    // a boundary resumed over server-recorded errors presents its fallback
    // on the very first build, without a reactive update cycle
    let mut sc = SharedContext::new();
    sc.register_error(0, error_boundary::ErrorId(9), ErrorValue::new("recorded".to_string()));
    let mut b = ErrorBoundary(text("<p>ok</p>"), text("<p>fallback</p>"), Some(sc));
    assert_eq!(b.boundary_id, 0);
    assert!(!b.errors_empty());
    let state = b.build();
    let fb = state.fallback.as_ref().expect("fallback must be built");
    assert_eq!(fb.content, "<p>fallback</p>");
    // children are still built and retained behind the fallback
    assert_eq!(state.children.content, "<p>ok</p>");
}

#[test]
fn throwing_child_shows_fallback_on_first_build() {
    let mut b = ErrorBoundary(
        pair(text("<p>a</p>"), throw("bad")),
        text("<p>fallback</p>"),
        None,
    );
    let state = b.build();
    assert!(state.fallback.is_some());
    assert!(!b.errors_empty());
}

#[test]
fn throw_then_one_update_cycle_swaps_to_fallback_and_retains_children() {
    let mut b = ErrorBoundary(text("<p>child</p>"), text("<p>fallback</p>"), None);
    let mut state = b.build();
    assert!(state.fallback.is_none());
    state.mount(1, None);
    assert!(state.children.mounted);

    let children_content_before = state.children.content.clone();
    let children_elements_before = state.children.elements.clone();

    // a descendant throws; the next reactive update swaps to the fallback
    let key = b.hook.throw(ErrorValue::new("boom".to_string()));
    b.apply_transition(&mut state);

    let fb = state.fallback.as_ref().expect("fallback shown after a throw");
    assert_eq!(fb.content, "<p>fallback</p>");
    assert!(fb.mounted);
    // the child state is retained, not rebuilt, only detached
    assert!(!state.children.mounted);
    assert_eq!(state.children.content, children_content_before);
    assert_eq!(state.children.elements, children_elements_before);

    // the producing view clears its error; the next update swaps back
    b.hook.clear(&key);
    b.apply_transition(&mut state);
    assert!(state.fallback.is_none());
    assert!(state.children.mounted);
    assert_eq!(state.children.content, children_content_before);
    assert_eq!(state.children.elements, children_elements_before);
}

#[test]
fn transition_without_emptiness_change_is_a_noop() {
    let mut b = ErrorBoundary(text("<p>child</p>"), text("<p>fallback</p>"), None);
    let mut state = b.build();
    state.mount(1, None);

    // empty registry, showing children: no-op
    b.apply_transition(&mut state);
    assert!(state.fallback.is_none());
    assert!(state.children.mounted);

    let _key = b.hook.throw(ErrorValue::new("boom".to_string()));
    b.apply_transition(&mut state);
    let mounted_before = state.fallback.as_ref().unwrap().mounted;

    // non-empty registry, already showing fallback: no-op, even though the
    // registry content may differ
    let _other = b.hook.throw(ErrorValue::new("another".to_string()));
    b.apply_transition(&mut state);
    assert!(state.fallback.is_some());
    assert_eq!(state.fallback.as_ref().unwrap().mounted, mounted_before);
    assert_eq!(state.fallback.as_ref().unwrap().content, "<p>fallback</p>");
    assert!(!state.children.mounted);
}

#[test]
fn rebuild_replaces_state_in_place() {
    let mut b = ErrorBoundary(text("<p>child</p>"), text("<p>fallback</p>"), None);
    let mut state = b.build();
    state.mount(1, None);
    b.rebuild(&mut state);
    assert!(state.fallback.is_none());
    assert_eq!(state.children.content, "<p>child</p>");
    // the fresh state is spliced in where the old one stood
    assert!(state.children.mounted);
}

#[test]
fn state_delegates_to_the_visible_presentation() {
    let mut b = ErrorBoundary(text("<p>child</p>"), text("<p>fallback</p>"), None);
    let mut state = b.build();

    // children visible
    assert_eq!(state.elements().len(), 1);
    state.mount(1, None);
    assert!(state.children.mounted);
    state.unmount();
    assert!(!state.children.mounted);

    let _key = b.hook.throw(ErrorValue::new("boom".to_string()));
    b.apply_transition(&mut state);

    // fallback visible: mount/unmount/elements go to it
    state.mount(1, None);
    assert!(state.fallback.as_ref().unwrap().mounted);
    assert_eq!(state.elements().len(), 1);
    state.unmount();
    assert!(!state.fallback.as_ref().unwrap().mounted);

    // splicing before the state mounts the spliced-in child
    let mut other = ViewNode::Text("x".to_string()).build(&mut b.hook);
    assert!(state.insert_before_this(&mut other));
    assert!(other.mounted);
}

#[test]
fn insert_before_a_state_with_no_nodes_reports_failure() {
    let mut b = ErrorBoundary(ViewNode::Nothing, text("<p>fallback</p>"), None);
    let state = b.build();
    let mut other = ViewNode::Text("x".to_string()).build(&mut b.hook);
    assert!(!state.insert_before_this(&mut other));
    assert!(!other.mounted);
}

#[test]
fn boundary_ids_come_from_the_context_generator() {
    let sc = SharedContext::new();
    let b1 = ErrorBoundary(text("a"), text("f"), Some(sc));
    assert_eq!(b1.boundary_id, 0);
    let sc = b1.hook.shared_context.unwrap();
    let b2 = ErrorBoundary(text("b"), text("f"), Some(sc));
    assert_eq!(b2.boundary_id, 1);
}
