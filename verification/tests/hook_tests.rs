use error_boundary::ErrorBoundaryErrorHook;
use error_boundary::ErrorId;
use error_boundary::ErrorValue;
use error_boundary::HookScope;
use error_boundary::SharedContext;

fn err(msg: &str) -> ErrorValue {
    ErrorValue::new(msg.to_string())
}

#[test]
fn throw_assigns_fresh_identities_from_the_context() {
    let sc = SharedContext::new();
    let mut hook = ErrorBoundaryErrorHook::new(7, Vec::new(), Some(sc));
    let k1 = hook.throw(err("a"));
    let k2 = hook.throw(err("b"));
    assert_eq!(k1, ErrorId(0));
    assert_eq!(k2, ErrorId(1));
    assert!(!hook.errors.is_empty());
}

#[test]
fn throw_registers_with_the_serialization_context() {
    let sc = SharedContext::new();
    let mut hook = ErrorBoundaryErrorHook::new(7, Vec::new(), Some(sc));
    let k = hook.throw(err("recorded"));
    let sc = hook.shared_context.take().unwrap();
    assert_eq!(sc.registered.len(), 1);
    assert_eq!(sc.registered[0].0, 7);
    assert_eq!(sc.registered[0].1, k);
    assert_eq!(sc.registered[0].2.msg, "recorded");
}

#[test]
fn throw_without_context_uses_the_default_identity() {
    let mut hook = ErrorBoundaryErrorHook::new(0, Vec::new(), None);
    let k1 = hook.throw(err("a"));
    let k2 = hook.throw(err("b"));
    assert_eq!(k1, ErrorId::default());
    assert_eq!(k2, ErrorId::default());
    assert!(!hook.errors.is_empty());
    hook.clear(&k1);
    assert!(hook.errors.is_empty());
}

#[test]
fn clear_removes_what_throw_registered() {
    let mut hook = ErrorBoundaryErrorHook::new(0, Vec::new(), Some(SharedContext::new()));
    let k = hook.throw(err("to clear"));
    assert!(!hook.errors.is_empty());
    hook.clear(&k);
    assert!(hook.errors.is_empty());
    // clearing again is a no-op
    hook.clear(&k);
    assert!(hook.errors.is_empty());
}

#[test]
fn new_seeds_the_registry_with_initial_errors() {
    let initial = vec![(ErrorId(4), err("from the server"))];
    let hook = ErrorBoundaryErrorHook::new(1, initial, None);
    assert!(!hook.errors.is_empty());
    let mut it = hook.errors.iter();
    let entry = it.next().unwrap();
    assert_eq!(entry.0, ErrorId(4));
    assert_eq!(entry.1.msg, "from the server");
    assert!(it.next().is_none());
}

#[test]
fn context_lookup_returns_only_the_boundarys_errors_in_order() {
    let mut sc = SharedContext::new();
    sc.register_error(3, ErrorId(10), err("three-a"));
    sc.register_error(4, ErrorId(11), err("four"));
    sc.register_error(3, ErrorId(12), err("three-b"));
    let for3 = sc.errors(3);
    assert_eq!(for3.len(), 2);
    assert_eq!(for3[0].0, ErrorId(10));
    assert_eq!(for3[0].1.msg, "three-a");
    assert_eq!(for3[1].0, ErrorId(12));
    assert_eq!(for3[1].1.msg, "three-b");
    let for4 = sc.errors(4);
    assert_eq!(for4.len(), 1);
    assert_eq!(for4[0].0, ErrorId(11));
    let for5 = sc.errors(5);
    assert!(for5.is_empty());
}

#[test]
fn identity_generator_is_sequential() {
    let mut sc = SharedContext::new();
    assert_eq!(sc.next_id(), 0);
    assert_eq!(sc.next_id(), 1);
    assert_eq!(sc.next_id(), 2);
}

#[test]
fn hook_scope_nests_and_restores() {
    let mut scope = HookScope::new();
    assert!(scope.current.is_none());

    let outer = ErrorBoundaryErrorHook::new(1, Vec::new(), None);
    let g1 = scope.set_error_hook(outer);
    assert_eq!(scope.current.as_ref().unwrap().id, 1);

    // a nested boundary installs its own hook for its own render step
    let inner = ErrorBoundaryErrorHook::new(2, Vec::new(), None);
    let g2 = scope.set_error_hook(inner);
    assert_eq!(scope.current.as_ref().unwrap().id, 2);

    // releasing the inner guard restores the outer hook
    scope.reset_error_hook(g2);
    assert_eq!(scope.current.as_ref().unwrap().id, 1);

    // releasing the outer guard restores the empty state
    scope.reset_error_hook(g1);
    assert!(scope.current.is_none());
}

#[test]
fn later_initial_entries_override_earlier_ones() {
    let initial = vec![(ErrorId(1), err("first")), (ErrorId(1), err("second"))];
    let hook = ErrorBoundaryErrorHook::new(0, initial, None);
    let mut it = hook.errors.iter();
    let entry = it.next().unwrap();
    assert_eq!(entry.0, ErrorId(1));
    assert_eq!(entry.1.msg, "second");
    assert!(it.next().is_none());
}

#[test]
fn identity_generator_saturates_at_the_largest_identity() {
    let mut sc = SharedContext::new();
    sc.next = u64::MAX - 1;
    assert_eq!(sc.next_id(), u64::MAX - 1);
    assert_eq!(sc.next_id(), u64::MAX);
    assert_eq!(sc.next_id(), u64::MAX);
}
