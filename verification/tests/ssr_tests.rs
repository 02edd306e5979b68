use error_boundary::ErrorBoundary;
use error_boundary::ErrorValue;
use error_boundary::StreamBuilder;
use error_boundary::StreamChunk;
use error_boundary::ViewNode;
use error_boundary::flatten_chunks;

fn text(s: &str) -> ViewNode {
    ViewNode::Text(s.to_string())
}

fn throw(s: &str) -> ViewNode {
    ViewNode::Throw(ErrorValue::new(s.to_string()))
}

fn pair(a: ViewNode, b: ViewNode) -> ViewNode {
    ViewNode::Pair(Box::new(a), Box::new(b))
}

fn suspend(v: ViewNode) -> ViewNode {
    ViewNode::Suspend(Box::new(v))
}

fn chunk_to_string(c: &StreamChunk) -> String {
    match c {
        StreamChunk::Sync(s) => s.clone(),
        StreamChunk::Async(cs) => chunks_to_string(cs),
        StreamChunk::OutOfOrder(cs) => chunks_to_string(cs),
    }
}

fn chunks_to_string(cs: &[StreamChunk]) -> String {
    let mut out = String::new();
    for c in cs {
        out.push_str(&chunk_to_string(c));
    }
    out
}

#[test]
fn sync_serialization_emits_children_when_nothing_throws() {
    let mut b = ErrorBoundary(
        pair(text("<p>a</p>"), text("<p>b</p>")),
        text("<p>fallback</p>"),
        None,
    );
    let mut buf = String::new();
    b.to_html_with_buf(&mut buf);
    assert_eq!(buf, "<p>a</p><p>b</p>");
}

#[test]
fn sync_serialization_with_a_throw_emits_exactly_the_fallback() {
    // never a mix of partial children output and fallback output
    let mut b = ErrorBoundary(
        pair(text("<p>partial</p>"), throw("boom")),
        text("<p>fallback</p>"),
        None,
    );
    let mut buf = String::new();
    b.to_html_with_buf(&mut buf);
    assert_eq!(buf, "<p>fallback</p>");
}

#[test]
fn sync_serialization_appends_after_existing_output() {
    let mut b = ErrorBoundary(text("<p>ok</p>"), text("<p>fallback</p>"), None);
    let mut buf = String::from("<head/>");
    b.to_html_with_buf(&mut buf);
    assert_eq!(buf, "<head/><p>ok</p>");
}

#[test]
fn stream_builder_coalesces_sync_text_and_keeps_order() {
    let mut buf = StreamBuilder::new();
    buf.push_sync("a");
    buf.push_sync("b");
    buf.push_async(vec![StreamChunk::Sync("c".to_string())]);
    buf.push_sync("d");
    let chunks = buf.take_chunks();
    assert_eq!(chunks_to_string(&chunks), "abcd");
}

#[test]
fn stream_builder_append_preserves_relative_order() {
    let mut a = StreamBuilder::new();
    a.push_sync("one");
    let mut b = StreamBuilder::new();
    b.push_sync("two");
    b.push_async(vec![StreamChunk::Sync("three".to_string())]);
    a.append(b);
    let chunks = a.take_chunks();
    assert_eq!(chunks_to_string(&chunks), "onetwothree");
}

#[test]
fn output_order_matches_document_order_not_resolution_order() {
    // sibling deferred chunks: the second one's content becomes available
    // first, but each resolves in the slot reserved for it
    let b_content = vec![StreamChunk::Sync("B-content".to_string())];
    let a_content = vec![StreamChunk::Sync("A-content".to_string())];
    let chunks = vec![StreamChunk::Async(a_content), StreamChunk::Async(b_content)];
    let flat = flatten_chunks(chunks);
    assert_eq!(chunks_to_string(&flat), "A-contentB-content");
    // the flattened stream holds the resolved text in document order
    assert!(matches!(&flat[0], StreamChunk::Sync(s) if s == "A-content"));
    assert!(matches!(&flat[1], StreamChunk::Sync(s) if s == "B-content"));
}

#[test]
fn flattening_keeps_an_out_of_order_chunk_in_its_position_slot() {
    let chunks = vec![
        StreamChunk::Sync("before".to_string()),
        StreamChunk::OutOfOrder(vec![StreamChunk::Sync("late".to_string())]),
        StreamChunk::Sync("after".to_string()),
    ];
    let flat = flatten_chunks(chunks);
    assert_eq!(flat.len(), 3);
    assert!(matches!(&flat[1], StreamChunk::OutOfOrder(_)));
    assert_eq!(chunks_to_string(&flat), "beforelateafter");
}

#[test]
fn async_serialization_without_suspense_behaves_like_sync() {
    let mut b = ErrorBoundary(
        pair(text("<p>a</p>"), text("<p>b</p>")),
        text("<p>fallback</p>"),
        None,
    );
    let mut buf = StreamBuilder::new();
    b.to_html_async_with_buf(&mut buf, false);
    let chunks = buf.take_chunks();
    assert_eq!(chunks_to_string(&chunks), "<p>a</p><p>b</p>");
}

#[test]
fn async_serialization_with_a_throw_emits_exactly_the_fallback() {
    let mut b = ErrorBoundary(
        pair(text("<p>partial</p>"), throw("boom")),
        text("<p>fallback</p>"),
        None,
    );
    let mut buf = StreamBuilder::new();
    b.to_html_async_with_buf(&mut buf, false);
    let chunks = buf.take_chunks();
    assert_eq!(chunks_to_string(&chunks), "<p>fallback</p>");
}

#[test]
fn suspended_sub_views_get_deferred_slots_in_document_order() {
    let mut b = ErrorBoundary(
        pair(
            suspend(text("A-content")),
            pair(text("middle"), suspend(text("B-content"))),
        ),
        text("<p>fallback</p>"),
        None,
    );
    let mut buf = StreamBuilder::new();
    b.to_html_async_with_buf(&mut buf, false);
    let chunks = buf.take_chunks();
    assert_eq!(chunks_to_string(&chunks), "A-contentmiddleB-content");
}

#[test]
fn out_of_order_mode_marks_suspended_slots_out_of_order() {
    let mut b = ErrorBoundary(suspend(text("late")), text("<p>fallback</p>"), None);
    let mut buf = StreamBuilder::new();
    b.to_html_async_with_buf(&mut buf, true);
    let chunks = buf.take_chunks();
    assert!(matches!(&chunks[0], StreamChunk::OutOfOrder(_)));
    assert_eq!(chunks_to_string(&chunks), "late");
}

#[test]
fn boundary_with_suspense_reserves_one_slot_for_its_whole_output() {
    let mut b = ErrorBoundary(
        pair(text("lead"), suspend(text("rest"))),
        text("<p>fallback</p>"),
        None,
    );
    b.register_suspended_child();
    let mut buf = StreamBuilder::new();
    b.to_html_async_with_buf(&mut buf, false);
    assert_eq!(b.suspended_children, 0);
    let chunks = buf.take_chunks();
    // the whole boundary occupies a single deferred slot
    assert_eq!(chunks.len(), 1);
    assert!(matches!(&chunks[0], StreamChunk::Async(_)));
    assert_eq!(chunks_to_string(&chunks), "leadrest");
}

#[test]
fn finishing_step_discards_children_chunks_when_errors_exist() {
    let mut b = ErrorBoundary(text("<p>child</p>"), text("<p>fallback</p>"), None);
    let _key = b.hook.throw(ErrorValue::new("late failure".to_string()));
    let child_chunks = vec![
        StreamChunk::Sync("partial".to_string()),
        StreamChunk::Async(vec![StreamChunk::Sync("more".to_string())]),
    ];
    let out = b.finish_async_boundary(child_chunks);
    assert_eq!(out.len(), 1);
    assert!(matches!(&out[0], StreamChunk::Sync(s) if s == "<p>fallback</p>"));
}

#[test]
fn finishing_step_flattens_children_chunks_when_no_errors_exist() {
    let mut b = ErrorBoundary(text("<p>child</p>"), text("<p>fallback</p>"), None);
    let child_chunks = vec![
        StreamChunk::Sync("a".to_string()),
        StreamChunk::Async(vec![
            StreamChunk::Sync("b".to_string()),
            StreamChunk::Sync("c".to_string()),
        ]),
    ];
    let out = b.finish_async_boundary(child_chunks);
    assert_eq!(out.len(), 3);
    assert_eq!(chunks_to_string(&out), "abc");
}

#[test]
fn resolve_settles_suspensions_and_keeps_content() {
    let b = ErrorBoundary(
        pair(text("a"), suspend(text("b"))),
        text("<p>fallback</p>"),
        None,
    );
    let mut resolved = b.resolve();
    match &resolved.children {
        ViewNode::Pair(_, second) => {
            assert!(matches!(**second, ViewNode::Text(_)));
        }
        other => panic!("expected a pair after resolution, got {:?}", other_kind(other)),
    }
    let mut buf = String::new();
    resolved.to_html_with_buf(&mut buf);
    assert_eq!(buf, "ab");
}

fn other_kind(v: &ViewNode) -> &'static str {
    match v {
        ViewNode::Nothing => "nothing",
        ViewNode::Text(_) => "text",
        ViewNode::Throw(_) => "throw",
        ViewNode::Pair(_, _) => "pair",
        ViewNode::Suspend(_) => "suspend",
    }
}
