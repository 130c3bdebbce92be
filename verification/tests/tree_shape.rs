use obs_conventions::tree::Node;
use obs_conventions::tree::NodeKind;
use obs_conventions::tree::Span;
use obs_conventions::tree::is_well_formed;

fn leaf(id: u64, start: usize, end: usize) -> Node {
    Node { id, kind: NodeKind::Other, span: Span { start, end }, children: Vec::new() }
}

#[test]
fn well_formed_tree_is_accepted() {
    let tree = Node {
        id: 0,
        kind: NodeKind::Other,
        span: Span { start: 0, end: 50 },
        children: vec![leaf(1, 0, 10), leaf(2, 11, 20)],
    };
    assert!(is_well_formed(&tree));
}

#[test]
fn duplicated_identity_is_rejected() {
    let tree = Node {
        id: 0,
        kind: NodeKind::Other,
        span: Span { start: 0, end: 50 },
        children: vec![leaf(1, 0, 10), leaf(1, 11, 20)],
    };
    assert!(!is_well_formed(&tree));
}

#[test]
fn identity_shared_with_a_descendant_is_rejected() {
    let tree = Node {
        id: 7,
        kind: NodeKind::Other,
        span: Span { start: 0, end: 50 },
        children: vec![leaf(7, 0, 10)],
    };
    assert!(!is_well_formed(&tree));
}

#[test]
fn reversed_span_is_rejected() {
    assert!(!is_well_formed(&leaf(0, 9, 3)));
}

#[test]
fn block_body_outside_its_span_is_rejected() {
    let block = Node {
        id: 0,
        kind: NodeKind::UnsafeBlock { body_start: Some(90) },
        span: Span { start: 10, end: 40 },
        children: Vec::new(),
    };
    assert!(!is_well_formed(&block));
    let fine = Node {
        id: 0,
        kind: NodeKind::UnsafeBlock { body_start: Some(20) },
        span: Span { start: 10, end: 40 },
        children: Vec::new(),
    };
    assert!(is_well_formed(&fine));
}
