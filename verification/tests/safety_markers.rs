use obs_conventions::engine::Config;
use obs_conventions::engine::Rule;
use obs_conventions::engine::analyze;
use obs_conventions::tree::Node;
use obs_conventions::tree::NodeKind;
use obs_conventions::tree::Span;
use obs_conventions::tree::Unit;

fn span(start: usize, end: usize) -> Span {
    Span { start, end }
}

fn unsafe_fn(id: u64, sp: Span) -> Node {
    Node { id, kind: NodeKind::FnItem { is_unsafe: true }, span: sp, children: Vec::new() }
}

fn safe_fn(id: u64, sp: Span) -> Node {
    Node { id, kind: NodeKind::FnItem { is_unsafe: false }, span: sp, children: Vec::new() }
}

fn unsafe_block(id: u64, sp: Span, body_start: Option<usize>) -> Node {
    Node { id, kind: NodeKind::UnsafeBlock { body_start }, span: sp, children: Vec::new() }
}

fn root(children: Vec<Node>, end: usize) -> Node {
    Node { id: 0, kind: NodeKind::Other, span: span(0, end), children }
}

fn unit_with(source: &str, children: Vec<Node>) -> Unit {
    let end = source.len();
    Unit { root: root(children, end), source: Some(source.as_bytes().to_vec()) }
}

#[test]
fn undocumented_unsafe_fn_is_flagged() {
    let src = "fn a() {}\n\nunsafe fn h() {}\n";
    let start = src.find("unsafe fn h").unwrap();
    let unit = unit_with(src, vec![unsafe_fn(1, span(start, start + 16))]);
    let findings = analyze(&unit, &Config::obs_defaults());
    assert_eq!(findings.len(), 1);
    assert_eq!(findings[0].rule, Rule::MissingSafetyComment);
    assert_eq!(findings[0].span, span(start, start + 16));
}

#[test]
fn heading_in_window_satisfies_the_fn_check() {
    let src = "/// # Safety\n///\n/// The pointer must be valid.\nunsafe fn h() {}\n";
    let start = src.find("unsafe fn h").unwrap();
    let unit = unit_with(src, vec![unsafe_fn(1, span(start, start + 16))]);
    let findings = analyze(&unit, &Config::obs_defaults());
    assert!(findings.is_empty());
}

#[test]
fn unrelated_text_of_same_length_does_not_satisfy() {
    let src = "/// # Safely\n///\n/// The pointer must be valid.\nunsafe fn h() {}\n";
    let start = src.find("unsafe fn h").unwrap();
    let unit = unit_with(src, vec![unsafe_fn(1, span(start, start + 16))]);
    let findings = analyze(&unit, &Config::obs_defaults());
    assert_eq!(findings.len(), 1);
    assert_eq!(findings[0].rule, Rule::MissingSafetyComment);
}

#[test]
fn heading_beyond_the_window_is_missed() {
    // The heading sits more than the window size before the function,
    // so the bounded lookback does not see it: the accepted trade-off
    // of the textual heuristic.
    let mut src = String::from("/// # Safety\n");
    src.push_str(&"x".repeat(1200));
    src.push_str("\nunsafe fn far() {}\n");
    let start = src.find("unsafe fn far").unwrap();
    let unit = unit_with(&src, vec![unsafe_fn(1, span(start, start + 18))]);
    let findings = analyze(&unit, &Config::obs_defaults());
    assert_eq!(findings.len(), 1);
}

#[test]
fn heading_anywhere_in_window_counts() {
    // The heading inside unrelated preceding text still satisfies the
    // heuristic.
    let src = "fn a() { let s = \"# Safety\"; }\nunsafe fn h() {}\n";
    let start = src.find("unsafe fn h").unwrap();
    let unit = unit_with(src, vec![unsafe_fn(1, span(start, start + 16))]);
    let findings = analyze(&unit, &Config::obs_defaults());
    assert!(findings.is_empty());
}

#[test]
fn safe_fn_needs_no_heading() {
    let src = "fn plain() {}\n";
    let unit = unit_with(src, vec![safe_fn(1, span(0, 13))]);
    let findings = analyze(&unit, &Config::obs_defaults());
    assert!(findings.is_empty());
}

#[test]
fn empty_unsafe_block_never_flagged() {
    let src = "fn a() { unsafe {} }\n";
    let start = src.find("unsafe").unwrap();
    let unit = unit_with(src, vec![unsafe_block(1, span(start, start + 9), None)]);
    let findings = analyze(&unit, &Config::obs_defaults());
    assert!(findings.is_empty());
}

#[test]
fn safety_line_above_block_satisfies_the_check() {
    let src = "fn a() {\n    // SAFETY: checked\n    unsafe { call(); }\n}\n";
    let start = src.find("unsafe").unwrap();
    let body = src.find("call").unwrap();
    let unit = unit_with(src, vec![unsafe_block(1, span(start, start + 18), Some(body))]);
    let findings = analyze(&unit, &Config::obs_defaults());
    assert!(findings.is_empty());
}

#[test]
fn titlecase_safety_line_also_satisfies() {
    let src = "fn a() {\n    // Safety: checked\n    unsafe { call(); }\n}\n";
    let start = src.find("unsafe").unwrap();
    let body = src.find("call").unwrap();
    let unit = unit_with(src, vec![unsafe_block(1, span(start, start + 18), Some(body))]);
    let findings = analyze(&unit, &Config::obs_defaults());
    assert!(findings.is_empty());
}

#[test]
fn undocumented_block_is_flagged_at_block_span() {
    let src = "fn a() {\n    unsafe { call(); }\n}\n";
    let start = src.find("unsafe").unwrap();
    let body = src.find("call").unwrap();
    let unit = unit_with(src, vec![unsafe_block(1, span(start, start + 18), Some(body))]);
    let findings = analyze(&unit, &Config::obs_defaults());
    assert_eq!(findings.len(), 1);
    assert_eq!(findings[0].rule, Rule::MissingSafetyComment);
    assert_eq!(findings[0].span, span(start, start + 18));
}

#[test]
fn lowercase_marker_does_not_satisfy() {
    let src = "fn a() {\n    // safety: checked\n    unsafe { call(); }\n}\n";
    let start = src.find("unsafe").unwrap();
    let body = src.find("call").unwrap();
    let unit = unit_with(src, vec![unsafe_block(1, span(start, start + 18), Some(body))]);
    let findings = analyze(&unit, &Config::obs_defaults());
    assert_eq!(findings.len(), 1);
}

#[test]
fn marker_embedded_mid_line_does_not_satisfy() {
    // The block check is the line-scan variant: the prefix must open a
    // line after leading blanks only.
    let src = "fn a() {\n    let x = 1; // SAFETY: checked\n    unsafe { call(); }\n}\n";
    let start = src.find("unsafe").unwrap();
    let body = src.find("call").unwrap();
    let unit = unit_with(src, vec![unsafe_block(1, span(start, start + 18), Some(body))]);
    let findings = analyze(&unit, &Config::obs_defaults());
    assert_eq!(findings.len(), 1);
}

#[test]
fn missing_source_text_skips_safety_checks() {
    let unit = Unit {
        root: root(
            vec![unsafe_fn(1, span(0, 16)), unsafe_block(2, span(20, 38), Some(29))],
            40,
        ),
        source: None,
    };
    let findings = analyze(&unit, &Config::obs_defaults());
    assert!(findings.is_empty());
}

#[test]
fn unreadable_range_skips_the_check() {
    // A span past the end of the available text cannot be extracted:
    // the check is skipped rather than flagged.
    let src = "short\n";
    let unit = unit_with(src, vec![unsafe_fn(1, span(500, 516))]);
    let findings = analyze(&unit, &Config::obs_defaults());
    assert!(findings.is_empty());
}

#[test]
fn marker_between_brace_and_first_statement_counts() {
    // The window reaches up to the first statement, so a marker line
    // between the opening brace and the body also satisfies the check.
    let src = "fn a() {\n    unsafe {\n        // SAFETY: checked\n        call();\n    }\n}\n";
    let start = src.find("unsafe").unwrap();
    let body = src.find("call").unwrap();
    let unit = unit_with(src, vec![unsafe_block(1, span(start, body + 10), Some(body))]);
    let findings = analyze(&unit, &Config::obs_defaults());
    assert!(findings.is_empty());
}
