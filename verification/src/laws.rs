//! The engine's guarantees, stated and proved against the model that
//! `analyze` returns exactly.

use vstd::prelude::*;
use crate::bytes;
use crate::engine::Config;
use crate::engine::FindingModel;
use crate::engine::Rule;
use crate::engine::call_symbol;
use crate::engine::child_perm;
use crate::engine::fn_marker_missing_spec;
use crate::engine::block_marker_missing_spec;
use crate::engine::guarded_findings_at;
use crate::engine::marks_child;
use crate::engine::node_findings;
use crate::engine::restricted_direct_call;
use crate::engine::safety_findings_at;
use crate::engine::unit_findings;
use crate::engine::unqualified_findings_at;
use crate::engine::unqualified_restricted_call;
use crate::engine::walk_children_model;
use crate::engine::walk_model;
use crate::marker;
use crate::tree::Node;
use crate::tree::NodeKind;
use crate::tree::Unit;

verus! {

/// `n` is a direct call node.
pub open spec fn is_direct_call(n: Node) -> bool {
    n.kind is Call
}

/// The number of path segments a direct call was spelled with.
pub open spec fn call_segment_count(n: Node) -> int {
    match n.kind {
        NodeKind::Call { callee } => callee.segments as int,
        _ => 0,
    }
}

/// Inside a subtree visited with permission in force, the guarded-call
/// rule stays silent at every depth: permission inherits downward through
/// arbitrarily nested closures, so no call anywhere below yields a
/// guarded-call finding.
pub proof fn lemma_permitted_subtree_exempt(n: Node, src: Option<Vec<u8>>, cfg: Config)
    ensures
        forall|k: int|
            0 <= k < walk_model(n, true, src, cfg).len() ==> walk_model(n, true, src, cfg)[k].rule
                != Rule::GuardedCall,
    decreases n, n.children@.len() + 1,
{
    assert(guarded_findings_at(n, true, cfg) =~= Seq::<FindingModel>::empty());
    lemma_permitted_children_exempt(n, 0, src, cfg);
    assert forall|k: int| 0 <= k < walk_model(n, true, src, cfg).len() implies walk_model(
        n,
        true,
        src,
        cfg,
    )[k].rule != Rule::GuardedCall by {
        let own = node_findings(n, true, src, cfg);
        if k >= own.len() {
            assert(walk_model(n, true, src, cfg)[k] == walk_children_model(n, 0, true, src, cfg)[
                k - own.len()]);
        }
    }
}

/// Helper for `lemma_permitted_subtree_exempt`: the children of a node
/// visited with permission in force are themselves visited with
/// permission in force.
proof fn lemma_permitted_children_exempt(n: Node, i: int, src: Option<Vec<u8>>, cfg: Config)
    ensures
        forall|k: int|
            0 <= k < walk_children_model(n, i, true, src, cfg).len() ==> walk_children_model(
                n,
                i,
                true,
                src,
                cfg,
            )[k].rule != Rule::GuardedCall,
    decreases n, n.children@.len() - i,
{
    if 0 <= i < n.children@.len() {
        assert(child_perm(n, true, i, cfg));
        lemma_permitted_subtree_exempt(n.children@[i], src, cfg);
        lemma_permitted_children_exempt(n, i + 1, src, cfg);
        assert forall|k: int|
            0 <= k < walk_children_model(n, i, true, src, cfg).len() implies walk_children_model(
            n,
            i,
            true,
            src,
            cfg,
        )[k].rule != Rule::GuardedCall by {
            let head = walk_model(n.children@[i], true, src, cfg);
            if k >= head.len() {
                assert(walk_children_model(n, i, true, src, cfg)[k] == walk_children_model(
                    n,
                    i + 1,
                    true,
                    src,
                    cfg,
                )[k - head.len()]);
            }
        }
    }
}

/// A closure marked as the argument of a wrapper call is walked with
/// permission in force, whatever was in force outside, and so no call
/// nested at any depth inside it yields a guarded-call finding.
pub proof fn lemma_wrapper_closure_arg_exempt(
    n: Node,
    perm: bool,
    src: Option<Vec<u8>>,
    cfg: Config,
    i: int,
)
    requires
        0 <= i < n.children@.len(),
        marks_child(n, i, cfg),
    ensures
        child_perm(n, perm, i, cfg),
        forall|k: int|
            0 <= k < walk_model(n.children@[i], child_perm(n, perm, i, cfg), src, cfg).len()
                ==> walk_model(n.children@[i], child_perm(n, perm, i, cfg), src, cfg)[k].rule
                != Rule::GuardedCall,
{
    lemma_permitted_subtree_exempt(n.children@[i], src, cfg);
}

/// A direct call that resolves to the restricted origin, visited with no
/// permission in force, yields a guarded-call finding at exactly the
/// call's span, and that finding comes first among the node's findings.
pub proof fn lemma_unpermitted_restricted_call_flagged(n: Node, src: Option<Vec<u8>>, cfg: Config)
    requires
        cfg.guarded_calls,
        restricted_direct_call(n, cfg),
    ensures
        walk_model(n, false, src, cfg).len() > 0,
        walk_model(n, false, src, cfg)[0] == (FindingModel {
            rule: Rule::GuardedCall,
            span: n.span,
            symbol: None,
        }),
{
    let own = node_findings(n, false, src, cfg);
    assert(own[0] == guarded_findings_at(n, false, cfg)[0]);
    assert(walk_model(n, false, src, cfg)[0] == own[0]);
}

/// A call spelled with two or more path segments never yields a
/// qualification finding, whatever it resolves to.
pub proof fn lemma_qualified_call_exempt(n: Node, cfg: Config)
    requires
        is_direct_call(n),
        call_segment_count(n) >= 2,
    ensures
        unqualified_findings_at(n, cfg) == Seq::<FindingModel>::empty(),
{
}

/// A call spelled as a bare single-segment name that resolves into the
/// restricted family always yields a qualification finding naming the
/// symbol, whatever permission is in force.
pub proof fn lemma_bare_restricted_call_flagged(
    n: Node,
    perm: bool,
    src: Option<Vec<u8>>,
    cfg: Config,
)
    requires
        cfg.qualified_refs,
        unqualified_restricted_call(n, cfg),
    ensures
        unqualified_findings_at(n, cfg) == seq![
            FindingModel { rule: Rule::UnqualifiedRef, span: n.span, symbol: Some(call_symbol(n)) },
        ],
        walk_model(n, perm, src, cfg).contains(
            FindingModel { rule: Rule::UnqualifiedRef, span: n.span, symbol: Some(call_symbol(n)) },
        ),
{
    let g = guarded_findings_at(n, perm, cfg);
    let own = node_findings(n, perm, src, cfg);
    let f = FindingModel { rule: Rule::UnqualifiedRef, span: n.span, symbol: Some(call_symbol(n)) };
    assert(own[g.len() as int] == f);
    assert(walk_model(n, perm, src, cfg)[g.len() as int] == own[g.len() as int]);
}

/// An unsafe function whose lookback window contains the heading token is
/// not flagged by the safety-marker rule.
pub proof fn lemma_unsafe_fn_heading_present(n: Node, s: Vec<u8>, cfg: Config)
    requires
        n.kind == (NodeKind::FnItem { is_unsafe: true }),
        n.span.start <= s@.len(),
        bytes::contains_bytes(
            s@.subrange(
                marker::window_lo(n.span.start as int, cfg.fn_window as int),
                n.span.start as int,
            ),
            cfg.heading@,
        ),
    ensures
        safety_findings_at(n, Some(s), cfg) == Seq::<FindingModel>::empty(),
{
    assert(!fn_marker_missing_spec(Some(s), n.span.start, cfg));
}

/// An unsafe function whose readable lookback window lacks the heading
/// token is flagged exactly once, at the function's span.
pub proof fn lemma_unsafe_fn_heading_absent(n: Node, s: Vec<u8>, cfg: Config)
    requires
        cfg.safety_markers,
        n.kind == (NodeKind::FnItem { is_unsafe: true }),
        n.span.start <= s@.len(),
        !bytes::contains_bytes(
            s@.subrange(
                marker::window_lo(n.span.start as int, cfg.fn_window as int),
                n.span.start as int,
            ),
            cfg.heading@,
        ),
    ensures
        safety_findings_at(n, Some(s), cfg) == seq![
            FindingModel { rule: Rule::MissingSafetyComment, span: n.span, symbol: None },
        ],
{
}

/// An empty unsafe block never yields a finding, whatever precedes it and
/// whether or not the source text is available.
pub proof fn lemma_empty_unsafe_block_exempt(n: Node, src: Option<Vec<u8>>, cfg: Config)
    requires
        n.kind == (NodeKind::UnsafeBlock { body_start: None }),
    ensures
        safety_findings_at(n, src, cfg) == Seq::<FindingModel>::empty(),
{
}

/// A non-empty unsafe block whose window up to its first statement holds
/// a line opening with a recognized prefix is not flagged.
pub proof fn lemma_unsafe_block_marker_present(n: Node, s: Vec<u8>, b: usize, cfg: Config)
    requires
        n.kind == (NodeKind::UnsafeBlock { body_start: Some(b) }),
        b <= s@.len(),
        marker::line_marker_present(
            s@.subrange(marker::window_lo(n.span.start as int, cfg.block_window as int), b as int),
            cfg.prefixes@,
        ),
    ensures
        safety_findings_at(n, Some(s), cfg) == Seq::<FindingModel>::empty(),
{
    assert(!block_marker_missing_spec(Some(s), n.span.start, b, cfg));
}

/// A non-empty unsafe block with a readable window and no recognized
/// marker line is flagged exactly once, at the block's span.
pub proof fn lemma_unsafe_block_marker_absent(n: Node, s: Vec<u8>, b: usize, cfg: Config)
    requires
        cfg.safety_markers,
        n.kind == (NodeKind::UnsafeBlock { body_start: Some(b) }),
        b <= s@.len(),
        !marker::line_marker_present(
            s@.subrange(marker::window_lo(n.span.start as int, cfg.block_window as int), b as int),
            cfg.prefixes@,
        ),
    ensures
        safety_findings_at(n, Some(s), cfg) == seq![
            FindingModel { rule: Rule::MissingSafetyComment, span: n.span, symbol: None },
        ],
{
}

/// The engine is deterministic: any two finding sequences that satisfy
/// `analyze`'s contract for the same unchanged unit and configuration are
/// identical, in order and in content.
pub proof fn lemma_analysis_deterministic(
    u: Unit,
    cfg: Config,
    f1: Seq<FindingModel>,
    f2: Seq<FindingModel>,
)
    requires
        f1 == unit_findings(u, cfg),
        f2 == unit_findings(u, cfg),
    ensures
        f1 == f2,
{
}

} // verus!
