//! The rule engine: one pre-order walk of the tree per compilation unit,
//! dispatching the three convention checks and streaming findings out in
//! source traversal order.
//!
//! The mathematical model is `walk_model`: a recursive function from a
//! tree, the permission in force, the source text and the configuration
//! to the exact finding sequence.  `analyze` returns precisely that
//! sequence, so the engine is deterministic by contract: two runs over the
//! same unchanged tree yield identical findings.

use vstd::prelude::*;
use crate::bytes;
use crate::marker;
use crate::origin;
use crate::scope::AllowedClosures;
use crate::scope::ScopeStack;
use crate::scope::effective;
use crate::tree::Node;
use crate::tree::NodeKind;
use crate::tree::Span;
use crate::tree::Unit;
use crate::tree::desc_ids;
use crate::tree::forest_id_set;
use crate::tree::id_set;
use crate::tree::lemma_forest_id_set_member;
use crate::tree::lemma_id_in_id_set;
use crate::tree::lemma_wf_forest_disjoint;
use crate::tree::lemma_wf_forest_member;
use crate::tree::node_local_wf;
use crate::tree::wf_node;

verus! {

/// The three rule kinds.
#[derive(Clone, Copy, Debug, PartialEq, Eq, Structural)]
pub enum Rule {
    /// A restricted call outside every guarded closure.
    GuardedCall,
    /// A restricted symbol called through an unqualified, single-segment
    /// spelling.
    UnqualifiedRef,
    /// An unsafe function or non-empty unsafe block without a safety
    /// marker.
    MissingSafetyComment,
}

/// The severity of a finding; every rule reports at the same level.
#[derive(Clone, Copy, Debug, PartialEq, Eq, Structural)]
pub enum Severity {
    Warn,
}

/// One emitted violation: the rule, the span it points at, and, for the
/// qualification rule, the unqualified symbol.  Rendering a finding as a
/// diagnostic belongs to the reporting collaborator.
#[derive(Clone, Debug, PartialEq, Eq)]
pub struct Finding {
    pub rule: Rule,
    pub span: Span,
    pub symbol: Option<Vec<u8>>,
}

/// The mathematical value of a finding.
#[verifier::ext_equal]
pub ghost struct FindingModel {
    pub rule: Rule,
    pub span: Span,
    pub symbol: Option<Seq<u8>>,
}

impl View for Finding {
    type V = FindingModel;

    open spec fn view(&self) -> FindingModel {
        FindingModel {
            rule: self.rule,
            span: self.span,
            symbol: match self.symbol {
                Some(v) => Some(v@),
                None => None,
            },
        }
    }
}

impl Finding {
    /// Every finding of this engine is reported at the same severity.
    pub fn severity(&self) -> (r: Severity)
        ensures
            r == Severity::Warn,
    {
        Severity::Warn
    }
}

/// The engine's configuration: which rules run, the restricted namespace,
/// the wrapper names whose closure arguments are guarded, the marker
/// patterns, and the two lookback windows.
pub struct Config {
    pub guarded_calls: bool,
    pub qualified_refs: bool,
    pub safety_markers: bool,
    pub restricted: Vec<u8>,
    pub wrappers: Vec<Vec<u8>>,
    pub heading: Vec<u8>,
    pub prefixes: Vec<Vec<u8>>,
    pub fn_window: usize,
    pub block_window: usize,
}

/// The restricted namespace of the stock configuration: `libobs`.
pub open spec fn default_restricted() -> Seq<u8> {
    seq![108u8, 105u8, 98u8, 111u8, 98u8, 115u8]
}

/// The first stock wrapper name: `run_with_obs`.
pub open spec fn default_wrapper_run() -> Seq<u8> {
    seq![114u8, 117u8, 110u8, 95u8, 119u8, 105u8, 116u8, 104u8, 95u8, 111u8, 98u8, 115u8]
}

/// The second stock wrapper name: `run_with_obs_result`.
pub open spec fn default_wrapper_run_result() -> Seq<u8> {
    seq![
        114u8, 117u8, 110u8, 95u8, 119u8, 105u8, 116u8, 104u8, 95u8, 111u8, 98u8, 115u8, 95u8,
        114u8, 101u8, 115u8, 117u8, 108u8, 116u8,
    ]
}

/// The stock heading token for unsafe functions: `# Safety`.
pub open spec fn default_heading() -> Seq<u8> {
    seq![35u8, 32u8, 83u8, 97u8, 102u8, 101u8, 116u8, 121u8]
}

/// The first stock line prefix for unsafe blocks: `// SAFETY:`.
pub open spec fn default_prefix_upper() -> Seq<u8> {
    seq![47u8, 47u8, 32u8, 83u8, 65u8, 70u8, 69u8, 84u8, 89u8, 58u8]
}

/// The second stock line prefix for unsafe blocks: `// Safety:`.
pub open spec fn default_prefix_title() -> Seq<u8> {
    seq![47u8, 47u8, 32u8, 83u8, 97u8, 102u8, 101u8, 116u8, 121u8, 58u8]
}

impl Config {
    /// The stock configuration: all three rules on, `libobs` as the
    /// restricted namespace, the two runtime helpers as wrappers, the
    /// conventional marker patterns, and the tuned lookback windows.
    pub fn obs_defaults() -> (r: Config)
        ensures
            r.guarded_calls,
            r.qualified_refs,
            r.safety_markers,
            r.restricted@ == default_restricted(),
            r.wrappers@.len() == 2,
            r.wrappers@[0]@ == default_wrapper_run(),
            r.wrappers@[1]@ == default_wrapper_run_result(),
            r.heading@ == default_heading(),
            r.prefixes@.len() == 2,
            r.prefixes@[0]@ == default_prefix_upper(),
            r.prefixes@[1]@ == default_prefix_title(),
            r.fn_window == 1000,
            r.block_window == 300,
    {
        let wrappers: Vec<Vec<u8>> = vec![
            vec![114u8, 117u8, 110u8, 95u8, 119u8, 105u8, 116u8, 104u8, 95u8, 111u8, 98u8, 115u8],
            vec![
                114u8, 117u8, 110u8, 95u8, 119u8, 105u8, 116u8, 104u8, 95u8, 111u8, 98u8, 115u8,
                95u8, 114u8, 101u8, 115u8, 117u8, 108u8, 116u8,
            ],
        ];
        let prefixes: Vec<Vec<u8>> = vec![
            vec![47u8, 47u8, 32u8, 83u8, 65u8, 70u8, 69u8, 84u8, 89u8, 58u8],
            vec![47u8, 47u8, 32u8, 83u8, 97u8, 102u8, 101u8, 116u8, 121u8, 58u8],
        ];
        Config {
            guarded_calls: true,
            qualified_refs: true,
            safety_markers: true,
            restricted: vec![108u8, 105u8, 98u8, 111u8, 98u8, 115u8],
            wrappers,
            heading: vec![35u8, 32u8, 83u8, 97u8, 102u8, 101u8, 116u8, 121u8],
            prefixes,
            fn_window: 1000,
            block_window: 300,
        }
    }
}

/// `name` is one of the configured wrapper names.
pub open spec fn wrapper_name(cfg: Config, name: Seq<u8>) -> bool {
    exists|i: int| 0 <= i < cfg.wrappers@.len() && cfg.wrappers@[i]@ == name
}

/// `n` is a call or method call to a configured wrapper name.
pub open spec fn wrapper_call(n: Node, cfg: Config) -> bool {
    match n.kind {
        NodeKind::Call { callee } => wrapper_name(cfg, callee.name@),
        NodeKind::MethodCall { name } => wrapper_name(cfg, name@),
        _ => false,
    }
}

/// Child `i` of `n` sits in argument position: every child of a direct
/// call, and every child but the receiver of a method call.
pub open spec fn arg_position(n: Node, i: int) -> bool {
    match n.kind {
        NodeKind::Call { .. } => true,
        NodeKind::MethodCall { .. } => i >= 1,
        _ => false,
    }
}

/// The wrapper rule marks child `i` of `n` as a guarded closure: `n` is a
/// wrapper call and the child is a closure in argument position.
pub open spec fn marks_child(n: Node, i: int, cfg: Config) -> bool {
    wrapper_call(n, cfg) && arg_position(n, i) && n.children@[i].kind is Closure
}

/// The permission in force inside child `i` of `n` when `perm` is in
/// force at `n`: a closure child inherits `perm` or is marked; any other
/// child passes `perm` through unchanged.
pub open spec fn child_perm(n: Node, perm: bool, i: int, cfg: Config) -> bool {
    if n.children@[i].kind is Closure {
        perm || marks_child(n, i, cfg)
    } else {
        perm
    }
}

/// `n` is a direct call whose callee resolved to the restricted namespace
/// under the exact-match strategy.  An unresolved callee never matches.
pub open spec fn restricted_direct_call(n: Node, cfg: Config) -> bool {
    match n.kind {
        NodeKind::Call { callee } => match callee.resolution {
            Some(d) => origin::exact_origin(d.krate@, cfg.restricted@),
            None => false,
        },
        _ => false,
    }
}

/// `n` is a direct call spelled as a bare single-segment name whose callee
/// resolved into the restricted family.  An unresolved callee never
/// matches.
pub open spec fn unqualified_restricted_call(n: Node, cfg: Config) -> bool {
    match n.kind {
        NodeKind::Call { callee } => callee.segments == 1 && match callee.resolution {
            Some(d) => origin::family_origin(d.krate@, cfg.restricted@),
            None => false,
        },
        _ => false,
    }
}

/// The symbol a qualification finding carries: the callee's final path
/// segment, when `n` is a direct call.
pub open spec fn call_symbol(n: Node) -> Seq<u8> {
    match n.kind {
        NodeKind::Call { callee } => callee.name@,
        _ => Seq::empty(),
    }
}

/// The guarded-call rule's findings at `n` itself, with permission `perm`
/// in force.
pub open spec fn guarded_findings_at(n: Node, perm: bool, cfg: Config) -> Seq<FindingModel> {
    if cfg.guarded_calls && restricted_direct_call(n, cfg) && !perm {
        seq![FindingModel { rule: Rule::GuardedCall, span: n.span, symbol: None }]
    } else {
        Seq::empty()
    }
}

/// The qualification rule's findings at `n` itself.
pub open spec fn unqualified_findings_at(n: Node, cfg: Config) -> Seq<FindingModel> {
    if cfg.qualified_refs && unqualified_restricted_call(n, cfg) {
        seq![FindingModel { rule: Rule::UnqualifiedRef, span: n.span, symbol: Some(call_symbol(n)) }]
    } else {
        Seq::empty()
    }
}

/// The function-level safety check flags an unsafe function starting at
/// `start`: the window before it can be read and lacks the heading token.
/// Unavailable source text or an unreadable range skips the check.
pub open spec fn fn_marker_missing_spec(src: Option<Vec<u8>>, start: usize, cfg: Config) -> bool {
    match src {
        Some(s) => start <= s@.len() && !bytes::contains_bytes(
            s@.subrange(marker::window_lo(start as int, cfg.fn_window as int), start as int),
            cfg.heading@,
        ),
        None => false,
    }
}

/// The block-level safety check flags a non-empty unsafe block starting at
/// `span_start` whose first statement starts at `body_start`: the window
/// before the body can be read and no line in it opens with a recognized
/// prefix.  Unavailable source text or an unreadable range skips the
/// check.
pub open spec fn block_marker_missing_spec(
    src: Option<Vec<u8>>,
    span_start: usize,
    body_start: usize,
    cfg: Config,
) -> bool {
    match src {
        Some(s) => body_start <= s@.len() && !marker::line_marker_present(
            s@.subrange(
                marker::window_lo(span_start as int, cfg.block_window as int),
                body_start as int,
            ),
            cfg.prefixes@,
        ),
        None => false,
    }
}

/// The safety-marker rule's findings at `n` itself.  An empty unsafe
/// block never yields a finding.
pub open spec fn safety_findings_at(n: Node, src: Option<Vec<u8>>, cfg: Config) -> Seq<
    FindingModel,
> {
    if !cfg.safety_markers {
        Seq::empty()
    } else {
        match n.kind {
            NodeKind::FnItem { is_unsafe } => if is_unsafe && fn_marker_missing_spec(
                src,
                n.span.start,
                cfg,
            ) {
                seq![FindingModel { rule: Rule::MissingSafetyComment, span: n.span, symbol: None }]
            } else {
                Seq::empty()
            },
            NodeKind::UnsafeBlock { body_start } => match body_start {
                Some(b) => if block_marker_missing_spec(src, n.span.start, b, cfg) {
                    seq![
                        FindingModel {
                            rule: Rule::MissingSafetyComment,
                            span: n.span,
                            symbol: None,
                        },
                    ]
                } else {
                    Seq::empty()
                },
                None => Seq::empty(),
            },
            _ => Seq::empty(),
        }
    }
}

/// All findings at `n` itself, in rule order: guarded call, then
/// qualification, then safety marker.
pub open spec fn node_findings(n: Node, perm: bool, src: Option<Vec<u8>>, cfg: Config) -> Seq<
    FindingModel,
> {
    guarded_findings_at(n, perm, cfg) + unqualified_findings_at(n, cfg) + safety_findings_at(
        n,
        src,
        cfg,
    )
}

/// The findings of the subtree rooted at `n`, visited pre-order with
/// permission `perm` in force at `n`.
pub open spec fn walk_model(n: Node, perm: bool, src: Option<Vec<u8>>, cfg: Config) -> Seq<
    FindingModel,
>
    decreases n, n.children@.len() + 1,
{
    node_findings(n, perm, src, cfg) + walk_children_model(n, 0, perm, src, cfg)
}

/// The findings of the children of `n` from index `i` on, in order.
pub open spec fn walk_children_model(
    n: Node,
    i: int,
    perm: bool,
    src: Option<Vec<u8>>,
    cfg: Config,
) -> Seq<FindingModel>
    decreases n, n.children@.len() - i,
{
    if 0 <= i < n.children@.len() {
        walk_model(n.children@[i], child_perm(n, perm, i, cfg), src, cfg) + walk_children_model(
            n,
            i + 1,
            perm,
            src,
            cfg,
        )
    } else {
        Seq::empty()
    }
}

/// The findings of one compilation unit: a fresh walk of its tree, with
/// no closure open and nothing marked.
pub open spec fn unit_findings(u: Unit, cfg: Config) -> Seq<FindingModel> {
    walk_model(u.root, false, u.source, cfg)
}

/// The mathematical values of a finding vector, in order.
pub open spec fn views(s: Seq<Finding>) -> Seq<FindingModel> {
    s.map_values(|f: Finding| f@)
}

proof fn lemma_views_push(s: Seq<Finding>, f: Finding)
    ensures
        views(s.push(f)) == views(s).push(f@),
{
    assert(views(s.push(f)) =~= views(s).push(f@));
}

/// Whether `name` is one of the configured wrapper names.
fn name_in_wrappers(name: &Vec<u8>, cfg: &Config) -> (r: bool)
    ensures
        r == wrapper_name(*cfg, name@),
{
    let mut i: usize = 0;
    while i < cfg.wrappers.len()
        invariant
            i <= cfg.wrappers@.len(),
            forall|k: int| 0 <= k < i ==> cfg.wrappers@[k]@ != name@,
        decreases cfg.wrappers@.len() - i,
    {
        if bytes::bytes_eq(&cfg.wrappers[i], name) {
            assert(cfg.wrappers@[i as int]@ == name@);
            return true;
        }
        i = i + 1;
    }
    false
}

/// Whether `n` is a call or method call to a configured wrapper name.
fn is_wrapper_call_node(n: &Node, cfg: &Config) -> (r: bool)
    ensures
        r == wrapper_call(*n, *cfg),
{
    match &n.kind {
        NodeKind::Call { callee } => name_in_wrappers(&callee.name, cfg),
        NodeKind::MethodCall { name } => name_in_wrappers(name, cfg),
        _ => false,
    }
}

/// The mutable context of one traversal: the scope stack, the
/// allowed-closure set, and the findings collected so far.  Constructed
/// fresh for every unit.
struct WalkState {
    stack: ScopeStack,
    allowed: AllowedClosures,
    findings: Vec<Finding>,
}

/// Emit the findings of the three rules at node `n` itself, with
/// permission `permitted` in force.
fn emit_node_findings(
    n: &Node,
    permitted: bool,
    src: &Option<Vec<u8>>,
    cfg: &Config,
    st: &mut WalkState,
)
    requires
        node_local_wf(*n),
    ensures
        final(st).stack@ == old(st).stack@,
        final(st).allowed@ == old(st).allowed@,
        views(final(st).findings@) == views(old(st).findings@) + node_findings(
            *n,
            permitted,
            *src,
            *cfg,
        ),
{
    let ghost g = guarded_findings_at(*n, permitted, *cfg);
    let ghost u = unqualified_findings_at(*n, *cfg);
    let ghost sf = safety_findings_at(*n, *src, *cfg);
    match &n.kind {
        NodeKind::Call { callee } => {
            if cfg.guarded_calls && !permitted {
                match &callee.resolution {
                    Some(d) => {
                        if origin::is_exact_origin(&d.krate, &cfg.restricted) {
                            let f = Finding { rule: Rule::GuardedCall, span: n.span, symbol: None };
                            proof {
                                lemma_views_push(st.findings@, f);
                            }
                            st.findings.push(f);
                        }
                    },
                    None => {},
                }
            }
            proof {
                assert(views(st.findings@) =~= views(old(st).findings@) + g);
            }
            let ghost mid = st.findings@;
            if cfg.qualified_refs && callee.segments == 1 {
                match &callee.resolution {
                    Some(d) => {
                        if origin::is_family_origin(&d.krate, &cfg.restricted) {
                            let f = Finding {
                                rule: Rule::UnqualifiedRef,
                                span: n.span,
                                symbol: Some(bytes::copy(&callee.name)),
                            };
                            proof {
                                lemma_views_push(st.findings@, f);
                            }
                            st.findings.push(f);
                        }
                    },
                    None => {},
                }
            }
            proof {
                assert(views(st.findings@) =~= views(mid) + u);
                assert(sf =~= Seq::<FindingModel>::empty());
                assert(views(st.findings@) =~= views(old(st).findings@) + (g + u + sf));
            }
        },
        NodeKind::FnItem { is_unsafe } => {
            if *is_unsafe && cfg.safety_markers {
                match src {
                    Some(s) => {
                        if marker::fn_marker_missing(s, n.span.start, cfg.fn_window, &cfg.heading) {
                            let f = Finding {
                                rule: Rule::MissingSafetyComment,
                                span: n.span,
                                symbol: None,
                            };
                            proof {
                                lemma_views_push(st.findings@, f);
                            }
                            st.findings.push(f);
                        }
                    },
                    None => {},
                }
            }
            proof {
                assert(views(st.findings@) =~= views(old(st).findings@) + (g + u + sf));
            }
        },
        NodeKind::UnsafeBlock { body_start } => {
            if cfg.safety_markers {
                match body_start {
                    Some(b) => {
                        match src {
                            Some(s) => {
                                if marker::block_marker_missing(
                                    s,
                                    n.span.start,
                                    *b,
                                    cfg.block_window,
                                    &cfg.prefixes,
                                ) {
                                    let f = Finding {
                                        rule: Rule::MissingSafetyComment,
                                        span: n.span,
                                        symbol: None,
                                    };
                                    proof {
                                        lemma_views_push(st.findings@, f);
                                    }
                                    st.findings.push(f);
                                }
                            },
                            None => {},
                        }
                    },
                    None => {},
                }
            }
            proof {
                assert(views(st.findings@) =~= views(old(st).findings@) + (g + u + sf));
            }
        },
        _ => {
            proof {
                assert(views(st.findings@) =~= views(old(st).findings@) + (g + u + sf));
            }
        },
    }
}

/// Walk the subtree rooted at `n` pre-order: mark the closure arguments
/// of a wrapper call before descending, check the rules at each node, and
/// pair one stack push with one pop around every closure.
fn walk(n: &Node, src: &Option<Vec<u8>>, cfg: &Config, st: &mut WalkState)
    requires
        wf_node(*n),
        old(st).allowed@.disjoint(desc_ids(*n)),
    ensures
        final(st).stack@ == old(st).stack@,
        views(final(st).findings@) == views(old(st).findings@) + walk_model(
            *n,
            effective(old(st).stack@),
            *src,
            *cfg,
        ),
        old(st).allowed@.subset_of(final(st).allowed@),
        forall|x: u64|
            final(st).allowed@.contains(x) ==> old(st).allowed@.contains(x) || desc_ids(
                *n,
            ).contains(x),
    decreases *n,
{
    let ghost perm0 = effective(old(st).stack@);
    let ghost allowed0 = old(st).allowed@;
    let is_wrapper = is_wrapper_call_node(n, cfg);
    if is_wrapper {
        let mut i: usize = 0;
        while i < n.children.len()
            invariant
                i <= n.children@.len(),
                st.stack@ == old(st).stack@,
                st.findings@ == old(st).findings@,
                wrapper_call(*n, *cfg),
                allowed0 == old(st).allowed@,
                allowed0.subset_of(st.allowed@),
                forall|x: u64|
                    st.allowed@.contains(x) ==> allowed0.contains(x) || exists|c: int|
                        0 <= c < i && marks_child(*n, c, *cfg) && x == n.children@[c].id,
                forall|c: int|
                    0 <= c < i && marks_child(*n, c, *cfg) ==> st.allowed@.contains(
                        n.children@[c].id,
                    ),
            decreases n.children@.len() - i,
        {
            let c = &n.children[i];
            let ghost allowed_pre = st.allowed@;
            let is_arg = match &n.kind {
                NodeKind::Call { .. } => true,
                NodeKind::MethodCall { .. } => i >= 1,
                _ => false,
            };
            let is_cl = match &c.kind {
                NodeKind::Closure => true,
                _ => false,
            };
            if is_arg && is_cl {
                st.allowed.insert(c.id);
            }
            proof {
                assert forall|x: u64|
                    st.allowed@.contains(x) implies allowed0.contains(x) || exists|c2: int|
                    0 <= c2 < i + 1 && marks_child(*n, c2, *cfg) && x == n.children@[c2].id by {
                    if allowed_pre.contains(x) {
                        if !allowed0.contains(x) {
                            let c2 = choose|c2: int|
                                0 <= c2 < i && marks_child(*n, c2, *cfg) && x
                                    == n.children@[c2].id;
                            assert(0 <= c2 < i + 1 && marks_child(*n, c2, *cfg) && x
                                == n.children@[c2].id);
                        }
                    } else {
                        assert(marks_child(*n, i as int, *cfg));
                        assert(x == n.children@[i as int].id);
                    }
                }
            }
            i = i + 1;
        }
    }
    proof {
        assert forall|c: int| 0 <= c < n.children@.len() implies (st.allowed@.contains(
            n.children@[c].id,
        ) <==> marks_child(*n, c, *cfg)) by {
            let x = n.children@[c].id;
            lemma_wf_forest_member(n.children@, c);
            lemma_id_in_id_set(n.children@[c]);
            lemma_forest_id_set_member(n.children@, c);
            assert(desc_ids(*n).contains(x));
            assert(!allowed0.contains(x));
            if st.allowed@.contains(x) && !marks_child(*n, c, *cfg) {
                let c2 = choose|c2: int|
                    0 <= c2 < n.children@.len() && marks_child(*n, c2, *cfg) && x
                        == n.children@[c2].id;
                lemma_id_in_id_set(n.children@[c2]);
                lemma_wf_forest_disjoint(n.children@, c, c2);
                assert(false);
            }
        }
        assert forall|c: int| 0 <= c < n.children@.len() implies st.allowed@.disjoint(
            desc_ids(n.children@[c]),
        ) by {
            lemma_wf_forest_member(n.children@, c);
            lemma_forest_id_set_member(n.children@, c);
            assert forall|x: u64|
                st.allowed@.contains(x) && desc_ids(n.children@[c]).contains(x) implies false by {
                assert(id_set(n.children@[c]).contains(x));
                assert(desc_ids(*n).contains(x));
                if allowed0.contains(x) {
                    assert(false);
                } else {
                    let c2 = choose|c2: int|
                        0 <= c2 < n.children@.len() && marks_child(*n, c2, *cfg) && x
                            == n.children@[c2].id;
                    if c2 == c {
                        assert(!desc_ids(n.children@[c]).contains(x));
                    } else {
                        lemma_id_in_id_set(n.children@[c2]);
                        lemma_wf_forest_disjoint(n.children@, c, c2);
                    }
                    assert(false);
                }
            }
        }
        assert forall|x: u64|
            st.allowed@.contains(x) implies allowed0.contains(x) || desc_ids(*n).contains(x) by {
            if !allowed0.contains(x) {
                let c2 = choose|c2: int|
                    0 <= c2 < n.children@.len() && marks_child(*n, c2, *cfg) && x
                        == n.children@[c2].id;
                lemma_id_in_id_set(n.children@[c2]);
                lemma_forest_id_set_member(n.children@, c2);
            }
        }
    }
    let permitted = st.stack.currently_allowed();
    emit_node_findings(n, permitted, src, cfg, st);
    proof {
        assert(views(st.findings@) + walk_children_model(*n, 0, perm0, *src, *cfg) =~= views(
            old(st).findings@,
        ) + walk_model(*n, perm0, *src, *cfg));
    }
    let mut i: usize = 0;
    while i < n.children.len()
        invariant
            i <= n.children@.len(),
            wf_node(*n),
            st.stack@ == old(st).stack@,
            perm0 == effective(st.stack@),
            allowed0 == old(st).allowed@,
            views(st.findings@) + walk_children_model(*n, i as int, perm0, *src, *cfg) == views(
                old(st).findings@,
            ) + walk_model(*n, perm0, *src, *cfg),
            allowed0.subset_of(st.allowed@),
            forall|x: u64|
                st.allowed@.contains(x) ==> allowed0.contains(x) || desc_ids(*n).contains(x),
            forall|c: int|
                0 <= c < n.children@.len() ==> (st.allowed@.contains(n.children@[c].id)
                    <==> marks_child(*n, c, *cfg)),
            forall|c: int|
                i <= c < n.children@.len() ==> st.allowed@.disjoint(desc_ids(n.children@[c])),
        decreases n.children@.len() - i,
    {
        let c = &n.children[i];
        proof {
            lemma_wf_forest_member(n.children@, i as int);
        }
        let ghost allowed_before = st.allowed@;
        let ghost findings_before = st.findings@;
        let is_cl = match &c.kind {
            NodeKind::Closure => true,
            _ => false,
        };
        if is_cl {
            let m = st.allowed.contains(c.id);
            assert(m == marks_child(*n, i as int, *cfg));
            st.stack.push_closure_allowed(m);
            assert(effective(st.stack@) == child_perm(*n, perm0, i as int, *cfg));
            walk(c, src, cfg, st);
            st.stack.pop_closure_allowed();
            proof {
                assert(st.stack@ =~= old(st).stack@);
            }
        } else {
            assert(child_perm(*n, perm0, i as int, *cfg) == perm0);
            walk(c, src, cfg, st);
        }
        proof {
            assert(views(st.findings@) =~= views(findings_before) + walk_model(
                n.children@[i as int],
                child_perm(*n, perm0, i as int, *cfg),
                *src,
                *cfg,
            ));
            assert(walk_children_model(*n, i as int, perm0, *src, *cfg) =~= walk_model(
                n.children@[i as int],
                child_perm(*n, perm0, i as int, *cfg),
                *src,
                *cfg,
            ) + walk_children_model(*n, i + 1, perm0, *src, *cfg));
            assert(views(st.findings@) + walk_children_model(*n, i + 1, perm0, *src, *cfg)
                =~= views(findings_before) + walk_children_model(*n, i as int, perm0, *src, *cfg));
            assert forall|c0: int| 0 <= c0 < n.children@.len() implies (st.allowed@.contains(
                n.children@[c0].id,
            ) <==> marks_child(*n, c0, *cfg)) by {
                let x = n.children@[c0].id;
                if st.allowed@.contains(x) && !allowed_before.contains(x) {
                    assert(desc_ids(n.children@[i as int]).contains(x));
                    lemma_wf_forest_member(n.children@, c0);
                    lemma_id_in_id_set(n.children@[c0]);
                    if c0 == i as int {
                        assert(false);
                    } else {
                        lemma_wf_forest_disjoint(n.children@, c0, i as int);
                        assert(id_set(n.children@[i as int]).contains(x));
                        assert(false);
                    }
                }
            }
            assert forall|c0: int| i + 1 <= c0 < n.children@.len() implies st.allowed@.disjoint(
                desc_ids(n.children@[c0]),
            ) by {
                assert forall|x: u64|
                    st.allowed@.contains(x) && desc_ids(n.children@[c0]).contains(
                        x,
                    ) implies false by {
                    assert(id_set(n.children@[c0]).contains(x));
                    if allowed_before.contains(x) {
                        assert(false);
                    } else {
                        assert(desc_ids(n.children@[i as int]).contains(x));
                        assert(id_set(n.children@[i as int]).contains(x));
                        lemma_wf_forest_disjoint(n.children@, c0, i as int);
                        assert(false);
                    }
                }
            }
            assert forall|x: u64|
                st.allowed@.contains(x) implies allowed0.contains(x) || desc_ids(*n).contains(
                    x,
                ) by {
                if !allowed_before.contains(x) {
                    assert(desc_ids(n.children@[i as int]).contains(x));
                    assert(id_set(n.children@[i as int]).contains(x));
                    lemma_forest_id_set_member(n.children@, i as int);
                }
            }
        }
        i = i + 1;
    }
    proof {
        assert(walk_children_model(*n, n.children@.len() as int, perm0, *src, *cfg)
            =~= Seq::<FindingModel>::empty());
        assert(views(st.findings@) =~= views(st.findings@) + Seq::<FindingModel>::empty());
    }
}

/// Analyze one compilation unit: walk its tree once with a fresh scope
/// stack and a fresh allowed-closure set, and return every finding in
/// source traversal order.  The result is exactly `unit_findings`, a
/// function of the unit and the configuration alone, so repeated runs
/// over the same unchanged tree return identical sequences.
/// Validate a unit's tree and analyze it: the findings for a well-formed
/// tree, and nothing for a malformed one, whose walk the engine does not
/// define.
pub fn analyze_checked(unit: &Unit, cfg: &Config) -> (r: Option<Vec<Finding>>)
    ensures
        match r {
            Some(findings) => wf_node(unit.root) && views(findings@) == unit_findings(
                *unit,
                *cfg,
            ),
            None => !wf_node(unit.root),
        },
{
    if crate::tree::is_well_formed(&unit.root) {
        Some(analyze(unit, cfg))
    } else {
        None
    }
}

pub fn analyze(unit: &Unit, cfg: &Config) -> (findings: Vec<Finding>)
    requires
        wf_node(unit.root),
    ensures
        views(findings@) == unit_findings(*unit, *cfg),
{
    let mut st = WalkState {
        stack: ScopeStack::new(),
        allowed: AllowedClosures::new(),
        findings: Vec::new(),
    };
    proof {
        assert(st.allowed@.disjoint(desc_ids(unit.root)));
        assert(!effective(st.stack@));
        assert(views(st.findings@) =~= Seq::<FindingModel>::empty());
    }
    walk(&unit.root, &unit.source, cfg, &mut st);
    proof {
        assert(views(st.findings@) =~= unit_findings(*unit, *cfg));
    }
    st.findings
}

} // verus!
