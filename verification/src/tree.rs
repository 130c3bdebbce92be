//! The program tree handed to the engine by the front end.
//!
//! The front end that parses source text, resolves names and assigns byte
//! spans is an external collaborator.  It hands the engine one tree per
//! compilation unit, with every fact the rules read already attached as a
//! plain value: the node kind, the byte span, the resolved origin of a
//! callee, and the number of path segments the call was spelled with.

use vstd::prelude::*;

verus! {

/// A half-open byte range `[start, end)` within the unit's source file.
#[derive(Clone, Copy, Debug, PartialEq, Eq, Structural)]
pub struct Span {
    pub start: usize,
    pub end: usize,
}

/// The resolved target of a call: the crate or module that defines it and
/// the local name of the definition.  Produced by the external resolver.
#[derive(Clone, Debug)]
pub struct DefRef {
    pub krate: Vec<u8>,
    pub name: Vec<u8>,
}

/// What the engine knows about the callee of a direct call: the final path
/// segment it was spelled with, how many path segments the spelling had,
/// and the resolved definition, if resolution succeeded.
#[derive(Clone, Debug)]
pub struct Callee {
    pub name: Vec<u8>,
    pub segments: usize,
    pub resolution: Option<DefRef>,
}

/// The kind discriminant of a tree node.  Kinds the rules never read are
/// collapsed into `Other`; their subtrees are still walked.
#[derive(Debug)]
pub enum NodeKind {
    /// A direct function call.  The children are the argument expressions.
    Call { callee: Callee },
    /// A method call.  The first child is the receiver; the remaining
    /// children are the argument expressions.
    MethodCall { name: Vec<u8> },
    /// A closure or function literal.
    Closure,
    /// A block whose execution mode is unsafe.  `body_start` is the byte
    /// position of its first statement or trailing expression, or `None`
    /// when the block is empty.
    UnsafeBlock { body_start: Option<usize> },
    /// A function item; `is_unsafe` records an unsafe signature.
    FnItem { is_unsafe: bool },
    /// An import statement.
    Import,
    /// Any other node.
    Other,
}

/// One node of the tree: an identity, a kind, a span, and the children in
/// source order.
pub struct Node {
    pub id: u64,
    pub kind: NodeKind,
    pub span: Span,
    pub children: Vec<Node>,
}

/// One compilation unit: the root of its tree and, when the source-text
/// service can supply it, the raw bytes of its file.  `source == None`
/// stands for the service answering that the text is not available.
pub struct Unit {
    pub root: Node,
    pub source: Option<Vec<u8>>,
}

/// The identities of every node in the subtree rooted at `n`, `n` included.
pub open spec fn id_set(n: Node) -> Set<u64>
    decreases n,
{
    forest_id_set(n.children@).insert(n.id)
}

/// The identities of every node of every tree in the forest `s`.
pub open spec fn forest_id_set(s: Seq<Node>) -> Set<u64>
    decreases s,
{
    if s.len() == 0 {
        Set::empty()
    } else {
        id_set(s[0]).union(forest_id_set(s.drop_first()))
    }
}

/// The identities strictly below `n`.
pub open spec fn desc_ids(n: Node) -> Set<u64> {
    forest_id_set(n.children@)
}

/// Facts local to one node: the span is ordered, and an unsafe block's
/// first statement does not start before the block does, nor after it ends.
pub open spec fn node_local_wf(n: Node) -> bool {
    &&& n.span.start <= n.span.end
    &&& match n.kind {
        NodeKind::UnsafeBlock { body_start: Some(b) } => n.span.start <= b <= n.span.end,
        _ => true,
    }
}

/// Well-formedness of a whole subtree: every node is locally well formed,
/// no node's identity recurs among its descendants, and sibling subtrees
/// share no identities.  The front end owns node identities and assigns
/// them uniquely; the engine's walk relies on that uniqueness when it
/// consults the allowed-closure set.
pub open spec fn wf_node(n: Node) -> bool
    decreases n,
{
    &&& node_local_wf(n)
    &&& !forest_id_set(n.children@).contains(n.id)
    &&& wf_forest(n.children@)
}

/// Well-formedness of a forest: each tree is well formed and no identity
/// occurs in two of the trees.
pub open spec fn wf_forest(s: Seq<Node>) -> bool
    decreases s,
{
    if s.len() == 0 {
        true
    } else {
        &&& wf_node(s[0])
        &&& id_set(s[0]).disjoint(forest_id_set(s.drop_first()))
        &&& wf_forest(s.drop_first())
    }
}

/// A tree's own identity belongs to its identity set.
pub proof fn lemma_id_in_id_set(n: Node)
    ensures
        id_set(n).contains(n.id),
{
}

/// Every tree of a forest contributes its whole identity set to the forest's.
pub proof fn lemma_forest_id_set_member(s: Seq<Node>, i: int)
    requires
        0 <= i < s.len(),
    ensures
        id_set(s[i]).subset_of(forest_id_set(s)),
    decreases s.len(),
{
    if i > 0 {
        lemma_forest_id_set_member(s.drop_first(), i - 1);
        assert(s.drop_first()[i - 1] == s[i]);
    }
}

/// In a well-formed forest every tree is well formed.
pub proof fn lemma_wf_forest_member(s: Seq<Node>, i: int)
    requires
        wf_forest(s),
        0 <= i < s.len(),
    ensures
        wf_node(s[i]),
    decreases s.len(),
{
    if i > 0 {
        lemma_wf_forest_member(s.drop_first(), i - 1);
        assert(s.drop_first()[i - 1] == s[i]);
    }
}

proof fn lemma_to_set_push(s: Seq<u64>, x: u64)
    ensures
        s.push(x).to_set() == s.to_set().insert(x),
{
    assert forall|y: u64| s.push(x).to_set().contains(y) implies s.to_set().insert(x).contains(
        y,
    ) by {
        let i = choose|i: int| 0 <= i < s.push(x).len() && s.push(x)[i] == y;
        if i < s.len() {
            assert(s[i] == y);
        }
    }
    assert forall|y: u64| s.to_set().insert(x).contains(y) implies s.push(x).to_set().contains(
        y,
    ) by {
        if y == x {
            assert(s.push(x)[s.len() as int] == y);
        } else {
            let i = choose|i: int| 0 <= i < s.len() && s[i] == y;
            assert(s.push(x)[i] == y);
        }
    }
    assert(s.push(x).to_set() =~= s.to_set().insert(x));
}

/// Whether `x` occurs in `v`.
fn id_in(v: &Vec<u64>, x: u64) -> (r: bool)
    ensures
        r == v@.contains(x),
{
    let mut i: usize = 0;
    while i < v.len()
        invariant
            i <= v@.len(),
            forall|k: int| 0 <= k < i ==> v@[k] != x,
        decreases v@.len() - i,
    {
        if v[i] == x {
            assert(v@.contains(x));
            return true;
        }
        i = i + 1;
    }
    false
}

/// Append the identities of the subtree rooted at `n` to `out`.
fn push_subtree_ids(n: &Node, out: &mut Vec<u64>)
    ensures
        final(out)@.to_set() == old(out)@.to_set().union(id_set(*n)),
    decreases *n, 0int,
{
    out.push(n.id);
    proof {
        lemma_to_set_push(old(out)@, n.id);
    }
    push_forest_ids(&n.children, 0, out);
    proof {
        assert(n.children@.skip(0) =~= n.children@);
        assert(out@.to_set() =~= old(out)@.to_set().union(id_set(*n)));
    }
}

/// Append the identities of the forest `s` from index `i` on to `out`.
fn push_forest_ids(s: &Vec<Node>, i: usize, out: &mut Vec<u64>)
    requires
        i <= s@.len(),
    ensures
        final(out)@.to_set() == old(out)@.to_set().union(forest_id_set(s@.skip(i as int))),
    decreases s@, s@.len() - i,
{
    if i < s.len() {
        push_subtree_ids(&s[i], out);
        push_forest_ids(s, i + 1, out);
        proof {
            assert(s@.skip(i as int)[0] == s@[i as int]);
            assert(s@.skip(i as int).drop_first() =~= s@.skip(i as int + 1));
            assert(out@.to_set() =~= old(out)@.to_set().union(forest_id_set(s@.skip(i as int))));
        }
    } else {
        proof {
            assert(s@.skip(i as int) =~= Seq::<Node>::empty());
            assert(out@.to_set() =~= old(out)@.to_set().union(
                forest_id_set(s@.skip(i as int)),
            ));
        }
    }
}

/// Whether two identity lists share no element.
fn ids_disjoint(a: &Vec<u64>, b: &Vec<u64>) -> (r: bool)
    ensures
        r == a@.to_set().disjoint(b@.to_set()),
{
    let mut i: usize = 0;
    while i < a.len()
        invariant
            i <= a@.len(),
            forall|k: int| 0 <= k < i ==> !b@.contains(a@[k]),
        decreases a@.len() - i,
    {
        if id_in(b, a[i]) {
            assert(a@.to_set().contains(a@[i as int]));
            return false;
        }
        i = i + 1;
    }
    proof {
        assert forall|x: u64| a@.to_set().contains(x) implies !b@.to_set().contains(x) by {
            let k = choose|k: int| 0 <= k < a@.len() && a@[k] == x;
        }
    }
    true
}

/// Whether the subtree rooted at `n` is well formed.  A driver can
/// validate a tree it assembled before handing it to the engine, which
/// expects a well-formed one.
pub fn is_well_formed(n: &Node) -> (r: bool)
    ensures
        r == wf_node(*n),
    decreases *n, 2int,
{
    let span_ok = n.span.start <= n.span.end;
    let kind_ok = match &n.kind {
        NodeKind::UnsafeBlock { body_start } => match body_start {
            Some(b) => n.span.start <= *b && *b <= n.span.end,
            None => true,
        },
        _ => true,
    };
    if !span_ok || !kind_ok {
        return false;
    }
    let mut desc: Vec<u64> = Vec::new();
    push_forest_ids(&n.children, 0, &mut desc);
    proof {
        assert(n.children@.skip(0) =~= n.children@);
        assert(desc@.to_set() =~= forest_id_set(n.children@));
    }
    if id_in(&desc, n.id) {
        return false;
    }
    wf_forest_from(&n.children, 0)
}

/// Whether the forest `s` is well formed from index `i` on.
fn wf_forest_from(s: &Vec<Node>, i: usize) -> (r: bool)
    requires
        i <= s@.len(),
    ensures
        r == wf_forest(s@.skip(i as int)),
    decreases s@, s@.len() - i,
{
    if i == s.len() {
        proof {
            assert(s@.skip(i as int) =~= Seq::<Node>::empty());
        }
        return true;
    }
    proof {
        assert(s@.skip(i as int)[0] == s@[i as int]);
        assert(s@.skip(i as int).drop_first() =~= s@.skip(i as int + 1));
    }
    if !is_well_formed(&s[i]) {
        return false;
    }
    let mut head: Vec<u64> = Vec::new();
    push_subtree_ids(&s[i], &mut head);
    let mut rest: Vec<u64> = Vec::new();
    push_forest_ids(s, i + 1, &mut rest);
    proof {
        assert(head@.to_set() =~= id_set(s@[i as int]));
        assert(rest@.to_set() =~= forest_id_set(s@.skip(i as int + 1)));
    }
    if !ids_disjoint(&head, &rest) {
        return false;
    }
    wf_forest_from(s, i + 1)
}

/// In a well-formed forest two distinct trees share no identities.
pub proof fn lemma_wf_forest_disjoint(s: Seq<Node>, i: int, j: int)
    requires
        wf_forest(s),
        0 <= i < s.len(),
        0 <= j < s.len(),
        i != j,
    ensures
        id_set(s[i]).disjoint(id_set(s[j])),
    decreases s.len(),
{
    if i == 0 {
        lemma_forest_id_set_member(s.drop_first(), j - 1);
        assert(s.drop_first()[j - 1] == s[j]);
    } else if j == 0 {
        lemma_forest_id_set_member(s.drop_first(), i - 1);
        assert(s.drop_first()[i - 1] == s[i]);
    } else {
        lemma_wf_forest_disjoint(s.drop_first(), i - 1, j - 1);
        assert(s.drop_first()[i - 1] == s[i]);
        assert(s.drop_first()[j - 1] == s[j]);
    }
}

} // verus!
