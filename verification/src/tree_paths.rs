//! Where each dynamic value of a lowered tape points: the position, in the tree that
//! the tape describes, of the node or the element that it fills.
use vstd::prelude::*;

use crate::op_builder::{
    count_close, count_dyn, count_open, drive_ok, drive_spec, initial_state, lemma_counts_push,
    lemma_run_append, lemma_run_push, run, step, DriveState, PendingDynPath, RawOp,
};
use crate::traits::TemplatePath;

verus! {

/// How many elements are open just before the op at `i`.
pub open spec fn depth_at(raw: Seq<RawOp>, i: int) -> int {
    count_open(raw.take(i)) - count_close(raw.take(i))
}

/// Whether `op` starts a node of the tree: an element or a text node.
pub open spec fn starts_node(op: RawOp) -> bool {
    op is Open || op is TextNode
}

/// The latest `Open` op before `i` that opens an element at depth `d`; -1 if none.
pub open spec fn last_open(raw: Seq<RawOp>, i: int, d: int) -> int
    decreases i,
{
    if i <= 0 {
        -1
    } else if raw[i - 1] is Open && depth_at(raw, i - 1) == d {
        i - 1
    } else {
        last_open(raw, i - 1, d)
    }
}

/// The element that a node starting at `i` would sit in: the innermost element open
/// there; -1 at the top level.
pub open spec fn parent_at(raw: Seq<RawOp>, i: int) -> int {
    if depth_at(raw, i) > 0 {
        last_open(raw, i, depth_at(raw, i) - 1)
    } else {
        -1
    }
}

/// The latest node before `i`, after `lo`, that starts at depth `d`; -1 if none.
pub open spec fn prev_sibling(raw: Seq<RawOp>, i: int, d: int, lo: int) -> int
    decreases i,
{
    if i <= 0 || i - 1 <= lo {
        -1
    } else if starts_node(raw[i - 1]) && depth_at(raw, i - 1) == d {
        i - 1
    } else {
        prev_sibling(raw, i - 1, d, lo)
    }
}

/// The path from the root to a node that starts at `i`: the next sibling of the node
/// before it in the same element, or else the first child of that element, or else
/// the first node at the top.
pub open spec fn node_path(raw: Seq<RawOp>, i: int) -> TemplatePath
    decreases i,
{
    let p = parent_at(raw, i);
    let s = prev_sibling(raw, i, depth_at(raw, i), p);
    if 0 <= s < i {
        node_path(raw, s).spec_next_sibling()
    } else if 0 <= p < i {
        node_path(raw, p).spec_next_child()
    } else {
        TemplatePath::spec_empty().spec_next_child()
    }
}

/// The latest `Attr` or `TextNode` op before `i`; -1 if none.
pub open spec fn lead(raw: Seq<RawOp>, i: int) -> int
    decreases i,
{
    if i <= 0 {
        -1
    } else if raw[i - 1] is Attr || raw[i - 1] is TextNode {
        i - 1
    } else {
        lead(raw, i - 1)
    }
}

/// Where the value of a `Dyn` op at `i` goes: after an `Attr`, the element that is
/// innermost open at that `Attr`; after a `TextNode`, that text node.
pub open spec fn dyn_target(raw: Seq<RawOp>, i: int) -> TemplatePath {
    let j = lead(raw, i);
    if raw[j] is Attr {
        node_path(raw, parent_at(raw, j))
    } else {
        node_path(raw, j)
    }
}

proof fn lemma_prev_sibling_range(raw: Seq<RawOp>, i: int, d: int, lo: int)
    ensures
        prev_sibling(raw, i, d, lo) == -1 || lo < prev_sibling(raw, i, d, lo) < i,
    decreases i,
{
    if i <= 0 || i - 1 <= lo {
        assert(prev_sibling(raw, i, d, lo) == -1);
    } else if starts_node(raw[i - 1]) && depth_at(raw, i - 1) == d {
        assert(prev_sibling(raw, i, d, lo) == i - 1);
    } else {
        lemma_prev_sibling_range(raw, i - 1, d, lo);
        assert(prev_sibling(raw, i, d, lo) == prev_sibling(raw, i - 1, d, lo));
    }
}

proof fn lemma_prev_sibling_found(raw: Seq<RawOp>, i: int, d: int, lo: int, j: int)
    requires
        lo < j < i,
        0 <= j,
        starts_node(raw[j]),
        depth_at(raw, j) == d,
        forall|k: int| j < k < i ==> #[trigger] depth_at(raw, k) > d,
    ensures
        prev_sibling(raw, i, d, lo) == j,
    decreases i - j,
{
    if i - 1 > j {
        assert(depth_at(raw, i - 1) > d);
        lemma_prev_sibling_found(raw, i - 1, d, lo, j);
    }
}

proof fn lemma_depth_step(raw: Seq<RawOp>, n: int)
    requires
        0 <= n < raw.len(),
    ensures
        depth_at(raw, n + 1) == depth_at(raw, n) + (if raw[n] is Open {
            1int
        } else {
            0int
        }) - (if raw[n] is Close {
            1int
        } else {
            0int
        }),
        count_dyn(raw.take(n + 1)) == count_dyn(raw.take(n)) + (if raw[n] is Dyn {
            1nat
        } else {
            0nat
        }),
{
    assert(raw.take(n + 1) =~= raw.take(n).push(raw[n]));
    lemma_counts_push(raw.take(n), raw[n]);
}

/// The element that a node starting at `j` sits in is the innermost element open at
/// `j`: an `Open` op before `j`, one level up, whose element no `Close` has ended
/// before `j`.
pub open spec fn is_innermost_open(raw: Seq<RawOp>, j: int) -> bool {
    let p = parent_at(raw, j);
    &&& 0 <= p < j
    &&& raw[p] is Open
    &&& depth_at(raw, p) == depth_at(raw, j) - 1
    &&& forall|k: int| p < k <= j ==> #[trigger] depth_at(raw, k) > depth_at(raw, p)
}

/// The element open at depth `d` after the first `n` ops, and what the state keeps of
/// it: its path, and the path of the node after it.
spec fn open_level(raw: Seq<RawOp>, n: int, st: DriveState, d: int) -> bool {
    let o = last_open(raw, n, d);
    &&& 0 <= o < n
    &&& raw[o] is Open
    &&& depth_at(raw, o) == d
    &&& st.element_paths[d] == node_path(raw, o)
    &&& st.next_paths[d] == node_path(raw, o).spec_next_sibling()
    &&& forall|k: int| o < k <= n ==> #[trigger] depth_at(raw, k) > d
}

/// The `Dyn` op at `i` has recorded, among the first `n` ops, the path it is meant for.
spec fn recorded(raw: Seq<RawOp>, n: int, dyns: Seq<TemplatePath>, i: int) -> bool {
    &&& 0 <= lead(raw, i) < i
    &&& count_dyn(raw.take(i)) < count_dyn(raw.take(n))
    &&& dyns[count_dyn(raw.take(i)) as int] == dyn_target(raw, i)
    &&& (raw[lead(raw, i)] is Attr ==> is_innermost_open(raw, lead(raw, i)))
}

/// The pending path, after the first `n` ops, is the one the latest `Attr` or
/// `TextNode` op is meant for.
spec fn pending_ok(raw: Seq<RawOp>, n: int, pending: PendingDynPath) -> bool {
    match pending {
        PendingDynPath::Attr { path, remaining_static_text: _ } => {
            let j = lead(raw, n);
            &&& 0 <= j < n
            &&& raw[j] is Attr
            &&& path == node_path(raw, parent_at(raw, j))
            &&& is_innermost_open(raw, j)
        },
        PendingDynPath::Node(path) => {
            let j = lead(raw, n);
            &&& 0 <= j < n
            &&& raw[j] is TextNode
            &&& path == node_path(raw, j)
        },
        PendingDynPath::Unset => true,
    }
}

spec fn paths_inv(raw: Seq<RawOp>, n: int, st: DriveState) -> bool {
    let dd = st.stack.len() as int;
    &&& 0 <= n <= raw.len()
    &&& dd == depth_at(raw, n)
    &&& st.element_paths.len() == dd
    &&& st.next_paths.len() == dd + 1
    &&& forall|d: int| 0 <= d < dd ==> #[trigger] open_level(raw, n, st, d)
    &&& forall|d: int, e: int|
        0 <= d < e < dd ==> #[trigger] last_open(raw, n, d) < #[trigger] last_open(raw, n, e)
    &&& st.next_paths[dd] == node_path(raw, n)
    &&& pending_ok(raw, n, st.pending)
    &&& st.dyns.len() == count_dyn(raw.take(n))
    &&& forall|i: int| 0 <= i < n && raw[i] is Dyn ==> #[trigger] recorded(raw, n, st.dyns, i)
}

/// After an op that starts no node and closes none, a node would go where it would
/// have gone before that op.
proof fn lemma_node_path_same(raw: Seq<RawOp>, n: int)
    requires
        0 <= n < raw.len(),
        !(raw[n] is Open || raw[n] is Close || raw[n] is TextNode),
        parent_at(raw, n) < n,
    ensures
        node_path(raw, n + 1) == node_path(raw, n),
        parent_at(raw, n + 1) == parent_at(raw, n),
{
    lemma_depth_step(raw, n);
    let d = depth_at(raw, n);
    let p = parent_at(raw, n);
    if d > 0 {
        assert(last_open(raw, n + 1, d - 1) == last_open(raw, n, d - 1));
    }
    assert(parent_at(raw, n + 1) == p);
    assert(prev_sibling(raw, n + 1, d, p) == prev_sibling(raw, n, d, p));
    lemma_prev_sibling_range(raw, n, d, p);
}

/// One more op keeps the paths that the state holds where the tree puts them.
#[verifier::rlimit(50)]
proof fn lemma_paths_step(raw: Seq<RawOp>, n: int, st: DriveState)
    requires
        paths_inv(raw, n, st),
        n < raw.len(),
        step(st, raw[n]) is Some,
    ensures
        paths_inv(raw, n + 1, step(st, raw[n]).unwrap()),
{
    let op = raw[n];
    let st2 = step(st, op).unwrap();
    let dd = st.stack.len() as int;
    lemma_depth_step(raw, n);
    let p = parent_at(raw, n);
    if dd > 0 {
        assert(open_level(raw, n, st, dd - 1));
        assert(p == last_open(raw, n, dd - 1));
    }
    assert(p < n);
    assert forall|d: int| #![trigger last_open(raw, n + 1, d)]
        !(op is Open && d == dd) implies last_open(raw, n + 1, d) == last_open(raw, n, d) by {}
    assert(lead(raw, n + 1) == if op is Attr || op is TextNode {
        n
    } else {
        lead(raw, n)
    });
    // The `Dyn` ops recorded so far stay recorded.
    assert forall|i: int| 0 <= i < n && raw[i] is Dyn implies #[trigger] recorded(
        raw,
        n + 1,
        st2.dyns,
        i,
    ) by {
        assert(recorded(raw, n, st.dyns, i));
    }
    match op {
        RawOp::Open(tag) => {
            assert(st2.stack.len() == dd + 1);
            assert(last_open(raw, n + 1, dd) == n);
            assert forall|d: int| 0 <= d < dd + 1 implies #[trigger] open_level(
                raw,
                n + 1,
                st2,
                d,
            ) by {
                if d < dd {
                    assert(open_level(raw, n, st, d));
                    let o = last_open(raw, n, d);
                    assert forall|k: int| o < k <= n + 1 implies #[trigger] depth_at(raw, k) > d by {
                        if k <= n {
                            assert(depth_at(raw, k) > d);
                        }
                    }
                }
            }
            assert forall|d: int, e: int| 0 <= d < e < dd + 1 implies #[trigger] last_open(
                raw,
                n + 1,
                d,
            ) < #[trigger] last_open(raw, n + 1, e) by {
                assert(open_level(raw, n, st, d));
                if e < dd {
                    assert(last_open(raw, n, d) < last_open(raw, n, e));
                }
            }
            assert(parent_at(raw, n + 1) == n);
            assert(prev_sibling(raw, n + 1, dd + 1, n) == -1);
            assert(node_path(raw, n + 1) == node_path(raw, n).spec_next_child());
        },
        RawOp::Close => {
            assert(dd > 0);
            assert(st2.stack.len() == dd - 1);
            assert forall|d: int| 0 <= d < dd - 1 implies #[trigger] open_level(
                raw,
                n + 1,
                st2,
                d,
            ) by {
                assert(open_level(raw, n, st, d));
                let o = last_open(raw, n, d);
                assert forall|k: int| o < k <= n + 1 implies #[trigger] depth_at(raw, k) > d by {
                    if k <= n {
                        assert(depth_at(raw, k) > d);
                    }
                }
            }
            assert forall|d: int, e: int| 0 <= d < e < dd - 1 implies #[trigger] last_open(
                raw,
                n + 1,
                d,
            ) < #[trigger] last_open(raw, n + 1, e) by {
                assert(last_open(raw, n, d) < last_open(raw, n, e));
            }
            let o = last_open(raw, n, dd - 1);
            assert(open_level(raw, n, st, dd - 1));
            let q = parent_at(raw, n + 1);
            if dd - 1 > 0 {
                assert(q == last_open(raw, n, dd - 2));
                assert(last_open(raw, n, dd - 2) < last_open(raw, n, dd - 1));
            } else {
                assert(q == -1);
            }
            assert forall|k: int| o < k < n + 1 implies #[trigger] depth_at(raw, k) > dd - 1 by {
                assert(depth_at(raw, k) > dd - 1);
            }
            lemma_prev_sibling_found(raw, n + 1, dd - 1, q, o);
            assert(node_path(raw, n + 1) == node_path(raw, o).spec_next_sibling());
        },
        RawOp::TextNode => {
            assert forall|d: int| 0 <= d < dd implies #[trigger] open_level(raw, n + 1, st2, d) by {
                assert(open_level(raw, n, st, d));
                let o = last_open(raw, n, d);
                assert forall|k: int| o < k <= n + 1 implies #[trigger] depth_at(raw, k) > d by {
                    if k <= n {
                        assert(depth_at(raw, k) > d);
                    }
                }
            }
            assert forall|d: int, e: int| 0 <= d < e < dd implies #[trigger] last_open(
                raw,
                n + 1,
                d,
            ) < #[trigger] last_open(raw, n + 1, e) by {
                assert(last_open(raw, n, d) < last_open(raw, n, e));
            }
            if dd > 0 {
                assert(last_open(raw, n + 1, dd - 1) == last_open(raw, n, dd - 1));
            }
            assert(parent_at(raw, n + 1) == p);
            assert(prev_sibling(raw, n + 1, dd, p) == n);
            assert(node_path(raw, n + 1) == node_path(raw, n).spec_next_sibling());
        },
        _ => {
            lemma_node_path_same(raw, n);
            assert forall|d: int| 0 <= d < dd implies #[trigger] open_level(raw, n + 1, st2, d) by {
                assert(open_level(raw, n, st, d));
                let o = last_open(raw, n, d);
                assert forall|k: int| o < k <= n + 1 implies #[trigger] depth_at(raw, k) > d by {
                    if k <= n {
                        assert(depth_at(raw, k) > d);
                    }
                }
            }
            assert forall|d: int, e: int| 0 <= d < e < dd implies #[trigger] last_open(
                raw,
                n + 1,
                d,
            ) < #[trigger] last_open(raw, n + 1, e) by {
                assert(last_open(raw, n, d) < last_open(raw, n, e));
            }
            if op is Attr {
                assert(open_level(raw, n, st, dd - 1));
                let o = last_open(raw, n, dd - 1);
                assert(parent_at(raw, n) == o);
                assert forall|k: int| o < k <= n implies #[trigger] depth_at(raw, k) > depth_at(
                    raw,
                    o,
                ) by {
                    assert(depth_at(raw, k) > dd - 1);
                }
                assert(is_innermost_open(raw, n));
            }
            if op is Dyn {
                let j = lead(raw, n);
                assert(recorded(raw, n + 1, st2.dyns, n));
            }
        },
    }
}

proof fn lemma_paths_prefix(raw: Seq<RawOp>, n: int)
    requires
        drive_ok(raw),
        0 <= n <= raw.len(),
    ensures
        run(initial_state(), raw.take(n)) is Some,
        paths_inv(raw, n, run(initial_state(), raw.take(n)).unwrap()),
    decreases n,
{
    let s0 = initial_state();
    lemma_run_append(s0, raw.take(n), raw.skip(n));
    assert(raw.take(n) + raw.skip(n) =~= raw);
    if n == 0 {
        assert(raw.take(0) =~= Seq::<RawOp>::empty());
        assert(run(s0, raw.take(0)) == Some(s0));
        assert(depth_at(raw, 0) == 0) by {
            assert(count_open(Seq::<RawOp>::empty()) == 0);
            assert(count_close(Seq::<RawOp>::empty()) == 0);
        }
        assert(count_dyn(raw.take(0)) == 0);
        assert(prev_sibling(raw, 0, 0, -1) == -1);
        assert(node_path(raw, 0) == TemplatePath::spec_empty().spec_next_child());
        assert(paths_inv(raw, 0, s0));
    } else {
        lemma_paths_prefix(raw, n - 1);
        let st = run(s0, raw.take(n - 1)).unwrap();
        assert(raw.take(n) =~= raw.take(n - 1).push(raw[n - 1]));
        lemma_run_push(s0, raw.take(n - 1), raw[n - 1]);
        lemma_paths_step(raw, n - 1, st);
    }
}

/// Every dynamic value of a tape that lowers goes where the tree that the tape
/// describes puts it: the `Dyn` op at `i` is led by an `Attr` or `TextNode` op at
/// `lead(raw, i)`, and the path recorded for it, the `count_dyn` of the ops before it,
/// is that of the text node, or, after an `Attr`, that of the innermost element open
/// at that `Attr`.
pub proof fn lemma_drive_paths(raw: Seq<RawOp>)
    requires
        drive_ok(raw),
    ensures
        forall|i: int|
            0 <= i < raw.len() && raw[i] is Dyn ==> {
                let j = lead(raw, i);
                &&& 0 <= j < i
                &&& raw[j] is Attr || raw[j] is TextNode
                &&& drive_spec(raw).dyns[count_dyn(raw.take(i)) as int] == dyn_target(raw, i)
                &&& raw[j] is Attr ==> is_innermost_open(raw, j)
            },
{
    lemma_paths_prefix(raw, raw.len() as int);
    assert(raw.take(raw.len() as int) =~= raw);
    let st = run(initial_state(), raw).unwrap();
    assert forall|i: int| 0 <= i < raw.len() && raw[i] is Dyn implies {
        let j = lead(raw, i);
        &&& 0 <= j < i
        &&& raw[j] is Attr || raw[j] is TextNode
        &&& drive_spec(raw).dyns[count_dyn(raw.take(i)) as int] == dyn_target(raw, i)
        &&& raw[j] is Attr ==> is_innermost_open(raw, j)
    } by {
        assert(recorded(raw, raw.len() as int, st.dyns, i));
        lemma_lead_kind(raw, i);
    }
}

proof fn lemma_lead_kind(raw: Seq<RawOp>, i: int)
    requires
        0 <= lead(raw, i),
    ensures
        lead(raw, i) < i,
        raw[lead(raw, i)] is Attr || raw[lead(raw, i)] is TextNode,
    decreases i,
{
    if i > 0 && !(raw[i - 1] is Attr || raw[i - 1] is TextNode) {
        lemma_lead_kind(raw, i - 1);
    }
}

} // verus!
