use vstd::prelude::*;
use crate::error::{Fault, Pass};
use crate::graph::{
    Graph,
    attributed,
    backward_through,
    build,
    forward_through,
    lemma_backward_err_persists,
    lemma_forward_err_persists,
};
use crate::operator::{Descriptor, Operator};
use crate::types::{Opt, Shape4};

verus! {

/// The value of an outcome, if it succeeded.
pub open spec fn value_of<T>(r: Result<T, Fault>) -> Option<T> {
    match r {
        Ok(v) => Some(v),
        Err(_) => None,
    }
}

/// The operators of `gs`, graph after graph, in order.
pub open spec fn flatten<O>(gs: Seq<Graph<O>>) -> Seq<O>
    decreases gs.len(),
{
    if gs.len() == 0 {
        Seq::empty()
    } else {
        flatten(gs.drop_last()) + gs.last()@
    }
}

/// Construction threads the shape: descriptor 0 sees the initial shape, and
/// descriptor `i + 1` sees the shape that descriptor `i` produced.
pub proof fn lemma_shape_propagation<O, D: Descriptor<O>>(
    descs: Seq<D>,
    shape: Shape4,
    opt: Opt,
    tag: int,
    i: nat,
)
    requires
        i < descs.len(),
        build(descs, i + 1, shape, opt, tag) is Ok,
    ensures
        build(descs, 0, shape, opt, tag)->Ok_0.shape == shape,
        descs[i as int].create_spec(
            build(descs, i, shape, opt, tag)->Ok_0.shape,
            opt,
            tag + build(descs, i, shape, opt, tag)->Ok_0.tags,
        ) is Ok,
        build(descs, i + 1, shape, opt, tag)->Ok_0.shape == descs[i as int].create_spec(
            build(descs, i, shape, opt, tag)->Ok_0.shape,
            opt,
            tag + build(descs, i, shape, opt, tag)->Ok_0.tags,
        )->Ok_0.shape,
{
}

/// A prefix of a successful construction succeeds too, having taken no more
/// tags.
proof fn lemma_build_prefix<O, D: Descriptor<O>>(
    descs: Seq<D>,
    shape: Shape4,
    opt: Opt,
    tag: int,
    i: nat,
    j: nat,
)
    requires
        i <= j,
        build(descs, j, shape, opt, tag) is Ok,
    ensures
        build(descs, i, shape, opt, tag) is Ok,
        build(descs, i, shape, opt, tag)->Ok_0.tags <= build(descs, j, shape, opt, tag)->Ok_0.tags,
    decreases j,
{
    if i < j {
        lemma_build_prefix(descs, shape, opt, tag, i, (j - 1) as nat);
    }
}

/// Construction hands out tags in increasing order: every tag that
/// descriptor `i` takes lies below every tag available to a later
/// descriptor `j`, however many operators each of them creates.
pub proof fn lemma_tags_increase<O, D: Descriptor<O>>(
    descs: Seq<D>,
    shape: Shape4,
    opt: Opt,
    tag: int,
    i: nat,
    j: nat,
)
    requires
        i < j <= descs.len(),
        build(descs, j, shape, opt, tag) is Ok,
    ensures
        build(descs, i, shape, opt, tag)->Ok_0.tags + descs[i as int].create_spec(
            build(descs, i, shape, opt, tag)->Ok_0.shape,
            opt,
            tag + build(descs, i, shape, opt, tag)->Ok_0.tags,
        )->Ok_0.tags <= build(descs, j, shape, opt, tag)->Ok_0.tags,
{
    lemma_build_prefix(descs, shape, opt, tag, i + 1, j);
}

/// Forward runs the operators in construction order: the operator at `i` is
/// reached only after every earlier one succeeded, and it is fed the output
/// of the one before it. Backward runs them in the reverse order: the
/// operator at `i` is reached only after every later one succeeded, and it
/// is fed the output of the one after it.
pub proof fn lemma_execution_order<T, O: Operator<T>>(g: Graph<O>, x: T, d: T, i: nat)
    requires
        i < g@.len(),
    ensures
        forward_through(g@, 0, x) == Ok::<T, Fault>(x),
        forward_through(g@, i, x) is Ok ==> forall|j: nat| j <= i ==> #[trigger] forward_through(g@, j, x) is Ok,
        forward_through(g@, i + 1, x) is Ok ==> g@[i as int].forward_spec(forward_through(g@, i, x)->Ok_0)
            == forward_through(g@, i + 1, x),
        backward_through(g@, g@.len(), d) == Ok::<T, Fault>(d),
        backward_through(g@, i + 1, d) is Ok ==> forall|j: nat|
            i + 1 <= j <= g@.len() ==> #[trigger] backward_through(g@, j, d) is Ok,
        backward_through(g@, i, d) is Ok ==> g@[i as int].backward_spec(backward_through(g@, i + 1, d)->Ok_0)
            == backward_through(g@, i, d),
{
    assert forall|j: nat| j <= i && forward_through(g@, i, x) is Ok implies #[trigger] forward_through(
        g@,
        j,
        x,
    ) is Ok by {
        if forward_through(g@, j, x) is Err {
            lemma_forward_err_persists(g@, j, i, x);
        }
    }
    assert forall|j: nat|
        i + 1 <= j <= g@.len() && backward_through(g@, i + 1, d) is Ok implies #[trigger] backward_through(
        g@,
        j,
        d,
    ) is Ok by {
        if backward_through(g@, j, d) is Err {
            lemma_backward_err_persists(g@, j, i + 1, d);
        }
    }
}

/// When the operator at `k` is the one whose forward fails, the graph's
/// forward fails with that error attributed to position `k` and the
/// operator's name, and no later operator is touched.
pub proof fn lemma_forward_attribution<T, O: Operator<T>>(g: Graph<O>, x: T, k: nat)
    requires
        k < g@.len(),
        forward_through(g@, k, x) is Ok,
        g@[k as int].forward_spec(forward_through(g@, k, x)->Ok_0) is Err,
    ensures
        g.forward_spec(x) == Err::<T, Fault>(
            Fault::Step {
                pass: Pass::Forward,
                index: k,
                name: g@[k as int].name_view(),
                cause: Box::new(g@[k as int].forward_spec(forward_through(g@, k, x)->Ok_0)->Err_0),
            },
        ),
        forall|post: Graph<O>, j: int|
            g.forward_moves(x, post) && k < j < g@.len() ==> #[trigger] post@[j] == g@[j],
{
    lemma_forward_err_persists(g@, k + 1, g@.len(), x);
    assert forall|post: Graph<O>, j: int|
        g.forward_moves(x, post) && k < j < g@.len() implies #[trigger] post@[j] == g@[j] by {
        lemma_forward_err_persists(g@, k + 1, j as nat, x);
        assert(crate::graph::forward_left(g@, j, x, post@[j]));
    }
}

/// When the operator at `k` is the one whose backward fails, the graph's
/// backward fails with that error attributed to construction position `k`
/// and the operator's name, and no earlier operator is touched.
pub proof fn lemma_backward_attribution<T, O: Operator<T>>(g: Graph<O>, d: T, k: nat)
    requires
        k < g@.len(),
        backward_through(g@, k + 1, d) is Ok,
        g@[k as int].backward_spec(backward_through(g@, k + 1, d)->Ok_0) is Err,
    ensures
        g.backward_spec(d) == Err::<T, Fault>(
            Fault::Step {
                pass: Pass::Backward,
                index: k,
                name: g@[k as int].name_view(),
                cause: Box::new(g@[k as int].backward_spec(backward_through(g@, k + 1, d)->Ok_0)->Err_0),
            },
        ),
        forall|post: Graph<O>, j: int| g.backward_moves(d, post) && 0 <= j < k ==> #[trigger] post@[j] == g@[j],
{
    lemma_backward_err_persists(g@, k, 0, d);
    assert forall|post: Graph<O>, j: int| g.backward_moves(d, post) && 0 <= j < k implies #[trigger] post@[j]
        == g@[j] by {
        lemma_backward_err_persists(g@, k, (j + 1) as nat, d);
        assert(crate::graph::backward_left(g@, j, d, post@[j]));
    }
}

/// Running forward through a prefix of `a + b` is running it through `a`.
proof fn lemma_forward_prefix<T, O: Operator<T>>(a: Seq<O>, b: Seq<O>, k: nat, x: T)
    requires
        k <= a.len(),
    ensures
        forward_through(a + b, k, x) == forward_through(a, k, x),
    decreases k,
{
    if k > 0 {
        lemma_forward_prefix(a, b, (k - 1) as nat, x);
        assert((a + b)[k - 1] == a[k - 1]);
    }
}

/// Running forward through `a + b` yields what running through `a`, then
/// through `b`, yields.
proof fn lemma_forward_concat<T, O: Operator<T>>(a: Seq<O>, b: Seq<O>, m: nat, x: T)
    requires
        m <= b.len(),
    ensures
        value_of(forward_through(a + b, a.len() + m, x)) == match forward_through(a, a.len(), x) {
            Ok(v) => value_of(forward_through(b, m, v)),
            Err(_) => None,
        },
    decreases m,
{
    if m == 0 {
        lemma_forward_prefix(a, b, a.len(), x);
    } else {
        lemma_forward_concat(a, b, (m - 1) as nat, x);
        assert((a + b)[a.len() + m - 1] == b[m - 1]);
    }
}

/// Running backward through a suffix of `a + b` is running it through `b`.
proof fn lemma_backward_suffix<T, O: Operator<T>>(a: Seq<O>, b: Seq<O>, m: nat, x: T)
    requires
        m <= b.len(),
    ensures
        value_of(backward_through(a + b, a.len() + m, x)) == value_of(backward_through(b, m, x)),
    decreases b.len() - m,
{
    if m < b.len() {
        lemma_backward_suffix(a, b, m + 1, x);
        assert((a + b)[(a.len() + m) as int] == b[m as int]);
    }
}

/// Running backward through `a + b` yields what running through `b`, then
/// through `a`, yields.
proof fn lemma_backward_concat<T, O: Operator<T>>(a: Seq<O>, b: Seq<O>, i: nat, x: T)
    requires
        i <= a.len(),
    ensures
        value_of(backward_through(a + b, i, x)) == match backward_through(b, 0, x) {
            Ok(v) => value_of(backward_through(a, i, v)),
            Err(_) => None,
        },
    decreases a.len() - i,
{
    if i == a.len() {
        lemma_backward_suffix(a, b, 0, x);
    } else {
        lemma_backward_concat(a, b, i + 1, x);
        assert((a + b)[i as int] == a[i as int]);
    }
}

/// Forward and backward through the graphs of `gs` in turn, each run as one
/// operator, yield the values that running through all their operators in
/// one sequence yields.
proof fn lemma_nested_runs<T, O: Operator<T>>(gs: Seq<Graph<O>>, x: T, d: T)
    ensures
        value_of(forward_through(gs, gs.len(), x)) == value_of(
            forward_through(flatten(gs), flatten(gs).len(), x),
        ),
        value_of(backward_through(gs, 0, d)) == value_of(backward_through(flatten(gs), 0, d)),
    decreases gs.len(),
{
    if gs.len() > 0 {
        let rest = gs.drop_last();
        let last = gs.last();
        assert(gs == rest + seq![last]);
        lemma_forward_prefix(rest, seq![last], rest.len(), x);
        lemma_nested_runs(rest, x, d);
        lemma_forward_concat(flatten(rest), last@, last@.len(), x);
        lemma_backward_concat(rest, seq![last], 0, d);
        lemma_backward_concat(flatten(rest), last@, 0, d);
        assert(backward_through(seq![last], 1, d) == Ok::<T, Fault>(d));
        match backward_through(last@, 0, d) {
            Ok(v) => {
                lemma_nested_runs(rest, x, v);
            },
            Err(_) => {},
        }
    }
}

/// A graph that runs whole graphs as its operators yields, forward and
/// backward, the values that one graph of all their operators in sequence
/// yields; one fails exactly when the other does.
pub proof fn lemma_composability<T, O: Operator<T>>(
    parent: Graph<Graph<O>>,
    flat: Graph<O>,
    x: T,
    d: T,
)
    requires
        flat@ == flatten(parent@),
    ensures
        value_of(parent.forward_spec(x)) == value_of(flat.forward_spec(x)),
        value_of(parent.backward_spec(d)) == value_of(flat.backward_spec(d)),
{
    lemma_nested_runs(parent@, x, d);
}

} // verus!
