use vstd::prelude::*;
use crate::error::{Fault, OpError, Pass};
use crate::operator::{Descriptor, Expansion, Operator};
use crate::types::{OpTag, Opt, Shape4};

verus! {

/// What the first `n` descriptors of `descs` build together, from the input
/// shape `shape`, options `opt` and tag counter at `tag`: every operator in
/// order, the shape after the last step and the number of tags taken; or the
/// error of the first descriptor that fails.
pub open spec fn build<O, D: Descriptor<O>>(
    descs: Seq<D>,
    n: nat,
    shape: Shape4,
    opt: Opt,
    tag: int,
) -> Result<Expansion<O>, Fault>
    decreases n,
{
    if n == 0 {
        Ok(Expansion { ops: Seq::empty(), shape, tags: 0 })
    } else {
        match build(descs, (n - 1) as nat, shape, opt, tag) {
            Err(f) => Err(f),
            Ok(x) => match descs[n - 1].create_spec(x.shape, opt, tag + x.tags) {
                Err(f) => Err(f),
                Ok(y) => Ok(Expansion { ops: x.ops + y.ops, shape: y.shape, tags: x.tags + y.tags }),
            },
        }
    }
}

/// Once a prefix of the descriptors fails, every longer prefix fails the
/// same way.
proof fn lemma_build_err_persists<O, D: Descriptor<O>>(
    descs: Seq<D>,
    m: nat,
    k: nat,
    shape: Shape4,
    opt: Opt,
    tag: int,
)
    requires
        m <= k,
        build(descs, m, shape, opt, tag) is Err,
    ensures
        build(descs, k, shape, opt, tag) == build(descs, m, shape, opt, tag),
    decreases k,
{
    if k > m {
        lemma_build_err_persists(descs, m, (k - 1) as nat, shape, opt, tag);
    }
}

/// The graph `r` that construction returned agrees with the model `m` of
/// what the descriptors build.
pub open spec fn built<O>(m: Result<Expansion<O>, Fault>, r: Result<Graph<O>, OpError>) -> bool {
    match m {
        Ok(x) => r is Ok && r->Ok_0@ == x.ops,
        Err(f) => r is Err && r->Err_0@ == f,
    }
}

/// `r` with an error, if any, attributed to step `index` of a `pass`, at an
/// operator named `name`.
pub open spec fn attributed<T>(pass: Pass, index: nat, name: Seq<char>, r: Result<T, Fault>) -> Result<
    T,
    Fault,
> {
    match r {
        Ok(v) => Ok(v),
        Err(f) => Err(Fault::Step { pass, index, name, cause: Box::new(f) }),
    }
}

/// The outcome of running `forward` through the first `n` operators of
/// `ops`, in order, starting from `x`: the value the last of them returned,
/// or the attributed error of the first that failed.
pub open spec fn forward_through<T, O: Operator<T>>(ops: Seq<O>, n: nat, x: T) -> Result<T, Fault>
    decreases n,
{
    if n == 0 {
        Ok(x)
    } else {
        match forward_through(ops, (n - 1) as nat, x) {
            Ok(v) => attributed(
                Pass::Forward,
                (n - 1) as nat,
                ops[n - 1].name_view(),
                ops[n - 1].forward_spec(v),
            ),
            Err(f) => Err(f),
        }
    }
}

/// The outcome of running `backward` through the operators of `ops` from
/// the last down to position `i`, starting from `x`: the value the one at
/// `i` returned, or the attributed error of the first that failed.
pub open spec fn backward_through<T, O: Operator<T>>(ops: Seq<O>, i: nat, x: T) -> Result<T, Fault>
    decreases ops.len() - i,
{
    if i >= ops.len() {
        Ok(x)
    } else {
        match backward_through(ops, i + 1, x) {
            Ok(v) => attributed(Pass::Backward, i, ops[i as int].name_view(), ops[i as int].backward_spec(v)),
            Err(f) => Err(f),
        }
    }
}

/// During a forward pass from `x`, the operator at `i` of `ops` was left as
/// `post`: moved by its own forward step if the pass reached it, unchanged
/// otherwise.
pub open spec fn forward_left<T, O: Operator<T>>(ops: Seq<O>, i: int, x: T, post: O) -> bool {
    match forward_through(ops, i as nat, x) {
        Ok(v) => ops[i].forward_moves(v, post),
        Err(_) => post == ops[i],
    }
}

/// During a backward pass from `x`, the operator at `i` of `ops` was left as
/// `post`: moved by its own backward step if the pass reached it, unchanged
/// otherwise.
pub open spec fn backward_left<T, O: Operator<T>>(ops: Seq<O>, i: int, x: T, post: O) -> bool {
    match backward_through(ops, (i + 1) as nat, x) {
        Ok(v) => ops[i].backward_moves(v, post),
        Err(_) => post == ops[i],
    }
}

/// Once the forward pass has failed within the first `m` operators, it has
/// failed the same way within the first `k >= m`.
pub(crate) proof fn lemma_forward_err_persists<T, O: Operator<T>>(ops: Seq<O>, m: nat, k: nat, x: T)
    requires
        m <= k,
        forward_through(ops, m, x) is Err,
    ensures
        forward_through(ops, k, x) == forward_through(ops, m, x),
    decreases k,
{
    if k > m {
        lemma_forward_err_persists(ops, m, (k - 1) as nat, x);
    }
}

/// Once the backward pass has failed at or above position `m`, it has failed
/// the same way at or above every `k <= m`.
pub(crate) proof fn lemma_backward_err_persists<T, O: Operator<T>>(ops: Seq<O>, m: nat, k: nat, x: T)
    requires
        k <= m,
        backward_through(ops, m, x) is Err,
    ensures
        backward_through(ops, k, x) == backward_through(ops, m, x),
    decreases m - k,
{
    if k < m {
        lemma_backward_err_persists(ops, m, k + 1, x);
    }
}

/// An ordered chain of operators, run front to back by `forward` and back to
/// front by `backward`.
pub struct Graph<O> {
    graph: Vec<O>,
}

impl<O> View for Graph<O> {
    type V = Seq<O>;

    /// The operators, in construction order.
    closed spec fn view(&self) -> Seq<O> {
        self.graph@
    }
}

impl<O> Graph<O> {
    /// Builds a graph by letting each descriptor, in order, append its
    /// operators, with the shape and tag counter threaded from one
    /// descriptor to the next. The first descriptor error is returned as it
    /// came.
    pub fn new<D: Descriptor<O>>(
        descriptor: Vec<D>,
        input_size: Shape4,
        global_opt: Opt,
        start_tag: OpTag,
    ) -> (r: Result<Self, OpError>)
        ensures
            built(
                build(descriptor@, descriptor@.len(), input_size, global_opt, start_tag.next_tag() as int),
                r,
            ),
    {
        let ghost t0 = start_tag.next_tag() as int;
        let mut graph: Vec<O> = Vec::new();
        let mut shape = input_size;
        let mut tag = start_tag;
        let mut i: usize = 0;
        while i < descriptor.len()
            invariant
                i <= descriptor@.len(),
                t0 == start_tag.next_tag() as int,
                build(descriptor@, i as nat, input_size, global_opt, t0) == Ok::<Expansion<O>, Fault>(
                    Expansion { ops: graph@, shape: shape, tags: (tag.next_tag() - t0) as nat },
                ),
                tag.next_tag() >= t0,
            decreases descriptor@.len() - i,
        {
            let res = descriptor[i].create(&mut graph, &mut shape, global_opt, &mut tag);
            match res {
                Ok(()) => {},
                Err(e) => {
                    proof {
                        lemma_build_err_persists(
                            descriptor@,
                            (i + 1) as nat,
                            descriptor@.len(),
                            input_size,
                            global_opt,
                            t0,
                        );
                    }
                    return Err(e);
                },
            }
            i = i + 1;
        }
        Ok(Graph { graph })
    }
}

impl<T, O: Operator<T>> Operator<T> for Graph<O> {
    open spec fn name_view(&self) -> Seq<char> {
        "Graph"@
    }

    open spec fn forward_spec(&self, input: T) -> Result<T, Fault> {
        forward_through(self@, self@.len(), input)
    }

    open spec fn forward_moves(&self, input: T, post: Self) -> bool {
        &&& post@.len() == self@.len()
        &&& forall|i: int| 0 <= i < self@.len() ==> #[trigger] forward_left(self@, i, input, post@[i])
    }

    open spec fn backward_spec(&self, delta: T) -> Result<T, Fault> {
        backward_through(self@, 0, delta)
    }

    open spec fn backward_moves(&self, delta: T, post: Self) -> bool {
        &&& post@.len() == self@.len()
        &&& forall|i: int| 0 <= i < self@.len() ==> #[trigger] backward_left(self@, i, delta, post@[i])
    }

    fn get_name(&self) -> (r: &str) {
        "Graph"
    }

    /// Runs `forward` of every operator in construction order, each on the
    /// previous one's output. Stops at the first failure, which is returned
    /// attributed to that operator's position and name.
    fn forward(&mut self, input: T) -> (r: Result<T, OpError>) {
        let ghost ops = self@;
        let mut next = input;
        let mut i: usize = 0;
        while i < self.graph.len()
            invariant
                i <= ops.len(),
                self@.len() == ops.len(),
                ops == old(self)@,
                forward_through(ops, i as nat, input) == Ok::<T, Fault>(next),
                forall|j: int| 0 <= j < i ==> #[trigger] forward_left(ops, j, input, self@[j]),
                forall|j: int| i <= j < ops.len() ==> self@[j] == ops[j],
            decreases ops.len() - i,
        {
            match self.graph[i].forward(next) {
                Ok(v) => {
                    next = v;
                },
                Err(e) => {
                    let name = self.graph[i].get_name();
                    let err = OpError::step(Pass::Forward, i, name, e);
                    proof {
                        lemma_forward_err_persists(ops, (i + 1) as nat, ops.len(), input);
                        assert forall|j: int| 0 <= j < ops.len() implies #[trigger] forward_left(
                            ops,
                            j,
                            input,
                            self@[j],
                        ) by {
                            if j > i {
                                lemma_forward_err_persists(ops, (i + 1) as nat, j as nat, input);
                            }
                        }
                    }
                    return Err(err);
                },
            }
            i = i + 1;
        }
        Ok(next)
    }

    /// Runs `backward` of every operator in reverse construction order, each
    /// on the previous one's output. Stops at the first failure, which is
    /// returned attributed to that operator's construction position and name.
    fn backward(&mut self, delta: T) -> (r: Result<T, OpError>) {
        let ghost ops = self@;
        let mut next = delta;
        let mut i: usize = self.graph.len();
        while i > 0
            invariant
                i <= ops.len(),
                self@.len() == ops.len(),
                ops == old(self)@,
                backward_through(ops, i as nat, delta) == Ok::<T, Fault>(next),
                forall|j: int| i <= j < ops.len() ==> #[trigger] backward_left(ops, j, delta, self@[j]),
                forall|j: int| 0 <= j < i ==> self@[j] == ops[j],
            decreases i,
        {
            i = i - 1;
            match self.graph[i].backward(next) {
                Ok(v) => {
                    next = v;
                },
                Err(e) => {
                    let name = self.graph[i].get_name();
                    let err = OpError::step(Pass::Backward, i, name, e);
                    proof {
                        lemma_backward_err_persists(ops, i as nat, 0, delta);
                        assert forall|j: int| 0 <= j < ops.len() implies #[trigger] backward_left(
                            ops,
                            j,
                            delta,
                            self@[j],
                        ) by {
                            if j < i {
                                lemma_backward_err_persists(ops, i as nat, (j + 1) as nat, delta);
                            }
                        }
                    }
                    return Err(err);
                },
            }
        }
        Ok(next)
    }
}

} // verus!
