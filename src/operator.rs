use vstd::prelude::*;
use crate::error::{Fault, OpError, outcome};
use crate::types::{OpTag, Opt, Shape4};

verus! {

/// One physical step of a graph, over tensor handles of type `T`.
///
/// An operator's behaviour is modelled by its spec functions: the result of a
/// pass is a function of the operator's state and its input, and the state
/// it is left in is related to the one before by `forward_moves` /
/// `backward_moves`. Its name never changes. The defaults model nothing in
/// particular: a verified implementation states its own.
pub trait Operator<T>: Sized {
    /// The operator's diagnostic name.
    open spec fn name_view(&self) -> Seq<char> {
        arbitrary()
    }

    /// What `forward` returns on `input`, from this state.
    open spec fn forward_spec(&self, input: T) -> Result<T, Fault> {
        arbitrary()
    }

    /// Whether `post` is a state that `forward` on `input` may leave behind.
    open spec fn forward_moves(&self, input: T, post: Self) -> bool {
        true
    }

    /// What `backward` returns on `delta`, from this state.
    open spec fn backward_spec(&self, delta: T) -> Result<T, Fault> {
        arbitrary()
    }

    /// Whether `post` is a state that `backward` on `delta` may leave behind.
    open spec fn backward_moves(&self, delta: T, post: Self) -> bool {
        true
    }

    fn get_name(&self) -> (r: &str)
        ensures
            r@ == self.name_view(),
    ;

    fn forward(&mut self, input: T) -> (r: Result<T, OpError>)
        ensures
            outcome(r) == old(self).forward_spec(input),
            old(self).forward_moves(input, *final(self)),
            final(self).name_view() == old(self).name_view(),
    ;

    fn backward(&mut self, delta: T) -> (r: Result<T, OpError>)
        ensures
            outcome(r) == old(self).backward_spec(delta),
            old(self).backward_moves(delta, *final(self)),
            final(self).name_view() == old(self).name_view(),
    ;
}

/// What a successful `create` produces: the operators appended, the shape
/// after the step, and the number of tags taken.
pub struct Expansion<O> {
    pub ops: Seq<O>,
    pub shape: Shape4,
    pub tags: nat,
}

/// A declarative graph step, which expands into zero or more operators of
/// type `O`. The default model says nothing in particular: a verified
/// implementation states its own.
pub trait Descriptor<O>: Sized {
    /// What `create` produces from the input shape `shape`, the options
    /// `opt`, and the tag counter at `tag`; or the model of its error.
    open spec fn create_spec(&self, shape: Shape4, opt: Opt, tag: int) -> Result<Expansion<O>, Fault> {
        arbitrary()
    }

    /// Appends this step's operators to `graph`, sets `shape` to the shape
    /// after the step and advances `tag` past the tags it took.
    fn create(&self, graph: &mut Vec<O>, shape: &mut Shape4, opt: Opt, tag: &mut OpTag) -> (r: Result<(), OpError>)
        ensures
            created(
                self.create_spec(*old(shape), opt, old(tag).next_tag() as int),
                r,
                old(graph)@,
                final(graph)@,
                *final(shape),
                old(tag).next_tag() as int,
                final(tag).next_tag() as int,
            ),
    ;
}

/// `create`'s outcome `r`, with the operator sequence going from `before` to
/// `after`, the shape left at `shape` and the tag counter going from
/// `tag_before` to `tag_after`, agrees with the model `m`.
pub open spec fn created<O>(
    m: Result<Expansion<O>, Fault>,
    r: Result<(), OpError>,
    before: Seq<O>,
    after: Seq<O>,
    shape: Shape4,
    tag_before: int,
    tag_after: int,
) -> bool {
    match m {
        Ok(x) => r is Ok && after == before + x.ops && shape == x.shape && tag_after == tag_before
            + x.tags,
        Err(f) => r is Err && r->Err_0@ == f,
    }
}

} // verus!
