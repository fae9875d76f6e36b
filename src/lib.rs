//! A linear computation graph of operators over tensor handles: built in
//! order from descriptors that thread a shape and a tag counter, run forward
//! front to back and backward back to front, with every step failure
//! attributed to the operator's construction position and name.

mod error;
mod graph;
mod laws;
mod operator;
mod types;

pub use error::{Fault, OpError, Pass, outcome};
pub use graph::{
    Graph, attributed, backward_left, backward_through, build, built, forward_left, forward_through,
};
pub use laws::{
    flatten, lemma_backward_attribution, lemma_composability, lemma_execution_order,
    lemma_forward_attribution, lemma_shape_propagation, lemma_tags_increase, value_of,
};
pub use operator::{Descriptor, Expansion, Operator, created};
pub use types::{OpTag, Opt, Shape4};
