use vstd::prelude::*;

verus! {

/// Direction of an execution pass.
#[derive(Clone, Copy, Debug, PartialEq, Eq, Structural)]
pub enum Pass {
    Forward,
    Backward,
}

/// Error of an operator or of a graph step.
#[derive(Debug, PartialEq, Eq)]
pub enum OpError {
    /// A failure raised by an operator or a descriptor itself.
    Failed { message: String },
    /// A failure of the operator at construction position `index` during a
    /// pass of a graph, with the operator's name and the error it raised.
    Step { pass: Pass, index: usize, name: String, cause: Box<OpError> },
}

/// Mathematical model of an [`OpError`].
pub enum Fault {
    Failed { message: Seq<char> },
    Step { pass: Pass, index: nat, name: Seq<char>, cause: Box<Fault> },
}

impl View for OpError {
    type V = Fault;

    open spec fn view(&self) -> Fault
        decreases self,
    {
        match self {
            OpError::Failed { message } => Fault::Failed { message: message@ },
            OpError::Step { pass, index, name, cause } => Fault::Step {
                pass: *pass,
                index: *index as nat,
                name: name@,
                cause: Box::new((**cause).view()),
            },
        }
    }
}

/// The model of an outcome: the value, or the model of the error.
pub open spec fn outcome<T>(r: Result<T, OpError>) -> Result<T, Fault> {
    match r {
        Ok(v) => Ok(v),
        Err(e) => Err(e@),
    }
}

impl OpError {
    /// An error raised by an operator or descriptor, carrying `message`.
    pub fn failed(message: &str) -> (r: OpError)
        ensures
            r@ == (Fault::Failed { message: message@ }),
    {
        OpError::Failed { message: String::from_str(message) }
    }

    /// Wraps `cause` as the failure of step `index`, named `name`, of a pass.
    pub fn step(pass: Pass, index: usize, name: &str, cause: OpError) -> (r: OpError)
        ensures
            r@ == (Fault::Step { pass, index: index as nat, name: name@, cause: Box::new(cause@) }),
    {
        OpError::Step { pass, index, name: String::from_str(name), cause: Box::new(cause) }
    }
}

} // verus!
