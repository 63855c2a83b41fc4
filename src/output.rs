//! How a mocked operation's output is owned, and the names the mock glue
//! uses for each kind.
use vstd::prelude::*;

verus! {

/// The ownership shape of an operation's output.
#[derive(Clone, Copy, Debug, PartialEq, Eq, Structural)]
pub enum OutputOwnership {
    /// An owned value.
    Owned,
    /// A reference borrowed from the receiver.
    SelfReference,
    /// A reference borrowed from a parameter.
    ParamReference,
    /// A reference with static lifetime.
    StaticReference,
    /// An owned value that holds borrows.
    Mixed,
}

/// What is known of the borrows in an output type.
#[derive(Clone, Copy, Debug, PartialEq, Eq, Structural)]
pub struct BorrowInfo {
    pub has_input_lifetime: bool,
    pub has_elided_reference: bool,
    pub has_self_reference: bool,
}

impl OutputOwnership {
    /// The name of the evaluation function for this ownership.
    pub fn eval_fn(&self) -> (r: &'static str)
        ensures
            r@ == match *self {
                OutputOwnership::Owned => "eval"@,
                OutputOwnership::SelfReference => "eval_borrowed"@,
                OutputOwnership::ParamReference => "eval_borrowed_param"@,
                OutputOwnership::StaticReference => "eval_static_ref"@,
                OutputOwnership::Mixed => "eval"@,
            },
    {
        match self {
            OutputOwnership::Owned => "eval",
            OutputOwnership::SelfReference => "eval_borrowed",
            OutputOwnership::ParamReference => "eval_borrowed_param",
            OutputOwnership::StaticReference => "eval_static_ref",
            OutputOwnership::Mixed => "eval",
        }
    }

    /// The name of the output mediator for this ownership.
    pub fn output_mediator(&self) -> (r: &'static str)
        ensures
            r@ == match *self {
                OutputOwnership::Owned => "Owned"@,
                OutputOwnership::SelfReference => "Borrowed"@,
                OutputOwnership::ParamReference => "StaticRef"@,
                OutputOwnership::StaticReference => "StaticRef"@,
                OutputOwnership::Mixed => "Mixed"@,
            },
    {
        match self {
            OutputOwnership::Owned => "Owned",
            OutputOwnership::SelfReference => "Borrowed",
            OutputOwnership::ParamReference => "StaticRef",
            OutputOwnership::StaticReference => "StaticRef",
            OutputOwnership::Mixed => "Mixed",
        }
    }
}

/// The ownership of an owned output type given its borrows: one that
/// borrows from an input is treated as owned; one with elided or
/// receiver borrows is mixed; any other is owned.
pub fn determine_mixed_ownership(borrow_info: &BorrowInfo) -> (r: OutputOwnership)
    ensures
        r == if borrow_info.has_input_lifetime {
            OutputOwnership::Owned
        } else if borrow_info.has_elided_reference || borrow_info.has_self_reference {
            OutputOwnership::Mixed
        } else {
            OutputOwnership::Owned
        },
{
    if borrow_info.has_input_lifetime {
        OutputOwnership::Owned
    } else if borrow_info.has_elided_reference || borrow_info.has_self_reference {
        OutputOwnership::Mixed
    } else {
        OutputOwnership::Owned
    }
}

} // verus!
