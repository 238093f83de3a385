//! Calls that the library asks its caller to make on other contracts.

use crate::address::Address;
use vstd::prelude::*;

verus! {

/// An argument of a call on another contract.
#[derive(Clone, Debug, PartialEq, Eq)]
pub enum Arg {
    Bytes(Vec<u8>),
    Digests(Vec<[u8; 32]>),
}

#[verifier::ext_equal]
pub enum ArgView {
    Bytes(Seq<u8>),
    Digests(Seq<[u8; 32]>),
}

/// A call on another contract: the callee, the name of its entry point, and the
/// arguments in order.
#[derive(Clone, Debug, PartialEq, Eq)]
pub struct Invocation {
    pub contract: Address,
    pub function: &'static str,
    pub args: Vec<Arg>,
}

#[verifier::ext_equal]
pub struct InvocationView {
    pub contract: Address,
    pub function: Seq<char>,
    pub args: Seq<ArgView>,
}

impl View for Arg {
    type V = ArgView;

    open spec fn view(&self) -> ArgView {
        match self {
            Arg::Bytes(bytes) => ArgView::Bytes(bytes@),
            Arg::Digests(digests) => ArgView::Digests(digests@),
        }
    }
}

impl View for Invocation {
    type V = InvocationView;

    open spec fn view(&self) -> InvocationView {
        InvocationView {
            contract: self.contract,
            function: self.function@,
            args: self.args@.map_values(|arg: Arg| arg@),
        }
    }
}

} // verus!
