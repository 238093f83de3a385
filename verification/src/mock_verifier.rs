//! A stand-in for a Groth16 verifier contract.

use crate::address::same_bytes32;
use crate::table::{Table, TableKey};
use vstd::prelude::*;

verus! {

/// Ledger keys of a [`MockZkVerifier`].
#[derive(Clone, Copy, Debug, PartialEq, Eq)]
pub enum VerifierKey {
    Expected,
    Reject,
}

impl TableKey for VerifierKey {
    fn same_key(&self, other: &Self) -> (same: bool) {
        match (self, other) {
            (VerifierKey::Expected, VerifierKey::Expected) => true,
            (VerifierKey::Reject, VerifierKey::Reject) => true,
            _ => false,
        }
    }
}

/// Accepts a proof if and only if the first public input equals the commitment
/// that it was told to expect. That is enough to exercise both outcomes of a
/// verification without doing pairing checks.
#[derive(Debug)]
pub struct MockZkVerifier {
    pub commitments: Table<VerifierKey, [u8; 32]>,
    pub flags: Table<VerifierKey, bool>,
}

#[verifier::ext_equal]
pub struct MockZkVerifierView {
    pub commitments: Map<VerifierKey, Seq<u8>>,
    pub flags: Map<VerifierKey, bool>,
}

impl View for MockZkVerifier {
    type V = MockZkVerifierView;

    open spec fn view(&self) -> MockZkVerifierView {
        MockZkVerifierView { commitments: self.commitments@, flags: self.flags@ }
    }
}

impl MockZkVerifierView {
    /// Whether the verifier rejects everything.
    pub open spec fn rejects_all(self) -> bool {
        self.flags.contains_key(VerifierKey::Reject) && self.flags[VerifierKey::Reject]
    }

    /// The commitment that the verifier accepts: all zeros until it is told.
    pub open spec fn expected(self) -> Seq<u8> {
        if self.commitments.contains_key(VerifierKey::Expected) {
            self.commitments[VerifierKey::Expected]
        } else {
            Seq::new(32, |i: int| 0u8)
        }
    }
}

impl MockZkVerifier {
    /// A verifier that has been told nothing.
    pub fn new() -> (verifier: MockZkVerifier)
        ensures
            verifier@ == (MockZkVerifierView { commitments: Map::empty(), flags: Map::empty() }),
    {
        MockZkVerifier { commitments: Table::new(), flags: Table::new() }
    }

    /// Set the commitment the verifier will accept.
    pub fn set_expected(&mut self, commitment: [u8; 32])
        ensures
            final(self)@ == (MockZkVerifierView {
                commitments: old(self)@.commitments.insert(VerifierKey::Expected, commitment@),
                ..old(self)@
            }),
    {
        self.commitments.set(&VerifierKey::Expected, commitment);
    }

    /// Make the verifier reject everything, standing in for a reverting or
    /// misbehaving verifier.
    pub fn set_reject_all(&mut self, reject: bool)
        ensures
            final(self)@ == (MockZkVerifierView {
                flags: old(self)@.flags.insert(VerifierKey::Reject, reject),
                ..old(self)@
            }),
    {
        self.flags.set(&VerifierKey::Reject, reject);
    }

    /// Check `_proof` against `public_inputs`.
    pub fn verify(&self, _proof: &Vec<u8>, public_inputs: &Vec<[u8; 32]>) -> (accepted: bool)
        ensures
            accepted == (!self@.rejects_all() && public_inputs@.len() > 0 && public_inputs@[0]@
                == self@.expected()),
    {
        if let Some(reject) = self.flags.get(&VerifierKey::Reject) {
            if *reject {
                return false;
            }
        }
        let zeros: [u8; 32] = [0u8; 32];
        assert(zeros@ =~= Seq::new(32, |i: int| 0u8));
        let expected: &[u8; 32] = match self.commitments.get(&VerifierKey::Expected) {
            Some(expected) => expected,
            None => &zeros,
        };
        if public_inputs.len() == 0 {
            return false;
        }
        proof {
            if public_inputs@[0]@ == expected@ {
                assert(public_inputs@[0] =~= *expected);
            }
        }
        same_bytes32(&public_inputs[0], expected)
    }
}

} // verus!
