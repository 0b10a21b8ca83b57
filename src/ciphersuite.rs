use vstd::prelude::*;
use vstd::string::StringSliceAdditionalSpecFns;
use crate::bytes::push_bytes;

verus! {

/// The prime-order groups that a ciphersuite can be built on.
#[derive(Debug, Clone, Copy, PartialEq, Eq, Structural)]
pub enum Group {
    Ristretto255,
}

/// A group, the SHA-512 hash, and whether evaluations carry a proof.
#[derive(Debug, Clone, Copy, PartialEq, Eq, Structural)]
pub struct Ciphersuite {
    pub group: Group,
    pub verifiable: bool,
}

/// The protocol steps whose hashes are kept apart by a domain label.
#[derive(Debug, Clone, Copy, PartialEq, Eq, Structural)]
pub enum Step {
    HashToGroup,
    Seed,
    Challenge,
    Finalize,
}

/// The label of a step.
pub open spec fn step_label(step: Step) -> Seq<u8> {
    match step {
        Step::HashToGroup => "-HashToGroup".spec_bytes(),
        Step::Seed => "-Seed".spec_bytes(),
        Step::Challenge => "-Challenge".spec_bytes(),
        Step::Finalize => "-Finalize".spec_bytes(),
    }
}

impl Ciphersuite {
    pub fn new(group: Group, verifiable: bool) -> (r: Ciphersuite)
        ensures
            r.group == group,
            r.verifiable == verifiable,
    {
        Ciphersuite { group, verifiable }
    }

    /// The suite's identifier: protocol mode, group and hash.
    pub open spec fn spec_name(self) -> Seq<u8> {
        if self.verifiable {
            "VOPRF-ristretto255-SHA512".spec_bytes()
        } else {
            "OPRF-ristretto255-SHA512".spec_bytes()
        }
    }

    /// The suite's identifier followed by a domain label.
    pub open spec fn spec_tag(self, step: Step) -> Seq<u8> {
        self.spec_name() + step_label(step)
    }

    pub fn name(&self) -> (r: Vec<u8>)
        ensures
            r@ == self.spec_name(),
    {
        let mut out: Vec<u8> = Vec::new();
        if self.verifiable {
            push_bytes(&mut out, "VOPRF-ristretto255-SHA512".as_bytes());
        } else {
            push_bytes(&mut out, "OPRF-ristretto255-SHA512".as_bytes());
        }
        out
    }

    /// The domain-separation tag for one step of the protocol.
    pub fn tag(&self, step: Step) -> (r: Vec<u8>)
        ensures
            r@ == self.spec_tag(step),
    {
        let mut out = self.name();
        match step {
            Step::HashToGroup => push_bytes(&mut out, "-HashToGroup".as_bytes()),
            Step::Seed => push_bytes(&mut out, "-Seed".as_bytes()),
            Step::Challenge => push_bytes(&mut out, "-Challenge".as_bytes()),
            Step::Finalize => push_bytes(&mut out, "-Finalize".as_bytes()),
        }
        out
    }
}

} // verus!
