use vstd::prelude::*;

use crate::curve::{
    g1_add, g1_commutes, g1_regroups, g1_sum, g2_add, g2_commutes, g2_regroups, g2_sum, gt_add,
    gt_sum, Gt, Scalar, G1, G2,
};
use crate::params::scalar_value;

verus! {

/// A commitment `(c1, c2)` to a point of G1, used both for signatures and for
/// messages.
#[derive(Clone, Debug, PartialEq, Eq)]
pub struct Commitment {
    pub c1: G1,
    pub c2: G1,
}

/// The proof of knowledge `(z1, z2)`, two points of G2.
#[derive(Clone, Debug, PartialEq, Eq)]
pub struct Proof {
    pub z1: G2,
    pub z2: G2,
}

/// A concealed signature: commitments to the signature and to the message,
/// with a proof of knowledge.
#[derive(Clone, Debug, PartialEq, Eq)]
pub struct ConcealedSignature {
    pub signature_commitment: Commitment,
    pub message_commitment: Commitment,
    pub proof: Proof,
}

/// The randomness of a conversion, which opens the message commitment.
pub struct AuxiliaryData {
    pub r_sig: Scalar,
    pub s_sig: Scalar,
    pub r_msg: Scalar,
    pub s_msg: Scalar,
}

/// The cross terms `(t1, t2)` of an aggregate, two elements of GT.
#[derive(Clone, Debug, PartialEq, Eq)]
pub struct Cross {
    pub t1: Gt,
    pub t2: Gt,
}

/// An aggregate of concealed signatures.
#[derive(Clone, Debug, PartialEq, Eq)]
pub struct AggregateSignature {
    pub signature_commitment: Commitment,
    pub message_commitment: Commitment,
    pub proof: Proof,
    pub avk: G2,
    pub cross: Cross,
}

/// The local opening of an aggregate for one of its signers: the aggregate of
/// all the other concealed signatures.
#[derive(Clone, Debug, PartialEq, Eq)]
pub struct LocalAggregateOpening {
    pub signature_commitment: Commitment,
    pub message_commitment: Commitment,
    pub proof: Proof,
    pub cross: Cross,
}

pub struct CommitmentModel {
    pub c1: Seq<u8>,
    pub c2: Seq<u8>,
}

pub struct ProofModel {
    pub z1: Seq<u8>,
    pub z2: Seq<u8>,
}

pub struct ConcealedModel {
    pub signature_commitment: CommitmentModel,
    pub message_commitment: CommitmentModel,
    pub proof: ProofModel,
}

/// The values in `Fr` of the four random scalars of a conversion.
pub struct AuxModel {
    pub r_sig: nat,
    pub s_sig: nat,
    pub r_msg: nat,
    pub s_msg: nat,
}

pub struct CrossModel {
    pub t1: Seq<u8>,
    pub t2: Seq<u8>,
}

pub struct AggregateModel {
    pub signature_commitment: CommitmentModel,
    pub message_commitment: CommitmentModel,
    pub proof: ProofModel,
    pub avk: Seq<u8>,
    pub cross: CrossModel,
}

pub struct OpeningModel {
    pub signature_commitment: CommitmentModel,
    pub message_commitment: CommitmentModel,
    pub proof: ProofModel,
    pub cross: CrossModel,
}

impl View for Commitment {
    type V = CommitmentModel;

    open spec fn view(&self) -> CommitmentModel {
        CommitmentModel { c1: self.c1@, c2: self.c2@ }
    }
}

impl View for Proof {
    type V = ProofModel;

    open spec fn view(&self) -> ProofModel {
        ProofModel { z1: self.z1@, z2: self.z2@ }
    }
}

impl View for ConcealedSignature {
    type V = ConcealedModel;

    open spec fn view(&self) -> ConcealedModel {
        ConcealedModel {
            signature_commitment: self.signature_commitment@,
            message_commitment: self.message_commitment@,
            proof: self.proof@,
        }
    }
}

impl View for AuxiliaryData {
    type V = AuxModel;

    open spec fn view(&self) -> AuxModel {
        AuxModel {
            r_sig: scalar_value(self.r_sig@),
            s_sig: scalar_value(self.s_sig@),
            r_msg: scalar_value(self.r_msg@),
            s_msg: scalar_value(self.s_msg@),
        }
    }
}

impl View for Cross {
    type V = CrossModel;

    open spec fn view(&self) -> CrossModel {
        CrossModel { t1: self.t1@, t2: self.t2@ }
    }
}

impl View for AggregateSignature {
    type V = AggregateModel;

    open spec fn view(&self) -> AggregateModel {
        AggregateModel {
            signature_commitment: self.signature_commitment@,
            message_commitment: self.message_commitment@,
            proof: self.proof@,
            avk: self.avk@,
            cross: self.cross@,
        }
    }
}

impl View for LocalAggregateOpening {
    type V = OpeningModel;

    open spec fn view(&self) -> OpeningModel {
        OpeningModel {
            signature_commitment: self.signature_commitment@,
            message_commitment: self.message_commitment@,
            proof: self.proof@,
            cross: self.cross@,
        }
    }
}

/// The componentwise sum of two commitments.
pub open spec fn commitment_sum(a: CommitmentModel, b: CommitmentModel) -> CommitmentModel {
    CommitmentModel { c1: g1_sum(a.c1, b.c1), c2: g1_sum(a.c2, b.c2) }
}

/// The componentwise sum of two proofs.
pub open spec fn proof_sum(a: ProofModel, b: ProofModel) -> ProofModel {
    ProofModel { z1: g2_sum(a.z1, b.z1), z2: g2_sum(a.z2, b.z2) }
}

/// The componentwise sum of two cross terms.
pub open spec fn cross_sum(a: CrossModel, b: CrossModel) -> CrossModel {
    CrossModel { t1: gt_sum(a.t1, b.t1), t2: gt_sum(a.t2, b.t2) }
}

impl Commitment {
    /// A copy of this commitment.
    pub fn clone_commitment(&self) -> (r: Commitment)
        ensures
            r@ == self@,
    {
        Commitment { c1: self.c1.duplicate(), c2: self.c2.duplicate() }
    }

    /// Whether the two commitments are equal.
    pub fn equals(&self, other: &Commitment) -> (r: bool)
        ensures
            r == (self@ == other@),
    {
        self.c1.equals(&other.c1) && self.c2.equals(&other.c2)
    }

    /// The componentwise sum of two values.
    pub fn add(self, other: Self) -> (r: Self)
        ensures
            r@ == commitment_sum(self@, other@),
            r@ == commitment_sum(other@, self@),
            g1_commutes(r.c1@),
            g1_commutes(r.c2@),
            g1_regroups(r.c1@, self.c1@, other.c1@),
            g1_regroups(r.c2@, self.c2@, other.c2@),
    {
        Commitment { c1: g1_add(&self.c1, &other.c1), c2: g1_add(&self.c2, &other.c2) }
    }
}

impl Proof {
    /// A copy of this proof.
    pub fn clone_proof(&self) -> (r: Proof)
        ensures
            r@ == self@,
    {
        Proof { z1: self.z1.duplicate(), z2: self.z2.duplicate() }
    }

    /// Whether the two proofs are equal.
    pub fn equals(&self, other: &Proof) -> (r: bool)
        ensures
            r == (self@ == other@),
    {
        self.z1.equals(&other.z1) && self.z2.equals(&other.z2)
    }

    /// The componentwise sum of two values.
    pub fn add(self, other: Self) -> (r: Self)
        ensures
            r@ == proof_sum(self@, other@),
            r@ == proof_sum(other@, self@),
            g2_commutes(r.z1@),
            g2_commutes(r.z2@),
            g2_regroups(r.z1@, self.z1@, other.z1@),
            g2_regroups(r.z2@, self.z2@, other.z2@),
    {
        Proof { z1: g2_add(&self.z1, &other.z1), z2: g2_add(&self.z2, &other.z2) }
    }
}

impl Cross {
    /// The componentwise sum of two values.
    pub fn add(self, other: Self) -> (r: Self)
        ensures
            r@ == cross_sum(self@, other@),
            r@ == cross_sum(other@, self@),
    {
        Cross { t1: gt_add(&self.t1, &other.t1), t2: gt_add(&self.t2, &other.t2) }
    }
}

} // verus!
