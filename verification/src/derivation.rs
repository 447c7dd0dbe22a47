//! Grammar productions used as lookup keys.

use vstd::prelude::*;

verus! {

/// One production of the grammar: a left-hand symbol and the ordered sequence
/// of right-hand symbols it rewrites to. Two derivations are equal iff both
/// sides match exactly, including order and length.
#[derive(Debug)]
pub struct ReduceDerivation {
    pub left: String,
    pub right: Vec<String>,
}

/// The mathematical value of a derivation.
#[verifier::ext_equal]
pub struct DerivationView {
    pub left: Seq<char>,
    pub right: Seq<Seq<char>>,
}

impl View for ReduceDerivation {
    type V = DerivationView;

    open spec fn view(&self) -> DerivationView {
        DerivationView { left: self.left@, right: Seq::new(self.right@.len(), |i: int| self.right@[i]@) }
    }
}

impl ReduceDerivation {
    pub fn build(left: String, right: Vec<String>) -> (d: Self)
        ensures
            d@.left == left@,
            d@.right == Seq::new(right@.len(), |i: int| right@[i]@),
    {
        ReduceDerivation { left, right }
    }

    /// Copy the derivation; the copy has the same value.
    pub fn duplicate(&self) -> (d: Self)
        ensures
            d@ == self@,
    {
        let mut right: Vec<String> = Vec::new();
        for i in 0..self.right.len()
            invariant
                right@.len() == i,
                forall|j: int| 0 <= j < i ==> right@[j]@ == self.right@[j]@,
        {
            right.push(self.right[i].clone());
        }
        let d = ReduceDerivation { left: self.left.clone(), right };
        proof {
            assert(d@.right =~= self@.right);
        }
        d
    }
}

impl PartialEq for ReduceDerivation {
    fn eq(&self, other: &Self) -> (r: bool) {
        if !(self.left == other.left) {
            return false;
        }
        if self.right.len() != other.right.len() {
            proof {
                assert(self@.right.len() != other@.right.len());
            }
            return false;
        }
        for i in 0..self.right.len()
            invariant
                self.right@.len() == other.right@.len(),
                forall|j: int| 0 <= j < i ==> self.right@[j]@ == other.right@[j]@,
        {
            if !(self.right[i] == other.right[i]) {
                proof {
                    assert(self@.right[i as int] != other@.right[i as int]);
                }
                return false;
            }
        }
        proof {
            assert(self@.right =~= other@.right);
        }
        true
    }
}

impl Eq for ReduceDerivation {}

impl vstd::std_specs::cmp::PartialEqSpecImpl for ReduceDerivation {
    open spec fn obeys_eq_spec() -> bool {
        true
    }

    open spec fn eq_spec(&self, other: &Self) -> bool {
        self@.left == other@.left && self@.right == other@.right
    }
}

} // verus!
