//! Semantic-action handlers and their registry.

use vstd::prelude::*;

use crate::derivation::{DerivationView, ReduceDerivation};

verus! {

/// A semantic action: folds the synthesized values of a derivation's
/// right-hand symbols, in production order, into one synthesized value for the
/// left-hand symbol. A handler is pure: what it returns is a function of its
/// argument values alone.
pub trait Handler: Sized {
    /// The value the handler computes from the given child values.
    spec fn spec_call(&self, vals: Seq<Seq<char>>) -> Seq<char>;

    /// Compute the synthesized value for the given child values.
    fn call(&self, vals: Vec<String>) -> (r: String)
        ensures
            r@ == self.spec_call(string_views(vals@)),
    ;
}

/// The values of a sequence of strings, in order.
pub open spec fn string_views(s: Seq<String>) -> Seq<Seq<char>> {
    Seq::new(s.len(), |i: int| s[i]@)
}

/// The mathematical value of a handler registry: derivation/handler pairs in
/// order.
pub open spec fn registry_view<H: Handler>(hs: Seq<(ReduceDerivation, H)>) -> Seq<
    (DerivationView, H),
> {
    Seq::new(hs.len(), |i: int| (hs[i].0@, hs[i].1))
}

/// The handler registered for `d`: the first pair with that derivation, if
/// any.
pub open spec fn registry_action<H: Handler>(hs: Seq<(DerivationView, H)>, d: DerivationView) -> Option<
    H,
>
    decreases hs.len(),
{
    if hs.len() == 0 {
        None
    } else if hs[0].0 == d {
        Some(hs[0].1)
    } else {
        registry_action(hs.subrange(1, hs.len() as int), d)
    }
}

/// Find the handler registered for `d`.
pub(crate) fn find_handler<'a, H: Handler>(
    handlers: &'a Vec<(ReduceDerivation, H)>,
    d: &ReduceDerivation,
) -> (r: Option<&'a H>)
    ensures
        match r {
            Some(h) => registry_action(registry_view(handlers@), d@) == Some(*h),
            None => registry_action(registry_view(handlers@), d@) == None::<H>,
        },
{
    let ghost rv = registry_view(handlers@);
    proof {
        assert(rv.subrange(0, rv.len() as int) =~= rv);
    }
    let mut i: usize = 0;
    while i < handlers.len()
        invariant
            i <= handlers@.len(),
            rv == registry_view(handlers@),
            registry_action(rv.subrange(i as int, rv.len() as int), d@)
                == registry_action(rv, d@),
        decreases handlers@.len() - i,
    {
        proof {
            assert(rv[i as int] == (handlers@[i as int].0@, handlers@[i as int].1));
        }
        if handlers[i].0 == *d {
            proof {
                let sub = rv.subrange(i as int, rv.len() as int);
                assert(sub[0] == rv[i as int]);
                assert(handlers@[i as int].0@ =~= d@);
                assert(registry_action(sub, d@) == Some(handlers@[i as int].1));
            }
            return Some(&handlers[i].1);
        }
        proof {
            let sub = rv.subrange(i as int, rv.len() as int);
            assert(sub[0] == rv[i as int]);
            assert(handlers@[i as int].0@ != d@);
            assert(sub.subrange(1, sub.len() as int)
                =~= rv.subrange(i as int + 1, rv.len() as int));
        }
        i = i + 1;
    }
    proof {
        assert(rv.subrange(i as int, rv.len() as int) =~= Seq::<(DerivationView, H)>::empty());
    }
    None
}

} // verus!
