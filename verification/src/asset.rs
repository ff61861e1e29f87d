//! An asset under simulation.

use vstd::prelude::*;

verus! {

/// The two sides of an asset that undergoes simulation.
#[verifier::reject_recursive_types(L)]
#[verifier::reject_recursive_types(E)]
pub struct Asset<L: ?Sized, E: ?Sized> {
    pub local: Box<L>,
    pub exch: Box<E>,
}

/// Appends the two sides of an asset to those of the assets before it.
pub(crate) fn push_sides<L, E>(locals: &mut Vec<L>, exchs: &mut Vec<E>, local: L, exch: E)
    ensures
        final(locals)@ == old(locals)@.push(local),
        final(exchs)@ == old(exchs)@.push(exch),
        final(locals)@.len() == old(locals)@.len() + 1,
        final(exchs)@.len() == old(exchs)@.len() + 1,
{
    locals.push(local);
    exchs.push(exch);
}

} // verus!
