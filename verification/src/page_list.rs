//! Short lists of page addresses that live on the stack.
use vstd::prelude::*;

verus! {

/// A vector of bounded capacity.
#[verifier::external_type_specification]
#[verifier::external_body]
#[verifier::reject_recursive_types(T)]
pub struct ExArrayVec<T, const CAP: usize>(arrayvec::ArrayVec<T, CAP>);

/// The addresses in a list, in order.
pub uninterp spec fn page_list(list: arrayvec::ArrayVec<u64, 32>) -> Seq<u64>;

/// `arrayvec::ArrayVec::new`: a list without addresses.
#[verifier::external_body]
pub(crate) fn page_list_new() -> (r: arrayvec::ArrayVec<u64, 32>)
    ensures
        page_list(r).len() == 0,
{
    arrayvec::ArrayVec::new()
}

/// `arrayvec::ArrayVec::push`: puts an address at the end of the list, which must have room for it.
#[verifier::external_body]
pub(crate) fn page_list_push(list: &mut arrayvec::ArrayVec<u64, 32>, addr: u64)
    requires
        page_list(*old(list)).len() < 32,
    ensures
        page_list(*final(list)) == page_list(*old(list)).push(addr),
{
    list.push(addr);
}

/// `arrayvec::ArrayVec::as_slice`: the addresses as a slice.
#[verifier::external_body]
pub(crate) fn page_list_slice(list: &arrayvec::ArrayVec<u64, 32>) -> (r: &[u64])
    ensures
        r@ == page_list(*list),
{
    list.as_slice()
}

/// `arrayvec::ArrayVec::clear`: takes all addresses out.
#[verifier::external_body]
pub(crate) fn page_list_clear(list: &mut arrayvec::ArrayVec<u64, 32>)
    ensures
        page_list(*final(list)).len() == 0,
{
    list.clear();
}

} // verus!
