//! The fixed-capacity buffers of the decoders.
//!
//! The buffers are vectors of the `heapless` crate, which live on the stack
//! and never allocate. Verus does not read that crate: what this module says
//! of its functions is taken from its source and is believed, not proved.
use vstd::prelude::*;
use crate::convolutional::bcjr::BcjrSymbol;
use crate::Llr;

verus! {

/// The capacity of each buffer: the largest block of the UMTS turbo code,
/// 6144 bits, and the longest termination tail, 8 symbols.
pub const MAX_TRELLIS_BITS: usize = 6152;

/// `heapless::Vec`, a vector of at most `N` items that is stored in place.
#[verifier::external_type_specification]
#[verifier::external_body]
#[verifier::reject_recursive_types(T)]
pub struct ExHeaplessVec<T, const N: usize>(heapless::Vec<T, N>);

/// The buffer of the packed branch metrics, one word for each stage.
pub type GammaBuffer = heapless::Vec<u32, MAX_TRELLIS_BITS>;

/// The buffer of the input of a constituent decoder, one symbol for each stage.
pub type SymbolBuffer = heapless::Vec<BcjrSymbol, MAX_TRELLIS_BITS>;

/// The buffer of soft values, one for each stage.
pub type LlrBuffer = heapless::Vec<Llr, MAX_TRELLIS_BITS>;

/// The items that a buffer of branch metrics holds, in their order.
pub uninterp spec fn gamma_items(buffer: heapless::Vec<u32, MAX_TRELLIS_BITS>) -> Seq<u32>;

/// The items that a buffer of symbols holds, in their order.
pub uninterp spec fn symbol_items(buffer: heapless::Vec<BcjrSymbol, MAX_TRELLIS_BITS>) -> Seq<BcjrSymbol>;

/// The items that a buffer of soft values holds, in their order.
pub uninterp spec fn llr_items(buffer: heapless::Vec<Llr, MAX_TRELLIS_BITS>) -> Seq<Llr>;

/// `heapless::Vec::new`: the new vector is empty.
#[verifier::external_body]
pub(crate) fn gamma_new() -> (buffer: GammaBuffer)
    ensures
        gamma_items(buffer).len() == 0,
{
    heapless::Vec::new()
}

/// `heapless::Vec::push`: below the capacity the item is appended and `Ok`
/// comes back; at the capacity nothing changes and the item comes back in `Err`.
#[verifier::external_body]
pub(crate) fn gamma_push(buffer: &mut GammaBuffer, item: u32) -> (result: Result<(), u32>)
    ensures
        gamma_items(*old(buffer)).len() < MAX_TRELLIS_BITS ==> result.is_ok() && gamma_items(
            *final(buffer),
        ) == gamma_items(*old(buffer)).push(item),
        gamma_items(*old(buffer)).len() >= MAX_TRELLIS_BITS ==> (result matches Err(rejected) && rejected == item)
            && gamma_items(*final(buffer)) == gamma_items(*old(buffer)),
{
    buffer.push(item)
}

/// `heapless::Vec::as_slice`: the slice holds the items of the vector.
#[verifier::external_body]
pub(crate) fn gamma_slice(buffer: &GammaBuffer) -> (slice: &[u32])
    ensures
        slice@ == gamma_items(*buffer),
{
    buffer.as_slice()
}

/// `heapless::Vec::new`: the new vector is empty.
#[verifier::external_body]
pub(crate) fn symbols_new() -> (buffer: SymbolBuffer)
    ensures
        symbol_items(buffer).len() == 0,
{
    heapless::Vec::new()
}

/// `heapless::Vec::push`: below the capacity the item is appended and `Ok`
/// comes back; at the capacity nothing changes and the item comes back in `Err`.
#[verifier::external_body]
pub(crate) fn symbols_push(buffer: &mut SymbolBuffer, item: BcjrSymbol) -> (result: Result<(), BcjrSymbol>)
    ensures
        symbol_items(*old(buffer)).len() < MAX_TRELLIS_BITS ==> result.is_ok() && symbol_items(
            *final(buffer),
        ) == symbol_items(*old(buffer)).push(item),
        symbol_items(*old(buffer)).len() >= MAX_TRELLIS_BITS ==> (result matches Err(rejected) && rejected == item)
            && symbol_items(*final(buffer)) == symbol_items(*old(buffer)),
{
    buffer.push(item)
}

/// `heapless::Vec::extend_from_slice`: if the items of the slice fit below
/// the capacity they are appended in their order and `Ok` comes back; if
/// not, nothing changes and `Err` comes back.
#[verifier::external_body]
pub(crate) fn symbols_extend_from_slice(buffer: &mut SymbolBuffer, other: &[BcjrSymbol]) -> (result: Result<(), ()>)
    ensures
        symbol_items(*old(buffer)).len() + other@.len() <= MAX_TRELLIS_BITS ==> result.is_ok()
            && symbol_items(*final(buffer)) == symbol_items(*old(buffer)) + other@,
        symbol_items(*old(buffer)).len() + other@.len() > MAX_TRELLIS_BITS ==> result.is_err()
            && symbol_items(*final(buffer)) == symbol_items(*old(buffer)),
{
    buffer.extend_from_slice(other)
}

/// `heapless::Vec::as_slice`: the slice holds the items of the vector.
#[verifier::external_body]
pub(crate) fn symbols_slice(buffer: &SymbolBuffer) -> (slice: &[BcjrSymbol])
    ensures
        slice@ == symbol_items(*buffer),
{
    buffer.as_slice()
}

/// `heapless::Vec::as_mut_slice`: the slice holds the items of the vector,
/// and what is written to the slice is written to the vector.
#[verifier::external_body]
pub(crate) fn symbols_slice_mut(buffer: &mut SymbolBuffer) -> (slice: &mut [BcjrSymbol])
    ensures
        slice@ == symbol_items(*old(buffer)),
        symbol_items(*final(buffer)) == final(slice)@,
{
    buffer.as_mut_slice()
}

/// `heapless::Vec::new`: the new vector is empty.
#[verifier::external_body]
pub(crate) fn llr_new() -> (buffer: LlrBuffer)
    ensures
        llr_items(buffer).len() == 0,
{
    heapless::Vec::new()
}

/// `heapless::Vec::resize_default`: a length within the capacity is taken
/// on and `Ok` comes back, the vector being cut or filled up with the
/// default value, which is zero; beyond the capacity nothing changes and
/// `Err` comes back.
#[verifier::external_body]
pub(crate) fn llr_resize_default(buffer: &mut LlrBuffer, new_len: usize) -> (result: Result<(), ()>)
    ensures
        new_len <= MAX_TRELLIS_BITS ==> result.is_ok() && llr_items(*final(buffer)) == Seq::new(
            new_len as nat,
            |i: int|
                if i < llr_items(*old(buffer)).len() {
                    llr_items(*old(buffer))[i]
                } else {
                    0i8
                },
        ),
        new_len > MAX_TRELLIS_BITS ==> result.is_err() && llr_items(*final(buffer)) == llr_items(
            *old(buffer),
        ),
{
    buffer.resize_default(new_len)
}

/// `heapless::Vec::as_slice`: the slice holds the items of the vector.
#[verifier::external_body]
pub(crate) fn llr_slice(buffer: &LlrBuffer) -> (slice: &[Llr])
    ensures
        slice@ == llr_items(*buffer),
{
    buffer.as_slice()
}

/// `heapless::Vec::as_mut_slice`: the slice holds the items of the vector,
/// and what is written to the slice is written to the vector.
#[verifier::external_body]
pub(crate) fn llr_slice_mut(buffer: &mut LlrBuffer) -> (slice: &mut [Llr])
    ensures
        slice@ == llr_items(*old(buffer)),
        llr_items(*final(buffer)) == final(slice)@,
{
    buffer.as_mut_slice()
}

} // verus!
