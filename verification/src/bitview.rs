//! A read-only view of a sequence of bits.
use vstd::prelude::*;
use vstd::arithmetic::power2::pow2;
use bitvec::order::Msb0;
use bitvec::slice::BitSlice;

verus! {

/// A sequence of bits that can be read by index.
pub trait BitView {
    /// The bits of the view, in their order.
    spec fn bits(&self) -> Seq<bool>;

    /// The bit at `index`.
    fn get(&self, index: usize) -> (bit: bool)
        requires
            index < self.bits().len(),
        ensures
            bit == self.bits()[index as int],
    ;

    /// The number of bits.
    fn len2(&self) -> (len: usize)
        ensures
            len == self.bits().len(),
    ;
}

impl BitView for &[bool] {
    open spec fn bits(&self) -> Seq<bool> {
        self@
    }

    fn get(&self, index: usize) -> (bit: bool) {
        self[index]
    }

    fn len2(&self) -> (len: usize) {
        self.len()
    }
}

impl<const N: usize> BitView for &[bool; N] {
    open spec fn bits(&self) -> Seq<bool> {
        self@
    }

    fn get(&self, index: usize) -> (bit: bool) {
        self[index]
    }

    fn len2(&self) -> (len: usize) {
        N
    }
}

/// The bit `index` of a sequence of bytes, where each byte gives its most significant bit first.
pub open spec fn msb0_bit(bytes: Seq<u8>, index: int) -> bool {
    (bytes[index / 8] as nat / pow2((7 - index % 8) as nat)) % 2 == 1
}

/// The bits of a slice of bytes, the most significant bit of each byte
/// first: a bit slice of the `bitvec` crate over the bytes.
///
/// The verifier does not look into the bit slice: what the functions below
/// say of it is taken from the source of that crate and is believed, not
/// proved.
#[verifier::external_body]
pub struct Msb0Bits<'a> {
    bits: &'a BitSlice<u8, Msb0>,
}

/// The bits that a bit slice holds, in their order.
pub uninterp spec fn msb0_items(view: Msb0Bits) -> Seq<bool>;

/// `bitvec::view::BitView::view_bits` with the order `Msb0`: the bit slice
/// holds eight bits for each byte, in the order of the bytes and within a
/// byte from the most significant bit down. The crate keeps the number of
/// the bits in a machine word less its three lowest bits: the number of the
/// bits has to fit there, which is what is asked of the bytes. (A slice with
/// one byte more than that still passes the crate's own test of the length,
/// and its bits are then miscounted; beyond that the crate panics.)
#[verifier::external_body]
fn msb0_view_bits<'a>(bytes: &'a [u8]) -> (view: Msb0Bits<'a>)
    requires
        8 * bytes@.len() <= usize::MAX / 8,
    ensures
        msb0_items(view).len() == 8 * bytes@.len(),
        forall|i: int| 0 <= i < 8 * bytes@.len() ==> #[trigger] msb0_items(view)[i] == msb0_bit(bytes@, i),
{
    Msb0Bits { bits: bitvec::view::BitView::view_bits::<Msb0>(bytes) }
}

/// `BitSlice::len`: the number of bits of the bit slice.
#[verifier::external_body]
fn msb0_len(view: &Msb0Bits) -> (len: usize)
    ensures
        len == msb0_items(*view).len(),
{
    view.bits.len()
}

/// Indexing a `BitSlice`: the bit at an index below the length.
#[verifier::external_body]
fn msb0_index(view: &Msb0Bits, index: usize) -> (bit: bool)
    requires
        index < msb0_items(*view).len(),
    ensures
        bit == msb0_items(*view)[index as int],
{
    view.bits[index]
}

impl<'a> Msb0Bits<'a> {
    /// View the bits of `bytes`, the most significant bit of each byte first.
    ///
    /// The number of the bits has to fit a machine word less three bits.
    pub fn new(bytes: &'a [u8]) -> (view: Self)
        requires
            8 * bytes@.len() <= usize::MAX / 8,
        ensures
            view.bits().len() == 8 * bytes@.len(),
            forall|i: int| 0 <= i < 8 * bytes@.len() ==> #[trigger] view.bits()[i] == msb0_bit(bytes@, i),
    {
        msb0_view_bits(bytes)
    }
}

impl<'a> BitView for Msb0Bits<'a> {
    open spec fn bits(&self) -> Seq<bool> {
        msb0_items(*self)
    }

    fn get(&self, index: usize) -> (bit: bool) {
        msb0_index(self, index)
    }

    fn len2(&self) -> (len: usize) {
        msb0_len(self)
    }
}

} // verus!
