//! The codes that the library knows by name.
use vstd::prelude::*;
use vstd::arithmetic::power2::lemma2_to64;
use crate::convolutional::ConvolutionalCode;
use crate::turbo::TurboCode;

verus! {

/// The generator polynomials of the abrantes code: the systematic part and the encoded part.
pub const ABRANTES_GENERATORS: [usize; 2] = [0b111, 0b101];

/// The generator polynomials of the UMTS code: the systematic part, which
/// matches the feedback, and the encoded part.
pub const UMTS_GENERATORS: [usize; 2] = [0b1011, 0b1101];

/// The generator polynomials of the Mioty code: 0x6D, 0x53 and 0x5F.
pub const MIOTY_GENERATORS: [usize; 3] = [0b1101101, 0b1010011, 0b1011111];

/// The abrantes code defined by the transfer polynomial G = [1, (1+x^2)/(1+x+x^2)].
#[derive(Default)]
pub struct ABRANTES;

impl ConvolutionalCode for ABRANTES {
    const CONSTRAINT_LENGTH: usize = 3;

    open spec fn spec_generators() -> Seq<usize> {
        ABRANTES_GENERATORS@
    }

    fn generators() -> (generators: &'static [usize]) {
        &ABRANTES_GENERATORS
    }

    const FEEDBACK: usize = 0b111;

    proof fn lemma_well_formed() {
        lemma2_to64();
    }
}

/// The UMTS/LTE Turbo Code defined by the transfer polynomial G = [1, (1+x+x^3)/(1+x^2+x^3)].
#[derive(Default)]
pub struct UMTS;

impl ConvolutionalCode for UMTS {
    const CONSTRAINT_LENGTH: usize = 4;

    open spec fn spec_generators() -> Seq<usize> {
        UMTS_GENERATORS@
    }

    fn generators() -> (generators: &'static [usize]) {
        &UMTS_GENERATORS
    }

    const FEEDBACK: usize = 0b1011;

    proof fn lemma_well_formed() {
        lemma2_to64();
    }
}

impl TurboCode for UMTS {
    type ConstituentEncoderCode = UMTS;

    const TERMINATE_FIRST: bool = true;

    const TERMINATE_SECOND: bool = true;

    proof fn lemma_constituent() {
    }
}

/// The Mioty code: a rate 1/3 code without feedback.
#[derive(Default)]
pub struct MIOTY;

impl ConvolutionalCode for MIOTY {
    const CONSTRAINT_LENGTH: usize = 7;

    open spec fn spec_generators() -> Seq<usize> {
        MIOTY_GENERATORS@
    }

    fn generators() -> (generators: &'static [usize]) {
        &MIOTY_GENERATORS
    }

    const FEEDBACK: usize = 0;

    proof fn lemma_well_formed() {
        lemma2_to64();
    }
}

/// The constants of the abrantes code.
pub proof fn lemma_abrantes()
    ensures
        ABRANTES::CONSTRAINT_LENGTH == 3,
        ABRANTES::spec_generators() == seq![0b111usize, 0b101usize],
        ABRANTES::FEEDBACK == 0b111,
{
    assert(ABRANTES::spec_generators() =~= seq![0b111usize, 0b101usize]);
}

/// The constants of the UMTS code and of the UMTS turbo code.
pub proof fn lemma_umts()
    ensures
        UMTS::CONSTRAINT_LENGTH == 4,
        UMTS::spec_generators() == seq![0b1011usize, 0b1101usize],
        UMTS::FEEDBACK == 0b1011,
        UMTS::TERMINATE_FIRST,
        UMTS::TERMINATE_SECOND,
{
    assert(UMTS::spec_generators() =~= seq![0b1011usize, 0b1101usize]);
}

/// The constants of the Mioty code.
pub proof fn lemma_mioty()
    ensures
        MIOTY::CONSTRAINT_LENGTH == 7,
        MIOTY::spec_generators() == seq![0b1101101usize, 0b1010011usize, 0b1011111usize],
        MIOTY::FEEDBACK == 0,
{
    assert(MIOTY::spec_generators() =~= seq![0b1101101usize, 0b1010011usize, 0b1011111usize]);
}

} // verus!
