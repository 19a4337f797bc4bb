use vstd::prelude::*;
use crate::registers::{Field, Write, RegisterBank};
use crate::clock::{PLL0_CONFIG, ROOT0_SELECT, CM4_FAST_INT_DIV, CM0_CLOCK_CTL};

verus! {

/// Which of the two cores a build runs on.
#[derive(Clone, Copy, Debug, PartialEq, Eq, Structural)]
pub enum CoreRole {
    /// The application core, which also releases the peer.
    Cm4,
    /// The real-time core.
    Cm0,
}

pub const CM4_CORE_FREQUENCY: u32 = 160_000_000;

pub const CM0_CORE_FREQUENCY: u32 = 80_000_000;

/// Frequency of the internal main oscillator that feeds the PLL.
pub const IMO_FREQUENCY: u32 = 8_000_000;

/// Start of the application core's vector table, at the beginning of its flash.
pub const CM4_VECTOR_TABLE_BASE: u32 = 0x1000_8000;

/// Power-control word that enables power and clock to the application core.
pub const CM4_PWR_CTL_ENABLE: u32 = 0x05fa_0003;

pub open spec fn core_frequency(role: CoreRole) -> u32 {
    match role {
        CoreRole::Cm4 => CM4_CORE_FREQUENCY,
        CoreRole::Cm0 => CM0_CORE_FREQUENCY,
    }
}

/// Return the core frequency for the given core.
pub fn get_core_frequency(role: CoreRole) -> (r: u32)
    ensures
        r == core_frequency(role),
{
    match role {
        CoreRole::Cm4 => CM4_CORE_FREQUENCY,
        CoreRole::Cm0 => CM0_CORE_FREQUENCY,
    }
}

/// The writes that release the application core: vector table base, then power.
pub open spec fn launch_writes() -> Seq<Write> {
    seq![
        Write { field: Field::Cm4VectorTableBase, value: CM4_VECTOR_TABLE_BASE },
        Write { field: Field::Cm4PwrCtl, value: CM4_PWR_CTL_ENABLE },
    ]
}

/// Point the application core at its vector table, then enable its power.
/// The table must already be resident in flash.
pub fn enable_cm4(bank: &mut RegisterBank)
    ensures
        final(bank)@.log == old(bank)@.log + launch_writes(),
        final(bank)@.polls == old(bank)@.polls,
        final(bank)@.locks_after == old(bank)@.locks_after,
{
    bank.write(Write { field: Field::Cm4VectorTableBase, value: CM4_VECTOR_TABLE_BASE });
    bank.write(Write { field: Field::Cm4PwrCtl, value: CM4_PWR_CTL_ENABLE });
    assert(final(bank)@.log =~= old(bank)@.log + launch_writes());
}

/// In the launch sequence the vector table base is written exactly once, the
/// power control exactly once, and the base comes first.
pub proof fn lemma_vector_table_before_power()
    ensures
        exists|i: int, j: int|
            i < j && crate::clock::written_once_at(launch_writes(), Field::Cm4VectorTableBase, i)
                && crate::clock::written_once_at(launch_writes(), Field::Cm4PwrCtl, j),
{
    assert(crate::clock::written_once_at(launch_writes(), Field::Cm4VectorTableBase, 0));
    assert(crate::clock::written_once_at(launch_writes(), Field::Cm4PwrCtl, 1));
}

pub open spec fn pll_feedback_div(cfg: u32) -> u32 {
    cfg & 0x7f
}

pub open spec fn pll_reference_div(cfg: u32) -> u32 {
    (cfg >> 8u32) & 0x1f
}

pub open spec fn pll_output_div(cfg: u32) -> u32 {
    (cfg >> 16u32) & 0x1f
}

/// Divisor applied by a clock root: the root's divider field is a power-of-two exponent.
pub open spec fn root_divisor(sel: u32) -> nat {
    match (sel >> 4u32) & 0x3 {
        0 => 1,
        1 => 2,
        2 => 4,
        _ => 8,
    }
}

/// Divider of the real-time core's peripheral clock, encoded as divisor minus one.
pub open spec fn cm0_peri_int_div(ctl: u32) -> u32 {
    (ctl >> 24u32) & 0xff
}

/// Output of a PLL with configuration `cfg` fed by the main oscillator.
pub open spec fn pll_output_hz(cfg: u32) -> nat {
    IMO_FREQUENCY as nat * pll_feedback_div(cfg) as nat / pll_reference_div(cfg) as nat
        / pll_output_div(cfg) as nat
}

/// The reported frequency of each core agrees with the programmed PLL,
/// clock root HF0 and core dividers.
pub proof fn lemma_core_frequency_matches_configuration()
    ensures
        core_frequency(CoreRole::Cm4) as nat == pll_output_hz(PLL0_CONFIG) / root_divisor(
            ROOT0_SELECT,
        ) / (CM4_FAST_INT_DIV as nat + 1),
        core_frequency(CoreRole::Cm0) as nat == pll_output_hz(PLL0_CONFIG) / root_divisor(
            ROOT0_SELECT,
        ) / (cm0_peri_int_div(CM0_CLOCK_CTL) as nat + 1),
{
    assert(0x8002_0128u32 & 0x7f == 40) by (bit_vector);
    assert((0x8002_0128u32 >> 8u32) & 0x1f == 1) by (bit_vector);
    assert((0x8002_0128u32 >> 16u32) & 0x1f == 2) by (bit_vector);
    assert((0x8000_0001u32 >> 4u32) & 0x3 == 0) by (bit_vector);
    assert((0x0100_0000u32 >> 24u32) & 0xff == 1) by (bit_vector);
    assert(pll_output_hz(PLL0_CONFIG) == 160_000_000) by (nonlinear_arith)
        requires
            pll_feedback_div(PLL0_CONFIG) == 40,
            pll_reference_div(PLL0_CONFIG) == 1,
            pll_output_div(PLL0_CONFIG) == 2,
    ;
    assert(root_divisor(ROOT0_SELECT) == 1);
    assert(cm0_peri_int_div(CM0_CLOCK_CTL) == 1);
    assert(160_000_000nat / 1 / 2 == 80_000_000nat);
}

} // verus!
