//! Modulation modes of the LRPT demodulator and the action it takes on
//! each interpolation phase.

use vstd::prelude::*;

verus! {

use crate::mm_timing::{count_true, lemma_ticks_alternate, run_outputs};

/// Modulation modes supported by the demodulator.
#[derive(Debug, Clone, Copy, PartialEq, Eq, Structural)]
pub enum LrptMode {
    /// Standard QPSK, one timeslot tick per symbol.
    Qpsk,
    /// Offset QPSK: Q delayed by half a symbol from I, two timeslot
    /// ticks per symbol.
    Oqpsk,
}

/// What the demodulator does on one interpolation phase.
#[derive(Debug, Clone, Copy, PartialEq, Eq, Structural)]
pub enum SlotAction {
    /// No tick: nothing is read from the filter.
    Skip,
    /// QPSK symbol: read the filter, apply gain, mix both rails,
    /// retime, update the carrier estimate and emit the symbol.
    EmitSymbol,
    /// Offset-QPSK in-phase tick: read the filter, apply gain, mix the
    /// in-phase rail and keep it for the next tick.
    StoreInPhase,
    /// Offset-QPSK quadrature tick: read the filter, apply gain, mix the
    /// quadrature rail, pair it with the kept in-phase value, retime,
    /// update the carrier estimate and emit the symbol.
    EmitWithQuadrature,
}

/// The action for timeslot value `tick` in `mode`. For QPSK `tick` is 1
/// when the symbol timeslot fired and 0 otherwise; for offset QPSK it is
/// the dual-timeslot value (0, 1 or 2).
pub open spec fn slot_action_spec(mode: LrptMode, tick: u8) -> SlotAction {
    match mode {
        LrptMode::Qpsk => if tick != 0 {
            SlotAction::EmitSymbol
        } else {
            SlotAction::Skip
        },
        LrptMode::Oqpsk => if tick == 1 {
            SlotAction::StoreInPhase
        } else if tick == 2 {
            SlotAction::EmitWithQuadrature
        } else {
            SlotAction::Skip
        },
    }
}

impl LrptMode {
    /// The action the demodulator takes on an interpolation phase whose
    /// timeslot clock returned `tick` (see [`slot_action_spec`]).
    pub fn slot_action(self, tick: u8) -> (a: SlotAction)
        ensures
            a == slot_action_spec(self, tick),
            self == LrptMode::Qpsk ==> (a == SlotAction::EmitSymbol) == (tick != 0) && (a
                == SlotAction::Skip) == (tick == 0),
            self == LrptMode::Oqpsk ==> (a == SlotAction::StoreInPhase) == (tick == 1) && (a
                == SlotAction::EmitWithQuadrature) == (tick == 2) && (a == SlotAction::Skip) == (
            tick != 1 && tick != 2),
    {
        match self {
            LrptMode::Qpsk => if tick != 0 {
                SlotAction::EmitSymbol
            } else {
                SlotAction::Skip
            },
            LrptMode::Oqpsk => if tick == 1 {
                SlotAction::StoreInPhase
            } else if tick == 2 {
                SlotAction::EmitWithQuadrature
            } else {
                SlotAction::Skip
            },
        }
    }
}

/// Offset QPSK pairs its rails: driven by a fresh dual-timeslot machine,
/// the fired ticks alternate between keeping an in-phase value and
/// emitting a symbol with the quadrature value, starting with the
/// in-phase one, so every emitted symbol follows exactly one kept
/// in-phase value.
pub proof fn lemma_oqpsk_pairs_rails(crossings: Seq<bool>)
    ensures
        forall|i: int|
            0 <= i < crossings.len() ==> #[trigger] slot_action_spec(
                LrptMode::Oqpsk,
                run_outputs(1, crossings)[i],
            ) == if !crossings[i] {
                SlotAction::Skip
            } else if count_true(crossings.take(i)) % 2 == 0 {
                SlotAction::StoreInPhase
            } else {
                SlotAction::EmitWithQuadrature
            },
{
    lemma_ticks_alternate(1, crossings);
    assert forall|i: int| 0 <= i < crossings.len() implies #[trigger] slot_action_spec(
        LrptMode::Oqpsk,
        run_outputs(1, crossings)[i],
    ) == if !crossings[i] {
        SlotAction::Skip
    } else if count_true(crossings.take(i)) % 2 == 0 {
        SlotAction::StoreInPhase
    } else {
        SlotAction::EmitWithQuadrature
    } by {
        let _ = run_outputs(1, crossings)[i];
    }
}

} // verus!
