//! Verified core of a Meteor-M LRPT QPSK / OQPSK demodulator: the
//! integer bookkeeping of the polyphase root-raised-cosine filter and
//! of the Mueller-Muller dual-timeslot clock.

pub mod demod;
pub mod mm_timing;
pub mod rrc_filter;

pub use demod::{LrptMode, SlotAction};
pub use mm_timing::{DualTimeslot, FREQ_DEV_EXP};
pub use rrc_filter::{
    center_offset, polyphase_layout, subfilter_start, TapHistory, INTERP_FACTOR, NUM_COEFFS,
    NUM_TAPS, RRC_ORDER,
};
