use sdr_dsp::{DualTimeslot, LrptMode, SlotAction};

#[test]
fn modes_are_distinct_and_copyable() {
    let a = LrptMode::Qpsk;
    let b = a;
    assert_eq!(a, b);
    assert_ne!(LrptMode::Qpsk, LrptMode::Oqpsk);
    assert_eq!(format!("{:?}", LrptMode::Oqpsk), "Oqpsk");
}

#[test]
fn qpsk_acts_on_every_fired_tick() {
    assert_eq!(LrptMode::Qpsk.slot_action(0), SlotAction::Skip);
    assert_eq!(LrptMode::Qpsk.slot_action(1), SlotAction::EmitSymbol);
}

#[test]
fn oqpsk_keeps_in_phase_then_emits_on_quadrature() {
    assert_eq!(LrptMode::Oqpsk.slot_action(0), SlotAction::Skip);
    assert_eq!(LrptMode::Oqpsk.slot_action(1), SlotAction::StoreInPhase);
    assert_eq!(LrptMode::Oqpsk.slot_action(2), SlotAction::EmitWithQuadrature);
    assert_eq!(LrptMode::Oqpsk.slot_action(3), SlotAction::Skip);
}

#[test]
fn oqpsk_driven_by_dual_timeslot_alternates_store_and_emit() {
    let mut slot = DualTimeslot::new();
    let pattern = [false, true, true, false, true, false, false, true, true, true];
    let mut fired = 0_usize;
    for &c in &pattern {
        let a = LrptMode::Oqpsk.slot_action(slot.tick(c));
        if !c {
            assert_eq!(a, SlotAction::Skip);
        } else {
            let expected = if fired % 2 == 0 {
                SlotAction::StoreInPhase
            } else {
                SlotAction::EmitWithQuadrature
            };
            assert_eq!(a, expected);
            fired += 1;
        }
    }
}
