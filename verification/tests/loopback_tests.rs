use jtag_cable::cable::{new_from_string, Cable, CableKind};
use jtag_cable::loopback::LoopbackCable;
use jtag_cable::queue::QUEUE_CAPACITY;
use jtag_cable::tap::{step_state, walk_states, TapState};

#[test]
fn read_data_lengths_and_tail() {
    let mut lb = LoopbackCable::new();
    for n in 1usize..64 {
        let buf = lb.read_data(n);
        assert_eq!(buf.len(), (n + 7) / 8);
        if n % 8 != 0 {
            let last = buf[buf.len() - 1];
            assert_eq!(last >> (n % 8), 0);
        }
    }
}

#[test]
fn read_data_is_all_ones() {
    let mut lb = LoopbackCable::new();
    assert_eq!(lb.read_data(5), vec![0x1F]);
    assert_eq!(lb.read_data(8), vec![0xFF]);
    assert_eq!(lb.read_data(13), vec![0xFF, 0x1F]);
}

#[test]
fn round_trip_loopback() {
    let mut lb = LoopbackCable::new();
    let out = lb.read_write_data(&[0xAB, 0xCD], 5, false);
    assert_eq!(out, vec![0xAB, 0x0D]);
    let out = lb.read_write_data(&[0x5A], 8, true);
    assert_eq!(out, vec![0x5A]);
    let out = lb.read_write_data(&[0xFF], 1, false);
    assert_eq!(out, vec![0x01]);
}

#[test]
fn write_data_exit_states() {
    // Walk Test-Logic-Reset -> Run-Test/Idle -> SelectDR -> SelectIR ->
    // CaptureIR -> ShiftIR, then shift out a byte.
    let mut lb = LoopbackCable::new();
    lb.change_mode(&[0, 1, 1, 0, 0], false);
    assert_eq!(lb.tap_state(), TapState::ShiftIR);
    lb.write_data(&[0xAB], 8, false);
    assert_eq!(lb.tap_state(), TapState::Exit1IR);

    let mut lb = LoopbackCable::new();
    lb.change_mode(&[0, 1, 1, 0, 0], false);
    lb.write_data(&[0xAB], 8, true);
    assert_eq!(lb.tap_state(), TapState::PauseIR);

    let mut lb = LoopbackCable::new();
    lb.change_mode(&[0, 1, 0, 0], false);
    assert_eq!(lb.tap_state(), TapState::ShiftDR);
    lb.write_data(&[0x01, 0x02], 3, true);
    assert_eq!(lb.tap_state(), TapState::PauseDR);
}

#[test]
fn end_to_end_shift_session() {
    // From Test-Logic-Reset step to Run-Test/Idle, take the instruction
    // branch with [1, 1, 0], shift a byte with a pause, and expect the
    // TAP to rest in the PauseIR-equivalent state without any panic.
    let mut lb = LoopbackCable::new();
    lb.change_mode(&[0], false);
    assert_eq!(lb.tap_state(), TapState::RunIdle);
    lb.change_mode(&[1, 1, 0], false);
    assert_eq!(lb.tap_state(), TapState::CaptureIR);
    lb.write_data(&[0xAB], 8, true);
    assert_eq!(lb.tap_state(), TapState::PauseIR);
    lb.flush();
    assert_eq!(lb.tap_state(), TapState::PauseIR);
}

#[test]
fn queue_results_in_issue_order() {
    let mut lb = LoopbackCable::new();
    assert!(lb.queue_read(8));
    assert!(lb.queue_read(16));
    let first = lb.finish_read(8);
    let second = lb.finish_read(16);
    assert_eq!(first.len(), 1);
    assert_eq!(second.len(), 2);
}

#[test]
fn queue_read_write_keeps_data_order() {
    let mut lb = LoopbackCable::new();
    assert!(lb.queue_read_write(&[0xA5], 8, false));
    assert!(lb.queue_read_write(&[0x3C, 0x01], 8, false));
    assert_eq!(lb.finish_read(8), vec![0xA5]);
    assert_eq!(lb.finish_read(16), vec![0x3C, 0x01]);
}

#[test]
fn queue_capacity_exhaustion_and_recovery() {
    let mut lb = LoopbackCable::new();
    for _ in 0..QUEUE_CAPACITY {
        assert!(lb.queue_read(4));
    }
    assert!(!lb.queue_read(4));
    assert!(!lb.queue_read_write(&[0xFF], 8, false));
    let drained = lb.finish_read(4);
    assert_eq!(drained, vec![0x0F]);
    assert!(lb.queue_read(4));
}

#[test]
fn queue_full_leaves_tap_alone() {
    let mut lb = LoopbackCable::new();
    lb.change_mode(&[0, 1, 0, 0], false);
    assert_eq!(lb.tap_state(), TapState::ShiftDR);
    for _ in 0..QUEUE_CAPACITY {
        assert!(lb.queue_read(1));
    }
    // A refused queue_read_write clocks nothing, so the TAP stays put.
    assert!(!lb.queue_read_write(&[0x01], 1, true));
    assert_eq!(lb.tap_state(), TapState::ShiftDR);
}

#[test]
fn factory_dispatch_table() {
    assert_eq!(
        new_from_string("jtagkey", 123).unwrap(),
        CableKind::JtagKey { clock: 123 }
    );
    assert_eq!(
        new_from_string("ef3", 456).unwrap(),
        CableKind::EasyFlash3 { clock: 456 }
    );
    assert_eq!(
        new_from_string("usbblaster", 789).unwrap(),
        CableKind::UsbBlaster
    );
    assert_eq!(
        new_from_string("jlink", 42).unwrap(),
        CableKind::JLink { clock: 42 }
    );
}

#[test]
fn factory_rejects_unknown_names() {
    match new_from_string("warpdrive", 1_000_000) {
        Ok(_) => panic!("unknown cable name was accepted"),
        Err(msg) => assert_eq!(msg, "unknown cable type: warpdrive"),
    }
    // The loopback is a test bench, not an adapter family: it is built
    // directly, never selected by name.
    match new_from_string("loopback", 1_000_000) {
        Ok(_) => panic!("unknown cable name was accepted"),
        Err(msg) => assert_eq!(msg, "unknown cable type: loopback"),
    }
}

#[test]
fn walk_states_follows_tap_graph() {
    let s = walk_states(TapState::TestLogicReset, &[0, 1, 1, 0, 0]);
    assert_eq!(s, TapState::ShiftIR);
    let s = walk_states(TapState::TestLogicReset, &[7, 9, 1]);
    assert_eq!(s, TapState::TestLogicReset);
    assert_eq!(
        step_state(TapState::ShiftDR, true),
        TapState::Exit1DR
    );
    assert_eq!(
        step_state(TapState::Exit1DR, false),
        TapState::PauseDR
    );
}
