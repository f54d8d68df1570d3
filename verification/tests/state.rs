use svled::state::{
    average_queue_length, confirm_step, serial_reply_mode, ConfirmStep, LedState,
    SerialReplyMode, UdpFollowUp, UdpReply,
};

#[test]
fn wled_buffer_is_created_black_and_packet_uses_right_neighbour() {
    let mut state = LedState::new();
    let packet = state.update_wled(4, 1, [10, 20, 30]);
    assert_eq!(state.wled_colors, vec![[0, 0, 0], [10, 20, 30], [0, 0, 0], [0, 0, 0]]);
    assert_eq!(packet, [4, 2, 0, 1, 10, 20, 30, 0, 0, 0]);
}

#[test]
fn wled_last_led_uses_left_neighbour_retained_by_host() {
    let mut state = LedState::new();
    state.update_wled(4, 2, [1, 2, 3]);
    let packet = state.update_wled(4, 3, [7, 8, 9]);
    assert_eq!(packet, [4, 2, 0, 2, 1, 2, 3, 7, 8, 9]);
    assert_eq!(state.wled_colors[2], [1, 2, 3]);
}

#[test]
fn wled_single_led_pads_with_black() {
    let mut state = LedState::new();
    let packet = state.update_wled(1, 0, [5, 6, 7]);
    assert_eq!(packet, [4, 2, 0, 0, 5, 6, 7, 0, 0, 0]);
}

#[test]
fn wled_buffer_resets_when_led_count_changes() {
    let mut state = LedState::new();
    state.update_wled(2, 0, [1, 1, 1]);
    state.update_wled(3, 2, [2, 2, 2]);
    assert_eq!(state.wled_colors, vec![[0, 0, 0], [0, 0, 0], [2, 2, 2]]);
}

#[test]
fn wled_index_across_255() {
    let mut state = LedState::new();
    let packet = state.update_wled(300, 255, [1, 2, 3]);
    assert_eq!(packet[2..4], [0, 255]);
    let packet = state.update_wled(300, 256, [4, 5, 6]);
    assert_eq!(packet[2..4], [1, 0]);
    assert_eq!(packet[4..7], [4, 5, 6]);
}

#[test]
fn udp_good_reply_resets_failures() {
    let mut state = LedState::new();
    state.failures = 3;
    assert_eq!(state.handle_udp_reply(None, UdpReply::Received(*b"A\0\0")), UdpFollowUp::Proceed);
    assert_eq!(state.failures, 0);
}

#[test]
fn udp_bad_reply_counts_one_failure() {
    let mut state = LedState::new();
    state.failures = 4;
    assert_eq!(state.handle_udp_reply(None, UdpReply::Received(*b"BAD")), UdpFollowUp::Malformed);
    assert_eq!(state.failures, 1);
}

#[test]
fn udp_timeouts_resend_until_limit_then_exit() {
    let mut state = LedState::new();
    for expected in 1..=5 {
        assert_eq!(state.handle_udp_reply(None, UdpReply::TimedOut), UdpFollowUp::Resend);
        assert_eq!(state.failures, expected);
    }
    assert_eq!(state.handle_udp_reply(None, UdpReply::TimedOut), UdpFollowUp::Exit);
    assert_eq!(state.failures, 5);
    let mut state = LedState::new();
    assert_eq!(state.handle_udp_reply(Some(0), UdpReply::TimedOut), UdpFollowUp::Exit);
}

#[test]
fn udp_other_error_keeps_failures() {
    let mut state = LedState::new();
    state.failures = 2;
    assert_eq!(state.handle_udp_reply(Some(5), UdpReply::Failed), UdpFollowUp::Proceed);
    assert_eq!(state.failures, 2);
}

#[test]
fn serial_reply_modes() {
    assert_eq!(serial_reply_mode(Some(true), Some(true)), SerialReplyMode::PrintSendBack);
    assert_eq!(serial_reply_mode(None, None), SerialReplyMode::AwaitConfirmation);
    assert_eq!(serial_reply_mode(Some(false), Some(false)), SerialReplyMode::AwaitConfirmation);
    assert_eq!(serial_reply_mode(None, Some(true)), SerialReplyMode::NoReply);
}

#[test]
fn confirmation_gives_up_after_timeout_reads() {
    let mut failures = 0;
    let mut reads = 0;
    loop {
        reads += 1;
        match confirm_step(failures, None, false) {
            ConfirmStep::Retry(next) => failures = next,
            ConfirmStep::GiveUp => break,
            ConfirmStep::Confirmed => unreachable!(),
        }
    }
    assert_eq!(reads, 200);
    assert_eq!(confirm_step(0, Some(0), false), ConfirmStep::GiveUp);
    assert_eq!(confirm_step(0, Some(1), false), ConfirmStep::GiveUp);
    assert_eq!(confirm_step(3, Some(9), true), ConfirmStep::Confirmed);
}

#[test]
fn average_queue_length_rounds_down() {
    assert_eq!(average_queue_length(&[]), None);
    assert_eq!(average_queue_length(&[1, 2, 4]), Some(2));
    assert_eq!(average_queue_length(&[255, 255]), Some(255));
    // Many small lengths whose sum still fits in a u32.
    let many = vec![1u8; 20_000_000];
    assert_eq!(average_queue_length(&many), Some(1));
    let mut state = LedState::new();
    state.record_queue_length(3);
    state.record_queue_length(4);
    assert_eq!(state.queue_lengths, vec![3, 4]);
    assert_eq!(average_queue_length(&state.queue_lengths), Some(3));
}
