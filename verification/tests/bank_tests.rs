use bitwig_monome::bank::EncoderBank;
use bitwig_monome::message::{BitwigMessage, ClipEvent, ClipMessage, DeviceMessage, TrackEvent, TrackMessage};

fn param(p: u8, v: i32) -> BitwigMessage {
    BitwigMessage::Primary(DeviceMessage::new(p, v))
}

#[test]
fn bank_starts_at_zero() {
    let bank = EncoderBank::new();
    assert_eq!(bank.ring_values(), vec![0, 0, 0, 0]);
}

#[test]
fn parameters_update_their_ring() {
    let mut bank = EncoderBank::new();
    let values = bank.tick(&vec![param(0, 10), param(3, 255), param(1, 1)]);
    assert_eq!(values, vec![10, 1, 0, 255]);
}

#[test]
fn later_values_win() {
    let mut bank = EncoderBank::new();
    let values = bank.tick(&vec![param(2, 5), param(2, 9)]);
    assert_eq!(values, vec![0, 0, 9, 0]);
}

#[test]
fn unknown_parameter_ids_are_ignored() {
    let mut bank = EncoderBank::new();
    let values = bank.tick(&vec![param(4, 50), param(200, 50)]);
    assert_eq!(values, vec![0, 0, 0, 0]);
}

#[test]
fn out_of_ring_range_values_are_ignored() {
    let mut bank = EncoderBank::new();
    let values = bank.tick(&vec![param(0, -1), param(1, 256), param(2, 255)]);
    assert_eq!(values, vec![0, 0, 255, 0]);
}

#[test]
fn other_notifications_leave_the_bank_alone() {
    let mut bank = EncoderBank::new();
    let values = bank.tick(&vec![
        BitwigMessage::Clip(ClipMessage::new(1, 1, true, ClipEvent::Playing)),
        BitwigMessage::Track(TrackMessage::new(1, true, TrackEvent::Selected)),
    ]);
    assert_eq!(values, vec![0, 0, 0, 0]);
}
