use bitwig_monome::message::{BitwigMessage, ClipEvent, ClipMessage, DeviceMessage, TrackEvent, TrackMessage};
use bitwig_monome::translate::{
    translate_message, translate_packet, OscArg, Packet, RawMessage, TranslateError,
};

fn msg(addr: &str, args: Vec<OscArg>) -> (Vec<u8>, Vec<OscArg>) {
    (addr.as_bytes().to_vec(), args)
}

fn translate(addr: &str, args: Vec<OscArg>) -> Result<Option<BitwigMessage>, TranslateError> {
    let (a, args) = msg(addr, args);
    translate_message(&a, &args)
}

#[test]
fn clip_is_playing_address() {
    let r = translate("/track/3/clip/5/isPlaying", vec![OscArg::Int(1)]);
    assert_eq!(
        r,
        Ok(Some(BitwigMessage::Clip(ClipMessage::new(3, 5, true, ClipEvent::Playing))))
    );
}

#[test]
fn clip_suffixes_map_to_their_events() {
    let cases = [
        ("/track/1/clip/2/isPlaying", ClipEvent::Playing),
        ("/track/1/clip/2/isPlayingQueued", ClipEvent::Queued),
        ("/track/1/clip/2/isStopQueued", ClipEvent::Stopping),
        ("/track/1/clip/2/hasContent", ClipEvent::Content),
        ("/track/1/clip/2/isSelected", ClipEvent::Selected),
    ];
    for (addr, event) in cases {
        let r = translate(addr, vec![OscArg::Int(0)]);
        assert_eq!(
            r,
            Ok(Some(BitwigMessage::Clip(ClipMessage::new(1, 2, false, event)))),
            "{addr}"
        );
    }
}

#[test]
fn bool_arguments_accept_int_and_bool() {
    let t = translate("/track/2/clip/3/hasContent", vec![OscArg::Bool(true)]);
    assert_eq!(
        t,
        Ok(Some(BitwigMessage::Clip(ClipMessage::new(2, 3, true, ClipEvent::Content))))
    );
    let f = translate("/track/2/clip/3/hasContent", vec![OscArg::Int(0)]);
    assert_eq!(
        f,
        Ok(Some(BitwigMessage::Clip(ClipMessage::new(2, 3, false, ClipEvent::Content))))
    );
}

#[test]
fn unknown_clip_suffix_is_ignored() {
    let r = translate("/track/2/clip/3/somethingElse", vec![OscArg::Int(1)]);
    assert_eq!(r, Ok(None));
}

#[test]
fn explicitly_ignored_addresses() {
    for addr in ["/update", "/beat/str", "/time/str", "/play", "/track/selected", "/other"] {
        let r = translate(addr, vec![OscArg::Int(1)]);
        assert_eq!(r, Ok(None), "{addr}");
    }
}

#[test]
fn track_selected_address() {
    let r = translate("/track/7/selected", vec![OscArg::Int(1)]);
    assert_eq!(
        r,
        Ok(Some(BitwigMessage::Track(TrackMessage::new(7, true, TrackEvent::Selected))))
    );
}

#[test]
fn primary_value_address() {
    let r = translate("/primary/device/2/value", vec![OscArg::Int(42)]);
    assert_eq!(r, Ok(Some(BitwigMessage::Primary(DeviceMessage::new(2, 42)))));
}

#[test]
fn bad_numeral_segment_is_an_address_error() {
    let r = translate("/track/x/clip/5/isPlaying", vec![OscArg::Int(1)]);
    assert_eq!(r, Err(TranslateError::Address));
    let r = translate("/track/3/clip/999/isPlaying", vec![OscArg::Int(1)]);
    assert_eq!(r, Err(TranslateError::Address));
    let r = translate("/track/3/clip", vec![OscArg::Int(1)]);
    assert_eq!(r, Err(TranslateError::Address));
}

#[test]
fn missing_or_wrongly_typed_argument_is_an_argument_error() {
    let r = translate("/track/3/clip/5/isPlaying", vec![]);
    assert_eq!(r, Err(TranslateError::Argument));
    let r = translate("/track/3/clip/5/isPlaying", vec![OscArg::Other]);
    assert_eq!(r, Err(TranslateError::Argument));
    let r = translate("/primary/device/2/value", vec![OscArg::Bool(true)]);
    assert_eq!(r, Err(TranslateError::Argument));
}

#[test]
fn out_of_range_bool_int_is_a_bool_error() {
    let r = translate("/track/3/clip/5/isPlaying", vec![OscArg::Int(2)]);
    assert_eq!(r, Err(TranslateError::BoolValue));
}

fn raw(addr: &str, args: Vec<OscArg>) -> Packet {
    Packet::Message(RawMessage { addr: addr.as_bytes().to_vec(), args })
}

#[test]
fn bundles_flatten_in_order() {
    let p = Packet::Bundle(vec![
        raw("/track/1/clip/1/hasContent", vec![OscArg::Int(1)]),
        Packet::Bundle(vec![raw("/track/2/clip/1/isPlaying", vec![OscArg::Int(1)])]),
        raw("/update", vec![]),
        raw("/track/3/selected", vec![OscArg::Int(0)]),
    ]);
    let r = translate_packet(&p).unwrap();
    assert_eq!(
        r,
        vec![
            BitwigMessage::Clip(ClipMessage::new(1, 1, true, ClipEvent::Content)),
            BitwigMessage::Clip(ClipMessage::new(2, 1, true, ClipEvent::Playing)),
            BitwigMessage::Track(TrackMessage::new(3, false, TrackEvent::Selected)),
        ]
    );
}

#[test]
fn first_rejected_message_rejects_the_whole_datagram() {
    let p = Packet::Bundle(vec![
        raw("/track/1/clip/1/hasContent", vec![OscArg::Int(1)]),
        raw("/track/bad/clip/1/isPlaying", vec![OscArg::Int(1)]),
    ]);
    assert_eq!(translate_packet(&p), Err(TranslateError::Address));
}

#[test]
fn empty_bundle_yields_no_events() {
    let p = Packet::Bundle(vec![]);
    assert_eq!(translate_packet(&p), Ok(vec![]));
}
