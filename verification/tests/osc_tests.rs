use bitwig_monome::message::{BitwigMessage, ClipEvent, ClipMessage, ControlMessage};
use bitwig_monome::osc::{decode_and_translate, encode_control, InboundError};
use bitwig_monome::translate::TranslateError;
use rosc::{OscMessage, OscPacket, OscType};

fn encode(addr: &str, args: Vec<OscType>) -> Vec<u8> {
    rosc::encoder::encode(&OscPacket::Message(OscMessage { addr: addr.to_string(), args }))
        .unwrap()
}

fn decode_addr(bytes: &[u8]) -> (String, Vec<OscType>) {
    let (_, packet) = rosc::decoder::decode_udp(bytes).unwrap();
    match packet {
        OscPacket::Message(m) => (m.addr, m.args),
        OscPacket::Bundle(_) => panic!("expected a message"),
    }
}

#[test]
fn refresh_encodes_to_its_address() {
    let (addr, args) = decode_addr(&encode_control(&ControlMessage::Refresh));
    assert_eq!(addr, "/refresh");
    assert!(args.is_empty());
}

#[test]
fn launch_encodes_track_and_scene() {
    let (addr, args) = decode_addr(&encode_control(&ControlMessage::Launch(3, 5)));
    assert_eq!(addr, "/track/3/clip/5/launch");
    assert!(args.is_empty());
}

#[test]
fn launch_encodes_multi_digit_numerals() {
    let (addr, _) = decode_addr(&encode_control(&ControlMessage::Launch(16, 8)));
    assert_eq!(addr, "/track/16/clip/8/launch");
    let (addr, _) = decode_addr(&encode_control(&ControlMessage::Launch(200, 120)));
    assert_eq!(addr, "/track/200/clip/120/launch");
}

#[test]
fn stop_drops_the_scene_on_the_wire() {
    let (addr, args) = decode_addr(&encode_control(&ControlMessage::Stop(2, 7)));
    assert_eq!(addr, "/track/2/clip/stop");
    assert!(args.is_empty());
}

#[test]
fn datagram_decodes_and_translates_to_a_clip_event() {
    let bytes = encode("/track/3/clip/5/isPlaying", vec![OscType::Int(1)]);
    let events = decode_and_translate(&bytes).unwrap();
    assert_eq!(
        events,
        vec![BitwigMessage::Clip(ClipMessage::new(3, 5, true, ClipEvent::Playing))]
    );
}

#[test]
fn bundle_datagram_preserves_order() {
    let bundle = OscPacket::Bundle(rosc::OscBundle {
        timetag: rosc::OscTime { seconds: 0, fractional: 1 },
        content: vec![
            OscPacket::Message(OscMessage {
                addr: "/track/1/clip/2/hasContent".to_string(),
                args: vec![OscType::Int(1)],
            }),
            OscPacket::Message(OscMessage {
                addr: "/track/4/clip/2/isStopQueued".to_string(),
                args: vec![OscType::Bool(false)],
            }),
        ],
    });
    let bytes = rosc::encoder::encode(&bundle).unwrap();
    let events = decode_and_translate(&bytes).unwrap();
    assert_eq!(
        events,
        vec![
            BitwigMessage::Clip(ClipMessage::new(1, 2, true, ClipEvent::Content)),
            BitwigMessage::Clip(ClipMessage::new(4, 2, false, ClipEvent::Stopping)),
        ]
    );
}

#[test]
fn garbage_bytes_are_a_decode_error() {
    let r = decode_and_translate(&[1, 2, 3]);
    assert_eq!(r, Err(InboundError::Decode));
}

#[test]
fn wrongly_typed_argument_rejects_the_datagram() {
    let bytes = encode("/track/3/clip/5/isPlaying", vec![OscType::Float(1.0)]);
    let r = decode_and_translate(&bytes);
    assert_eq!(r, Err(InboundError::Translate(TranslateError::Argument)));
}

#[test]
fn out_of_range_bool_int_rejects_the_datagram() {
    let bytes = encode("/track/3/clip/5/isPlaying", vec![OscType::Int(7)]);
    let r = decode_and_translate(&bytes);
    assert_eq!(r, Err(InboundError::Translate(TranslateError::BoolValue)));
}

#[test]
fn ignored_addresses_yield_no_events() {
    let bytes = encode("/update", vec![]);
    assert_eq!(decode_and_translate(&bytes), Ok(vec![]));
    let bytes = encode("/beat/str", vec![OscType::String("4.1".to_string())]);
    assert_eq!(decode_and_translate(&bytes), Ok(vec![]));
}
