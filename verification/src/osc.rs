//! The trusted boundary to the OSC codec crate: decoding a datagram into
//! the library's packet model, and encoding an outbound command's address
//! into a wire datagram. Everything around these two calls is verified.

use vstd::prelude::*;
use crate::bytes::{spec_dec, push_dec, push_bytes};
use crate::message::{BitwigMessage, ControlMessage};
use crate::translate::{
    OscArg, Packet, PacketView, RawMessage, TranslateError, spec_translate_packet,
    translate_packet,
};
use vstd::string::StringSliceAdditionalSpecFns;

verus! {

#[verifier::external_type_specification]
#[verifier::external_body]
pub struct ExOscPacket(rosc::OscPacket);

#[verifier::external_type_specification]
#[verifier::external_body]
pub struct ExOscType(rosc::OscType);

#[verifier::external_type_specification]
#[verifier::external_body]
pub struct ExOscError(rosc::OscError);

/// The message tree a datagram decodes to, if it decodes at all: a name
/// for what the codec's decoder returns, a function of the bytes alone.
pub uninterp spec fn osc_decoded(b: Seq<u8>) -> Option<PacketView>;

/// The wire bytes of an argument-less message at a given address: a name
/// for what the codec's encoder returns, a function of the address alone.
pub uninterp spec fn osc_encoded(addr: Seq<u8>) -> Seq<u8>;

/// Carries one of the codec's argument values into the library's model;
/// only the decoding wrapper below calls it.
#[verifier::external_body]
fn conv_arg(a: rosc::OscType) -> OscArg {
    match a {
        rosc::OscType::Int(i) => OscArg::Int(i),
        rosc::OscType::Bool(b) => OscArg::Bool(b),
        _ => OscArg::Other,
    }
}

/// Carries one of the codec's packet trees into the library's model;
/// only the decoding wrapper below calls it.
#[verifier::external_body]
fn conv_packet(p: rosc::OscPacket) -> Packet {
    match p {
        rosc::OscPacket::Message(m) => Packet::Message(
            RawMessage {
                addr: m.addr.into_bytes(),
                args: m.args.into_iter().map(conv_arg).collect(),
            },
        ),
        rosc::OscPacket::Bundle(b) => Packet::Bundle(
            b.content.into_iter().map(conv_packet).collect(),
        ),
    }
}

/// Relies on rosc::decoder::decode_udp: whether a datagram decodes, and
/// the message tree it decodes to, depend on the datagram's bytes alone.
#[verifier::external_body]
fn decode_datagram(buf: &[u8]) -> (r: Result<Packet, rosc::OscError>)
    ensures
        r is Ok <==> osc_decoded(buf@) is Some,
        r is Ok ==> (r->Ok_0)@ == osc_decoded(buf@)->Some_0,
{
    match rosc::decoder::decode_udp(buf) {
        Ok((_rest, p)) => Ok(conv_packet(p)),
        Err(e) => Err(e),
    }
}

/// Relies on rosc::encoder::encode: the wire bytes of an argument-less
/// message depend on its address alone, and encoding into a byte vector
/// cannot fail.
#[verifier::external_body]
fn encode_address(addr: &Vec<u8>) -> (r: Vec<u8>)
    ensures
        r@ == osc_encoded(addr@),
{
    let msg = rosc::OscMessage {
        addr: String::from_utf8_lossy(addr).into_owned(),
        args: Vec::new(),
    };
    match rosc::encoder::encode(&rosc::OscPacket::Message(msg)) {
        Ok(b) => b,
        Err(_) => Vec::new(),
    }
}

/// Why an inbound datagram yielded no events: it did not decode, or its
/// translation rejected it.
#[derive(Debug, Clone, Copy, PartialEq, Eq, Structural)]
pub enum InboundError {
    Decode,
    Translate(TranslateError),
}

/// Decode one inbound datagram and translate it into domain events:
/// exactly the events of the decoded tree, in order, or the error that
/// rejected the datagram.
pub fn decode_and_translate(buf: &[u8]) -> (r: Result<Vec<BitwigMessage>, InboundError>)
    ensures
        (match osc_decoded(buf@) {
            None => r is Err && r->Err_0 == InboundError::Decode,
            Some(pv) => (match spec_translate_packet(pv) {
                Ok(msgs) => r is Ok && (r->Ok_0)@ == msgs,
                Err(e) => r is Err && r->Err_0 == InboundError::Translate(e),
            }),
        }),
{
    match decode_datagram(buf) {
        Err(_) => Err(InboundError::Decode),
        Ok(p) => match translate_packet(&p) {
            Ok(v) => Ok(v),
            Err(e) => Err(InboundError::Translate(e)),
        },
    }
}

/// The outbound address of a command: Refresh bare, Launch with track and
/// scene, Stop with the scene dropped as the wire format has it.
pub open spec fn spec_control_addr(m: ControlMessage) -> Seq<u8> {
    match m {
        ControlMessage::Refresh => ("/refresh").spec_bytes(),
        ControlMessage::Launch(t, s) => ("/track/").spec_bytes() + spec_dec(t) + (
        "/clip/").spec_bytes() + spec_dec(s) + ("/launch").spec_bytes(),
        ControlMessage::Stop(t, _s) => ("/track/").spec_bytes() + spec_dec(t) + (
        "/clip/stop").spec_bytes(),
    }
}

/// Build the outbound address of a command.
pub fn control_addr(m: &ControlMessage) -> (r: Vec<u8>)
    ensures
        r@ == spec_control_addr(*m),
{
    let mut out: Vec<u8> = Vec::new();
    match *m {
        ControlMessage::Refresh => {
            push_bytes(&mut out, "/refresh".as_bytes());
        },
        ControlMessage::Launch(t, s) => {
            push_bytes(&mut out, "/track/".as_bytes());
            push_dec(&mut out, t);
            push_bytes(&mut out, "/clip/".as_bytes());
            push_dec(&mut out, s);
            push_bytes(&mut out, "/launch".as_bytes());
        },
        ControlMessage::Stop(t, _) => {
            push_bytes(&mut out, "/track/".as_bytes());
            push_dec(&mut out, t);
            push_bytes(&mut out, "/clip/stop".as_bytes());
        },
    }
    proof {
        assert(out@ =~= spec_control_addr(*m));
    }
    out
}

/// Encode one outbound command into its wire datagram.
pub fn encode_control(m: &ControlMessage) -> (r: Vec<u8>)
    ensures
        r@ == osc_encoded(spec_control_addr(*m)),
{
    let addr = control_addr(m);
    encode_address(&addr)
}

} // verus!
