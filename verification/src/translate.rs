//! The inbound translator: a decoded protocol packet, modelled as a tree of
//! raw messages, is flattened in order and each message's address is
//! dispatched against the fixed grammar into at most one domain event.

use vstd::prelude::*;
use vstd::string::StringSliceAdditionalSpecFns;
use crate::bytes::{
    spec_starts_with, spec_ends_with, spec_contains_seq, spec_split, spec_parse_u8, eq_bytes,
    starts_with, ends_with, contains_seq, split_bytes, parse_u8,
};
use crate::message::{BitwigMessage, ClipEvent, ClipMessage, DeviceMessage, TrackEvent, TrackMessage};

verus! {

/// A protocol argument, reduced to what the grammar reads: an integer, a
/// boolean, or anything else.
#[derive(Debug, Clone, Copy, PartialEq, Eq, Structural)]
pub enum OscArg {
    Int(i32),
    Bool(bool),
    Other,
}

/// One raw protocol message: its address and its arguments.
#[derive(Debug)]
pub struct RawMessage {
    pub addr: Vec<u8>,
    pub args: Vec<OscArg>,
}

/// A decoded datagram: one message, or a bundle of packets to be applied
/// in order.
#[derive(Debug)]
pub enum Packet {
    Message(RawMessage),
    Bundle(Vec<Packet>),
}

/// Why a datagram was rejected: a missing or non-numeric address segment,
/// a missing or wrongly typed argument, or an integer argument that is
/// neither 0 nor 1 where a boolean was required.
#[derive(Debug, Clone, Copy, PartialEq, Eq, Structural)]
pub enum TranslateError {
    Address,
    Argument,
    BoolValue,
}

/// The mathematical shape of a raw message.
pub struct MessageView {
    pub addr: Seq<u8>,
    pub args: Seq<OscArg>,
}

/// The mathematical shape of a decoded datagram.
pub enum PacketView {
    Message(MessageView),
    Bundle(Seq<PacketView>),
}

impl View for RawMessage {
    type V = MessageView;

    open spec fn view(&self) -> MessageView {
        MessageView { addr: self.addr@, args: self.args@ }
    }
}

/// The view of a packet tree.
pub open spec fn packet_view(p: Packet) -> PacketView
    decreases p,
{
    match p {
        Packet::Message(m) => PacketView::Message(m@),
        Packet::Bundle(ps) => PacketView::Bundle(packets_view(ps@)),
    }
}

/// The views of a bundle's packets, in order.
pub open spec fn packets_view(ps: Seq<Packet>) -> Seq<PacketView>
    decreases ps,
{
    if ps.len() == 0 {
        Seq::empty()
    } else {
        packets_view(ps.drop_last()).push(packet_view(ps.last()))
    }
}

impl View for Packet {
    type V = PacketView;

    open spec fn view(&self) -> PacketView {
        packet_view(*self)
    }
}

/// An integer argument read where an integer is required.
pub open spec fn spec_arg_to_int(a: OscArg) -> Result<i32, TranslateError> {
    match a {
        OscArg::Int(i) => Ok(i),
        _ => Err(TranslateError::Argument),
    }
}

/// A boolean argument read from an integer 0/1 or a boolean.
pub open spec fn spec_arg_to_bool(a: OscArg) -> Result<bool, TranslateError> {
    match a {
        OscArg::Int(i) => if i == 0 {
            Ok(false)
        } else if i == 1 {
            Ok(true)
        } else {
            Err(TranslateError::BoolValue)
        },
        OscArg::Bool(b) => Ok(b),
        OscArg::Other => Err(TranslateError::Argument),
    }
}

/// The first argument read as a boolean; a message without arguments is an
/// argument error.
pub open spec fn spec_first_bool(args: Seq<OscArg>) -> Result<bool, TranslateError> {
    if args.len() == 0 {
        Err(TranslateError::Argument)
    } else {
        spec_arg_to_bool(args[0])
    }
}

/// The first argument read as an integer; a message without arguments is an
/// argument error.
pub open spec fn spec_first_int(args: Seq<OscArg>) -> Result<i32, TranslateError> {
    if args.len() == 0 {
        Err(TranslateError::Argument)
    } else {
        spec_arg_to_int(args[0])
    }
}

/// Which clip event an address suffix names, if any.
pub open spec fn spec_clip_event(addr: Seq<u8>) -> Option<ClipEvent> {
    if spec_ends_with(addr, ("isPlayingQueued").spec_bytes()) {
        Some(ClipEvent::Queued)
    } else if spec_ends_with(addr, ("hasContent").spec_bytes()) {
        Some(ClipEvent::Content)
    } else if spec_ends_with(addr, ("isSelected").spec_bytes()) {
        Some(ClipEvent::Selected)
    } else if spec_ends_with(addr, ("isStopQueued").spec_bytes()) {
        Some(ClipEvent::Stopping)
    } else if spec_ends_with(addr, ("isPlaying").spec_bytes()) {
        Some(ClipEvent::Playing)
    } else {
        None
    }
}

/// A clip address: track from the second segment, scene from the fourth,
/// the flag from the first argument, the event from the suffix; an unknown
/// suffix is ignored.
pub open spec fn spec_clip_message(addr: Seq<u8>, args: Seq<OscArg>) -> Result<
    Option<BitwigMessage>,
    TranslateError,
> {
    let parts = spec_split(addr, 47);
    if parts.len() <= 4 {
        Err(TranslateError::Address)
    } else {
        match (spec_parse_u8(parts[2]), spec_parse_u8(parts[4])) {
            (Some(track), Some(scene)) => match spec_first_bool(args) {
                Err(e) => Err(e),
                Ok(active) => Ok(
                    match spec_clip_event(addr) {
                        Some(event) => Some(
                            BitwigMessage::Clip(ClipMessage { track, scene, active, event }),
                        ),
                        None => None,
                    },
                ),
            },
            _ => Err(TranslateError::Address),
        }
    }
}

/// A track address: only the selected flag is translated, the track number
/// from the second segment.
pub open spec fn spec_track_message(addr: Seq<u8>, args: Seq<OscArg>) -> Result<
    Option<BitwigMessage>,
    TranslateError,
> {
    if spec_ends_with(addr, ("selected").spec_bytes()) {
        let parts = spec_split(addr, 47);
        if parts.len() <= 2 {
            Err(TranslateError::Address)
        } else {
            match spec_parse_u8(parts[2]) {
                Some(track) => match spec_first_bool(args) {
                    Err(e) => Err(e),
                    Ok(active) => Ok(
                        Some(
                            BitwigMessage::Track(
                                TrackMessage { track, active, event: TrackEvent::Selected },
                            ),
                        ),
                    ),
                },
                None => Err(TranslateError::Address),
            }
        }
    } else {
        Ok(None)
    }
}

/// A device-parameter address: the parameter id from the fourth segment,
/// its value from the first argument.
pub open spec fn spec_primary_message(addr: Seq<u8>, args: Seq<OscArg>) -> Result<
    Option<BitwigMessage>,
    TranslateError,
> {
    if spec_ends_with(addr, ("value").spec_bytes()) {
        let parts = spec_split(addr, 47);
        if parts.len() <= 3 {
            Err(TranslateError::Address)
        } else {
            match spec_parse_u8(parts[3]) {
                Some(param) => match spec_first_int(args) {
                    Err(e) => Err(e),
                    Ok(value) => Ok(Some(BitwigMessage::Primary(DeviceMessage { param, value }))),
                },
                None => Err(TranslateError::Address),
            }
        }
    } else {
        Ok(None)
    }
}

/// The whole address dispatch: explicitly ignored addresses first, then
/// clip, track and device-parameter families; everything else is ignored.
pub open spec fn spec_translate_message(addr: Seq<u8>, args: Seq<OscArg>) -> Result<
    Option<BitwigMessage>,
    TranslateError,
> {
    if addr == ("/update").spec_bytes() || addr == ("/beat/str").spec_bytes() || addr == (
    "/time/str").spec_bytes() || addr == ("/play").spec_bytes() {
        Ok(None)
    } else if spec_starts_with(addr, ("/track/selected").spec_bytes()) {
        Ok(None)
    } else if spec_starts_with(addr, ("/track").spec_bytes()) && spec_contains_seq(
        addr,
        ("clip").spec_bytes(),
    ) {
        spec_clip_message(addr, args)
    } else if spec_starts_with(addr, ("/track").spec_bytes()) {
        spec_track_message(addr, args)
    } else if spec_starts_with(addr, ("/primary").spec_bytes()) {
        spec_primary_message(addr, args)
    } else {
        Ok(None)
    }
}

/// The events a packet tree yields, bundles flattened in order; the first
/// rejected message rejects the whole datagram.
pub open spec fn spec_translate_packet(pv: PacketView) -> Result<
    Seq<BitwigMessage>,
    TranslateError,
>
    decreases pv,
{
    match pv {
        PacketView::Message(m) => match spec_translate_message(m.addr, m.args) {
            Err(e) => Err(e),
            Ok(None) => Ok(Seq::empty()),
            Ok(Some(b)) => Ok(seq![b]),
        },
        PacketView::Bundle(ps) => spec_translate_packets(ps),
    }
}

/// The events of a bundle's packets, concatenated in order.
pub open spec fn spec_translate_packets(ps: Seq<PacketView>) -> Result<
    Seq<BitwigMessage>,
    TranslateError,
>
    decreases ps,
{
    if ps.len() == 0 {
        Ok(Seq::empty())
    } else {
        match spec_translate_packets(ps.drop_last()) {
            Err(e) => Err(e),
            Ok(pre) => match spec_translate_packet(ps.last()) {
                Err(e) => Err(e),
                Ok(more) => Ok(pre + more),
            },
        }
    }
}

/// Read the first argument as a boolean.
pub fn first_bool(args: &Vec<OscArg>) -> (r: Result<bool, TranslateError>)
    ensures
        r == spec_first_bool(args@),
{
    if args.len() == 0 {
        return Err(TranslateError::Argument);
    }
    match args[0] {
        OscArg::Int(i) => if i == 0 {
            Ok(false)
        } else if i == 1 {
            Ok(true)
        } else {
            Err(TranslateError::BoolValue)
        },
        OscArg::Bool(b) => Ok(b),
        OscArg::Other => Err(TranslateError::Argument),
    }
}

/// Read the first argument as an integer.
pub fn first_int(args: &Vec<OscArg>) -> (r: Result<i32, TranslateError>)
    ensures
        r == spec_first_int(args@),
{
    if args.len() == 0 {
        return Err(TranslateError::Argument);
    }
    match args[0] {
        OscArg::Int(i) => Ok(i),
        _ => Err(TranslateError::Argument),
    }
}

/// Translate one raw message against the address grammar.
pub fn translate_message(addr: &Vec<u8>, args: &Vec<OscArg>) -> (r: Result<
    Option<BitwigMessage>,
    TranslateError,
>)
    ensures
        r == spec_translate_message(addr@, args@),
{
    let a = addr.as_slice();
    if eq_bytes(a, "/update".as_bytes()) || eq_bytes(a, "/beat/str".as_bytes()) || eq_bytes(
        a,
        "/time/str".as_bytes(),
    ) || eq_bytes(a, "/play".as_bytes()) {
        return Ok(None);
    }
    if starts_with(a, "/track/selected".as_bytes()) {
        return Ok(None);
    }
    if starts_with(a, "/track".as_bytes()) && contains_seq(a, "clip".as_bytes()) {
        return clip_message(addr, args);
    }
    if starts_with(a, "/track".as_bytes()) {
        return track_message(addr, args);
    }
    if starts_with(a, "/primary".as_bytes()) {
        return primary_message(addr, args);
    }
    Ok(None)
}

/// Translate an address of the clip family.
fn clip_message(addr: &Vec<u8>, args: &Vec<OscArg>) -> (r: Result<
    Option<BitwigMessage>,
    TranslateError,
>)
    ensures
        r == spec_clip_message(addr@, args@),
{
    let a = addr.as_slice();
    let parts = split_bytes(a, 47);
    proof {
        assert(parts@.map_values(|v: Vec<u8>| v@).len() == parts@.len());
    }
    if parts.len() <= 4 {
        return Err(TranslateError::Address);
    }
    proof {
        assert(parts@.map_values(|v: Vec<u8>| v@)[2] == parts@[2]@);
        assert(parts@.map_values(|v: Vec<u8>| v@)[4] == parts@[4]@);
    }
    let track = match parse_u8(parts[2].as_slice()) {
        Some(t) => t,
        None => {
            return Err(TranslateError::Address);
        },
    };
    let scene = match parse_u8(parts[4].as_slice()) {
        Some(s) => s,
        None => {
            return Err(TranslateError::Address);
        },
    };
    let active = match first_bool(args) {
        Ok(b) => b,
        Err(e) => {
            return Err(e);
        },
    };
    let event = if ends_with(a, "isPlayingQueued".as_bytes()) {
        Some(ClipEvent::Queued)
    } else if ends_with(a, "hasContent".as_bytes()) {
        Some(ClipEvent::Content)
    } else if ends_with(a, "isSelected".as_bytes()) {
        Some(ClipEvent::Selected)
    } else if ends_with(a, "isStopQueued".as_bytes()) {
        Some(ClipEvent::Stopping)
    } else if ends_with(a, "isPlaying".as_bytes()) {
        Some(ClipEvent::Playing)
    } else {
        None
    };
    match event {
        Some(event) => Ok(
            Some(BitwigMessage::Clip(ClipMessage::new(track, scene, active, event))),
        ),
        None => Ok(None),
    }
}

/// Translate an address of the track family.
fn track_message(addr: &Vec<u8>, args: &Vec<OscArg>) -> (r: Result<
    Option<BitwigMessage>,
    TranslateError,
>)
    ensures
        r == spec_track_message(addr@, args@),
{
    let a = addr.as_slice();
    if !ends_with(a, "selected".as_bytes()) {
        return Ok(None);
    }
    let parts = split_bytes(a, 47);
    proof {
        assert(parts@.map_values(|v: Vec<u8>| v@).len() == parts@.len());
    }
    if parts.len() <= 2 {
        return Err(TranslateError::Address);
    }
    proof {
        assert(parts@.map_values(|v: Vec<u8>| v@)[2] == parts@[2]@);
    }
    let track = match parse_u8(parts[2].as_slice()) {
        Some(t) => t,
        None => {
            return Err(TranslateError::Address);
        },
    };
    match first_bool(args) {
        Ok(active) => Ok(
            Some(BitwigMessage::Track(TrackMessage::new(track, active, TrackEvent::Selected))),
        ),
        Err(e) => Err(e),
    }
}

/// Translate an address of the device-parameter family.
fn primary_message(addr: &Vec<u8>, args: &Vec<OscArg>) -> (r: Result<
    Option<BitwigMessage>,
    TranslateError,
>)
    ensures
        r == spec_primary_message(addr@, args@),
{
    let a = addr.as_slice();
    if !ends_with(a, "value".as_bytes()) {
        return Ok(None);
    }
    let parts = split_bytes(a, 47);
    proof {
        assert(parts@.map_values(|v: Vec<u8>| v@).len() == parts@.len());
    }
    if parts.len() <= 3 {
        return Err(TranslateError::Address);
    }
    proof {
        assert(parts@.map_values(|v: Vec<u8>| v@)[3] == parts@[3]@);
    }
    let param = match parse_u8(parts[3].as_slice()) {
        Some(t) => t,
        None => {
            return Err(TranslateError::Address);
        },
    };
    match first_int(args) {
        Ok(value) => Ok(Some(BitwigMessage::Primary(DeviceMessage::new(param, value)))),
        Err(e) => Err(e),
    }
}

/// A bundle's views, element by element.
proof fn lemma_packets_view_index(ps: Seq<Packet>)
    ensures
        packets_view(ps).len() == ps.len(),
        forall|i: int| 0 <= i < ps.len() ==> packets_view(ps)[i] == packet_view(ps[i]),
    decreases ps,
{
    if ps.len() > 0 {
        lemma_packets_view_index(ps.drop_last());
    }
}

/// Translating one packet more is translating the prefix, then that packet.
proof fn lemma_translate_packets_step(ps: Seq<PacketView>, i: int)
    requires
        0 <= i < ps.len(),
    ensures
        spec_translate_packets(ps.take(i + 1)) == (match spec_translate_packets(ps.take(i)) {
            Err(e) => Err::<Seq<BitwigMessage>, TranslateError>(e),
            Ok(pre) => match spec_translate_packet(ps[i]) {
                Err(e) => Err(e),
                Ok(more) => Ok(pre + more),
            },
        }),
{
    assert(ps.take(i + 1).drop_last() =~= ps.take(i));
    assert(ps.take(i + 1).last() == ps[i]);
}

/// A rejected packet rejects the whole bundle: once a prefix translates
/// cleanly and the next packet errs, the bundle's translation is that
/// error.
proof fn lemma_translate_packets_err(ps: Seq<PacketView>, i: int, e: TranslateError)
    requires
        0 <= i < ps.len(),
        spec_translate_packets(ps.take(i)) is Ok,
        spec_translate_packet(ps[i]) == Err::<Seq<BitwigMessage>, TranslateError>(e),
    ensures
        spec_translate_packets(ps) == Err::<Seq<BitwigMessage>, TranslateError>(e),
    decreases ps.len(),
{
    if ps.len() == i + 1 {
        assert(ps.take(i + 1) =~= ps);
        lemma_translate_packets_step(ps, i);
    } else {
        assert(ps.drop_last().take(i) =~= ps.take(i));
        assert(ps.drop_last()[i] == ps[i]);
        lemma_translate_packets_err(ps.drop_last(), i, e);
    }
}

/// Translate a whole decoded datagram: bundles flattened in order, the
/// first rejected message rejecting the datagram.
pub fn translate_packet(p: &Packet) -> (r: Result<Vec<BitwigMessage>, TranslateError>)
    ensures
        (match r {
            Ok(v) => spec_translate_packet(p@) is Ok && v@ == spec_translate_packet(p@)->Ok_0,
            Err(e) => spec_translate_packet(p@) == Err::<Seq<BitwigMessage>, TranslateError>(e),
        }),
    decreases *p,
{
    match p {
        Packet::Message(m) => match translate_message(&m.addr, &m.args) {
            Err(e) => Err(e),
            Ok(None) => {
                let v: Vec<BitwigMessage> = Vec::new();
                proof {
                    assert(v@ =~= Seq::<BitwigMessage>::empty());
                }
                Ok(v)
            },
            Ok(Some(b)) => {
                let mut v: Vec<BitwigMessage> = Vec::new();
                v.push(b);
                proof {
                    assert(v@ =~= seq![b]);
                }
                Ok(v)
            },
        },
        Packet::Bundle(ps) => {
            let ghost pv = packets_view(ps@);
            proof {
                lemma_packets_view_index(ps@);
            }
            let mut out: Vec<BitwigMessage> = Vec::new();
            let n = ps.len();
            let mut i: usize = 0;
            while i < n
                invariant
                    i <= n,
                    n == ps@.len(),
                    *p == Packet::Bundle(*ps),
                    p@ == PacketView::Bundle(pv),
                    pv == packets_view(ps@),
                    pv.len() == ps@.len(),
                    forall|k: int| 0 <= k < ps@.len() ==> pv[k] == packet_view(ps@[k]),
                    spec_translate_packets(pv.take(i as int)) is Ok,
                    out@ == spec_translate_packets(pv.take(i as int))->Ok_0,
                decreases n - i,
            {
                proof {
                    lemma_translate_packets_step(pv, i as int);
                    assert(decreases_to!(*p => *ps));
                    assert(decreases_to!(*ps => ps@));
                    assert(decreases_to!(ps@ => ps@[i as int]));
                    assert(decreases_to!(*p => ps@[i as int]));
                }
                match translate_packet(&ps[i]) {
                    Err(e) => {
                        proof {
                            lemma_translate_packets_err(pv, i as int, e);
                            assert(p@ == PacketView::Bundle(pv));
                            assert(spec_translate_packet(p@) == spec_translate_packets(pv));
                        }
                        return Err(e);
                    },
                    Ok(mut v) => {
                        out.append(&mut v);
                    },
                }
                i = i + 1;
            }
            proof {
                assert(pv.take(n as int) =~= pv);
                assert(p@ == PacketView::Bundle(pv));
                assert(spec_translate_packet(p@) == spec_translate_packets(pv));
            }
            Ok(out)
        },
    }
}

} // verus!
