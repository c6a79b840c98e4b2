use rosc::decoder::decode_udp;
use rosc::{OscPacket, OscType};
use vstd::prelude::*;

verus! {

/// Largest datagram the bridge reads.
pub const MAX_DATAGRAM: usize = 1024;

/// One argument of a control message: a float by its single-precision bit
/// pattern, or an argument of any other type.
#[derive(Clone, Copy, Debug, PartialEq, Eq, Structural)]
pub enum Arg {
    Float(u32),
    Other,
}

impl View for Arg {
    type V = Option<u32>;

    open spec fn view(&self) -> Option<u32> {
        match self {
            Arg::Float(b) => Some(*b),
            Arg::Other => None,
        }
    }
}

/// A decoded datagram: a single message with its address and arguments, or
/// a bundle.
pub enum Packet {
    Message { address: String, args: Vec<Arg> },
    Bundle,
}

impl View for Packet {
    /// `Some((address, args))` for a message, `None` for a bundle.
    type V = Option<(Seq<char>, Seq<Option<u32>>)>;

    open spec fn view(&self) -> Option<(Seq<char>, Seq<Option<u32>>)> {
        match self {
            Packet::Message { address, args } => Some((address@, args@.map_values(|a: Arg| a@))),
            Packet::Bundle => None,
        }
    }
}

/// The bytes do not hold an OSC packet.
#[derive(Clone, Copy, Debug, PartialEq, Eq, Structural)]
pub struct DecodeError;

/// What the OSC decoder reads from a datagram: `None` when the bytes do not
/// decode, otherwise the packet's view.
pub uninterp spec fn osc_decoded(datagram: Seq<u8>) -> Option<Option<(Seq<char>, Seq<Option<u32>>)>>;

/// Relies on `rosc::decoder::decode_udp`: decodes one OSC packet from a UDP
/// datagram; each argument is handed on as a float's bits or as another
/// type. The decoder rejects an empty datagram, and it accepts a message
/// only when its address begins with `/`. Bounding the datagram keeps the
/// decoder's recursion into nested bundles shallow.
#[verifier::external_body]
pub(crate) fn decode_datagram(datagram: &[u8]) -> (r: Result<Packet, DecodeError>)
    requires
        datagram@.len() <= MAX_DATAGRAM,
    ensures
        match r {
            Ok(p) => osc_decoded(datagram@) == Some(p@),
            Err(_) => osc_decoded(datagram@) is None,
        },
        datagram@.len() == 0 ==> r is Err,
        r matches Ok(Packet::Message { address, args }) ==> address@.len() > 0 && address@[0] == '/',
{
    match decode_udp(datagram) {
        Ok((_, OscPacket::Message(m))) => Ok(Packet::Message {
            address: m.addr,
            args: m.args.into_iter().map(|a| match a {
                OscType::Float(v) => Arg::Float(v.to_bits()),
                OscType::Int(_) | OscType::String(_) | OscType::Blob(_) | OscType::Time(_)
                | OscType::Long(_) | OscType::Double(_) | OscType::Char(_) | OscType::Color(_)
                | OscType::Midi(_) | OscType::Bool(_) | OscType::Array(_) | OscType::Nil
                | OscType::Inf => Arg::Other,
            }).collect(),
        }),
        Ok((_, OscPacket::Bundle(_))) => Ok(Packet::Bundle),
        Err(_) => Err(DecodeError),
    }
}

} // verus!
