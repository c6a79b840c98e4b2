use crate::address_map::AddressMap;
use crate::level::{controller_frame, controller_value, controller_value_of, frame_of};
use crate::message::{decode_datagram, osc_decoded, Arg, Packet, MAX_DATAGRAM};
use vstd::prelude::*;

verus! {

/// What one applicable control message asks for: the channel to overwrite,
/// the control value (single-precision bits) it carries, and the
/// controller-change frame to transmit. The address is kept for diagnostics.
pub struct Dispatch {
    pub address: String,
    pub channel: usize,
    pub value: u32,
    pub frame: [u8; 3],
}

impl View for Dispatch {
    type V = (Seq<char>, usize, u32, Seq<u8>);

    open spec fn view(&self) -> (Seq<char>, usize, u32, Seq<u8>) {
        (self.address@, self.channel, self.value, self.frame@)
    }
}

/// The float a message's arguments start with, if they start with one; any
/// later argument is not read.
pub open spec fn first_float(args: Seq<Option<u32>>) -> Option<u32> {
    if args.len() > 0 {
        args[0]
    } else {
        None
    }
}

/// The dispatch for a decoded packet: only a message whose address is known
/// and whose first argument is a float is applicable; a bundle never is.
pub open spec fn dispatch_of(map: AddressMap, packet: Option<(Seq<char>, Seq<Option<u32>>)>) -> Option<
    (Seq<char>, usize, u32, Seq<u8>),
> {
    match packet {
        Some((address, args)) => match (map.spec_lookup(address), first_float(args)) {
            (Some(c), Some(v)) => Some((address, c, v, frame_of(c, controller_value_of(v) as u8))),
            _ => None,
        },
        None => None,
    }
}

/// Whether an executable result carries exactly the dispatch `s`.
pub open spec fn agrees_with(r: Option<Dispatch>, s: Option<(Seq<char>, usize, u32, Seq<u8>)>) -> bool {
    match r {
        Some(d) => s == Some(d@),
        None => s is None,
    }
}

/// A message to an address the map does not hold asks for nothing: no
/// channel is written and no frame is sent, whatever its arguments.
pub proof fn lemma_unknown_address_discarded(map: AddressMap, address: Seq<char>, args: Seq<Option<u32>>)
    requires
        map.spec_lookup(address) is None,
    ensures
        dispatch_of(map, Some((address, args))) is None,
{
}

/// A message whose first argument is not a float, or that has no argument,
/// asks for nothing: no channel is written and no frame is sent, whatever
/// its address and later arguments.
pub proof fn lemma_non_float_discarded(map: AddressMap, address: Seq<char>, args: Seq<Option<u32>>)
    requires
        args.len() == 0 || args[0] is None,
    ensures
        dispatch_of(map, Some((address, args))) is None,
{
}

/// A bundle asks for nothing, whatever it holds.
pub proof fn lemma_bundle_discarded(map: AddressMap)
    ensures
        dispatch_of(map, None) is None,
{
}

/// A message to a known address whose first argument is the float `value`
/// writes its channel and sends the frame `[0xB0, channel, round(127 * value)]`,
/// clamped to `[0, 127]`.
pub proof fn lemma_known_address_applied(
    map: AddressMap,
    address: Seq<char>,
    args: Seq<Option<u32>>,
    value: u32,
)
    requires
        map.spec_lookup(address) is Some,
        args.len() > 0,
        args[0] == Some(value),
    ensures
        dispatch_of(map, Some((address, args))) == Some(
            (
                address,
                map.spec_lookup(address)->0,
                value,
                seq![0xB0u8, map.spec_lookup(address)->0 as u8, controller_value_of(value) as u8],
            ),
        ),
        controller_value_of(value) <= 127,
{
}

/// Resolves a decoded packet: `None` for a bundle, an unknown address, or a
/// first argument that is missing or not a float; otherwise the channel,
/// the value and the controller-change frame `[0xB0, channel, round(127 * value)
/// clamped]`.
pub fn dispatch(map: &AddressMap, packet: &Packet) -> (r: Option<Dispatch>)
    requires
        map.wf(),
    ensures
        agrees_with(r, dispatch_of(*map, packet@)),
        r matches Some(d) ==> d.channel < map.spec_channel_count(),
{
    match packet {
        Packet::Bundle => None,
        Packet::Message { address, args } => {
            let channel = match map.lookup(address) {
                None => {
                    return None;
                },
                Some(c) => c,
            };
            if args.len() == 0 {
                return None;
            }
            assert(args@.map_values(|a: Arg| a@)[0] == args@[0]@);
            match args[0] {
                Arg::Other => None,
                Arg::Float(value) => {
                    let level = controller_value(value);
                    let frame = controller_frame(channel, level);
                    Some(Dispatch { address: address.clone(), channel, value, frame })
                },
            }
        },
    }
}

/// Decodes a datagram and resolves it. Malformed bytes, bundles, unknown
/// addresses and first arguments that are missing or not floats all give
/// `None`.
pub fn route(map: &AddressMap, datagram: &[u8]) -> (r: Option<Dispatch>)
    requires
        map.wf(),
        datagram@.len() <= MAX_DATAGRAM,
    ensures
        agrees_with(
            r,
            match osc_decoded(datagram@) {
                Some(packet) => dispatch_of(*map, packet),
                None => None,
            },
        ),
        r matches Some(d) ==> d.channel < map.spec_channel_count(),
        datagram@.len() == 0 ==> r is None,
{
    match decode_datagram(datagram) {
        Err(_) => None,
        Ok(packet) => dispatch(map, &packet),
    }
}

} // verus!
