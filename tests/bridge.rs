use osc_bridge::{
    controller_frame, controller_value, dispatch, route, AddressMap, Arg, ChannelStore, MapError,
    Packet, CONTROLLER_CHANGE, NEUTRAL,
};
use rosc::{OscMessage, OscPacket, OscType};

fn datagram(addr: &str, args: Vec<OscType>) -> Vec<u8> {
    let packet = OscPacket::Message(OscMessage { addr: addr.to_string(), args });
    rosc::encoder::encode(&packet).unwrap()
}

fn float_datagram(addr: &str, value: f32) -> Vec<u8> {
    datagram(addr, vec![OscType::Float(value)])
}

fn lfo_map() -> AddressMap {
    let mut map = AddressMap::new(8);
    for (addr, channel) in [
        ("/lfo1", 0usize),
        ("/lfo2", 1),
        ("/lfo3", 2),
        ("/lfo4", 3),
        ("/stepped32", 6),
        ("/stepped8", 7),
    ] {
        assert_eq!(map.insert(addr.to_string(), channel), Ok(()));
    }
    map
}

/// The bipolar sample for a control value, as the audio side computes it.
fn bipolar(bits: u32) -> u32 {
    (f32::from_bits(bits) * 2.0 - 1.0).to_bits()
}

#[test]
fn end_to_end_lfo1_half() {
    let map = lfo_map();
    let mut store = ChannelStore::new(8);
    let d = route(&map, &float_datagram("/lfo1", 0.5)).expect("applicable");
    assert_eq!(d.address, "/lfo1");
    assert_eq!(d.channel, 0);
    assert_eq!(d.value, 0.5f32.to_bits());
    assert_eq!(d.frame, [0xB0, 0x00, 64]);
    store.write(d.channel, bipolar(d.value));
    assert_eq!(f32::from_bits(store.snapshot()[0]), 0.0);
}

#[test]
fn end_to_end_stepped8_full() {
    let map = lfo_map();
    let mut store = ChannelStore::new(8);
    let d = route(&map, &float_datagram("/stepped8", 1.0)).expect("applicable");
    assert_eq!(d.channel, 7);
    assert_eq!(d.frame, [0xB0, 0x07, 127]);
    store.write(d.channel, bipolar(d.value));
    assert_eq!(f32::from_bits(store.snapshot()[7]), 1.0);
}

#[test]
fn end_to_end_unknown_address() {
    let map = lfo_map();
    let store = ChannelStore::new(8);
    let before = store.snapshot();
    assert!(route(&map, &float_datagram("/unknown", 0.3)).is_none());
    assert_eq!(store.snapshot(), before);
}

#[test]
fn known_address_sets_channel_and_level() {
    let map = lfo_map();
    for (v, level) in [(0.0f32, 0u8), (0.1, 13), (0.25, 32), (0.5, 64), (0.75, 95), (1.0, 127)] {
        let d = route(&map, &float_datagram("/lfo3", v)).expect("applicable");
        assert_eq!(d.channel, 2);
        assert_eq!(d.frame, [CONTROLLER_CHANGE, 2, level]);
        let mut store = ChannelStore::new(8);
        store.write(d.channel, bipolar(d.value));
        assert_eq!(f32::from_bits(store.snapshot()[2]), 2.0 * v - 1.0);
    }
}

#[test]
fn unknown_addresses_are_discarded() {
    let map = lfo_map();
    for addr in ["/lfo5", "/lfo", "/LFO1", "/lfo1/x", "/stepped"] {
        assert!(route(&map, &float_datagram(addr, 0.5)).is_none());
    }
}

#[test]
fn non_float_first_argument_is_discarded() {
    let map = lfo_map();
    assert!(route(&map, &datagram("/lfo1", vec![OscType::Int(1)])).is_none());
    assert!(route(&map, &datagram("/lfo1", vec![OscType::String("0.5".to_string())])).is_none());
    assert!(route(&map, &datagram("/lfo1", vec![OscType::Double(0.5)])).is_none());
    assert!(route(&map, &datagram("/lfo1", vec![])).is_none());
    assert!(route(&map, &datagram("/lfo1", vec![OscType::Int(1), OscType::Float(0.5)])).is_none());
}

#[test]
fn only_first_argument_is_read() {
    let map = lfo_map();
    let bytes = datagram("/lfo2", vec![OscType::Float(1.0), OscType::Float(0.0)]);
    let d = route(&map, &bytes).expect("applicable");
    assert_eq!(d.channel, 1);
    assert_eq!(d.frame, [0xB0, 1, 127]);
}

#[test]
fn malformed_and_bundled_datagrams_are_discarded() {
    let map = lfo_map();
    assert!(route(&map, &[]).is_none());
    assert!(route(&map, &[1, 2, 3, 4, 5]).is_none());
    assert!(route(&map, b"lfo1\0\0\0\0").is_none());
    let inner = OscPacket::Message(OscMessage {
        addr: "/lfo1".to_string(),
        args: vec![OscType::Float(0.5)],
    });
    let bundle = OscPacket::Bundle(rosc::OscBundle {
        timetag: rosc::OscTime { seconds: 0, fractional: 1 },
        content: vec![inner],
    });
    let bytes = rosc::encoder::encode(&bundle).unwrap();
    assert!(route(&map, &bytes).is_none());
}

#[test]
fn dispatch_on_decoded_packets() {
    let map = lfo_map();
    let message = |address: &str, args: Vec<Arg>| Packet::Message { address: address.to_string(), args };
    let half = 0.5f32.to_bits();
    let d = dispatch(&map, &message("/lfo4", vec![Arg::Float(half)])).expect("applicable");
    assert_eq!((d.channel, d.value, d.frame), (3, half, [0xB0, 3, 64]));
    let d = dispatch(&map, &message("/lfo4", vec![Arg::Float(half), Arg::Other])).expect("applicable");
    assert_eq!(d.frame, [0xB0, 3, 64]);
    assert!(dispatch(&map, &message("/lfo4", vec![])).is_none());
    assert!(dispatch(&map, &message("/lfo4", vec![Arg::Other, Arg::Float(half)])).is_none());
    assert!(dispatch(&map, &message("/nope", vec![Arg::Float(0)])).is_none());
    assert!(dispatch(&map, &Packet::Bundle).is_none());
}

#[test]
fn controller_value_rounds_and_clamps() {
    let cases: [(f32, u8); 14] = [
        (0.0, 0),
        (-0.0, 0),
        (0.5, 64),
        (0.003, 0),
        (0.004, 1),
        (1.0 / 127.0, 1),
        (126.5 / 127.0, 127),
        (126.4 / 127.0, 126),
        (1.0, 127),
        (1.5, 127),
        (1.0e30, 127),
        (-0.5, 0),
        (1.0e-40, 0),
        (f32::MIN_POSITIVE, 0),
    ];
    for (v, level) in cases {
        assert_eq!(controller_value(v.to_bits()), level, "value {v}");
    }
    assert_eq!(controller_value(f32::INFINITY.to_bits()), 127);
    assert_eq!(controller_value(f32::NEG_INFINITY.to_bits()), 0);
    assert_eq!(controller_value(f32::NAN.to_bits()), 0);
}

#[test]
fn controller_frame_layout() {
    assert_eq!(controller_frame(5, 99), [0xB0, 5, 99]);
    assert_eq!(controller_frame(0, 0), [0xB0, 0, 0]);
}

#[test]
fn address_map_rejects_duplicates_and_out_of_range() {
    let mut map = AddressMap::new(8);
    assert_eq!(map.channel_count(), 8);
    assert_eq!(map.insert("/a".to_string(), 7), Ok(()));
    assert_eq!(map.insert("/a".to_string(), 1), Err(MapError::Duplicate));
    assert_eq!(map.insert("/b".to_string(), 8), Err(MapError::OutOfRange));
    assert_eq!(map.lookup(&"/a".to_string()), Some(7));
    assert_eq!(map.lookup(&"/b".to_string()), None);
    assert_eq!(map.insert("/b".to_string(), 0), Ok(()));
    assert_eq!(map.lookup(&"/b".to_string()), Some(0));
}

#[test]
fn fresh_store_is_neutral() {
    let store = ChannelStore::new(8);
    assert_eq!(store.len(), 8);
    assert_eq!(store.snapshot(), vec![NEUTRAL; 8]);
    assert_eq!(f32::from_bits(NEUTRAL), 0.0);
}

#[test]
fn interleaving_between_channels_does_not_matter() {
    let a = [(1usize, 10u32), (2, 20), (1, 11), (2, 21), (1, 12)];
    let b = [(2usize, 20u32), (2, 21), (1, 10), (1, 11), (1, 12)];
    let mut s1 = ChannelStore::new(4);
    let mut s2 = ChannelStore::new(4);
    for (c, v) in a {
        s1.write(c, v);
    }
    for (c, v) in b {
        s2.write(c, v);
    }
    assert_eq!(s1.snapshot(), s2.snapshot());
    assert_eq!(s1.snapshot(), vec![NEUTRAL, 12, 21, NEUTRAL]);
}

#[test]
fn render_after_writes_sees_last_values() {
    let mut store = ChannelStore::new(3);
    store.write(0, 5);
    store.write(2, 7);
    store.write(0, 6);
    let mut buffer = vec![99u32; 8];
    store.render(&mut buffer);
    assert_eq!(buffer, vec![6, NEUTRAL, 7, 6, NEUTRAL, 7, 6, NEUTRAL]);
}

#[test]
fn render_empty_buffer() {
    let store = ChannelStore::new(2);
    let mut buffer: Vec<u32> = Vec::new();
    store.render(&mut buffer);
    assert!(buffer.is_empty());
}
