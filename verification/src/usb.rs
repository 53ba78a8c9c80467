//! USB requests and descriptors.
use vstd::prelude::*;
use crate::bytes::{u16_at, read_u16};

verus! {

// Standard and class requests.
pub const REQ_GET_STATUS: u8 = 0x00;
pub const REQ_CLEAR_FEATURE: u8 = 0x01;
pub const REQ_SET_FEATURE: u8 = 0x03;
pub const REQ_GET_DESCRIPTOR: u8 = 0x06;
pub const REQ_SET_CONFIGURATION: u8 = 0x09;
pub const REQ_SET_PROTOCOL: u8 = 0x0B;

// Hub port features.
pub const PORT_RESET: u16 = 4;
pub const PORT_POWER: u16 = 8;
pub const C_PORT_CONNECTION: u16 = 16;
pub const C_PORT_RESET: u16 = 20;

/// Class codes.
pub const CLASS_HID: u8 = 3;
pub const CLASS_HUB: u8 = 9;

/// The 8-byte setup packet, as the 64-bit parameter of a Setup TRB.
pub open spec fn setup(request_type: u8, request: u8, value: u16, index: u16, length: u16) -> u64 {
    ((length as u64) << 48u64) | ((index as u64) << 32u64) | ((value as u64) << 16u64) | ((request as u64) << 8u64)
        | (request_type as u64)
}

/// Build a setup packet: `bmRequestType`, `bRequest`, `wValue`, `wIndex`,
/// `wLength` from the low byte up.
pub fn setup_packet(request_type: u8, request: u8, value: u16, index: u16, length: u16) -> (r: u64)
    ensures
        r == setup(request_type, request, value, index, length),
{
    ((length as u64) << 48) | ((index as u64) << 32) | ((value as u64) << 16) | ((request as u64) << 8) | (
    request_type as u64)
}

/// Law: a setup packet gives back each of its fields.
pub proof fn law_setup_fields(request_type: u8, request: u8, value: u16, index: u16, length: u16)
    ensures
        setup(request_type, request, value, index, length) & 0xFF == request_type as u64,
        (setup(request_type, request, value, index, length) >> 8u64) & 0xFF == request as u64,
        (setup(request_type, request, value, index, length) >> 16u64) & 0xFFFF == value as u64,
        (setup(request_type, request, value, index, length) >> 32u64) & 0xFFFF == index as u64,
        setup(request_type, request, value, index, length) >> 48u64 == length as u64,
{
    lemma_packet_fields(request_type as u64, request as u64, value as u64, index as u64, length as u64);
}

proof fn lemma_packet_fields(a: u64, b: u64, c: u64, d: u64, e: u64)
    by (bit_vector)
    requires
        a < 0x100,
        b < 0x100,
        c < 0x10000,
        d < 0x10000,
        e < 0x10000,
    ensures
        (e << 48u64 | d << 32u64 | c << 16u64 | b << 8u64 | a) & 0xFF == a,
        ((e << 48u64 | d << 32u64 | c << 16u64 | b << 8u64 | a) >> 8u64) & 0xFF == b,
        ((e << 48u64 | d << 32u64 | c << 16u64 | b << 8u64 | a) >> 16u64) & 0xFFFF == c,
        ((e << 48u64 | d << 32u64 | c << 16u64 | b << 8u64 | a) >> 32u64) & 0xFFFF == d,
        (e << 48u64 | d << 32u64 | c << 16u64 | b << 8u64 | a) >> 48u64 == e,
{
}

/// GET_DESCRIPTOR(Device) for `length` bytes.
pub fn get_device_descriptor_setup(length: u16) -> (r: u64)
    ensures
        r == setup(0x80, REQ_GET_DESCRIPTOR, 0x0100, 0, length),
{
    setup_packet(0x80, REQ_GET_DESCRIPTOR, 0x0100, 0, length)
}

/// GET_DESCRIPTOR(Configuration) for up to 512 bytes.
pub fn get_config_descriptor_setup() -> (r: u64)
    ensures
        r == setup(0x80, REQ_GET_DESCRIPTOR, 0x0200, 0, 512),
{
    setup_packet(0x80, REQ_GET_DESCRIPTOR, 0x0200, 0, 512)
}

/// GET_DESCRIPTOR(Hub), class request, 8 bytes.
pub fn get_hub_descriptor_setup() -> (r: u64)
    ensures
        r == setup(0xA0, REQ_GET_DESCRIPTOR, 0x2900, 0, 8),
{
    setup_packet(0xA0, REQ_GET_DESCRIPTOR, 0x2900, 0, 8)
}

/// SET_CONFIGURATION with `config_value`.
pub fn set_configuration(config_value: u8) -> (r: u64)
    ensures
        r == setup(0x00, REQ_SET_CONFIGURATION, config_value as u16, 0, 0),
{
    setup_packet(0x00, REQ_SET_CONFIGURATION, config_value as u16, 0, 0)
}

/// SET_PROTOCOL(Boot) to interface 0.
pub fn set_protocol() -> (r: u64)
    ensures
        r == setup(0x21, REQ_SET_PROTOCOL, 0, 0, 0),
{
    setup_packet(0x21, REQ_SET_PROTOCOL, 0, 0, 0)
}

/// SET_FEATURE(`feature`) on hub port `port`.
pub fn hub_set_port_feature(feature: u16, port: u16) -> (r: u64)
    ensures
        r == setup(0x23, REQ_SET_FEATURE, feature, port, 0),
{
    setup_packet(0x23, REQ_SET_FEATURE, feature, port, 0)
}

/// CLEAR_FEATURE(`feature`) on hub port `port`.
pub fn hub_clear_port_feature(feature: u16, port: u16) -> (r: u64)
    ensures
        r == setup(0x23, REQ_CLEAR_FEATURE, feature, port, 0),
{
    setup_packet(0x23, REQ_CLEAR_FEATURE, feature, port, 0)
}

/// GET_STATUS of hub port `port`: 4 bytes, status then change bits.
pub fn hub_get_port_status(port: u16) -> (r: u64)
    ensures
        r == setup(0xA3, REQ_GET_STATUS, 0, port, 4),
{
    setup_packet(0xA3, REQ_GET_STATUS, 0, port, 4)
}

/// A transfer completed: Success (1) or Short Packet (13).
pub open spec fn spec_completion_ok(code: u32) -> bool {
    code == 1 || code == 13
}

/// A transfer completed: Success (1) or Short Packet (13).
pub fn completion_ok(code: u32) -> (r: bool)
    ensures
        r == spec_completion_ok(code),
{
    code == 1 || code == 13
}

/// The fields of a device descriptor that the kernel reads.
#[derive(Clone, Copy, PartialEq, Eq, Structural, Debug)]
pub struct DeviceDescriptor {
    pub max_packet0: u8,
    pub class: u8,
    pub vendor: u16,
    pub product: u16,
}

/// Read a device descriptor.
pub fn parse_device_descriptor(buf: &[u8]) -> (r: DeviceDescriptor)
    requires
        buf@.len() >= 12,
    ensures
        r.class == buf@[4],
        r.max_packet0 == buf@[7],
        r.vendor == u16_at(buf@, 8),
        r.product == u16_at(buf@, 10),
{
    DeviceDescriptor { max_packet0: buf[7], class: buf[4], vendor: read_u16(buf, 8), product: read_u16(buf, 10) }
}

/// What the kernel takes from a configuration descriptor set: the
/// configuration value, the first interrupt IN endpoint, and the class of
/// the last interface seen before it.
#[derive(Clone, Copy, PartialEq, Eq, Structural, Debug)]
pub struct ConfigInfo {
    pub config_value: u8,
    pub ep_addr: u8,
    pub interval: u8,
    pub max_packet: u16,
    pub iface_class: u8,
}

/// The walk over the descriptors from `off`, up to `lim` bytes: each gives
/// its length in its first byte.  An interface descriptor (type 4) sets
/// the class; the first interrupt IN endpoint (type 5, attributes 3,
/// address bit 7) ends the walk.  A descriptor of length zero, or one cut
/// off by the end of the buffer, also ends it.
pub open spec fn config_walk(buf: Seq<u8>, off: int, lim: int, acc: ConfigInfo) -> ConfigInfo
    decreases (if off < lim { lim - off } else { 0 }),
{
    if off < 0 || off >= lim || off + 7 > buf.len() || buf[off] == 0 {
        acc
    } else {
        let kind = buf[off + 1];
        let acc2 = if kind == 4 { ConfigInfo { iface_class: buf[off + 5], ..acc } } else { acc };
        if kind == 5 && buf[off + 3] & 3 == 3 && buf[off + 2] & 0x80 != 0 {
            ConfigInfo {
                ep_addr: buf[off + 2],
                max_packet: u16_at(buf, off + 4) as u16,
                interval: buf[off + 6],
                ..acc2
            }
        } else {
            config_walk(buf, off + buf[off], lim, acc2)
        }
    }
}

/// The bytes of the set to walk: `wTotalLength`, at most 512.
pub open spec fn config_limit(buf: Seq<u8>) -> int {
    let total = u16_at(buf, 2);
    if total > 512 {
        512
    } else {
        total
    }
}

/// What a configuration descriptor set tells.
pub open spec fn spec_parse_config(buf: Seq<u8>) -> ConfigInfo {
    config_walk(
        buf,
        0,
        config_limit(buf),
        ConfigInfo { config_value: buf[5], ep_addr: 0, interval: 0, max_packet: 0, iface_class: 0 },
    )
}

/// Read a configuration descriptor set (configuration, interfaces,
/// endpoints, class descriptors).
pub fn parse_config_descriptor(buf: &[u8]) -> (r: ConfigInfo)
    requires
        buf@.len() >= 6,
    ensures
        r == spec_parse_config(buf@),
{
    let n = buf.len();
    let total = read_u16(buf, 2);
    let lim: usize = if total > 512 { 512 } else { total as usize };
    let mut acc = ConfigInfo { config_value: buf[5], ep_addr: 0, interval: 0, max_packet: 0, iface_class: 0 };
    let mut off: usize = 0;
    while off < lim
        invariant
            n == buf@.len(),
            lim == config_limit(buf@),
            lim <= 512,
            off <= lim + 255,
            config_walk(buf@, off as int, lim as int, acc) == spec_parse_config(buf@),
        decreases lim + 256 - off,
    {
        if n < 7 || off > n - 7 {
            return acc;
        }
        let len = buf[off];
        if len == 0 {
            return acc;
        }
        let kind = buf[off + 1];
        if kind == 4 {
            acc = ConfigInfo { iface_class: buf[off + 5], ..acc };
        }
        if kind == 5 {
            let addr = buf[off + 2];
            let attrs = buf[off + 3];
            let mp = read_u16(buf, off + 4);
            let iv = buf[off + 6];
            if attrs & 3 == 3 && addr & 0x80 != 0 {
                return ConfigInfo { ep_addr: addr, max_packet: mp, interval: iv, ..acc };
            }
        }
        off = off + len as usize;
    }
    acc
}

/// The descriptor at `o` is an interrupt IN endpoint.
pub open spec fn is_interrupt_in(buf: Seq<u8>, o: int) -> bool {
    buf[o + 1] == 5 && buf[o + 3] & 3 == 3 && buf[o + 2] & 0x80 != 0
}

/// A descriptor starts at `o`, inside the first `lim` bytes, whole in the
/// buffer and of non-zero length.
pub open spec fn descriptor_at(buf: Seq<u8>, o: int, lim: int) -> bool {
    0 <= o < lim && o + 7 <= buf.len() && buf[o] != 0
}

/// Going `k` descriptors on from `off`, each found whole and none an
/// interrupt IN endpoint, lands on `o`.
pub open spec fn reaches(buf: Seq<u8>, off: int, lim: int, k: nat, o: int) -> bool
    decreases k,
{
    if k == 0 {
        off == o
    } else {
        descriptor_at(buf, off, lim) && !is_interrupt_in(buf, off) && reaches(buf, off + buf[off], lim, (k - 1) as nat, o)
    }
}

proof fn lemma_walk_first_endpoint(buf: Seq<u8>, off: int, lim: int, acc: ConfigInfo, k: nat, o: int)
    requires
        reaches(buf, off, lim, k, o),
        descriptor_at(buf, o, lim),
        is_interrupt_in(buf, o),
    ensures
        config_walk(buf, off, lim, acc).ep_addr == buf[o + 2],
        config_walk(buf, off, lim, acc).max_packet == u16_at(buf, o + 4),
        config_walk(buf, off, lim, acc).interval == buf[o + 6],
    decreases k,
{
    if k > 0 {
        let kind = buf[off + 1];
        let acc2 = if kind == 4 { ConfigInfo { iface_class: buf[off + 5], ..acc } } else { acc };
        lemma_walk_first_endpoint(buf, off + buf[off], lim, acc2, (k - 1) as nat, o);
    } else {
        assert(u16_at(buf, o + 4) <= 0xFFFF) by {
            assert(buf[o + 4] <= 255 && buf[o + 5] <= 255);
        }
    }
}

/// Law: the endpoint the kernel takes is the first interrupt IN endpoint
/// of the configuration: when the walk over the descriptors (from the
/// start, within `wTotalLength` and at most 512 bytes) reaches one before
/// any other, its address, packet size and interval are what the parse
/// gives, whatever descriptors follow it.
pub proof fn law_first_interrupt_in_endpoint(buf: Seq<u8>, k: nat, o: int)
    requires
        reaches(buf, 0, config_limit(buf), k, o),
        descriptor_at(buf, o, config_limit(buf)),
        is_interrupt_in(buf, o),
    ensures
        spec_parse_config(buf).ep_addr == buf[o + 2],
        spec_parse_config(buf).max_packet == u16_at(buf, o + 4),
        spec_parse_config(buf).interval == buf[o + 6],
{
    lemma_walk_first_endpoint(
        buf,
        0,
        config_limit(buf),
        ConfigInfo { config_value: buf[5], ep_addr: 0, interval: 0, max_packet: 0, iface_class: 0 },
        k,
        o,
    );
}

/// The fields of a hub descriptor that the kernel reads.
#[derive(Clone, Copy, PartialEq, Eq, Structural, Debug)]
pub struct HubDescriptor {
    pub nbr_ports: u8,
    /// TT think time: bits 5 and 6 of `wHubCharacteristics`.
    pub think_time: u32,
}

/// Read a hub descriptor.
pub fn parse_hub_descriptor(buf: &[u8]) -> (r: HubDescriptor)
    requires
        buf@.len() >= 5,
    ensures
        r.nbr_ports == buf@[2],
        r.think_time == ((u16_at(buf@, 3) as u32) >> 5u32) & 3,
{
    let characteristics = read_u16(buf, 3) as u32;
    HubDescriptor { nbr_ports: buf[2], think_time: (characteristics >> 5) & 3 }
}

} // verus!
