//! The message codec: frame headers, the fixed records of each family and
//! the attributes that follow them.

use vstd::prelude::*;
use std::collections::HashMap;
use crate::bytes::{
    copy_range,
    put_bytes,
    put_u16,
    get_i32,
    get_u16,
    get_u32,
    i32_at,
    i32_bits,
    le16,
    le32,
    lemma_i32_bits_round_trip,
    lemma_le16_round_trip,
    lemma_le32_round_trip,
    u16_at,
    u32_at,
};
use crate::consts;
use crate::error::Error;
use crate::request::NetlinkRequestData;
use crate::utils::align_up;

verus! {

/// The kind of failure that `bincode` reports. Nothing is claimed of what a
/// value of it holds: it only passes from the encoder to `encoded`.
#[verifier::external_type_specification]
#[verifier::external_body]
pub struct ExBincodeErrorKind(bincode::ErrorKind);

/// Tells a failure of the record encoder from its bytes.
pub fn encoded(res: Result<Vec<u8>, Box<bincode::ErrorKind>>) -> (r: Result<Vec<u8>, Error>)
    ensures
        res matches Ok(v) ==> r == Ok::<Vec<u8>, Error>(v),
        res is Err ==> r == Err::<Vec<u8>, Error>(Error::Encode),
{
    match res {
        Ok(v) => Ok(v),
        Err(_) => Err(Error::Encode),
    }
}

/// The header of one netlink message.
#[derive(Clone, Copy, Debug, PartialEq, Eq)]
pub struct NetlinkMessageHeader {
    pub nlmsg_len: u32,
    pub nlmsg_type: u16,
    pub nlmsg_flags: u16,
    pub nlmsg_seq: u32,
    pub nlmsg_pid: u32,
}

/// Calls `bincode::serialize` on the five fields of a message header, as a
/// tuple in the order of the record. The contract claims what the crate
/// documents of this function, integers of fixed width, little-endian, one
/// after the other with nothing between them, and that the call succeeds:
/// the function counts and writes without a size limit, into a vector, and
/// neither step can fail for integers.
#[verifier::external_body]
fn encode_header(len: u32, ty: u16, flags: u16, seq: u32, pid: u32) -> (r: Result<
    Vec<u8>,
    Box<bincode::ErrorKind>,
>)
    ensures
        r is Ok,
        r matches Ok(v) ==> v@ == le32(len) + le16(ty) + le16(flags) + le32(seq) + le32(pid),
{
    bincode::serialize(&(len, ty, flags, seq, pid))
}

impl NetlinkMessageHeader {
    /// The sixteen bytes of the header on the wire.
    pub open spec fn wire(self) -> Seq<u8> {
        le32(self.nlmsg_len) + le16(self.nlmsg_type) + le16(self.nlmsg_flags) + le32(
            self.nlmsg_seq,
        ) + le32(self.nlmsg_pid)
    }

    /// The header that the first sixteen bytes of `buf` hold.
    pub open spec fn parse(buf: Seq<u8>) -> NetlinkMessageHeader {
        NetlinkMessageHeader {
            nlmsg_len: u32_at(buf, 0),
            nlmsg_type: u16_at(buf, 4),
            nlmsg_flags: u16_at(buf, 6),
            nlmsg_seq: u32_at(buf, 8),
            nlmsg_pid: u32_at(buf, 12),
        }
    }

    /// The header of a request of the given type: the request flag is set
    /// beside the caller's flags, and the length is that of the header alone.
    pub fn new(proto: u16, flags: i32) -> (r: Self)
        ensures
            r.nlmsg_len == consts::NLMSG_HDRLEN,
            r.nlmsg_type == proto,
            r.nlmsg_flags == (consts::NLM_F_REQUEST | flags) as u16,
            r.nlmsg_seq == 0,
            r.nlmsg_pid == 0,
    {
        Self {
            nlmsg_len: 16,
            nlmsg_type: proto,
            nlmsg_flags: (consts::NLM_F_REQUEST | flags) as u16,
            nlmsg_seq: 0,
            nlmsg_pid: 0,
        }
    }

    /// The sixteen bytes of the header on the wire.
    pub fn serialize(&self) -> (r: Result<Vec<u8>, Error>)
        ensures
            r matches Ok(v) && v@ == self.wire(),
    {
        encoded(
            encode_header(
                self.nlmsg_len,
                self.nlmsg_type,
                self.nlmsg_flags,
                self.nlmsg_seq,
                self.nlmsg_pid,
            ),
        )
    }

    /// Reads a header from the first sixteen bytes of `buf`.
    pub fn deserialize(buf: &[u8]) -> (r: Result<Self, Error>)
        ensures
            buf@.len() >= 16 ==> r == Ok::<Self, Error>(Self::parse(buf@)),
            buf@.len() < 16 ==> r == Err::<Self, Error>(Error::Decode),
    {
        if buf.len() < 16 {
            return Err(Error::Decode);
        }
        Ok(
            Self {
                nlmsg_len: get_u32(buf, 0),
                nlmsg_type: get_u16(buf, 4),
                nlmsg_flags: get_u16(buf, 6),
                nlmsg_seq: get_u32(buf, 8),
                nlmsg_pid: get_u32(buf, 12),
            },
        )
    }
}

/// A header read back from its own bytes is the same header.
pub proof fn lemma_header_round_trip(h: NetlinkMessageHeader)
    ensures
        h.wire().len() == 16,
        NetlinkMessageHeader::parse(h.wire()) == h,
{
    lemma_le32_round_trip(h.nlmsg_len);
    lemma_le16_round_trip(h.nlmsg_type);
    lemma_le16_round_trip(h.nlmsg_flags);
    lemma_le32_round_trip(h.nlmsg_seq);
    lemma_le32_round_trip(h.nlmsg_pid);
}

/// The fixed record that opens every link message.
#[derive(Clone, Copy, Debug, PartialEq, Eq)]
pub struct InfoMessage {
    pub family: u8,
    pub _pad: u8,
    pub ifi_type: u16,
    pub index: i32,
    pub flags: u32,
    pub change: u32,
}

/// Calls `bincode::serialize` on the six fields of a link record, as a
/// tuple in the order of the record. The contract claims what the crate
/// documents of this function, integers of fixed width, little-endian, a
/// signed one in two's complement, one after the other with nothing between
/// them, and that the call succeeds: the function counts and writes without
/// a size limit, into a vector, and neither step can fail for integers.
#[verifier::external_body]
fn encode_info(family: u8, pad: u8, ifi_type: u16, index: i32, flags: u32, change: u32) -> (r:
    Result<Vec<u8>, Box<bincode::ErrorKind>>)
    ensures
        r is Ok,
        r matches Ok(v) ==> v@ == seq![family, pad] + le16(ifi_type) + le32(i32_bits(index))
            + le32(flags) + le32(change),
{
    bincode::serialize(&(family, pad, ifi_type, index, flags, change))
}

impl InfoMessage {
    /// The sixteen bytes of the record on the wire.
    pub open spec fn wire_spec(self) -> Seq<u8> {
        seq![self.family, self._pad] + le16(self.ifi_type) + le32(i32_bits(self.index)) + le32(
            self.flags,
        ) + le32(self.change)
    }

    /// The record that the first sixteen bytes of `buf` hold.
    pub open spec fn parse(buf: Seq<u8>) -> InfoMessage {
        InfoMessage {
            family: buf[0],
            _pad: buf[1],
            ifi_type: u16_at(buf, 2),
            index: i32_at(buf, 4),
            flags: u32_at(buf, 8),
            change: u32_at(buf, 12),
        }
    }

    /// A record of the given address family with every other field zero.
    /// Only the low eight bits of `family` are kept.
    pub fn new(family: i32) -> (r: Self)
        ensures
            r == (InfoMessage {
                family: family as u8,
                _pad: 0,
                ifi_type: 0,
                index: 0,
                flags: 0,
                change: 0,
            }),
    {
        Self { family: family as u8, _pad: 0, ifi_type: 0, index: 0, flags: 0, change: 0 }
    }

    /// Reads a record from the first sixteen bytes of `buf`; a shorter
    /// buffer is rejected.
    pub fn deserialize(buf: &[u8]) -> (r: Result<Self, Error>)
        ensures
            buf@.len() >= consts::IF_INFO_MSG_SIZE ==> r == Ok::<Self, Error>(Self::parse(buf@)),
            buf@.len() < consts::IF_INFO_MSG_SIZE ==> r == Err::<Self, Error>(Error::Decode),
    {
        if buf.len() < consts::IF_INFO_MSG_SIZE {
            return Err(Error::Decode);
        }
        Ok(
            Self {
                family: buf[0],
                _pad: buf[1],
                ifi_type: get_u16(buf, 2),
                index: get_i32(buf, 4),
                flags: get_u32(buf, 8),
                change: get_u32(buf, 12),
            },
        )
    }
}

impl Default for InfoMessage {
    fn default() -> (r: Self)
        ensures
            r == (InfoMessage { family: 0, _pad: 0, ifi_type: 0, index: 0, flags: 0, change: 0 }),
    {
        Self { family: 0, _pad: 0, ifi_type: 0, index: 0, flags: 0, change: 0 }
    }
}

impl NetlinkRequestData for InfoMessage {
    open spec fn wire(&self) -> Seq<u8> {
        self.wire_spec()
    }

    open spec fn len_spec(&self) -> usize {
        consts::IF_INFO_MSG_SIZE
    }

    open spec fn is_empty_spec(&self) -> bool {
        self.family == 0
    }

    fn len(&self) -> (n: usize) {
        consts::IF_INFO_MSG_SIZE
    }

    fn is_empty(&self) -> (b: bool) {
        self.family == 0
    }

    fn serialize(&self) -> (r: Result<Vec<u8>, Error>)
    {
        encoded(
            encode_info(self.family, self._pad, self.ifi_type, self.index, self.flags, self.change),
        )
    }
}

/// A link record read back from its own bytes is the same record.
pub proof fn lemma_info_round_trip(m: InfoMessage)
    ensures
        m.wire_spec().len() == 16,
        InfoMessage::parse(m.wire_spec()) == m,
{
    lemma_le16_round_trip(m.ifi_type);
    lemma_le32_round_trip(i32_bits(m.index));
    lemma_i32_bits_round_trip(m.index);
    lemma_le32_round_trip(m.flags);
    lemma_le32_round_trip(m.change);
}

/// The fixed record that opens every address message.
#[derive(Clone, Copy, Debug, PartialEq, Eq)]
pub struct AddressMessage {
    pub family: u8,
    pub prefix_len: u8,
    pub flags: u8,
    pub scope: u8,
    pub index: i32,
}

/// Calls `bincode::serialize` on the five fields of an address record, as a
/// tuple in the order of the record. The contract claims what the crate
/// documents of this function, integers of fixed width, little-endian, a
/// signed one in two's complement, one after the other with nothing between
/// them, and that the call succeeds: the function counts and writes without
/// a size limit, into a vector, and neither step can fail for integers.
#[verifier::external_body]
fn encode_address(family: u8, prefix_len: u8, flags: u8, scope: u8, index: i32) -> (r: Result<
    Vec<u8>,
    Box<bincode::ErrorKind>,
>)
    ensures
        r is Ok,
        r matches Ok(v) ==> v@ == seq![family, prefix_len, flags, scope] + le32(i32_bits(index)),
{
    bincode::serialize(&(family, prefix_len, flags, scope, index))
}

impl AddressMessage {
    /// The eight bytes of the record on the wire.
    pub open spec fn wire_spec(self) -> Seq<u8> {
        seq![self.family, self.prefix_len, self.flags, self.scope] + le32(i32_bits(self.index))
    }

    /// The record that the first eight bytes of `buf` hold.
    pub open spec fn parse(buf: Seq<u8>) -> AddressMessage {
        AddressMessage {
            family: buf[0],
            prefix_len: buf[1],
            flags: buf[2],
            scope: buf[3],
            index: i32_at(buf, 4),
        }
    }

    /// A record of the given address family with every other field zero.
    /// Only the low eight bits of `family` are kept.
    pub fn new(family: i32) -> (r: Self)
        ensures
            r == (AddressMessage {
                family: family as u8,
                prefix_len: 0,
                flags: 0,
                scope: 0,
                index: 0,
            }),
    {
        Self { family: family as u8, prefix_len: 0, flags: 0, scope: 0, index: 0 }
    }

    /// Reads a record from the first eight bytes of `buf`; a shorter buffer
    /// is rejected.
    pub fn deserialize(buf: &[u8]) -> (r: Result<Self, Error>)
        ensures
            buf@.len() >= consts::IF_ADDR_MSG_SIZE ==> r == Ok::<Self, Error>(Self::parse(buf@)),
            buf@.len() < consts::IF_ADDR_MSG_SIZE ==> r == Err::<Self, Error>(Error::Decode),
    {
        if buf.len() < consts::IF_ADDR_MSG_SIZE {
            return Err(Error::Decode);
        }
        Ok(
            Self {
                family: buf[0],
                prefix_len: buf[1],
                flags: buf[2],
                scope: buf[3],
                index: get_i32(buf, 4),
            },
        )
    }
}

impl Default for AddressMessage {
    fn default() -> (r: Self)
        ensures
            r == (AddressMessage { family: 0, prefix_len: 0, flags: 0, scope: 0, index: 0 }),
    {
        Self { family: 0, prefix_len: 0, flags: 0, scope: 0, index: 0 }
    }
}

impl NetlinkRequestData for AddressMessage {
    open spec fn wire(&self) -> Seq<u8> {
        self.wire_spec()
    }

    open spec fn len_spec(&self) -> usize {
        consts::IF_ADDR_MSG_SIZE
    }

    open spec fn is_empty_spec(&self) -> bool {
        self.family == 0
    }

    fn len(&self) -> (n: usize) {
        consts::IF_ADDR_MSG_SIZE
    }

    fn is_empty(&self) -> (b: bool) {
        self.family == 0
    }

    fn serialize(&self) -> (r: Result<Vec<u8>, Error>)
    {
        encoded(encode_address(self.family, self.prefix_len, self.flags, self.scope, self.index))
    }
}

/// An address record read back from its own bytes is the same record.
pub proof fn lemma_address_round_trip(m: AddressMessage)
    ensures
        m.wire_spec().len() == 8,
        AddressMessage::parse(m.wire_spec()) == m,
{
    lemma_le32_round_trip(i32_bits(m.index));
    lemma_i32_bits_round_trip(m.index);
}

/// The fixed record that opens every route message.
#[derive(Clone, Copy, Debug, PartialEq, Eq)]
pub struct RouteMessage {
    pub family: u8,
    pub dst_len: u8,
    pub src_len: u8,
    pub tos: u8,
    pub table: u8,
    pub protocol: u8,
    pub scope: u8,
    pub rtm_type: u8,
    pub flags: u32,
}

/// Calls `bincode::serialize` on the nine fields of a route record, as a
/// tuple in the order of the record. The contract claims what the crate
/// documents of this function, integers of fixed width, little-endian, one
/// after the other with nothing between them, and that the call succeeds:
/// the function counts and writes without a size limit, into a vector, and
/// neither step can fail for integers.
#[verifier::external_body]
fn encode_route(
    family: u8,
    dst_len: u8,
    src_len: u8,
    tos: u8,
    table: u8,
    protocol: u8,
    scope: u8,
    rtm_type: u8,
    flags: u32,
) -> (r: Result<Vec<u8>, Box<bincode::ErrorKind>>)
    ensures
        r is Ok,
        r matches Ok(v) ==> v@ == seq![
            family,
            dst_len,
            src_len,
            tos,
            table,
            protocol,
            scope,
            rtm_type,
        ] + le32(flags),
{
    bincode::serialize(&(family, dst_len, src_len, tos, table, protocol, scope, rtm_type, flags))
}

impl RouteMessage {
    /// The twelve bytes of the record on the wire.
    pub open spec fn wire_spec(self) -> Seq<u8> {
        seq![
            self.family,
            self.dst_len,
            self.src_len,
            self.tos,
            self.table,
            self.protocol,
            self.scope,
            self.rtm_type,
        ] + le32(self.flags)
    }

    /// The record that the first twelve bytes of `buf` hold.
    pub open spec fn parse(buf: Seq<u8>) -> RouteMessage {
        RouteMessage {
            family: buf[0],
            dst_len: buf[1],
            src_len: buf[2],
            tos: buf[3],
            table: buf[4],
            protocol: buf[5],
            scope: buf[6],
            rtm_type: buf[7],
            flags: u32_at(buf, 8),
        }
    }

    /// The record with every field zero.
    pub open spec fn zero() -> RouteMessage {
        RouteMessage {
            family: 0,
            dst_len: 0,
            src_len: 0,
            tos: 0,
            table: 0,
            protocol: 0,
            scope: 0,
            rtm_type: 0,
            flags: 0,
        }
    }

    /// The record from which a route is created: main table, installed at
    /// boot, universe scope, unicast.
    pub fn new_rt_msg() -> (r: Self)
        ensures
            r == (RouteMessage {
                table: consts::RT_TABLE_MAIN,
                protocol: consts::RTPROT_BOOT,
                scope: consts::RT_SCOPE_UNIVERSE,
                rtm_type: consts::RTN_UNICAST,
                ..Self::zero()
            }),
    {
        Self {
            family: 0,
            dst_len: 0,
            src_len: 0,
            tos: 0,
            table: consts::RT_TABLE_MAIN,
            protocol: consts::RTPROT_BOOT,
            scope: consts::RT_SCOPE_UNIVERSE,
            rtm_type: consts::RTN_UNICAST,
            flags: 0,
        }
    }

    /// The record with which a route is deleted: main table, scope nowhere.
    pub fn new_rt_del_msg() -> (r: Self)
        ensures
            r == (RouteMessage {
                table: consts::RT_TABLE_MAIN,
                scope: consts::RT_SCOPE_NOWHERE,
                ..Self::zero()
            }),
    {
        Self {
            family: 0,
            dst_len: 0,
            src_len: 0,
            tos: 0,
            table: consts::RT_TABLE_MAIN,
            protocol: 0,
            scope: consts::RT_SCOPE_NOWHERE,
            rtm_type: 0,
            flags: 0,
        }
    }

    /// The record with which routes are listed: the family and nothing else.
    pub fn new_rt_list_msg(family: u8) -> (r: Self)
        ensures
            r == (RouteMessage { family, ..Self::zero() }),
    {
        Self {
            family,
            dst_len: 0,
            src_len: 0,
            tos: 0,
            table: 0,
            protocol: 0,
            scope: 0,
            rtm_type: 0,
            flags: 0,
        }
    }

    /// Reads a record from the first twelve bytes of `buf`; a shorter buffer
    /// is rejected.
    pub fn deserialize(buf: &[u8]) -> (r: Result<Self, Error>)
        ensures
            buf@.len() >= consts::ROUTE_MSG_SIZE ==> r == Ok::<Self, Error>(Self::parse(buf@)),
            buf@.len() < consts::ROUTE_MSG_SIZE ==> r == Err::<Self, Error>(Error::Decode),
    {
        if buf.len() < consts::ROUTE_MSG_SIZE {
            return Err(Error::Decode);
        }
        Ok(
            Self {
                family: buf[0],
                dst_len: buf[1],
                src_len: buf[2],
                tos: buf[3],
                table: buf[4],
                protocol: buf[5],
                scope: buf[6],
                rtm_type: buf[7],
                flags: get_u32(buf, 8),
            },
        )
    }
}

impl Default for RouteMessage {
    fn default() -> (r: Self)
        ensures
            r == Self::zero(),
    {
        Self {
            family: 0,
            dst_len: 0,
            src_len: 0,
            tos: 0,
            table: 0,
            protocol: 0,
            scope: 0,
            rtm_type: 0,
            flags: 0,
        }
    }
}

impl NetlinkRequestData for RouteMessage {
    open spec fn wire(&self) -> Seq<u8> {
        self.wire_spec()
    }

    open spec fn len_spec(&self) -> usize {
        consts::ROUTE_MSG_SIZE
    }

    open spec fn is_empty_spec(&self) -> bool {
        self.family == 0
    }

    fn len(&self) -> (n: usize) {
        consts::ROUTE_MSG_SIZE
    }

    fn is_empty(&self) -> (b: bool) {
        self.family == 0
    }

    fn serialize(&self) -> (r: Result<Vec<u8>, Error>)
    {
        encoded(
            encode_route(
                self.family,
                self.dst_len,
                self.src_len,
                self.tos,
                self.table,
                self.protocol,
                self.scope,
                self.rtm_type,
                self.flags,
            ),
        )
    }
}

/// A route record read back from its own bytes is the same record.
pub proof fn lemma_route_round_trip(m: RouteMessage)
    ensures
        m.wire_spec().len() == 12,
        RouteMessage::parse(m.wire_spec()) == m,
{
    lemma_le32_round_trip(m.flags);
}

/// The header of an attribute: its length, which counts these four bytes
/// and the value but no padding, and its type tag.
#[derive(Clone, Copy, Debug, PartialEq, Eq)]
pub struct RtAttr {
    pub rta_len: u16,
    pub rta_type: u16,
}

/// An attribute: a header, a value and, where it is nested, the payloads
/// that follow the value.
#[derive(Debug, PartialEq, Eq)]
pub struct NetlinkRouteAttr {
    pub rt_attr: RtAttr,
    pub value: Vec<u8>,
    pub children: Option<Vec<Payload>>,
}

/// One payload of a request or one child of a nested attribute.
#[derive(Debug, PartialEq, Eq)]
pub enum Payload {
    Info(InfoMessage),
    Address(AddressMessage),
    Route(RouteMessage),
    Attr(NetlinkRouteAttr),
}

/// `n` zero bytes.
pub open spec fn zeros(n: int) -> Seq<u8> {
    Seq::new(n as nat, |i: int| 0u8)
}

/// The number of bytes that pad `n` bytes to the next multiple of four.
pub open spec fn pad_len(n: int) -> int {
    align_up(n, 4) - n
}

/// The value of an attribute followed by the zero bytes that pad header
/// and value to a multiple of four.
pub open spec fn padded_value(value: Seq<u8>) -> Seq<u8> {
    value + zeros(pad_len(4 + value.len() as int))
}

/// The bytes of an attribute without children that holds `value` and the
/// length of header and value.
pub open spec fn leaf_wire(rta_type: u16, value: Seq<u8>) -> Seq<u8> {
    le16(((4 + value.len()) % 0x10000) as u16) + le16(rta_type) + padded_value(value)
}

/// The bytes of an attribute with a list of children whose bytes are
/// `children`: the length field counts all of it.
pub open spec fn nested_wire(rta_type: u16, value: Seq<u8>, children: Seq<u8>) -> Seq<u8> {
    le16(((4 + padded_value(value).len() + children.len()) % 0x10000) as u16) + le16(rta_type)
        + padded_value(value) + children
}

/// The bytes of an attribute on the wire: header, value, padding, then
/// the children. An attribute without a list of children is written with
/// the length it holds; one with such a list is written with the length
/// of all its bytes.
pub open spec fn attr_wire(a: NetlinkRouteAttr) -> Seq<u8>
    decreases a,
{
    match a.children {
        None => le16(a.rt_attr.rta_len) + le16(a.rt_attr.rta_type) + padded_value(a.value@),
        Some(c) => le16(
            ((4 + padded_value(a.value@).len() + payloads_wire(c@).len()) % 0x10000) as u16,
        ) + le16(a.rt_attr.rta_type) + padded_value(a.value@) + payloads_wire(c@),
    }
}

/// The bytes of one payload on the wire.
pub open spec fn payload_wire(p: Payload) -> Seq<u8>
    decreases p,
{
    match p {
        Payload::Info(m) => m.wire_spec(),
        Payload::Address(m) => m.wire_spec(),
        Payload::Route(m) => m.wire_spec(),
        Payload::Attr(a) => attr_wire(a),
    }
}

/// The bytes of the payloads of `s`, one after the other.
pub open spec fn payloads_wire(s: Seq<Payload>) -> Seq<u8>
    decreases s,
{
    if s.len() == 0 {
        Seq::empty()
    } else {
        payloads_wire(s.drop_last()) + payload_wire(s.last())
    }
}

/// The length that a payload reports for itself.
pub open spec fn payload_len(p: Payload) -> usize {
    match p {
        Payload::Info(_) => consts::IF_INFO_MSG_SIZE,
        Payload::Address(_) => consts::IF_ADDR_MSG_SIZE,
        Payload::Route(_) => consts::ROUTE_MSG_SIZE,
        Payload::Attr(a) => a.rt_attr.rta_len as usize,
    }
}

/// The sum of the lengths that the payloads of `s` report.
pub open spec fn len_sum(s: Seq<Payload>) -> int
    decreases s.len(),
{
    if s.len() == 0 {
        0
    } else {
        len_sum(s.drop_last()) + payload_len(s.last())
    }
}

/// Adding a payload at the end adds its bytes at the end.
pub proof fn lemma_payloads_wire_push(s: Seq<Payload>, p: Payload)
    ensures
        payloads_wire(s.push(p)) == payloads_wire(s) + payload_wire(p),
{
    assert(s.push(p).drop_last() == s);
}

/// No payloads, no bytes.
pub proof fn lemma_payloads_wire_empty()
    ensures
        payloads_wire(Seq::<Payload>::empty()) == Seq::<u8>::empty(),
{
}

/// What a run of payloads amounts to: its bytes on the wire, and the sum
/// of the lengths that the payloads report.
pub struct Piece {
    pub bytes: Seq<u8>,
    pub len: int,
}

impl Piece {
    /// Nothing at all.
    pub open spec fn empty() -> Piece {
        Piece { bytes: Seq::empty(), len: 0 }
    }

    /// This run followed by another.
    pub open spec fn and(self, next: Piece) -> Piece {
        Piece { bytes: self.bytes + next.bytes, len: self.len + next.len }
    }
}

/// What the payloads of `s` amount to.
pub open spec fn piece_of(s: Seq<Payload>) -> Piece {
    Piece { bytes: payloads_wire(s), len: len_sum(s) }
}

/// What one payload amounts to.
pub open spec fn piece_of_one(p: Payload) -> Piece {
    Piece { bytes: payload_wire(p), len: payload_len(p) as int }
}

/// An attribute without children.
pub open spec fn leaf_piece(rta_type: u16, value: Seq<u8>) -> Piece {
    Piece { bytes: leaf_wire(rta_type, value), len: NetlinkRouteAttr::length_for(value.len()) as int }
}

/// An attribute with the children that `children` stands for. The length
/// that it reports is that of header and value and the lengths that the
/// children report, kept to sixteen bits.
pub open spec fn nested_piece(rta_type: u16, value: Seq<u8>, children: Piece) -> Piece {
    Piece {
        bytes: nested_wire(rta_type, value, children.bytes),
        len: (NetlinkRouteAttr::length_for(value.len()) + children.len) % 0x10000,
    }
}

/// Adding a payload at the end adds what it amounts to.
pub proof fn lemma_piece_push(s: Seq<Payload>, p: Payload)
    ensures
        piece_of(s.push(p)) == piece_of(s).and(piece_of_one(p)),
{
    assert(s.push(p).drop_last() == s);
}

/// Two runs of payloads, one after the other, amount to both.
pub proof fn lemma_piece_concat(a: Seq<Payload>, b: Seq<Payload>)
    ensures
        piece_of(a + b) == piece_of(a).and(piece_of(b)),
    decreases b.len(),
{
    if b.len() == 0 {
        assert(a + b == a);
        assert(payloads_wire(a) + Seq::<u8>::empty() == payloads_wire(a));
    } else {
        assert((a + b).drop_last() == a + b.drop_last());
        lemma_piece_concat(a, b.drop_last());
        assert(payloads_wire(a) + payloads_wire(b.drop_last()) + payload_wire(b.last())
            == payloads_wire(a) + (payloads_wire(b.drop_last()) + payload_wire(b.last())));
    }
}

/// Serializes the payloads of `items` one after the other.
pub fn serialize_all(items: &Vec<Payload>) -> (r: Result<Vec<u8>, Error>)
    ensures
        r matches Ok(v) && v@ == payloads_wire(items@),
    decreases items,
{
    let mut out: Vec<u8> = Vec::new();
    let mut i: usize = 0;
    while i < items.len()
        invariant
            i <= items.len(),
            out@ == payloads_wire(items@.take(i as int)),
        decreases items.len() - i,
    {
        proof {
            assert(decreases_to!(*items => items@));
            assert(decreases_to!(items@ => items@[i as int]));
        }
        match items[i].serialize() {
            Ok(part) => {
                put_bytes(&mut out, part.as_slice());
            },
            Err(_) => {
                return Err(Error::Encode);
            },
        }
        proof {
            assert(items@.take(i + 1).drop_last() == items@.take(i as int));
        }
        i += 1;
    }
    proof {
        assert(items@.take(i as int) == items@);
    }
    Ok(out)
}

/// The sum of the lengths that the payloads of `items` report, kept to
/// thirty-two bits.
pub fn reported_len(items: &Vec<Payload>) -> (n: u32)
    ensures
        n == len_sum(items@) % 0x1_0000_0000,
{
    let mut sum: u64 = 0;
    let mut i: usize = 0;
    while i < items.len()
        invariant
            i <= items@.len(),
            sum == len_sum(items@.take(i as int)) % 0x1_0000_0000,
        decreases items@.len() - i,
    {
        proof {
            assert(items@.take(i + 1).drop_last() == items@.take(i as int));
        }
        let add: u64 = (items[i].len() as u64) % 0x1_0000_0000;
        sum = (sum + add) % 0x1_0000_0000;
        i += 1;
    }
    assert(items@.take(i as int) == items@);
    sum as u32
}

impl NetlinkRequestData for Payload {
    open spec fn wire(&self) -> Seq<u8> {
        payload_wire(*self)
    }

    open spec fn len_spec(&self) -> usize {
        payload_len(*self)
    }

    open spec fn is_empty_spec(&self) -> bool {
        match self {
            Payload::Info(m) => m.family == 0,
            Payload::Address(m) => m.family == 0,
            Payload::Route(m) => m.family == 0,
            Payload::Attr(a) => a.rt_attr.rta_len == 0,
        }
    }

    fn len(&self) -> (n: usize) {
        match self {
            Payload::Info(m) => m.len(),
            Payload::Address(m) => m.len(),
            Payload::Route(m) => m.len(),
            Payload::Attr(a) => a.len(),
        }
    }

    fn is_empty(&self) -> (b: bool) {
        match self {
            Payload::Info(m) => m.is_empty(),
            Payload::Address(m) => m.is_empty(),
            Payload::Route(m) => m.is_empty(),
            Payload::Attr(a) => a.is_empty(),
        }
    }

    fn serialize(&self) -> (r: Result<Vec<u8>, Error>)
        decreases self,
    {
        match self {
            Payload::Info(m) => m.serialize(),
            Payload::Address(m) => m.serialize(),
            Payload::Route(m) => m.serialize(),
            Payload::Attr(a) => a.serialize(),
        }
    }
}

impl NetlinkRequestData for NetlinkRouteAttr {
    open spec fn wire(&self) -> Seq<u8> {
        attr_wire(*self)
    }

    open spec fn len_spec(&self) -> usize {
        self.rt_attr.rta_len as usize
    }

    open spec fn is_empty_spec(&self) -> bool {
        self.rt_attr.rta_len == 0
    }

    fn len(&self) -> (n: usize) {
        self.rt_attr.rta_len as usize
    }

    fn is_empty(&self) -> (b: bool) {
        self.rt_attr.rta_len == 0
    }

    fn serialize(&self) -> (r: Result<Vec<u8>, Error>)
        decreases self,
    {
        let body = padded_copy(&self.value);
        let mut buf: Vec<u8> = Vec::new();
        match &self.children {
            None => {
                put_u16(&mut buf, self.rt_attr.rta_len);
                put_u16(&mut buf, self.rt_attr.rta_type);
                put_bytes(&mut buf, body.as_slice());
            },
            Some(children) => {
                proof {
                    assert(decreases_to!(*self => self.children));
                    assert(decreases_to!(self.children => self.children->0));
                }
                let tail = serialize_all(children)?;
                let total: u16 = total_len(body.len(), tail.len());
                put_u16(&mut buf, total);
                put_u16(&mut buf, self.rt_attr.rta_type);
                put_bytes(&mut buf, body.as_slice());
                put_bytes(&mut buf, tail.as_slice());
            },
        }
        Ok(buf)
    }
}

/// A copy of `value`, padded with zero bytes so that it and the four bytes
/// of an attribute header fill a multiple of four.
fn padded_copy(value: &Vec<u8>) -> (body: Vec<u8>)
    ensures
        body@ == padded_value(value@),
{
    let rest: usize = value.len() % 4;
    let pad: usize = if rest == 0 {
        0
    } else {
        4 - rest
    };
    assert(pad == pad_len(4 + value@.len() as int));
    let mut body: Vec<u8> = Vec::new();
    put_bytes(&mut body, value.as_slice());
    let mut i: usize = 0;
    while i < pad
        invariant
            i <= pad,
            body@ == value@ + zeros(i as int),
        decreases pad - i,
    {
        body.push(0);
        i += 1;
    }
    body
}

/// The length field of an attribute whose padded value has `body` bytes
/// and whose children have `tail` bytes.
fn total_len(body: usize, tail: usize) -> (n: u16)
    ensures
        n == (4 + body + tail) % 0x10000,
{
    let total: usize = (4 + body % 0x10000 + tail % 0x10000) % 0x10000;
    total as u16
}

/// The length that an attribute with the given value and children
/// reports: that of header and value and the lengths that the children
/// report, kept to sixteen bits.
fn nested_len(value: &Vec<u8>, children: &Vec<Payload>) -> (n: u16)
    ensures
        n == (NetlinkRouteAttr::length_for(value@.len()) + len_sum(children@)) % 0x10000,
{
    let own: usize = (value.len() % 0x10000 + consts::RT_ATTR_SIZE) % 0x10000;
    let sum: u32 = reported_len(children);
    let low: usize = (sum % 0x10000) as usize;
    proof {
        lemma_low_sixteen(own as int, len_sum(children@));
    }
    ((own + low) % 0x10000) as u16
}

/// The low sixteen bits of a sum can be taken from the low thirty-two bits
/// of one of its terms.
proof fn lemma_low_sixteen(own: int, sum: int)
    ensures
        (own + (sum % 0x1_0000_0000) % 0x10000) % 0x10000 == (own + sum) % 0x10000,
{
    vstd::arithmetic::div_mod::lemma_mod_mod(sum, 0x10000, 0x10000);
    assert(0x10000int * 0x10000int == 0x1_0000_0000int);
    vstd::arithmetic::div_mod::lemma_add_mod_noop_right(own, sum, 0x10000);
}

/// Whether the length that an attribute puts on the wire is the number of
/// its bytes before the padding. An attribute without a list of children
/// holds the length of its header and value; one with such a list has
/// consistent children and fits in the sixteen bits of the length field.
pub open spec fn attr_wf(a: NetlinkRouteAttr) -> bool
    decreases a,
{
    match a.children {
        None => a.rt_attr.rta_len == 4 + a.value@.len(),
        Some(c) => payloads_wf(c@) && 4 + padded_value(a.value@).len() + payloads_wire(c@).len()
            <= 0xffff,
    }
}

/// A record is always consistent; an attribute where `attr_wf` holds.
pub open spec fn payload_wf(p: Payload) -> bool
    decreases p,
{
    match p {
        Payload::Attr(a) => attr_wf(a),
        _ => true,
    }
}

/// Every payload of `s` is consistent.
pub open spec fn payloads_wf(s: Seq<Payload>) -> bool
    decreases s,
{
    if s.len() == 0 {
        true
    } else {
        payloads_wf(s.drop_last()) && payload_wf(s.last())
    }
}

/// Every consistent attribute takes, on the wire, its length rounded up to
/// a multiple of four: the next attribute starts that many bytes after it.
pub proof fn lemma_attr_stride(a: NetlinkRouteAttr)
    requires
        attr_wf(a),
    ensures
        attr_wire(a).len() == align_up(u16_at(attr_wire(a), 0) as int, 4),
        attr_wire(a).len() % 4 == 0,
        attr_wire(a).len() >= 4,
    decreases a,
{
    let padded = padded_value(a.value@);
    assert((4 + padded.len()) % 4 == 0);
    match a.children {
        None => {
            let w = attr_wire(a);
            assert(w[0] == le16(a.rt_attr.rta_len)[0]);
            assert(w[1] == le16(a.rt_attr.rta_len)[1]);
        },
        Some(c) => {
            lemma_payloads_aligned(c@);
            let total = 4 + padded.len() + payloads_wire(c@).len();
            let w = attr_wire(a);
            assert(w[0] == le16((total % 0x10000) as u16)[0]);
            assert(w[1] == le16((total % 0x10000) as u16)[1]);
        },
    }
}

/// Every consistent payload takes a multiple of four bytes on the wire.
pub proof fn lemma_payload_aligned(p: Payload)
    requires
        payload_wf(p),
    ensures
        payload_wire(p).len() % 4 == 0,
    decreases p,
{
    match p {
        Payload::Attr(a) => {
            lemma_attr_stride(a);
        },
        _ => {},
    }
}

/// Consistent payloads, one after the other, take a multiple of four bytes.
pub proof fn lemma_payloads_aligned(s: Seq<Payload>)
    requires
        payloads_wf(s),
    ensures
        payloads_wire(s).len() % 4 == 0,
    decreases s,
{
    if s.len() > 0 {
        lemma_payloads_aligned(s.drop_last());
        lemma_payload_aligned(s.last());
    }
}

/// What an attribute is without its children: the fields of its header
/// and its value.
pub struct AttrView {
    pub rta_len: u16,
    pub rta_type: u16,
    pub value: Seq<u8>,
}

/// The attributes that `buf` holds, one after the other, each starting at
/// the next multiple of four after the end of the one before. Fewer than
/// four bytes hold no attribute. A length field below four, or beyond the
/// end of `buf`, makes the whole of `buf` malformed: there is no result.
pub open spec fn parse_attrs(buf: Seq<u8>) -> Option<Seq<AttrView>>
    decreases buf.len(),
{
    if buf.len() < 4 {
        Some(Seq::empty())
    } else {
        let len = u16_at(buf, 0) as int;
        if len < 4 || len > buf.len() {
            None
        } else {
            let first = AttrView {
                rta_len: u16_at(buf, 0),
                rta_type: u16_at(buf, 2),
                value: buf.subrange(4, len),
            };
            let next = if align_up(len, 4) <= buf.len() {
                align_up(len, 4)
            } else {
                buf.len() as int
            };
            match parse_attrs(buf.skip(next)) {
                Some(rest) => Some(seq![first] + rest),
                None => None,
            }
        }
    }
}

/// The attributes of `s` as a dictionary from type tag to value. Where a
/// tag occurs more than once, its last value stands.
pub open spec fn attr_map(s: Seq<AttrView>) -> Map<u16, Seq<u8>>
    decreases s.len(),
{
    if s.len() == 0 {
        Map::empty()
    } else {
        attr_map(s.drop_last()).insert(s.last().rta_type, s.last().value)
    }
}

/// The headers and values of a list of attributes.
pub open spec fn heads(s: Seq<NetlinkRouteAttr>) -> Seq<AttrView> {
    s.map_values(|a: NetlinkRouteAttr| a.head())
}

/// A dictionary of byte vectors as a dictionary of byte sequences.
pub open spec fn value_views(m: Map<u16, Vec<u8>>) -> Map<u16, Seq<u8>> {
    m.map_values(|v: Vec<u8>| v@)
}

/// What was read so far, followed by what the rest will give.
pub open spec fn prepend(done: Seq<AttrView>, rest: Option<Seq<AttrView>>) -> Option<
    Seq<AttrView>,
> {
    match rest {
        Some(r) => Some(done + r),
        None => None,
    }
}

proof fn lemma_parse_attrs_step(buf: Seq<u8>, at: int, done: Seq<AttrView>)
    requires
        0 <= at,
        at + 4 <= buf.len(),
        4 <= u16_at(buf, at) <= buf.len() - at,
    ensures
        ({
            let len = u16_at(buf, at) as int;
            let first = AttrView {
                rta_len: u16_at(buf, at),
                rta_type: u16_at(buf, at + 2),
                value: buf.subrange(at + 4, at + len),
            };
            let next = if align_up(len, 4) <= buf.len() - at {
                at + align_up(len, 4)
            } else {
                buf.len() as int
            };
            prepend(done, parse_attrs(buf.skip(at))) == prepend(
                done.push(first),
                parse_attrs(buf.skip(next)),
            )
        }),
{
    let tail = buf.skip(at);
    let len = u16_at(buf, at) as int;
    assert(u16_at(tail, 0) == u16_at(buf, at));
    assert(u16_at(tail, 2) == u16_at(buf, at + 2));
    assert(tail.subrange(4, len) == buf.subrange(at + 4, at + len));
    let step = if align_up(len, 4) <= tail.len() {
        align_up(len, 4)
    } else {
        tail.len() as int
    };
    assert(tail.skip(step) == buf.skip(at + step));
    let first = AttrView {
        rta_len: u16_at(buf, at),
        rta_type: u16_at(buf, at + 2),
        value: buf.subrange(at + 4, at + len),
    };
    match parse_attrs(buf.skip(at + step)) {
        Some(rest) => {
            assert(done + (seq![first] + rest) == done.push(first) + rest);
        },
        None => {},
    }
}

impl NetlinkRouteAttr {
    /// The header fields and the value of this attribute.
    pub open spec fn head(self) -> AttrView {
        AttrView {
            rta_len: self.rt_attr.rta_len,
            rta_type: self.rt_attr.rta_type,
            value: self.value@,
        }
    }

    /// The children of this attribute; none where it has no list of them.
    pub open spec fn children_seq(self) -> Seq<Payload> {
        match self.children {
            Some(c) => c@,
            None => Seq::empty(),
        }
    }

    /// The length field of an attribute with a value of `n` bytes: the
    /// four bytes of the header and the value, kept to sixteen bits.
    pub open spec fn length_for(n: nat) -> u16 {
        ((4 + n) % 0x10000) as u16
    }

    /// An attribute of the given type and value, without children. Its
    /// length counts the header and the value.
    pub fn new(rta_type: u16, value: Vec<u8>) -> (r: Self)
        ensures
            r.rt_attr.rta_len == Self::length_for(value@.len()),
            r.rt_attr.rta_type == rta_type,
            r.value == value,
            r.children is None,
            attr_wire(r) == leaf_wire(rta_type, value@),
            value@.len() <= 0xffff - 4 ==> attr_wf(r),
    {
        let len: usize = (value.len() % 0x10000 + consts::RT_ATTR_SIZE) % 0x10000;
        Self { rt_attr: RtAttr { rta_len: len as u16, rta_type }, value, children: None }
    }

    /// Appends a child: it becomes the last of the children, and the
    /// length of this attribute grows by the length that the child reports,
    /// kept to sixteen bits.
    pub fn add_child_from_attr(&mut self, attr: Payload)
        ensures
            final(self).rt_attr.rta_type == old(self).rt_attr.rta_type,
            final(self).rt_attr.rta_len == (old(self).rt_attr.rta_len + payload_len(attr))
                % 0x10000,
            final(self).value == old(self).value,
            final(self).children is Some,
            final(self).children_seq() == old(self).children_seq().push(attr),
    {
        let add: usize = attr.len() % 0x10000;
        let sum: usize = (self.rt_attr.rta_len as usize + add) % 0x10000;
        self.rt_attr.rta_len = sum as u16;
        let mut list: Vec<Payload> = match self.children.take() {
            Some(c) => c,
            None => Vec::new(),
        };
        list.push(attr);
        self.children = Some(list);
    }

    /// Appends a child attribute made of the given type and value.
    pub fn add_child(&mut self, rta_type: u16, value: Vec<u8>)
        ensures
            final(self).rt_attr.rta_type == old(self).rt_attr.rta_type,
            final(self).rt_attr.rta_len == (old(self).rt_attr.rta_len + Self::length_for(
                value@.len(),
            )) % 0x10000,
            final(self).value == old(self).value,
            final(self).children is Some,
            final(self).children_seq().len() == old(self).children_seq().len() + 1,
            final(self).children_seq().drop_last() == old(self).children_seq(),
            final(self).children_seq().last() matches Payload::Attr(a) && a.head() == (AttrView {
                rta_len: Self::length_for(value@.len()),
                rta_type,
                value: value@,
            }) && a.children is None,
    {
        let attr = NetlinkRouteAttr::new(rta_type, value);
        self.add_child_from_attr(Payload::Attr(attr));
    }

    /// Reads the attributes that `buf` holds. An attribute whose length
    /// field is below four or reaches beyond the end of `buf` makes the call
    /// fail, and nothing that was read before it is returned.
    pub fn from(buf: &[u8]) -> (r: Result<Vec<Self>, Error>)
        ensures
            parse_attrs(buf@) matches Some(s) ==> (r matches Ok(v) && heads(v@) == s && forall|
                i: int,
            |
                0 <= i < v@.len() ==> (#[trigger] v@[i]).children is None),
            parse_attrs(buf@) is None ==> (r matches Err(e) && e == Error::Decode),
    {
        let mut out: Vec<Self> = Vec::new();
        let mut at: usize = 0;
        assert(buf@.skip(0) == buf@);
        assert(heads(out@) == Seq::<AttrView>::empty());
        while buf.len() - at >= consts::RT_ATTR_SIZE
            invariant
                at <= buf@.len(),
                prepend(heads(out@), parse_attrs(buf@.skip(at as int))) == parse_attrs(buf@),
                forall|i: int| 0 <= i < out@.len() ==> (#[trigger] out@[i]).children is None,
            decreases buf@.len() - at,
        {
            let rta_len = get_u16(buf, at);
            let rta_type = get_u16(buf, at + 2);
            let len: usize = rta_len as usize;
            let ghost tail = buf@.skip(at as int);
            proof {
                assert(u16_at(tail, 0) == u16_at(buf@, at as int));
            }
            if len < consts::RT_ATTR_SIZE || len > buf.len() - at {
                return Err(Error::Decode);
            }
            let value = copy_range(buf, at + consts::RT_ATTR_SIZE, at + len);
            let rest: usize = len % 4;
            let aligned: usize = if rest == 0 {
                len
            } else {
                len + (4 - rest)
            };
            assert(aligned == align_up(len as int, 4));
            proof {
                lemma_parse_attrs_step(buf@, at as int, heads(out@));
            }
            let ghost before = out@;
            out.push(Self { rt_attr: RtAttr { rta_len, rta_type }, value, children: None });
            proof {
                assert(heads(out@) == heads(before).push(out@.last().head()));
            }
            if aligned <= buf.len() - at {
                at = at + aligned;
            } else {
                at = buf.len();
            }
        }
        Ok(out)
    }

    /// Reads the attributes that `buf` holds into a dictionary from type
    /// tag to value. Where a tag occurs more than once, its last value
    /// stands. Fails where `from` fails.
    pub fn map(buf: &[u8]) -> (r: Result<HashMap<u16, Vec<u8>>, Error>)
        ensures
            parse_attrs(buf@) matches Some(s) ==> (r matches Ok(m) && value_views(m@) == attr_map(s)),
            parse_attrs(buf@) is None ==> (r matches Err(e) && e == Error::Decode),
    {
        let attrs = Self::from(buf)?;
        let mut out: HashMap<u16, Vec<u8>> = HashMap::new();
        let mut i: usize = 0;
        let ghost all = heads(attrs@);
        assert(value_views(out@) == attr_map(all.take(0)));
        while i < attrs.len()
            invariant
                i <= attrs@.len(),
                all == heads(attrs@),
                value_views(out@) == attr_map(all.take(i as int)),
            decreases attrs@.len() - i,
        {
            let value = copy_range(attrs[i].value.as_slice(), 0, attrs[i].value.len());
            let ghost before = out@;
            out.insert(attrs[i].rt_attr.rta_type, value);
            proof {
                broadcast use vstd::std_specs::hash::group_hash_axioms;

                assert(value@ == attrs@[i as int].value@);
                assert(all[i as int] == attrs@[i as int].head());
                assert(all.take(i + 1).drop_last() == all.take(i as int));
                assert(value_views(out@) == value_views(before).insert(
                    attrs@[i as int].rt_attr.rta_type,
                    value@,
                ));
            }
            i += 1;
        }
        assert(all.take(i as int) == all);
        Ok(out)
    }
}

impl NetlinkRouteAttr {
    /// An attribute of the given type and value with the given children,
    /// as `new` followed by `add_child_from_attr` for each of them makes it.
    pub fn nested(rta_type: u16, value: Vec<u8>, children: Vec<Payload>) -> (r: Self)
        ensures
            r.rt_attr.rta_type == rta_type,
            r.value == value,
            r.children == Some(children),
            piece_of_one(Payload::Attr(r)) == nested_piece(rta_type, value@, piece_of(children@)),
            payloads_wf(children@) && 4 + padded_value(value@).len() + payloads_wire(
                children@,
            ).len() <= 0xffff ==> attr_wf(r),
    {
        let rta_len: u16 = nested_len(&value, &children);
        Self { rt_attr: RtAttr { rta_len, rta_type }, value, children: Some(children) }
    }
}

/// The bytes of attributes without children, written one after the
/// other, each with the length of its header and value.
pub open spec fn leaves_wire(s: Seq<AttrView>) -> Seq<u8>
    decreases s.len(),
{
    if s.len() == 0 {
        Seq::empty()
    } else {
        leaf_wire(s[0].rta_type, s[0].value) + leaves_wire(s.skip(1))
    }
}

/// Where the bytes of an attribute without children stand before other
/// bytes, the fields of the attribute can be read from the front, and the
/// other bytes start at its length rounded up to a multiple of four.
proof fn lemma_leaf_in_front(rta_type: u16, value: Seq<u8>, rest: Seq<u8>)
    requires
        4 + value.len() <= 0xffff,
    ensures
        ({
            let buf = leaf_wire(rta_type, value) + rest;
            let len = 4 + value.len() as int;
            &&& buf.len() >= 4
            &&& u16_at(buf, 0) == len
            &&& u16_at(buf, 2) == rta_type
            &&& buf.subrange(4, len) == value
            &&& align_up(len, 4) <= buf.len()
            &&& buf.skip(align_up(len, 4)) == rest
        }),
{
    let head = leaf_wire(rta_type, value);
    let buf = head + rest;
    let len = 4 + value.len() as int;
    let field = (len % 0x10000) as u16;
    assert(field == len);
    lemma_le16_round_trip(field);
    lemma_le16_round_trip(rta_type);
    assert(head.len() == align_up(len, 4));
    assert(head[0] == le16(field)[0]);
    assert(head[1] == le16(field)[1]);
    assert(head[2] == le16(rta_type)[0]);
    assert(head[3] == le16(rta_type)[1]);
    assert(buf[0] == head[0] && buf[1] == head[1] && buf[2] == head[2] && buf[3] == head[3]);
    assert(buf.subrange(4, len) =~= value);
    assert(buf.skip(align_up(len, 4)) =~= rest);
}

/// One step of the reader: where an attribute stands in front and the
/// bytes after it hold `rest`, the whole holds the attribute and `rest`.
proof fn lemma_parse_one(buf: Seq<u8>, first: AttrView, rest: Seq<AttrView>)
    requires
        buf.len() >= 4,
        first.rta_len >= 4,
        u16_at(buf, 0) == first.rta_len,
        u16_at(buf, 2) == first.rta_type,
        buf.subrange(4, first.rta_len as int) == first.value,
        align_up(first.rta_len as int, 4) <= buf.len(),
        parse_attrs(buf.skip(align_up(first.rta_len as int, 4))) == Some(rest),
    ensures
        parse_attrs(buf) == Some(seq![first] + rest),
{
    assert(first.rta_len <= align_up(first.rta_len as int, 4));
}

/// Attributes that are written one after the other are read back as they
/// were: the reader finds each where the one before it ends, at its length
/// rounded up to a multiple of four.
pub proof fn lemma_attrs_round_trip(s: Seq<AttrView>)
    requires
        forall|i: int| 0 <= i < s.len() ==> (#[trigger] s[i]).rta_len == 4 + s[i].value.len(),
    ensures
        parse_attrs(leaves_wire(s)) == Some(s),
    decreases s.len(),
{
    if s.len() > 0 {
        let first = s[0];
        let rest = s.skip(1);
        assert forall|i: int| 0 <= i < rest.len() implies (#[trigger] rest[i]).rta_len == 4
            + rest[i].value.len() by {
            assert(rest[i] == s[i + 1]);
        }
        lemma_attrs_round_trip(rest);
        let tail = leaves_wire(rest);
        let buf = leaf_wire(first.rta_type, first.value) + tail;
        assert(leaves_wire(s) == buf);
        lemma_leaf_in_front(first.rta_type, first.value, tail);
        lemma_parse_one(buf, first, rest);
        assert(seq![first] + rest =~= s);
    }
}

/// One message as it was received: its header and the bytes after it.
#[derive(Debug, Clone, PartialEq, Eq)]
pub struct NetlinkMessage {
    pub header: NetlinkMessageHeader,
    pub data: Vec<u8>,
}

/// A message as a value: its header and its payload.
pub struct Frame {
    pub header: NetlinkMessageHeader,
    pub data: Seq<u8>,
}

impl View for NetlinkMessage {
    type V = Frame;

    open spec fn view(&self) -> Frame {
        Frame { header: self.header, data: self.data@ }
    }
}

/// The messages of a list as values.
pub open spec fn frames(s: Seq<NetlinkMessage>) -> Seq<Frame> {
    s.map_values(|m: NetlinkMessage| m@)
}

/// The messages that a datagram holds. Each starts with a header of
/// sixteen bytes; its payload runs to the length that the header gives, and
/// the next message starts at the next multiple of four. Reading stops
/// where fewer than sixteen bytes are left, and at a header whose length
/// is below sixteen or beyond what is left.
pub open spec fn parse_frames(buf: Seq<u8>) -> Seq<Frame>
    decreases buf.len(),
{
    if buf.len() < 16 {
        Seq::empty()
    } else {
        let header = NetlinkMessageHeader::parse(buf);
        let len = header.nlmsg_len as int;
        if len < 16 || len > buf.len() {
            Seq::empty()
        } else {
            let next = if align_up(len, 4) <= buf.len() {
                align_up(len, 4)
            } else {
                buf.len() as int
            };
            seq![Frame { header, data: buf.subrange(16, len) }] + parse_frames(buf.skip(next))
        }
    }
}

proof fn lemma_parse_frames_step(buf: Seq<u8>, at: int)
    requires
        0 <= at,
        at + 16 <= buf.len(),
        16 <= u32_at(buf, at) <= buf.len() - at,
    ensures
        ({
            let len = u32_at(buf, at) as int;
            let first = Frame {
                header: NetlinkMessageHeader::parse(buf.skip(at)),
                data: buf.subrange(at + 16, at + len),
            };
            let next = if align_up(len, 4) <= buf.len() - at {
                at + align_up(len, 4)
            } else {
                buf.len() as int
            };
            parse_frames(buf.skip(at)) == seq![first] + parse_frames(buf.skip(next))
        }),
{
    let tail = buf.skip(at);
    let len = u32_at(buf, at) as int;
    assert(u32_at(tail, 0) == u32_at(buf, at));
    assert(tail.subrange(16, len) == buf.subrange(at + 16, at + len));
    let step = if align_up(len, 4) <= tail.len() {
        align_up(len, 4)
    } else {
        tail.len() as int
    };
    assert(tail.skip(step) == buf.skip(at + step));
}

impl NetlinkMessage {
    /// Splits a datagram into its messages. Reading stops, without a
    /// failure, at the first header that does not fit what is left.
    pub fn from(buf: &[u8]) -> (r: Result<Vec<Self>, Error>)
        ensures
            r matches Ok(v) && frames(v@) == parse_frames(buf@),
    {
        let mut out: Vec<Self> = Vec::new();
        let mut at: usize = 0;
        assert(buf@.skip(0) == buf@);
        assert(frames(out@) == Seq::<Frame>::empty());
        while buf.len() - at >= consts::NLMSG_HDRLEN
            invariant
                at <= buf@.len(),
                frames(out@) + parse_frames(buf@.skip(at as int)) == parse_frames(buf@),
            decreases buf@.len() - at,
        {
            let ghost tail = buf@.skip(at as int);
            let header = NetlinkMessageHeader {
                nlmsg_len: get_u32(buf, at),
                nlmsg_type: get_u16(buf, at + 4),
                nlmsg_flags: get_u16(buf, at + 6),
                nlmsg_seq: get_u32(buf, at + 8),
                nlmsg_pid: get_u32(buf, at + 12),
            };
            proof {
                assert(u32_at(tail, 0) == u32_at(buf@, at as int));
                assert(u16_at(tail, 4) == u16_at(buf@, at + 4));
                assert(u16_at(tail, 6) == u16_at(buf@, at + 6));
                assert(u32_at(tail, 8) == u32_at(buf@, at + 8));
                assert(u32_at(tail, 12) == u32_at(buf@, at + 12));
                assert(header == NetlinkMessageHeader::parse(tail));
            }
            let len: usize = header.nlmsg_len as usize;
            if len < consts::NLMSG_HDRLEN || len > buf.len() - at {
                proof {
                    assert(parse_frames(tail) == Seq::<Frame>::empty());
                    assert(frames(out@) + Seq::<Frame>::empty() == frames(out@));
                }
                return Ok(out);
            }
            let data = copy_range(buf, at + consts::NLMSG_HDRLEN, at + len);
            let rest: usize = len % 4;
            let pad: usize = if rest == 0 {
                0
            } else {
                4 - rest
            };
            assert(len + pad == align_up(len as int, 4));
            proof {
                lemma_parse_frames_step(buf@, at as int);
            }
            let ghost before = out@;
            out.push(Self { header, data });
            proof {
                assert(frames(out@) == frames(before).push(out@.last()@));
                assert(frames(before).push(out@.last()@) == frames(before) + seq![out@.last()@]);
            }
            if pad <= buf.len() - at - len {
                at = at + len + pad;
            } else {
                at = buf.len();
            }
        }
        proof {
            assert(parse_frames(buf@.skip(at as int)) == Seq::<Frame>::empty());
            assert(frames(out@) + Seq::<Frame>::empty() == frames(out@));
        }
        Ok(out)
    }
}

} // verus!
