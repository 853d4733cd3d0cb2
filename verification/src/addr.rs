//! Addresses: the typed entity, the requests that act on it and the
//! decoding of the kernel's replies.

use vstd::prelude::*;
use vstd::utf8::encode_utf8;
use crate::consts;
use crate::error::Error;
use crate::ip::{broadcast_octets, IpAddr, IpNet};
use crate::message::{
    heads,
    leaf_wire,
    lemma_payloads_wire_empty,
    parse_attrs,
    AddressMessage,
    AttrView,
    NetlinkMessageHeader,
    NetlinkRouteAttr,
    Payload,
};
use crate::request::NetlinkRequest;
use crate::utils::{addr_of_octets, slice_to_addr, zero_terminated};

verus! {

/// What to do with an address.
#[derive(Debug, Clone, Copy, PartialEq, Eq)]
pub enum AddrCmd {
    Add,
    Replace,
    Del,
}

/// The address families that a listing can ask for.
#[derive(Debug, Clone, Copy, PartialEq, Eq)]
pub enum AddrFamily {
    All,
    V4,
    V6,
}

impl AddrFamily {
    /// The number of the family on the wire: 0 for all, else `AF_INET` or
    /// `AF_INET6`.
    pub open spec fn value_spec(self) -> u8 {
        match self {
            AddrFamily::All => consts::AF_UNSPEC,
            AddrFamily::V4 => consts::AF_INET,
            AddrFamily::V6 => consts::AF_INET6,
        }
    }

    /// The number of the family on the wire.
    pub fn value(&self) -> (v: u8)
        ensures
            v == self.value_spec(),
    {
        match self {
            AddrFamily::All => consts::AF_UNSPEC,
            AddrFamily::V4 => consts::AF_INET,
            AddrFamily::V6 => consts::AF_INET6,
        }
    }
}

/// An address of a link.
#[derive(Debug, Clone, PartialEq, Eq)]
pub struct Address {
    pub index: i32,
    pub address: IpNet,
    pub label: String,
    pub flags: u8,
    pub scope: u8,
    pub broadcast: Option<IpAddr>,
    pub peer: Option<IpNet>,
    pub preferred_lifetime: i32,
    pub valid_lifetime: i32,
}

/// An address as a value: its label is the sequence of its characters.
pub struct AddressView {
    pub index: i32,
    pub address: IpNet,
    pub label: Seq<char>,
    pub flags: u8,
    pub scope: u8,
    pub broadcast: Option<IpAddr>,
    pub peer: Option<IpNet>,
    pub preferred_lifetime: i32,
    pub valid_lifetime: i32,
}

impl View for Address {
    type V = AddressView;

    open spec fn view(&self) -> AddressView {
        AddressView {
            index: self.index,
            address: self.address,
            label: self.label@,
            flags: self.flags,
            scope: self.scope,
            broadcast: self.broadcast,
            peer: self.peer,
            preferred_lifetime: self.preferred_lifetime,
            valid_lifetime: self.valid_lifetime,
        }
    }
}

impl AddressView {
    /// The address `0.0.0.0/0` on no link, with no label and every number
    /// zero.
    pub open spec fn zero() -> AddressView {
        AddressView {
            index: 0,
            address: IpNet::make(IpAddr::V4([0, 0, 0, 0]), 0),
            label: Seq::empty(),
            flags: 0,
            scope: 0,
            broadcast: None,
            peer: None,
            preferred_lifetime: 0,
            valid_lifetime: 0,
        }
    }
}

impl Address {
    /// The given network as an address, with everything else left at its
    /// default.
    pub fn new(address: IpNet) -> (r: Self)
        ensures
            r@ == (AddressView { address, ..AddressView::zero() }),
    {
        Self {
            index: 0,
            address,
            label: String::new(),
            flags: 0,
            scope: 0,
            broadcast: None,
            peer: None,
            preferred_lifetime: 0,
            valid_lifetime: 0,
        }
    }
}

impl Default for Address {
    fn default() -> (r: Self)
        ensures
            r@ == AddressView::zero(),
    {
        Self {
            index: 0,
            address: IpNet::default(),
            label: String::new(),
            flags: 0,
            scope: 0,
            broadcast: None,
            peer: None,
            preferred_lifetime: 0,
            valid_lifetime: 0,
        }
    }
}

/// What one attribute changes in an address that is read from a reply:
/// only `IFA_ADDRESS` is looked at, and it sets the network, with the
/// prefix length of the record.
pub open spec fn address_with_attr(addr: AddressView, prefix_len: u8, a: AttrView) -> Result<
    AddressView,
    Error,
> {
    if a.rta_type == consts::IFA_ADDRESS {
        match addr_of_octets(a.value) {
            Ok(ip) => if prefix_len <= ip.max_prefix_len_spec() {
                Ok(AddressView { address: IpNet::make(ip, prefix_len), ..addr })
            } else {
                Err(Error::InvalidPrefixLength(prefix_len))
            },
            Err(e) => Err(e),
        }
    } else {
        Ok(addr)
    }
}

/// What the attributes of `s` make of an address, taken in their order.
/// The first that cannot be read decides the failure.
pub open spec fn address_with_attrs(addr: AddressView, prefix_len: u8, s: Seq<AttrView>) -> Result<
    AddressView,
    Error,
>
    decreases s.len(),
{
    if s.len() == 0 {
        Ok(addr)
    } else {
        match address_with_attrs(addr, prefix_len, s.drop_last()) {
            Ok(r) => address_with_attr(r, prefix_len, s.last()),
            Err(e) => Err(e),
        }
    }
}

/// The address that a reply holds: a record of eight bytes, which gives
/// link, scope and prefix length, then attributes. A reply too short for
/// the record, or with a malformed attribute, holds none.
pub open spec fn address_of(buf: Seq<u8>) -> Result<AddressView, Error> {
    if buf.len() < 8 {
        Err(Error::Decode)
    } else {
        match parse_attrs(buf.skip(8)) {
            None => Err(Error::Decode),
            Some(s) => address_with_attrs(
                AddressView {
                    index: AddressMessage::parse(buf).index,
                    scope: AddressMessage::parse(buf).scope,
                    ..AddressView::zero()
                },
                AddressMessage::parse(buf).prefix_len,
                s,
            ),
        }
    }
}

/// Once a prefix of the attributes cannot be read, the whole cannot, and
/// for the same reason.
proof fn lemma_address_attrs_fail(start: AddressView, prefix_len: u8, s: Seq<AttrView>, n: int)
    requires
        0 <= n <= s.len(),
        address_with_attrs(start, prefix_len, s.take(n)) is Err,
    ensures
        address_with_attrs(start, prefix_len, s) == address_with_attrs(start, prefix_len, s.take(n)),
    decreases s.len() - n,
{
    if n == s.len() {
        assert(s.take(n) == s);
    } else {
        assert(s.take(n + 1).drop_last() == s.take(n));
        lemma_address_attrs_fail(start, prefix_len, s, n + 1);
    }
}

/// Reads an address from a reply of the kernel.
pub fn addr_deserialize(buf: &[u8]) -> (r: Result<Address, Error>)
    ensures
        address_of(buf@) matches Ok(a) ==> (r matches Ok(x) && x@ == a),
        address_of(buf@) matches Err(e) ==> r == Err::<Address, Error>(e),
{
    let msg = AddressMessage::deserialize(buf)?;
    let rest = vstd::slice::slice_subrange(buf, consts::IF_ADDR_MSG_SIZE, buf.len());
    assert(rest@ == buf@.skip(8));
    let attrs = NetlinkRouteAttr::from(rest)?;
    let mut addr = Address::default();
    addr.index = msg.index;
    addr.scope = msg.scope;
    let ghost all = heads(attrs@);
    let ghost start = addr@;
    let mut i: usize = 0;
    while i < attrs.len()
        invariant
            i <= attrs@.len(),
            all == heads(attrs@),
            address_of(buf@) == address_with_attrs(start, msg.prefix_len, all),
            address_with_attrs(start, msg.prefix_len, all.take(i as int)) == Ok::<
                AddressView,
                Error,
            >(addr@),
        decreases attrs@.len() - i,
    {
        proof {
            assert(all.take(i + 1).drop_last() == all.take(i as int));
            assert(all.take(i + 1).last() == attrs@[i as int].head());
        }
        if attrs[i].rt_attr.rta_type == consts::IFA_ADDRESS {
            let step = match slice_to_addr(attrs[i].value.as_slice()) {
                Ok(ip) => IpNet::new(ip, msg.prefix_len),
                Err(e) => Err(e),
            };
            match step {
                Ok(net) => {
                    addr.address = net;
                },
                Err(e) => {
                    proof {
                        lemma_address_attrs_fail(start, msg.prefix_len, all, i + 1);
                    }
                    return Err(e);
                },
            }
        }
        i += 1;
    }
    assert(all.take(i as int) == all);
    Ok(addr)
}

/// The message type with which a command is sent.
pub open spec fn addr_proto(cmd: AddrCmd) -> u16 {
    match cmd {
        AddrCmd::Add | AddrCmd::Replace => consts::RTM_NEWADDR,
        AddrCmd::Del => consts::RTM_DELADDR,
    }
}

/// The flags with which a command is sent, beside the request flag.
pub open spec fn addr_flags(cmd: AddrCmd) -> i32 {
    match cmd {
        AddrCmd::Add => consts::NLM_F_CREATE | consts::NLM_F_EXCL | consts::NLM_F_ACK,
        AddrCmd::Replace => consts::NLM_F_CREATE | consts::NLM_F_REPLACE | consts::NLM_F_ACK,
        AddrCmd::Del => consts::NLM_F_ACK,
    }
}

/// The record of the request of a command on an address of the link
/// `index`: the family of the address, its prefix length, its flags and
/// scope.
pub open spec fn addr_msg(index: i32, addr: AddressView) -> AddressMessage {
    AddressMessage {
        family: addr.address.addr_spec().family_spec(),
        prefix_len: addr.address.prefix_len_spec(),
        flags: addr.flags,
        scope: addr.scope,
        index,
    }
}

/// The octets sent as `IFA_ADDRESS`: those of the peer where there is one,
/// else those of the address itself. A peer of the other family is sent in
/// the family of the address: an IPv4 peer as its IPv4-mapped IPv6 form, an
/// IPv6 peer as the IPv4 address it embeds, or as nothing if it embeds
/// none.
pub open spec fn peer_octets(addr: AddressView) -> Seq<u8> {
    match addr.peer {
        None => addr.address.addr_spec().octets_spec(),
        Some(peer) => if addr.address.addr_spec() is V6 {
            peer.addr_spec().to_ipv6_mapped_spec().octets_spec()
        } else {
            match peer.addr_spec().to_ipv4_spec() {
                Some(ip) => ip.octets_spec(),
                None => Seq::empty(),
            }
        },
    }
}

/// The octets sent as `IFA_BROADCAST`: those that the address names, else
/// the last address of its network.
pub open spec fn broadcast_value(addr: AddressView) -> Seq<u8> {
    match addr.broadcast {
        Some(b) => b.octets_spec(),
        None => broadcast_octets(
            addr.address.addr_spec().octets_spec(),
            addr.address.prefix_len_spec() as int,
        ),
    }
}

/// The bytes of the label attribute: the label in UTF-8 and a zero byte.
/// An empty label is not sent.
pub open spec fn label_bytes(addr: AddressView) -> Seq<u8> {
    if addr.label.len() == 0 {
        Seq::empty()
    } else {
        leaf_wire(consts::IFA_LABEL, encode_utf8(addr.label).push(0))
    }
}

/// What the label adds to the length in the header.
pub open spec fn label_len(addr: AddressView) -> int {
    if addr.label.len() == 0 {
        0
    } else {
        NetlinkRouteAttr::length_for(encode_utf8(addr.label).push(0).len()) as int
    }
}

/// The bytes of the attributes that only an IPv4 address has: broadcast
/// and label.
pub open spec fn v4_bytes(addr: AddressView) -> Seq<u8> {
    if addr.address.addr_spec() is V4 {
        leaf_wire(consts::IFA_BROADCAST, broadcast_value(addr)) + label_bytes(addr)
    } else {
        Seq::empty()
    }
}

/// The bytes of the payloads of the request of a command on an address:
/// the record, the local address, the peer or again the local address, and
/// for IPv4 the broadcast address and the label.
pub open spec fn addr_payload_bytes(index: i32, addr: AddressView) -> Seq<u8> {
    addr_msg(index, addr).wire_spec() + leaf_wire(
        consts::IFA_LOCAL,
        addr.address.addr_spec().octets_spec(),
    ) + leaf_wire(consts::IFA_ADDRESS, peer_octets(addr)) + v4_bytes(addr)
}

/// The length that the header of the request holds: header, record, and
/// for each attribute the length it reports.
pub open spec fn addr_len(addr: AddressView) -> int {
    16 + 8 + (4 + addr.address.addr_spec().octets_spec().len()) + (4 + peer_octets(addr).len()) + (
    if addr.address.addr_spec() is V4 {
        4 + broadcast_value(addr).len() + label_len(addr)
    } else {
        0
    })
}

/// The number of payloads of the request.
pub open spec fn addr_payload_count(addr: AddressView) -> int {
    3 + (if addr.address.addr_spec() is V4 {
        1 + (if addr.label.len() == 0 {
            0int
        } else {
            1int
        })
    } else {
        0
    })
}

/// The octets to send as `IFA_ADDRESS`.
fn peer_data(addr: &Address) -> (v: Vec<u8>)
    ensures
        v@ == peer_octets(addr@),
        v@.len() <= 16,
{
    match addr.peer {
        None => addr.address.addr().octets(),
        Some(peer) => {
            if addr.address.addr().is_ipv6() {
                peer.addr().to_ipv6_mapped().octets()
            } else {
                match peer.addr().to_ipv4() {
                    Some(ip) => ip.octets(),
                    None => Vec::new(),
                }
            }
        },
    }
}

/// The octets to send as `IFA_BROADCAST`.
fn broadcast_data(addr: &Address) -> (v: Vec<u8>)
    ensures
        v@ == broadcast_value(addr@),
        v@.len() <= 16,
{
    match addr.broadcast {
        Some(b) => b.octets(),
        None => addr.address.broadcast().octets(),
    }
}

/// Appends what only an IPv4 address has: broadcast and label.
fn add_v4_attrs(req: &mut NetlinkRequest, addr: &Address)
    requires
        old(req).header.nlmsg_len <= 0xffff,
        old(req).payloads().len() > 0,
    ensures
        final(req).header == (NetlinkMessageHeader {
            nlmsg_len: (old(req).header.nlmsg_len + (if addr@.address.addr_spec() is V4 {
                4 + broadcast_value(addr@).len() + label_len(addr@)
            } else {
                0
            })) as u32,
            ..old(req).header
        }),
        final(req).raw_data == old(req).raw_data,
        final(req).payloads().len() == old(req).payloads().len() + addr_payload_count(addr@) - 3,
        final(req).payloads()[0] == old(req).payloads()[0],
        final(req).payload_bytes() == old(req).payload_bytes() + v4_bytes(addr@),
{
    if addr.address.addr().is_ipv4() {
        let ghost before = req.payload_bytes();
        req.add_attr(consts::IFA_BROADCAST, broadcast_data(addr));
        assert(req.payloads().drop_last()[0] == req.payloads()[0]);
        if !addr.label.as_str().is_empty() {
            req.add_attr(consts::IFA_LABEL, zero_terminated(addr.label.as_str()));
            assert(req.payloads().drop_last()[0] == req.payloads()[0]);
            assert(req.payload_bytes() == before + v4_bytes(addr@));
        } else {
            assert(req.payload_bytes() + Seq::<u8>::empty() == req.payload_bytes());
        }
    } else {
        assert(req.payload_bytes() + Seq::<u8>::empty() == req.payload_bytes());
    }
}

/// Builds the request that adds, replaces or deletes an address of the
/// link `index`.
pub fn addr_handle(cmd: AddrCmd, index: i32, addr: &Address) -> (r: Result<NetlinkRequest, Error>)
    ensures
        r matches Ok(req) && req.header.nlmsg_type == addr_proto(cmd) && req.header.nlmsg_flags == (
        consts::NLM_F_REQUEST | addr_flags(cmd)) as u16 && req.header.nlmsg_len == addr_len(addr@)
            && req.header.nlmsg_seq == 0 && req.header.nlmsg_pid == 0 && req.raw_data is None
            && req.payloads().len() == addr_payload_count(addr@) && req.payloads()[0]
            == Payload::Address(addr_msg(index, addr@)) && req.payload_bytes()
            == addr_payload_bytes(index, addr@),
{
    let (proto, flags): (u16, i32) = match cmd {
        AddrCmd::Add => (
            consts::RTM_NEWADDR,
            consts::NLM_F_CREATE | consts::NLM_F_EXCL | consts::NLM_F_ACK,
        ),
        AddrCmd::Replace => (
            consts::RTM_NEWADDR,
            consts::NLM_F_CREATE | consts::NLM_F_REPLACE | consts::NLM_F_ACK,
        ),
        AddrCmd::Del => (consts::RTM_DELADDR, consts::NLM_F_ACK),
    };
    let mut req = NetlinkRequest::new(proto, flags);
    let msg = AddressMessage {
        family: addr.address.addr().family(),
        prefix_len: addr.address.prefix_len(),
        flags: addr.flags,
        scope: addr.scope,
        index,
    };
    proof {
        lemma_payloads_wire_empty();
    }
    req.add_data(Payload::Address(msg));
    req.add_attr(consts::IFA_LOCAL, addr.address.addr().octets());
    assert(req.payloads().drop_last()[0] == req.payloads()[0]);
    req.add_attr(consts::IFA_ADDRESS, peer_data(addr));
    assert(req.payloads().drop_last()[0] == req.payloads()[0]);
    add_v4_attrs(&mut req, addr);
    Ok(req)
}

/// Builds the request that lists the addresses of a family: a dump that
/// carries the record with the family and nothing else.
pub fn addr_list(family: AddrFamily) -> (r: Result<NetlinkRequest, Error>)
    ensures
        r matches Ok(req) && req.header.nlmsg_type == consts::RTM_GETADDR
            && req.header.nlmsg_flags == (consts::NLM_F_REQUEST | consts::NLM_F_DUMP) as u16
            && req.header.nlmsg_len == 24 && req.header.nlmsg_seq == 0 && req.header.nlmsg_pid
            == 0 && req.raw_data is None && req.payloads() == seq![
            Payload::Address(
                AddressMessage {
                    family: family.value_spec(),
                    prefix_len: 0,
                    flags: 0,
                    scope: 0,
                    index: 0,
                },
            ),
        ],
{
    let mut req = NetlinkRequest::new(consts::RTM_GETADDR, consts::NLM_F_DUMP);
    let mut msg = AddressMessage::default();
    msg.family = family.value();
    req.add_data(Payload::Address(msg));
    Ok(req)
}

} // verus!
