//! Links: the attributes that every link has, the kinds of link, the
//! requests that act on them and the decoding of the kernel's replies.

use vstd::prelude::*;
use vstd::string::{StringExecFns, StringSliceAdditionalSpecFns};
use vstd::utf8::{decode_utf8, encode_utf8, valid_utf8};
use crate::bytes::{copy_range, get_i32, get_u32, i32_at, i32_bits, i32_bytes, le32, u32_at, u32_bytes};
use crate::consts;
use crate::error::Error;
use crate::message::{
    heads,
    leaf_piece,
    lemma_piece_push,
    nested_piece,
    parse_attrs,
    piece_of,
    piece_of_one,
    AttrView,
    Piece,
    InfoMessage,
    NetlinkRouteAttr,
    Payload,
};
use crate::request::NetlinkRequest;
use crate::utils::zero_terminated;

verus! {

/// What every link has, whatever its kind.
#[derive(Debug, Clone, PartialEq, Eq)]
pub struct LinkAttrs {
    /// The kind of the link as the kernel names it; filled in on read.
    pub link_type: String,
    /// The number of the link; zero where it is not known yet.
    pub index: i32,
    pub name: String,
    pub hw_addr: Vec<u8>,
    pub mtu: u32,
    pub flags: u32,
    pub tx_queue_len: u32,
    pub oper_state: u8,
    pub num_tx_queues: u32,
    pub num_rx_queues: u32,
    pub gro_max_size: u32,
    pub parent_index: i32,
    pub master_index: i32,
}

/// The attributes of a link as a value.
pub struct LinkAttrsView {
    pub link_type: Seq<char>,
    pub index: i32,
    pub name: Seq<char>,
    pub hw_addr: Seq<u8>,
    pub mtu: u32,
    pub flags: u32,
    pub tx_queue_len: u32,
    pub oper_state: u8,
    pub num_tx_queues: u32,
    pub num_rx_queues: u32,
    pub gro_max_size: u32,
    pub parent_index: i32,
    pub master_index: i32,
}

impl View for LinkAttrs {
    type V = LinkAttrsView;

    open spec fn view(&self) -> LinkAttrsView {
        LinkAttrsView {
            link_type: self.link_type@,
            index: self.index,
            name: self.name@,
            hw_addr: self.hw_addr@,
            mtu: self.mtu,
            flags: self.flags,
            tx_queue_len: self.tx_queue_len,
            oper_state: self.oper_state,
            num_tx_queues: self.num_tx_queues,
            num_rx_queues: self.num_rx_queues,
            gro_max_size: self.gro_max_size,
            parent_index: self.parent_index,
            master_index: self.master_index,
        }
    }
}

impl LinkAttrsView {
    /// The attributes with no name, no address and every number zero.
    pub open spec fn zero() -> LinkAttrsView {
        LinkAttrsView {
            link_type: Seq::empty(),
            index: 0,
            name: Seq::empty(),
            hw_addr: Seq::empty(),
            mtu: 0,
            flags: 0,
            tx_queue_len: 0,
            oper_state: 0,
            num_tx_queues: 0,
            num_rx_queues: 0,
            gro_max_size: 0,
            parent_index: 0,
            master_index: 0,
        }
    }
}

impl LinkAttrs {
    /// The attributes of a link of the given name, with everything else
    /// left at its default.
    pub fn new(name: &str) -> (r: Self)
        ensures
            r@ == (LinkAttrsView { name: name@, ..LinkAttrsView::zero() }),
    {
        Self {
            link_type: String::new(),
            index: 0,
            name: String::from_str(name),
            hw_addr: Vec::new(),
            mtu: 0,
            flags: 0,
            tx_queue_len: 0,
            oper_state: 0,
            num_tx_queues: 0,
            num_rx_queues: 0,
            gro_max_size: 0,
            parent_index: 0,
            master_index: 0,
        }
    }
}

impl Default for LinkAttrs {
    fn default() -> (r: Self)
        ensures
            r@ == LinkAttrsView::zero(),
    {
        Self {
            link_type: String::new(),
            index: 0,
            name: String::new(),
            hw_addr: Vec::new(),
            mtu: 0,
            flags: 0,
            tx_queue_len: 0,
            oper_state: 0,
            num_tx_queues: 0,
            num_rx_queues: 0,
            gro_max_size: 0,
            parent_index: 0,
            master_index: 0,
        }
    }
}

/// The network namespace into which the peer of a veth pair is put: that
/// of a process, or the one that an open file refers to.
#[derive(Debug, Clone, Copy, PartialEq, Eq)]
pub enum Namespace {
    Pid(u32),
    Fd(u32),
}

/// A link of one of the kinds that the library knows.
#[derive(Debug, Clone, PartialEq, Eq)]
pub enum Kind {
    Dummy(LinkAttrs),
    Bridge {
        attrs: LinkAttrs,
        hello_time: Option<u32>,
        ageing_time: Option<u32>,
        multicast_snooping: Option<bool>,
        vlan_filtering: Option<bool>,
    },
    Veth {
        attrs: LinkAttrs,
        peer_name: String,
        peer_hw_addr: Option<Vec<u8>>,
        peer_ns: Option<Namespace>,
    },
}

/// A link as a value.
pub enum KindView {
    Dummy(LinkAttrsView),
    Bridge {
        attrs: LinkAttrsView,
        hello_time: Option<u32>,
        ageing_time: Option<u32>,
        multicast_snooping: Option<bool>,
        vlan_filtering: Option<bool>,
    },
    Veth {
        attrs: LinkAttrsView,
        peer_name: Seq<char>,
        peer_hw_addr: Option<Seq<u8>>,
        peer_ns: Option<Namespace>,
    },
}

impl KindView {
    /// The attributes that the link has whatever its kind.
    pub open spec fn attrs(self) -> LinkAttrsView {
        match self {
            KindView::Dummy(a) => a,
            KindView::Bridge { attrs, .. } => attrs,
            KindView::Veth { attrs, .. } => attrs,
        }
    }

    /// The same link with other common attributes.
    pub open spec fn with_attrs(self, a: LinkAttrsView) -> KindView {
        match self {
            KindView::Dummy(_) => KindView::Dummy(a),
            KindView::Bridge { attrs, hello_time, ageing_time, multicast_snooping, vlan_filtering } =>
                KindView::Bridge {
                    attrs: a,
                    hello_time,
                    ageing_time,
                    multicast_snooping,
                    vlan_filtering,
                },
            KindView::Veth { attrs, peer_name, peer_hw_addr, peer_ns } => KindView::Veth {
                attrs: a,
                peer_name,
                peer_hw_addr,
                peer_ns,
            },
        }
    }

    /// The name of the kind, as the kernel spells it.
    pub open spec fn kind_name(self) -> Seq<char> {
        match self {
            KindView::Dummy(_) => "dummy"@,
            KindView::Bridge { .. } => "bridge"@,
            KindView::Veth { .. } => "veth"@,
        }
    }
}

impl View for Kind {
    type V = KindView;

    open spec fn view(&self) -> KindView {
        match self {
            Kind::Dummy(a) => KindView::Dummy(a@),
            Kind::Bridge { attrs, hello_time, ageing_time, multicast_snooping, vlan_filtering } =>
                KindView::Bridge {
                    attrs: attrs@,
                    hello_time: *hello_time,
                    ageing_time: *ageing_time,
                    multicast_snooping: *multicast_snooping,
                    vlan_filtering: *vlan_filtering,
                },
            Kind::Veth { attrs, peer_name, peer_hw_addr, peer_ns } => KindView::Veth {
                attrs: attrs@,
                peer_name: peer_name@,
                peer_hw_addr: match peer_hw_addr {
                    Some(a) => Some(a@),
                    None => None,
                },
                peer_ns: *peer_ns,
            },
        }
    }
}

/// What every kind of link can do: show its common attributes, let them be
/// changed, show itself as one of the known kinds, and name its kind.
pub trait Link {
    /// The link as one of the known kinds.
    spec fn kind_spec(&self) -> Kind;

    fn attrs(&self) -> (a: &LinkAttrs)
        ensures
            a@ == self.kind_spec()@.attrs(),
    ;

    fn kind(&self) -> (k: &Kind)
        ensures
            *k == self.kind_spec(),
    ;

    fn link_type(&self) -> (s: String)
        ensures
            s@ == self.kind_spec()@.kind_name(),
    ;
}

impl Link for Kind {
    open spec fn kind_spec(&self) -> Kind {
        *self
    }

    fn attrs(&self) -> (a: &LinkAttrs) {
        match self {
            Kind::Dummy(a) => a,
            Kind::Bridge { attrs, .. } => attrs,
            Kind::Veth { attrs, .. } => attrs,
        }
    }

    fn kind(&self) -> (k: &Kind) {
        self
    }

    fn link_type(&self) -> (s: String) {
        match self {
            Kind::Dummy(_) => String::from_str("dummy"),
            Kind::Bridge { .. } => String::from_str("bridge"),
            Kind::Veth { .. } => String::from_str("veth"),
        }
    }
}

impl Kind {
    /// The common attributes, to be changed in place.
    pub fn attrs_mut(&mut self) -> (a: &mut LinkAttrs)
        ensures
            (*a)@ == old(self)@.attrs(),
            final(self)@ == old(self)@.with_attrs((*final(a))@),
    {
        match self {
            Kind::Dummy(a) => a,
            Kind::Bridge { attrs, .. } => attrs,
            Kind::Veth { attrs, .. } => attrs,
        }
    }
}

/// An attribute that holds a number of four bytes, sent only where the
/// number is not zero.
pub open spec fn opt_u32_piece(rta_type: u16, v: u32) -> Piece {
    if v > 0 {
        leaf_piece(rta_type, le32(v))
    } else {
        Piece::empty()
    }
}

/// An attribute that holds bytes, sent only where there are any.
pub open spec fn opt_bytes_piece(rta_type: u16, b: Seq<u8>) -> Piece {
    if b.len() > 0 {
        leaf_piece(rta_type, b)
    } else {
        Piece::empty()
    }
}

/// An attribute that holds a number of four bytes, sent only where the
/// caller gave one.
pub open spec fn some_u32_piece(rta_type: u16, v: Option<u32>) -> Piece {
    match v {
        Some(x) => leaf_piece(rta_type, le32(x)),
        None => Piece::empty(),
    }
}

/// An attribute that holds one byte, 1 for yes and 0 for no, sent only
/// where the caller gave an answer.
pub open spec fn some_flag_piece(rta_type: u16, v: Option<bool>) -> Piece {
    match v {
        Some(b) => leaf_piece(
            rta_type,
            seq![if b {
                1u8
            } else {
                0u8
            }],
        ),
        None => Piece::empty(),
    }
}

/// The attributes that name and size a link, in the order in which they
/// are sent: the name with a zero byte after it, then, each only where it
/// is set, the MTU, the length of the transmit queue, the hardware
/// address, the numbers of transmit and receive queues, and the largest
/// size of a receive batch.
pub open spec fn common_piece(
    name: Seq<char>,
    mtu: u32,
    tx_queue_len: u32,
    hw_addr: Seq<u8>,
    num_tx_queues: u32,
    num_rx_queues: u32,
    gro_max_size: u32,
) -> Piece {
    leaf_piece(consts::IFLA_IFNAME, encode_utf8(name).push(0)).and(
        opt_u32_piece(consts::IFLA_MTU, mtu),
    ).and(opt_u32_piece(consts::IFLA_TXQLEN, tx_queue_len)).and(
        opt_bytes_piece(consts::IFLA_ADDRESS, hw_addr),
    ).and(opt_u32_piece(consts::IFLA_NUM_TX_QUEUES, num_tx_queues)).and(
        opt_u32_piece(consts::IFLA_NUM_RX_QUEUES, num_rx_queues),
    ).and(opt_u32_piece(consts::IFLA_GRO_MAX_SIZE, gro_max_size))
}

/// The options of a bridge, each sent only where the caller set it: hello
/// time, ageing time, multicast snooping, VLAN filtering.
pub open spec fn bridge_piece(
    hello_time: Option<u32>,
    ageing_time: Option<u32>,
    multicast_snooping: Option<bool>,
    vlan_filtering: Option<bool>,
) -> Piece {
    some_u32_piece(consts::IFLA_BR_HELLO_TIME, hello_time).and(
        some_u32_piece(consts::IFLA_BR_AGEING_TIME, ageing_time),
    ).and(some_flag_piece(consts::IFLA_BR_MCAST_SNOOPING, multicast_snooping)).and(
        some_flag_piece(consts::IFLA_BR_VLAN_FILTERING, vlan_filtering),
    )
}

/// The attribute that puts the peer of a veth pair into a namespace.
pub open spec fn ns_piece(ns: Option<Namespace>) -> Piece {
    match ns {
        Some(Namespace::Pid(p)) => leaf_piece(consts::IFLA_NET_NS_PID, le32(p)),
        Some(Namespace::Fd(f)) => leaf_piece(consts::IFLA_NET_NS_FD, le32(f)),
        None => Piece::empty(),
    }
}

/// The bytes of a hardware address that may be missing.
pub open spec fn some_bytes(b: Option<Seq<u8>>) -> Seq<u8> {
    match b {
        Some(x) => x,
        None => Seq::empty(),
    }
}

/// What describes the peer of a veth pair: a link record of zeros, the
/// peer's name, the MTU and the queues of the link itself, the peer's
/// hardware address and its namespace.
pub open spec fn peer_piece(
    attrs: LinkAttrsView,
    peer_name: Seq<char>,
    peer_hw_addr: Option<Seq<u8>>,
    peer_ns: Option<Namespace>,
) -> Piece {
    Piece { bytes: InfoMessage::parse(Seq::new(16, |i: int| 0u8)).wire_spec(), len: 16 }.and(
        common_piece(
            peer_name,
            attrs.mtu,
            attrs.tx_queue_len,
            some_bytes(peer_hw_addr),
            attrs.num_tx_queues,
            attrs.num_rx_queues,
            0,
        ),
    ).and(ns_piece(peer_ns))
}

/// What follows the kind in the description of a link: nothing for a dummy
/// link, the options for a bridge, the peer for a veth pair.
pub open spec fn info_data_piece(k: KindView) -> Piece {
    match k {
        KindView::Dummy(_) => Piece::empty(),
        KindView::Bridge { hello_time, ageing_time, multicast_snooping, vlan_filtering, .. } =>
            nested_piece(
                consts::IFLA_INFO_DATA,
                Seq::empty(),
                bridge_piece(hello_time, ageing_time, multicast_snooping, vlan_filtering),
            ),
        KindView::Veth { attrs, peer_name, peer_hw_addr, peer_ns } => nested_piece(
            consts::IFLA_INFO_DATA,
            Seq::empty(),
            nested_piece(
                consts::VETH_INFO_PEER,
                Seq::empty(),
                peer_piece(attrs, peer_name, peer_hw_addr, peer_ns),
            ),
        ),
    }
}

/// The description of the kind of a link: the name of the kind, then what
/// the kind needs.
pub open spec fn link_info_piece(k: KindView) -> Piece {
    nested_piece(
        consts::IFLA_LINKINFO,
        Seq::empty(),
        leaf_piece(consts::IFLA_INFO_KIND, encode_utf8(k.kind_name())).and(info_data_piece(k)),
    )
}

/// The record of a request that creates or changes a link: its number and
/// its flags, and, where any flag is set, every flag marked as changed.
pub open spec fn link_msg(a: LinkAttrsView) -> InfoMessage {
    InfoMessage {
        family: consts::AF_UNSPEC,
        _pad: 0,
        ifi_type: 0,
        index: a.index,
        flags: a.flags,
        change: if a.flags != 0 {
            0xffff_ffffu32
        } else {
            0u32
        },
    }
}

/// The payloads of a request that creates or changes a link: the record,
/// the common attributes, the description of the kind.
pub open spec fn link_piece(k: KindView) -> Piece {
    Piece { bytes: link_msg(k.attrs()).wire_spec(), len: 16 }.and(
        common_piece(
            k.attrs().name,
            k.attrs().mtu,
            k.attrs().tx_queue_len,
            k.attrs().hw_addr,
            k.attrs().num_tx_queues,
            k.attrs().num_rx_queues,
            k.attrs().gro_max_size,
        ),
    ).and(link_info_piece(k))
}

/// Appends an attribute without children to a list of payloads.
fn push_attr(items: &mut Vec<Payload>, rta_type: u16, value: Vec<u8>)
    ensures
        old(items)@.is_prefix_of(final(items)@),
        piece_of(final(items)@) == piece_of(old(items)@).and(leaf_piece(rta_type, value@)),
{
    let attr = NetlinkRouteAttr::new(rta_type, value);
    proof {
        lemma_piece_push(items@, Payload::Attr(attr));
    }
    items.push(Payload::Attr(attr));
}

/// Appends a payload to a list of payloads.
fn push_payload(items: &mut Vec<Payload>, p: Payload)
    ensures
        old(items)@.is_prefix_of(final(items)@),
        final(items)@.len() == old(items)@.len() + 1,
        final(items)@.last() == p,
        piece_of(final(items)@) == piece_of(old(items)@).and(piece_of_one(p)),
{
    proof {
        lemma_piece_push(items@, p);
    }
    items.push(p);
}

/// Appends an attribute of four bytes where the number is not zero.
fn push_u32(items: &mut Vec<Payload>, rta_type: u16, v: u32)
    ensures
        old(items)@.is_prefix_of(final(items)@),
        piece_of(final(items)@) == piece_of(old(items)@).and(opt_u32_piece(rta_type, v)),
{
    if v > 0 {
        push_attr(items, rta_type, u32_bytes(v));
    } else {
        assert(piece_of(items@).bytes + Seq::<u8>::empty() == piece_of(items@).bytes);
    }
}

/// Appends an attribute of bytes where there are any.
fn push_bytes(items: &mut Vec<Payload>, rta_type: u16, b: &[u8])
    ensures
        old(items)@.is_prefix_of(final(items)@),
        piece_of(final(items)@) == piece_of(old(items)@).and(opt_bytes_piece(rta_type, b@)),
{
    if b.len() > 0 {
        let copy = copy_range(b, 0, b.len());
        assert(b@.subrange(0, b@.len() as int) == b@);
        push_attr(items, rta_type, copy);
    } else {
        assert(piece_of(items@).bytes + Seq::<u8>::empty() == piece_of(items@).bytes);
    }
}

/// Appends an attribute of four bytes where the caller gave a number.
fn push_some_u32(items: &mut Vec<Payload>, rta_type: u16, v: Option<u32>)
    ensures
        old(items)@.is_prefix_of(final(items)@),
        piece_of(final(items)@) == piece_of(old(items)@).and(some_u32_piece(rta_type, v)),
{
    match v {
        Some(x) => {
            push_attr(items, rta_type, u32_bytes(x));
        },
        None => {
            assert(piece_of(items@).bytes + Seq::<u8>::empty() == piece_of(items@).bytes);
        },
    }
}

/// Appends an attribute of one byte where the caller gave an answer.
fn push_some_flag(items: &mut Vec<Payload>, rta_type: u16, v: Option<bool>)
    ensures
        old(items)@.is_prefix_of(final(items)@),
        piece_of(final(items)@) == piece_of(old(items)@).and(some_flag_piece(rta_type, v)),
{
    match v {
        Some(b) => {
            let mut value: Vec<u8> = Vec::new();
            value.push(if b {
                1u8
            } else {
                0u8
            });
            assert(value@ == seq![if b {
                1u8
            } else {
                0u8
            }]);
            push_attr(items, rta_type, value);
        },
        None => {
            assert(piece_of(items@).bytes + Seq::<u8>::empty() == piece_of(items@).bytes);
        },
    }
}

/// Appends the attributes that name and size a link.
fn push_common(
    items: &mut Vec<Payload>,
    name: &str,
    mtu: u32,
    tx_queue_len: u32,
    hw_addr: &[u8],
    num_tx_queues: u32,
    num_rx_queues: u32,
    gro_max_size: u32,
)
    ensures
        old(items)@.is_prefix_of(final(items)@),
        piece_of(final(items)@) == piece_of(old(items)@).and(
            common_piece(
                name@,
                mtu,
                tx_queue_len,
                hw_addr@,
                num_tx_queues,
                num_rx_queues,
                gro_max_size,
            ),
        ),
{
    let ghost start = piece_of(items@);
    push_attr(items, consts::IFLA_IFNAME, zero_terminated(name));
    push_u32(items, consts::IFLA_MTU, mtu);
    push_u32(items, consts::IFLA_TXQLEN, tx_queue_len);
    push_bytes(items, consts::IFLA_ADDRESS, hw_addr);
    push_u32(items, consts::IFLA_NUM_TX_QUEUES, num_tx_queues);
    push_u32(items, consts::IFLA_NUM_RX_QUEUES, num_rx_queues);
    push_u32(items, consts::IFLA_GRO_MAX_SIZE, gro_max_size);
    proof {
        let c = common_piece(
            name@,
            mtu,
            tx_queue_len,
            hw_addr@,
            num_tx_queues,
            num_rx_queues,
            gro_max_size,
        );
        assert(piece_of(items@).bytes =~= start.bytes + c.bytes);
    }
}

/// A link record of zeros.
fn zero_info() -> (m: InfoMessage)
    ensures
        m == InfoMessage::parse(Seq::new(16, |i: int| 0u8)),
{
    InfoMessage { family: 0, _pad: 0, ifi_type: 0, index: 0, flags: 0, change: 0 }
}

/// The payloads that follow the kind in the description of a link.
fn info_data(link: &Kind) -> (items: Vec<Payload>)
    ensures
        piece_of(items@) == info_data_piece(link@),
{
    let mut items: Vec<Payload> = Vec::new();
    match link {
        Kind::Dummy(_) => {},
        Kind::Bridge { attrs: _, hello_time, ageing_time, multicast_snooping, vlan_filtering } => {
            let mut options: Vec<Payload> = Vec::new();
            push_some_u32(&mut options, consts::IFLA_BR_HELLO_TIME, *hello_time);
            push_some_u32(&mut options, consts::IFLA_BR_AGEING_TIME, *ageing_time);
            push_some_flag(&mut options, consts::IFLA_BR_MCAST_SNOOPING, *multicast_snooping);
            push_some_flag(&mut options, consts::IFLA_BR_VLAN_FILTERING, *vlan_filtering);
            proof {
                let b = bridge_piece(
                    *hello_time,
                    *ageing_time,
                    *multicast_snooping,
                    *vlan_filtering,
                );
                assert(piece_of(options@).bytes =~= b.bytes);
            }
            let data = NetlinkRouteAttr::nested(consts::IFLA_INFO_DATA, Vec::new(), options);
            push_payload(&mut items, Payload::Attr(data));
            assert(piece_of(items@).bytes =~= info_data_piece(link@).bytes);
        },
        Kind::Veth { attrs, peer_name, peer_hw_addr, peer_ns } => {
            let mut peer: Vec<Payload> = Vec::new();
            push_payload(&mut peer, Payload::Info(zero_info()));
            let none: Vec<u8> = Vec::new();
            let hw: &Vec<u8> = match peer_hw_addr {
                Some(a) => a,
                None => &none,
            };
            push_common(
                &mut peer,
                peer_name.as_str(),
                attrs.mtu,
                attrs.tx_queue_len,
                hw.as_slice(),
                attrs.num_tx_queues,
                attrs.num_rx_queues,
                0,
            );
            match peer_ns {
                Some(Namespace::Pid(p)) => {
                    push_attr(&mut peer, consts::IFLA_NET_NS_PID, u32_bytes(*p));
                },
                Some(Namespace::Fd(f)) => {
                    push_attr(&mut peer, consts::IFLA_NET_NS_FD, u32_bytes(*f));
                },
                None => {},
            }
            proof {
                let want = peer_piece(attrs@, peer_name@, link@->Veth_peer_hw_addr, *peer_ns);
                assert(piece_of(peer@).bytes =~= want.bytes);
            }
            let peer_attr = NetlinkRouteAttr::nested(consts::VETH_INFO_PEER, Vec::new(), peer);
            let mut inner: Vec<Payload> = Vec::new();
            push_payload(&mut inner, Payload::Attr(peer_attr));
            assert(piece_of(inner@).bytes =~= piece_of_one(Payload::Attr(peer_attr)).bytes);
            let data = NetlinkRouteAttr::nested(consts::IFLA_INFO_DATA, Vec::new(), inner);
            push_payload(&mut items, Payload::Attr(data));
            assert(piece_of(items@).bytes =~= info_data_piece(link@).bytes);
        },
    }
    items
}

/// The attribute that describes the kind of a link.
fn link_info(link: &Kind) -> (a: NetlinkRouteAttr)
    ensures
        piece_of_one(Payload::Attr(a)) == link_info_piece(link@),
{
    let mut children: Vec<Payload> = Vec::new();
    let name: &'static str = match link {
        Kind::Dummy(_) => "dummy",
        Kind::Bridge { .. } => "bridge",
        Kind::Veth { .. } => "veth",
    };
    push_attr(&mut children, consts::IFLA_INFO_KIND, vstd::string::StrSliceExecFns::as_bytes_vec(name));
    let mut data = info_data(link);
    proof {
        crate::message::lemma_piece_concat(children@, data@);
        assert(piece_of(children@).bytes =~= leaf_piece(
            consts::IFLA_INFO_KIND,
            encode_utf8(link@.kind_name()),
        ).bytes);
    }
    children.append(&mut data);
    NetlinkRouteAttr::nested(consts::IFLA_LINKINFO, Vec::new(), children)
}

/// Builds the request that creates a link, or changes one that exists,
/// with the flags that the caller gives beside the request flag.
pub fn link_new(link: &Kind, flags: i32) -> (r: Result<NetlinkRequest, Error>)
    ensures
        r matches Ok(req) && req.header.nlmsg_type == consts::RTM_NEWLINK
            && req.header.nlmsg_flags == (consts::NLM_F_REQUEST | flags) as u16
            && req.header.nlmsg_len == (16 + link_piece(link@).len) % 0x1_0000_0000
            && req.header.nlmsg_seq == 0 && req.header.nlmsg_pid == 0 && req.raw_data is None
            && req.payloads().len() >= 1 && req.payloads()[0] == Payload::Info(
            link_msg(link@.attrs()),
        ) && req.payload_bytes() == link_piece(link@).bytes,
{
    let attrs = link.attrs();
    let msg = InfoMessage {
        family: consts::AF_UNSPEC,
        _pad: 0,
        ifi_type: 0,
        index: attrs.index,
        flags: attrs.flags,
        change: if attrs.flags != 0 {
            0xffff_ffff
        } else {
            0
        },
    };
    let mut items: Vec<Payload> = Vec::new();
    push_payload(&mut items, Payload::Info(msg));
    push_common(
        &mut items,
        attrs.name.as_str(),
        attrs.mtu,
        attrs.tx_queue_len,
        attrs.hw_addr.as_slice(),
        attrs.num_tx_queues,
        attrs.num_rx_queues,
        attrs.gro_max_size,
    );
    push_payload(&mut items, Payload::Attr(link_info(link)));
    proof {
        assert(piece_of(items@).bytes =~= link_piece(link@).bytes);
        assert(piece_of(items@).len == link_piece(link@).len);
    }
    let mut req = NetlinkRequest::new(consts::RTM_NEWLINK, flags);
    req.add_all(items);
    assert(req.payload_bytes() =~= link_piece(link@).bytes);
    Ok(req)
}

/// Builds a request on the link numbered `index` alone: a record whose
/// other fields are as given, and no attribute.
fn index_request(proto: u16, flags: i32, msg: InfoMessage) -> (req: NetlinkRequest)
    ensures
        req.header.nlmsg_type == proto,
        req.header.nlmsg_flags == (consts::NLM_F_REQUEST | flags) as u16,
        req.header.nlmsg_len == 32,
        req.header.nlmsg_seq == 0,
        req.header.nlmsg_pid == 0,
        req.raw_data is None,
        req.payloads() == seq![Payload::Info(msg)],
        req.payload_bytes() == msg.wire_spec(),
{
    let mut req = NetlinkRequest::new(proto, flags);
    proof {
        crate::message::lemma_payloads_wire_empty();
    }
    req.add_data(Payload::Info(msg));
    req
}

/// The link record that names the link `index` and nothing else.
pub open spec fn index_msg(index: i32) -> InfoMessage {
    InfoMessage { family: consts::AF_UNSPEC, _pad: 0, ifi_type: 0, index, flags: 0, change: 0 }
}

/// Builds the request that puts the link `index` under the master
/// `master_index`: an acknowledged change that carries only the master.
pub fn link_set_master(index: i32, master_index: i32) -> (r: Result<NetlinkRequest, Error>)
    ensures
        r matches Ok(req) && req.header.nlmsg_type == consts::RTM_NEWLINK
            && req.header.nlmsg_flags == (consts::NLM_F_REQUEST | consts::NLM_F_ACK) as u16
            && req.header.nlmsg_len == 40 && req.header.nlmsg_seq == 0 && req.header.nlmsg_pid
            == 0 && req.raw_data is None && req.payloads().len() == 2 && req.payloads()[0]
            == Payload::Info(index_msg(index)) && req.payload_bytes() == index_msg(
            index,
        ).wire_spec() + crate::message::leaf_wire(consts::IFLA_MASTER, le32(i32_bits(master_index))),
{
    let msg = InfoMessage {
        family: consts::AF_UNSPEC,
        _pad: 0,
        ifi_type: 0,
        index,
        flags: 0,
        change: 0,
    };
    let mut req = index_request(consts::RTM_NEWLINK, consts::NLM_F_ACK, msg);
    req.add_attr(consts::IFLA_MASTER, i32_bytes(master_index));
    assert(req.payloads().drop_last()[0] == req.payloads()[0]);
    Ok(req)
}

/// Builds the request that deletes the link `index`.
pub fn link_del(index: i32) -> (r: Result<NetlinkRequest, Error>)
    ensures
        r matches Ok(req) && req.header.nlmsg_type == consts::RTM_DELLINK
            && req.header.nlmsg_flags == (consts::NLM_F_REQUEST | consts::NLM_F_ACK) as u16
            && req.header.nlmsg_len == 32 && req.header.nlmsg_seq == 0 && req.header.nlmsg_pid
            == 0 && req.raw_data is None && req.payloads() == seq![
            Payload::Info(index_msg(index)),
        ] && req.payload_bytes() == index_msg(index).wire_spec(),
{
    let msg = InfoMessage {
        family: consts::AF_UNSPEC,
        _pad: 0,
        ifi_type: 0,
        index,
        flags: 0,
        change: 0,
    };
    Ok(index_request(consts::RTM_DELLINK, consts::NLM_F_ACK, msg))
}

/// The link record that brings the link `index` up.
pub open spec fn up_msg(index: i32) -> InfoMessage {
    InfoMessage {
        family: consts::AF_UNSPEC,
        _pad: 0,
        ifi_type: 0,
        index,
        flags: consts::IFF_UP,
        change: consts::IFF_UP,
    }
}

/// Builds the request that brings the link `index` up.
pub fn link_setup(index: i32) -> (r: Result<NetlinkRequest, Error>)
    ensures
        r matches Ok(req) && req.header.nlmsg_type == consts::RTM_NEWLINK
            && req.header.nlmsg_flags == (consts::NLM_F_REQUEST | consts::NLM_F_ACK) as u16
            && req.header.nlmsg_len == 32 && req.header.nlmsg_seq == 0 && req.header.nlmsg_pid
            == 0 && req.raw_data is None && req.payloads() == seq![Payload::Info(up_msg(index))]
            && req.payload_bytes() == up_msg(index).wire_spec(),
{
    let msg = InfoMessage {
        family: consts::AF_UNSPEC,
        _pad: 0,
        ifi_type: 0,
        index,
        flags: consts::IFF_UP,
        change: consts::IFF_UP,
    };
    Ok(index_request(consts::RTM_NEWLINK, consts::NLM_F_ACK, msg))
}

/// The name attribute by which a link is looked up where its number is
/// not known.
pub open spec fn lookup_piece(a: LinkAttrsView) -> Piece {
    if a.index == 0 {
        leaf_piece(consts::IFLA_IFNAME, encode_utf8(a.name).push(0))
    } else {
        Piece::empty()
    }
}

/// Builds the request that asks for one link: by its number where that is
/// known, else by its name.
pub fn link_get(attrs: &LinkAttrs) -> (r: Result<NetlinkRequest, Error>)
    ensures
        r matches Ok(req) && req.header.nlmsg_type == consts::RTM_GETLINK
            && req.header.nlmsg_flags == (consts::NLM_F_REQUEST | 0i32) as u16
            && req.header.nlmsg_len == 32 + lookup_piece(attrs@).len && req.header.nlmsg_seq == 0
            && req.header.nlmsg_pid == 0 && req.raw_data is None && req.payloads().len() >= 1
            && req.payloads()[0] == Payload::Info(index_msg(attrs.index)) && req.payload_bytes()
            == index_msg(attrs.index).wire_spec() + lookup_piece(attrs@).bytes,
{
    let msg = InfoMessage {
        family: consts::AF_UNSPEC,
        _pad: 0,
        ifi_type: 0,
        index: attrs.index,
        flags: 0,
        change: 0,
    };
    let mut req = index_request(consts::RTM_GETLINK, 0, msg);
    if attrs.index == 0 {
        req.add_attr(consts::IFLA_IFNAME, zero_terminated(attrs.name.as_str()));
        assert(req.payloads().drop_last()[0] == req.payloads()[0]);
    } else {
        assert(req.payload_bytes() + Seq::<u8>::empty() == req.payload_bytes());
    }
    Ok(req)
}

/// Calls `String::from_utf8` of the standard library. The contract claims
/// what its documentation says: bytes that are valid UTF-8 give the string
/// that they encode, and any other bytes give none.
#[verifier::external_body]
fn string_from_utf8(bytes: Vec<u8>) -> (r: Option<String>)
    ensures
        match r {
            Some(s) => valid_utf8(bytes@) && s@ == decode_utf8(bytes@),
            None => !valid_utf8(bytes@),
        },
{
    String::from_utf8(bytes).ok()
}

/// The bytes of `s` before its first zero byte; all of `s` where it holds
/// none.
pub open spec fn until_zero(s: Seq<u8>) -> Seq<u8>
    decreases s.len(),
{
    if s.len() == 0 || s[0] == 0 {
        Seq::empty()
    } else {
        seq![s[0]] + until_zero(s.skip(1))
    }
}

/// The text that a value holds: its bytes before the first zero byte, read
/// as UTF-8. Bytes that are no UTF-8 hold no text.
pub open spec fn text_of(value: Seq<u8>) -> Option<Seq<char>> {
    if valid_utf8(until_zero(value)) {
        Some(decode_utf8(until_zero(value)))
    } else {
        None
    }
}

/// The value of the last attribute of type `rta_type` in `s`.
pub open spec fn last_value(s: Seq<AttrView>, rta_type: u16) -> Option<Seq<u8>>
    decreases s.len(),
{
    if s.len() == 0 {
        None
    } else if s.last().rta_type == rta_type {
        Some(s.last().value)
    } else {
        last_value(s.drop_last(), rta_type)
    }
}

/// The number that the attribute `rta_type` gives: zero where there is no
/// such attribute, nothing where its value is shorter than four bytes.
pub open spec fn u32_of(s: Seq<AttrView>, rta_type: u16) -> Option<u32> {
    match last_value(s, rta_type) {
        None => Some(0u32),
        Some(v) => if v.len() >= 4 {
            Some(u32_at(v, 0))
        } else {
            None
        },
    }
}

/// The signed number that the attribute `rta_type` gives: zero where
/// there is no such attribute, nothing where its value is shorter than
/// four bytes.
pub open spec fn i32_of(s: Seq<AttrView>, rta_type: u16) -> Option<i32> {
    match last_value(s, rta_type) {
        None => Some(0i32),
        Some(v) => if v.len() >= 4 {
            Some(i32_at(v, 0))
        } else {
            None
        },
    }
}

/// The byte that the attribute `rta_type` gives: zero where there is no
/// such attribute, nothing where its value is empty.
pub open spec fn u8_of(s: Seq<AttrView>, rta_type: u16) -> Option<u8> {
    match last_value(s, rta_type) {
        None => Some(0u8),
        Some(v) => if v.len() >= 1 {
            Some(v[0])
        } else {
            None
        },
    }
}

/// The text that the attribute `rta_type` gives: empty where there is no
/// such attribute, nothing where its value is no UTF-8.
pub open spec fn text_field(s: Seq<AttrView>, rta_type: u16) -> Option<Seq<char>> {
    match last_value(s, rta_type) {
        None => Some(Seq::empty()),
        Some(v) => text_of(v),
    }
}

/// The bytes that the attribute `rta_type` gives: none where there is no
/// such attribute.
pub open spec fn bytes_field(s: Seq<AttrView>, rta_type: u16) -> Seq<u8> {
    match last_value(s, rta_type) {
        None => Seq::empty(),
        Some(v) => v,
    }
}

/// The option of four bytes that the attribute `rta_type` gives: unset
/// where there is no such attribute, nothing where its value is too short.
pub open spec fn option_u32(s: Seq<AttrView>, rta_type: u16) -> Option<Option<u32>> {
    match last_value(s, rta_type) {
        None => Some(None),
        Some(v) => if v.len() >= 4 {
            Some(Some(u32_at(v, 0)))
        } else {
            None
        },
    }
}

/// The yes or no that the attribute `rta_type` gives: unset where there is
/// no such attribute, nothing where its value is empty, yes for any byte
/// but zero.
pub open spec fn option_flag(s: Seq<AttrView>, rta_type: u16) -> Option<Option<bool>> {
    match last_value(s, rta_type) {
        None => Some(None),
        Some(v) => if v.len() >= 1 {
            Some(Some(v[0] != 0))
        } else {
            None
        },
    }
}

/// The common attributes that a link record and the attributes after it
/// give, with the kind left empty. Nothing where one of the attributes
/// cannot be read.
pub open spec fn common_of(msg: InfoMessage, s: Seq<AttrView>) -> Option<LinkAttrsView> {
    if text_field(s, consts::IFLA_IFNAME) is Some && u32_of(s, consts::IFLA_MTU) is Some && u32_of(
        s,
        consts::IFLA_TXQLEN,
    ) is Some && u8_of(s, consts::IFLA_OPERSTATE) is Some && u32_of(
        s,
        consts::IFLA_NUM_TX_QUEUES,
    ) is Some && u32_of(s, consts::IFLA_NUM_RX_QUEUES) is Some && u32_of(
        s,
        consts::IFLA_GRO_MAX_SIZE,
    ) is Some && i32_of(s, consts::IFLA_LINK) is Some && i32_of(s, consts::IFLA_MASTER) is Some {
        Some(
            LinkAttrsView {
                link_type: Seq::empty(),
                index: msg.index,
                name: text_field(s, consts::IFLA_IFNAME)->0,
                hw_addr: bytes_field(s, consts::IFLA_ADDRESS),
                mtu: u32_of(s, consts::IFLA_MTU)->0,
                flags: msg.flags,
                tx_queue_len: u32_of(s, consts::IFLA_TXQLEN)->0,
                oper_state: u8_of(s, consts::IFLA_OPERSTATE)->0,
                num_tx_queues: u32_of(s, consts::IFLA_NUM_TX_QUEUES)->0,
                num_rx_queues: u32_of(s, consts::IFLA_NUM_RX_QUEUES)->0,
                gro_max_size: u32_of(s, consts::IFLA_GRO_MAX_SIZE)->0,
                parent_index: i32_of(s, consts::IFLA_LINK)->0,
                master_index: i32_of(s, consts::IFLA_MASTER)->0,
            },
        )
    } else {
        None
    }
}

/// The bridge that the options `o` describe. Nothing where one of the
/// options cannot be read.
pub open spec fn bridge_of(attrs: LinkAttrsView, o: Seq<AttrView>) -> Option<KindView> {
    if option_u32(o, consts::IFLA_BR_HELLO_TIME) is Some && option_u32(
        o,
        consts::IFLA_BR_AGEING_TIME,
    ) is Some && option_flag(o, consts::IFLA_BR_MCAST_SNOOPING) is Some && option_flag(
        o,
        consts::IFLA_BR_VLAN_FILTERING,
    ) is Some {
        Some(
            KindView::Bridge {
                attrs,
                hello_time: option_u32(o, consts::IFLA_BR_HELLO_TIME)->0,
                ageing_time: option_u32(o, consts::IFLA_BR_AGEING_TIME)->0,
                multicast_snooping: option_flag(o, consts::IFLA_BR_MCAST_SNOOPING)->0,
                vlan_filtering: option_flag(o, consts::IFLA_BR_VLAN_FILTERING)->0,
            },
        )
    } else {
        None
    }
}

/// The link of the kind that the description `n` names. A bridge takes
/// its options from the data of the description, a veth pair is read
/// without its peer, and every other kind is read as a dummy link that
/// keeps the kernel's name of its kind.
pub open spec fn kind_of(attrs: LinkAttrsView, n: Seq<AttrView>) -> Option<KindView> {
    match text_field(n, consts::IFLA_INFO_KIND) {
        None => None,
        Some(kind) => {
            let named = LinkAttrsView { link_type: kind, ..attrs };
            if kind == "bridge"@ {
                match last_value(n, consts::IFLA_INFO_DATA) {
                    None => bridge_of(named, Seq::empty()),
                    Some(d) => match parse_attrs(d) {
                        None => None,
                        Some(o) => bridge_of(named, o),
                    },
                }
            } else if kind == "veth"@ {
                Some(
                    KindView::Veth {
                        attrs: named,
                        peer_name: Seq::empty(),
                        peer_hw_addr: None,
                        peer_ns: None,
                    },
                )
            } else {
                Some(KindView::Dummy(named))
            }
        },
    }
}

/// The link that a record and the attributes after it describe. A link
/// without a description of its kind is read as a dummy link.
pub open spec fn link_from(msg: InfoMessage, s: Seq<AttrView>) -> Option<KindView> {
    match common_of(msg, s) {
        None => None,
        Some(attrs) => match last_value(s, consts::IFLA_LINKINFO) {
            None => Some(KindView::Dummy(attrs)),
            Some(v) => match parse_attrs(v) {
                None => None,
                Some(n) => kind_of(attrs, n),
            },
        },
    }
}

/// The link that a reply holds: a record of sixteen bytes, then
/// attributes. A reply too short for the record, or with an attribute that
/// cannot be read, holds none.
pub open spec fn link_of(buf: Seq<u8>) -> Option<KindView> {
    if buf.len() < 16 {
        None
    } else {
        match parse_attrs(buf.skip(16)) {
            None => None,
            Some(s) => link_from(InfoMessage::parse(buf), s),
        }
    }
}

/// The bytes of `value` before its first zero byte.
fn cut_at_zero(value: &[u8]) -> (v: Vec<u8>)
    ensures
        v@ == until_zero(value@),
{
    let mut i: usize = 0;
    assert(value@.skip(0) == value@);
    assert(value@.take(0) + until_zero(value@) == until_zero(value@));
    while i < value.len() && value[i] != 0
        invariant
            i <= value@.len(),
            until_zero(value@) == value@.take(i as int) + until_zero(value@.skip(i as int)),
        decreases value@.len() - i,
    {
        proof {
            let rest = value@.skip(i as int);
            assert(rest[0] == value@[i as int]);
            assert(rest.skip(1) == value@.skip(i + 1));
            assert(value@.take(i as int) + (seq![rest[0]] + until_zero(rest.skip(1)))
                == value@.take(i + 1) + until_zero(rest.skip(1)));
        }
        i += 1;
    }
    proof {
        let rest = value@.skip(i as int);
        if i < value@.len() {
            assert(rest[0] == value@[i as int]);
        }
        assert(until_zero(rest) == Seq::<u8>::empty());
        assert(value@.take(i as int) + Seq::<u8>::empty() == value@.take(i as int));
    }
    copy_range(value, 0, i)
}

/// The text that a value holds.
fn read_text_of(value: &[u8]) -> (r: Option<String>)
    ensures
        match text_of(value@) {
            Some(t) => r matches Some(s) && s@ == t,
            None => r is None,
        },
{
    string_from_utf8(cut_at_zero(value))
}

/// The place of the last attribute of type `rta_type`.
fn find_last(attrs: &Vec<NetlinkRouteAttr>, rta_type: u16) -> (r: Option<usize>)
    ensures
        match r {
            Some(i) => i < attrs@.len() && last_value(heads(attrs@), rta_type) == Some(
                attrs@[i as int].value@,
            ),
            None => last_value(heads(attrs@), rta_type) is None,
        },
{
    let ghost all = heads(attrs@);
    let mut i: usize = attrs.len();
    assert(all.take(i as int) == all);
    while i > 0
        invariant
            i <= attrs@.len(),
            all == heads(attrs@),
            last_value(all, rta_type) == last_value(all.take(i as int), rta_type),
        decreases i,
    {
        proof {
            assert(all.take(i as int).drop_last() == all.take(i - 1));
            assert(all.take(i as int).last() == attrs@[i - 1].head());
        }
        if attrs[i - 1].rt_attr.rta_type == rta_type {
            return Some(i - 1);
        }
        i -= 1;
    }
    None
}

/// The number of four bytes that an attribute gives; zero without it.
fn read_u32(attrs: &Vec<NetlinkRouteAttr>, rta_type: u16) -> (r: Option<u32>)
    ensures
        r == u32_of(heads(attrs@), rta_type),
{
    match find_last(attrs, rta_type) {
        None => Some(0),
        Some(i) => {
            if attrs[i].value.len() >= 4 {
                Some(get_u32(attrs[i].value.as_slice(), 0))
            } else {
                None
            }
        },
    }
}

/// The signed number of four bytes that an attribute gives; zero without
/// it.
fn read_i32(attrs: &Vec<NetlinkRouteAttr>, rta_type: u16) -> (r: Option<i32>)
    ensures
        r == i32_of(heads(attrs@), rta_type),
{
    match find_last(attrs, rta_type) {
        None => Some(0),
        Some(i) => {
            if attrs[i].value.len() >= 4 {
                Some(get_i32(attrs[i].value.as_slice(), 0))
            } else {
                None
            }
        },
    }
}

/// The byte that an attribute gives; zero without it.
fn read_u8(attrs: &Vec<NetlinkRouteAttr>, rta_type: u16) -> (r: Option<u8>)
    ensures
        r == u8_of(heads(attrs@), rta_type),
{
    match find_last(attrs, rta_type) {
        None => Some(0),
        Some(i) => {
            if attrs[i].value.len() >= 1 {
                Some(attrs[i].value[0])
            } else {
                None
            }
        },
    }
}

/// The text that an attribute gives; empty without it.
fn read_text(attrs: &Vec<NetlinkRouteAttr>, rta_type: u16) -> (r: Option<String>)
    ensures
        match text_field(heads(attrs@), rta_type) {
            Some(t) => r matches Some(s) && s@ == t,
            None => r is None,
        },
{
    match find_last(attrs, rta_type) {
        None => Some(String::new()),
        Some(i) => read_text_of(attrs[i].value.as_slice()),
    }
}

/// The bytes that an attribute gives; none without it.
fn read_bytes(attrs: &Vec<NetlinkRouteAttr>, rta_type: u16) -> (r: Vec<u8>)
    ensures
        r@ == bytes_field(heads(attrs@), rta_type),
{
    match find_last(attrs, rta_type) {
        None => Vec::new(),
        Some(i) => {
            let v = copy_range(attrs[i].value.as_slice(), 0, attrs[i].value.len());
            assert(attrs@[i as int].value@.subrange(0, attrs@[i as int].value@.len() as int)
                == attrs@[i as int].value@);
            v
        },
    }
}

/// The option of four bytes that an attribute gives.
fn read_option_u32(attrs: &Vec<NetlinkRouteAttr>, rta_type: u16) -> (r: Option<Option<u32>>)
    ensures
        r == option_u32(heads(attrs@), rta_type),
{
    match find_last(attrs, rta_type) {
        None => Some(None),
        Some(i) => {
            if attrs[i].value.len() >= 4 {
                Some(Some(get_u32(attrs[i].value.as_slice(), 0)))
            } else {
                None
            }
        },
    }
}

/// The yes or no that an attribute gives.
fn read_option_flag(attrs: &Vec<NetlinkRouteAttr>, rta_type: u16) -> (r: Option<Option<bool>>)
    ensures
        r == option_flag(heads(attrs@), rta_type),
{
    match find_last(attrs, rta_type) {
        None => Some(None),
        Some(i) => {
            if attrs[i].value.len() >= 1 {
                Some(Some(attrs[i].value[0] != 0))
            } else {
                None
            }
        },
    }
}

/// Reads the common attributes of a link.
fn read_common(msg: &InfoMessage, attrs: &Vec<NetlinkRouteAttr>) -> (r: Option<LinkAttrs>)
    ensures
        match common_of(*msg, heads(attrs@)) {
            Some(a) => r matches Some(x) && x@ == a,
            None => r is None,
        },
{
    let name = read_text(attrs, consts::IFLA_IFNAME)?;
    let mtu = read_u32(attrs, consts::IFLA_MTU)?;
    let tx_queue_len = read_u32(attrs, consts::IFLA_TXQLEN)?;
    let oper_state = read_u8(attrs, consts::IFLA_OPERSTATE)?;
    let num_tx_queues = read_u32(attrs, consts::IFLA_NUM_TX_QUEUES)?;
    let num_rx_queues = read_u32(attrs, consts::IFLA_NUM_RX_QUEUES)?;
    let gro_max_size = read_u32(attrs, consts::IFLA_GRO_MAX_SIZE)?;
    let parent_index = read_i32(attrs, consts::IFLA_LINK)?;
    let master_index = read_i32(attrs, consts::IFLA_MASTER)?;
    Some(
        LinkAttrs {
            link_type: String::new(),
            index: msg.index,
            name,
            hw_addr: read_bytes(attrs, consts::IFLA_ADDRESS),
            mtu,
            flags: msg.flags,
            tx_queue_len,
            oper_state,
            num_tx_queues,
            num_rx_queues,
            gro_max_size,
            parent_index,
            master_index,
        },
    )
}

/// Reads a bridge from its options.
fn read_bridge(attrs: LinkAttrs, options: &Vec<NetlinkRouteAttr>) -> (r: Option<Kind>)
    ensures
        match bridge_of(attrs@, heads(options@)) {
            Some(k) => r matches Some(x) && x@ == k,
            None => r is None,
        },
{
    let hello_time = read_option_u32(options, consts::IFLA_BR_HELLO_TIME)?;
    let ageing_time = read_option_u32(options, consts::IFLA_BR_AGEING_TIME)?;
    let multicast_snooping = read_option_flag(options, consts::IFLA_BR_MCAST_SNOOPING)?;
    let vlan_filtering = read_option_flag(options, consts::IFLA_BR_VLAN_FILTERING)?;
    Some(Kind::Bridge { attrs, hello_time, ageing_time, multicast_snooping, vlan_filtering })
}

/// Reads a link of the kind that its description names.
fn read_kind(attrs: LinkAttrs, info: &Vec<NetlinkRouteAttr>) -> (r: Option<Kind>)
    ensures
        match kind_of(attrs@, heads(info@)) {
            Some(k) => r matches Some(x) && x@ == k,
            None => r is None,
        },
{
    let kind = read_text(info, consts::IFLA_INFO_KIND)?;
    let mut attrs = attrs;
    let is_bridge: bool = kind == String::from_str("bridge");
    let is_veth: bool = kind == String::from_str("veth");
    attrs.link_type = kind;
    if is_bridge {
        match find_last(info, consts::IFLA_INFO_DATA) {
            None => {
                let none: Vec<NetlinkRouteAttr> = Vec::new();
                assert(heads(none@) == Seq::<AttrView>::empty());
                read_bridge(attrs, &none)
            },
            Some(i) => {
                match NetlinkRouteAttr::from(info[i].value.as_slice()) {
                    Ok(options) => read_bridge(attrs, &options),
                    Err(_) => None,
                }
            },
        }
    } else if is_veth {
        Some(Kind::Veth { attrs, peer_name: String::new(), peer_hw_addr: None, peer_ns: None })
    } else {
        Some(Kind::Dummy(attrs))
    }
}

/// Reads a link from a reply of the kernel. A reply that cannot be read
/// is a decoding failure.
pub fn link_deserialize(buf: &[u8]) -> (r: Result<Kind, Error>)
    ensures
        match link_of(buf@) {
            Some(k) => r matches Ok(x) && x@ == k,
            None => r == Err::<Kind, Error>(Error::Decode),
        },
{
    let msg = InfoMessage::deserialize(buf)?;
    let rest = vstd::slice::slice_subrange(buf, consts::IF_INFO_MSG_SIZE, buf.len());
    assert(rest@ == buf@.skip(16));
    let attrs = NetlinkRouteAttr::from(rest)?;
    let common = match read_common(&msg, &attrs) {
        Some(c) => c,
        None => {
            return Err(Error::Decode);
        },
    };
    let link = match find_last(&attrs, consts::IFLA_LINKINFO) {
        None => Some(Kind::Dummy(common)),
        Some(i) => {
            match NetlinkRouteAttr::from(attrs[i].value.as_slice()) {
                Ok(info) => read_kind(common, &info),
                Err(_) => None,
            }
        },
    };
    match link {
        Some(k) => Ok(k),
        None => Err(Error::Decode),
    }
}

} // verus!
