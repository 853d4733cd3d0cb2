//! Routes: the typed entity, the requests that act on it and the decoding
//! of the kernel's replies.

use vstd::prelude::*;
use crate::bytes::{get_i32, i32_at, i32_bits, i32_bytes, le32};
use crate::consts;
use crate::error::Error;
use crate::ip::{IpAddr, IpNet};
use crate::message::{
    leaf_wire,
    lemma_payloads_wire_empty,
    parse_attrs,
    AttrView,
    NetlinkRouteAttr,
    Payload,
    RouteMessage,
    heads,
};
use crate::request::NetlinkRequest;
use crate::utils::{addr_of_octets, slice_to_addr};

verus! {

/// What to do with a route.
#[derive(Debug, Clone, Copy, PartialEq, Eq)]
pub enum RtCmd {
    Add,
    Append,
    Replace,
    Del,
    Show,
}

/// Which of the listed routes to keep.
#[derive(Debug, Clone, Copy, PartialEq, Eq)]
pub enum RtFilter {
    /// Those that leave through the given link.
    Oif,
    /// All of them.
    NoFilter,
}

/// A route as the kernel holds it.
#[derive(Debug, Clone, Copy, PartialEq, Eq)]
pub struct Route {
    pub oif_index: i32,
    pub iif_index: i32,
    pub family: u8,
    pub dst: Option<IpNet>,
    pub src: Option<IpAddr>,
    pub gw: Option<IpAddr>,
    pub tos: u8,
    pub table: u8,
    pub protocol: u8,
    pub scope: u8,
    pub rtm_type: u8,
    pub flags: u32,
}

impl Route {
    /// The route with no addresses and every number zero.
    pub open spec fn zero() -> Route {
        Route {
            oif_index: 0,
            iif_index: 0,
            family: 0,
            dst: None,
            src: None,
            gw: None,
            tos: 0,
            table: 0,
            protocol: 0,
            scope: 0,
            rtm_type: 0,
            flags: 0,
        }
    }
}

impl Default for Route {
    fn default() -> (r: Self)
        ensures
            r == Route::zero(),
    {
        Route {
            oif_index: 0,
            iif_index: 0,
            family: 0,
            dst: None,
            src: None,
            gw: None,
            tos: 0,
            table: 0,
            protocol: 0,
            scope: 0,
            rtm_type: 0,
            flags: 0,
        }
    }
}

/// The message type with which a command is sent.
pub open spec fn route_proto(cmd: RtCmd) -> u16 {
    match cmd {
        RtCmd::Add | RtCmd::Append | RtCmd::Replace => consts::RTM_NEWROUTE,
        RtCmd::Del => consts::RTM_DELROUTE,
        RtCmd::Show => consts::RTM_GETROUTE,
    }
}

/// The flags with which a command is sent, beside the request flag.
pub open spec fn route_flags(cmd: RtCmd) -> i32 {
    match cmd {
        RtCmd::Add => consts::NLM_F_CREATE | consts::NLM_F_EXCL | consts::NLM_F_ACK,
        RtCmd::Append => consts::NLM_F_CREATE | consts::NLM_F_APPEND | consts::NLM_F_ACK,
        RtCmd::Replace => consts::NLM_F_CREATE | consts::NLM_F_REPLACE | consts::NLM_F_ACK,
        RtCmd::Del => consts::NLM_F_ACK,
        RtCmd::Show => consts::NLM_F_DUMP,
    }
}

/// The record from which the request of a command starts, before the
/// route's addresses, flags and scope are applied.
pub open spec fn route_base(cmd: RtCmd, route: Route) -> RouteMessage {
    match cmd {
        RtCmd::Del => RouteMessage {
            table: consts::RT_TABLE_MAIN,
            scope: consts::RT_SCOPE_NOWHERE,
            ..RouteMessage::zero()
        },
        RtCmd::Show => RouteMessage { family: route.family, ..RouteMessage::zero() },
        _ => RouteMessage {
            table: consts::RT_TABLE_MAIN,
            protocol: consts::RTPROT_BOOT,
            scope: consts::RT_SCOPE_UNIVERSE,
            rtm_type: consts::RTN_UNICAST,
            ..RouteMessage::zero()
        },
    }
}

/// The family of the request once the destination was looked at.
pub open spec fn family_after_dst(cmd: RtCmd, route: Route) -> u8 {
    match route.dst {
        Some(dst) => dst.addr_spec().family_spec(),
        None => route_base(cmd, route).family,
    }
}

/// The family of the request once destination and source were looked at.
pub open spec fn family_after_src(cmd: RtCmd, route: Route) -> u8 {
    match route.src {
        Some(src) => if family_after_dst(cmd, route) == 0 {
            src.family_spec()
        } else {
            family_after_dst(cmd, route)
        },
        None => family_after_dst(cmd, route),
    }
}

/// The family of the request once all three addresses were looked at.
pub open spec fn family_after_gw(cmd: RtCmd, route: Route) -> u8 {
    match route.gw {
        Some(gw) => if family_after_src(cmd, route) == 0 {
            gw.family_spec()
        } else {
            family_after_src(cmd, route)
        },
        None => family_after_src(cmd, route),
    }
}

/// Why a route cannot be sent: its source is of another family than the
/// request has by then, or, failing that, its gateway is.
pub open spec fn route_mismatch(cmd: RtCmd, route: Route) -> Option<Error> {
    if route.src matches Some(src) && family_after_dst(cmd, route) != 0 && family_after_dst(
        cmd,
        route,
    ) != src.family_spec() {
        Some(Error::SrcDstFamilyMismatch)
    } else if route.gw matches Some(gw) && family_after_src(cmd, route) != 0 && family_after_src(
        cmd,
        route,
    ) != gw.family_spec() {
        Some(Error::GatewayFamilyMismatch)
    } else {
        None
    }
}

/// The record of the request of a command on a route.
pub open spec fn route_msg(cmd: RtCmd, route: Route) -> RouteMessage {
    RouteMessage {
        family: family_after_gw(cmd, route),
        dst_len: match route.dst {
            Some(dst) => dst.prefix_len_spec(),
            None => 0,
        },
        flags: route.flags,
        scope: route.scope,
        ..route_base(cmd, route)
    }
}

/// The bytes of the attribute that names the outgoing link. It is left out
/// only where routes are listed without a link.
pub open spec fn oif_bytes(cmd: RtCmd, route: Route) -> Seq<u8> {
    if has_oif(cmd, route) {
        leaf_wire(consts::RTA_OIF, le32(i32_bits(route.oif_index)))
    } else {
        Seq::empty()
    }
}

/// The bytes of the attribute of type `rta_type` that holds an address,
/// where there is one.
pub open spec fn addr_bytes(rta_type: u16, addr: Option<IpAddr>) -> Seq<u8> {
    match addr {
        Some(a) => leaf_wire(rta_type, a.octets_spec()),
        None => Seq::empty(),
    }
}

/// The address of a network, where there is a network.
pub open spec fn net_addr(net: Option<IpNet>) -> Option<IpAddr> {
    match net {
        Some(n) => Some(n.addr_spec()),
        None => None,
    }
}

/// The bytes of the payloads of the request of a command on a route: the
/// record, then the attributes of the outgoing link, the destination, the
/// preferred source and the gateway, as far as each is present.
pub open spec fn route_payload_bytes(cmd: RtCmd, route: Route) -> Seq<u8> {
    route_msg(cmd, route).wire_spec() + oif_bytes(cmd, route) + addr_bytes(
        consts::RTA_DST,
        net_addr(route.dst),
    ) + addr_bytes(consts::RTA_PREFSRC, route.src) + addr_bytes(consts::RTA_GATEWAY, route.gw)
}

/// What an address adds to the length in the header: the four bytes of an
/// attribute header and its octets.
pub open spec fn addr_attr_len(addr: Option<IpAddr>) -> int {
    match addr {
        Some(a) => 4 + a.octets_spec().len() as int,
        None => 0,
    }
}

/// One where there is an address, zero where there is none.
pub open spec fn addr_attr_count(addr: Option<IpAddr>) -> int {
    if addr is Some {
        1
    } else {
        0
    }
}

/// Whether the request names the outgoing link: always, but where routes
/// are listed without one.
pub open spec fn has_oif(cmd: RtCmd, route: Route) -> bool {
    cmd != RtCmd::Show || route.oif_index > 0
}

/// The number of attributes of the request of a command on a route.
pub open spec fn route_attr_count(cmd: RtCmd, route: Route) -> int {
    (if has_oif(cmd, route) {
        1int
    } else {
        0int
    }) + addr_attr_count(net_addr(route.dst)) + addr_attr_count(route.src) + addr_attr_count(
        route.gw,
    )
}

/// The length that the header of the request holds: header, record, and
/// for each attribute its four bytes and its value.
pub open spec fn route_len(cmd: RtCmd, route: Route) -> int {
    16 + 12 + (if has_oif(cmd, route) {
        8int
    } else {
        0int
    }) + addr_attr_len(net_addr(route.dst)) + addr_attr_len(route.src) + addr_attr_len(route.gw)
}

/// The record of a request, or the reason why there is none.
fn route_record(cmd: RtCmd, route: &Route) -> (r: Result<RouteMessage, Error>)
    ensures
        route_mismatch(cmd, *route) matches Some(e) ==> r == Err::<RouteMessage, Error>(e),
        route_mismatch(cmd, *route) is None ==> r == Ok::<RouteMessage, Error>(
            route_msg(cmd, *route),
        ),
{
    let mut msg = match cmd {
        RtCmd::Del => RouteMessage::new_rt_del_msg(),
        RtCmd::Show => RouteMessage::new_rt_list_msg(route.family),
        _ => RouteMessage::new_rt_msg(),
    };
    assert(msg == route_base(cmd, *route));
    if let Some(dst) = route.dst {
        msg.family = dst.addr().family();
        msg.dst_len = dst.prefix_len();
    }
    if let Some(src) = route.src {
        if msg.family == 0 {
            msg.family = src.family();
        } else if msg.family != src.family() {
            return Err(Error::SrcDstFamilyMismatch);
        }
    }
    if let Some(gw) = route.gw {
        if msg.family == 0 {
            msg.family = gw.family();
        } else if msg.family != gw.family() {
            return Err(Error::GatewayFamilyMismatch);
        }
    }
    msg.flags = route.flags;
    msg.scope = route.scope;
    Ok(msg)
}

/// Appends the attribute of an address, where there is an address.
pub(crate) fn add_addr_attr(req: &mut NetlinkRequest, rta_type: u16, addr: Option<IpAddr>)
    requires
        old(req).header.nlmsg_len <= 0xffff,
        old(req).payloads().len() > 0,
    ensures
        final(req).header == (crate::message::NetlinkMessageHeader {
            nlmsg_len: (old(req).header.nlmsg_len + addr_attr_len(addr)) as u32,
            ..old(req).header
        }),
        final(req).raw_data == old(req).raw_data,
        final(req).payloads().len() == old(req).payloads().len() + addr_attr_count(addr),
        final(req).payloads()[0] == old(req).payloads()[0],
        final(req).payload_bytes() == old(req).payload_bytes() + addr_bytes(rta_type, addr),
{
    match addr {
        Some(a) => {
            req.add_attr(rta_type, a.octets());
            assert(req.payloads().drop_last()[0] == req.payloads()[0]);
        },
        None => {
            assert(req.payload_bytes() + Seq::<u8>::empty() == req.payload_bytes());
        },
    }
}

/// Appends the attribute of the outgoing link, where the request names it.
fn add_oif_attr(req: &mut NetlinkRequest, cmd: RtCmd, route: &Route)
    requires
        old(req).header.nlmsg_len <= 0xffff,
        old(req).payloads().len() > 0,
    ensures
        final(req).header == (crate::message::NetlinkMessageHeader {
            nlmsg_len: (old(req).header.nlmsg_len + (if has_oif(cmd, *route) {
                8int
            } else {
                0int
            })) as u32,
            ..old(req).header
        }),
        final(req).raw_data == old(req).raw_data,
        final(req).payloads().len() == old(req).payloads().len() + (if has_oif(cmd, *route) {
            1int
        } else {
            0int
        }),
        final(req).payloads()[0] == old(req).payloads()[0],
        final(req).payload_bytes() == old(req).payload_bytes() + oif_bytes(cmd, *route),
{
    let listing: bool = match cmd {
        RtCmd::Show => true,
        _ => false,
    };
    if !listing || route.oif_index > 0 {
        req.add_attr(consts::RTA_OIF, i32_bytes(route.oif_index));
        assert(req.payloads().drop_last()[0] == req.payloads()[0]);
    } else {
        assert(req.payload_bytes() + Seq::<u8>::empty() == req.payload_bytes());
    }
}

/// Builds the request that adds, appends, replaces, deletes or lists
/// routes. The family of the request is that of the first address present
/// among destination, source and gateway, and for a listing the route's
/// own family before them. A source or a gateway of another family is
/// rejected, the source first.
pub fn route_handle(cmd: RtCmd, route: &Route) -> (r: Result<NetlinkRequest, Error>)
    ensures
        route_mismatch(cmd, *route) matches Some(e) ==> r == Err::<NetlinkRequest, Error>(e),
        route_mismatch(cmd, *route) is None ==> (r matches Ok(req) && req.header.nlmsg_type
            == route_proto(cmd) && req.header.nlmsg_flags == (consts::NLM_F_REQUEST | route_flags(
            cmd,
        )) as u16 && req.header.nlmsg_len == route_len(cmd, *route) && req.header.nlmsg_seq == 0
            && req.header.nlmsg_pid == 0 && req.raw_data is None && req.payloads().len() == 1
            + route_attr_count(cmd, *route) && req.payloads()[0] == Payload::Route(
            route_msg(cmd, *route),
        ) && req.payload_bytes() == route_payload_bytes(cmd, *route)),
{
    let (proto, flags): (u16, i32) = match cmd {
        RtCmd::Add => (
            consts::RTM_NEWROUTE,
            consts::NLM_F_CREATE | consts::NLM_F_EXCL | consts::NLM_F_ACK,
        ),
        RtCmd::Append => (
            consts::RTM_NEWROUTE,
            consts::NLM_F_CREATE | consts::NLM_F_APPEND | consts::NLM_F_ACK,
        ),
        RtCmd::Replace => (
            consts::RTM_NEWROUTE,
            consts::NLM_F_CREATE | consts::NLM_F_REPLACE | consts::NLM_F_ACK,
        ),
        RtCmd::Del => (consts::RTM_DELROUTE, consts::NLM_F_ACK),
        RtCmd::Show => (consts::RTM_GETROUTE, consts::NLM_F_DUMP),
    };
    let msg = route_record(cmd, route)?;
    let mut req = NetlinkRequest::new(proto, flags);
    proof {
        lemma_payloads_wire_empty();
    }
    req.add_data(Payload::Route(msg));
    assert(req.payload_bytes() == msg.wire_spec());
    add_oif_attr(&mut req, cmd, route);
    let dst: Option<IpAddr> = match route.dst {
        Some(net) => Some(net.addr()),
        None => None,
    };
    add_addr_attr(&mut req, consts::RTA_DST, dst);
    add_addr_attr(&mut req, consts::RTA_PREFSRC, route.src);
    add_addr_attr(&mut req, consts::RTA_GATEWAY, route.gw);
    Ok(req)
}

/// The record of a lookup of the route to one address.
pub open spec fn lookup_msg(dst: IpAddr) -> RouteMessage {
    RouteMessage {
        family: dst.family_spec(),
        dst_len: dst.max_prefix_len_spec(),
        flags: consts::RTM_F_LOOKUP_TABLE,
        ..RouteMessage::zero()
    }
}

/// Builds the request that asks which route leads to `dst`: no dump, the
/// whole address as the destination, and one attribute that holds it.
pub fn route_get(dst: &IpAddr) -> (r: Result<NetlinkRequest, Error>)
    ensures
        r matches Ok(req) && req.header.nlmsg_type == consts::RTM_GETROUTE
            && req.header.nlmsg_flags == (consts::NLM_F_REQUEST | consts::NLM_F_REQUEST) as u16
            && req.header.nlmsg_len == 16 + 12 + 4 + dst.octets_spec().len()
            && req.header.nlmsg_seq == 0 && req.header.nlmsg_pid == 0 && req.raw_data is None
            && req.payloads().len() == 2 && req.payloads()[0] == Payload::Route(lookup_msg(*dst))
            && req.payload_bytes() == lookup_msg(*dst).wire_spec() + leaf_wire(
            consts::RTA_DST,
            dst.octets_spec(),
        ),
{
    let mut req = NetlinkRequest::new(consts::RTM_GETROUTE, consts::NLM_F_REQUEST);
    let mut msg = RouteMessage::new_rt_list_msg(dst.family());
    msg.dst_len = dst.max_prefix_len();
    msg.flags = consts::RTM_F_LOOKUP_TABLE;
    proof {
        lemma_payloads_wire_empty();
    }
    req.add_data(Payload::Route(msg));
    req.add_attr(consts::RTA_DST, dst.octets());
    assert(req.payloads().drop_last()[0] == req.payloads()[0]);
    Ok(req)
}

/// The route before any attribute was read: what the record says of it.
pub open spec fn route_start(msg: RouteMessage) -> Route {
    Route {
        family: msg.family,
        tos: msg.tos,
        table: msg.table,
        protocol: msg.protocol,
        scope: msg.scope,
        rtm_type: msg.rtm_type,
        ..Route::zero()
    }
}

/// What one attribute changes in a route. Gateway, preferred source and
/// destination are addresses of four or sixteen octets; the destination
/// takes its prefix length from the record. The links are numbers of four
/// bytes. Any other attribute changes nothing.
pub open spec fn route_with_attr(route: Route, dst_len: u8, a: AttrView) -> Result<Route, Error> {
    if a.rta_type == consts::RTA_GATEWAY {
        match addr_of_octets(a.value) {
            Ok(ip) => Ok(Route { gw: Some(ip), ..route }),
            Err(e) => Err(e),
        }
    } else if a.rta_type == consts::RTA_PREFSRC {
        match addr_of_octets(a.value) {
            Ok(ip) => Ok(Route { src: Some(ip), ..route }),
            Err(e) => Err(e),
        }
    } else if a.rta_type == consts::RTA_DST {
        match addr_of_octets(a.value) {
            Ok(ip) => if dst_len <= ip.max_prefix_len_spec() {
                Ok(Route { dst: Some(IpNet::make(ip, dst_len)), ..route })
            } else {
                Err(Error::InvalidPrefixLength(dst_len))
            },
            Err(e) => Err(e),
        }
    } else if a.rta_type == consts::RTA_OIF {
        if a.value.len() >= 4 {
            Ok(Route { oif_index: i32_at(a.value, 0), ..route })
        } else {
            Err(Error::Decode)
        }
    } else if a.rta_type == consts::RTA_IIF {
        if a.value.len() >= 4 {
            Ok(Route { iif_index: i32_at(a.value, 0), ..route })
        } else {
            Err(Error::Decode)
        }
    } else {
        Ok(route)
    }
}

/// What the attributes of `s` make of a route, taken in their order. The
/// first that cannot be read decides the failure.
pub open spec fn route_with_attrs(route: Route, dst_len: u8, s: Seq<AttrView>) -> Result<
    Route,
    Error,
>
    decreases s.len(),
{
    if s.len() == 0 {
        Ok(route)
    } else {
        match route_with_attrs(route, dst_len, s.drop_last()) {
            Ok(r) => route_with_attr(r, dst_len, s.last()),
            Err(e) => Err(e),
        }
    }
}

/// The route that a reply holds: a record of twelve bytes, then
/// attributes. A reply too short for the record, or with a malformed
/// attribute, holds none.
pub open spec fn route_of(buf: Seq<u8>) -> Result<Route, Error> {
    if buf.len() < 12 {
        Err(Error::Decode)
    } else {
        match parse_attrs(buf.skip(12)) {
            None => Err(Error::Decode),
            Some(s) => route_with_attrs(
                route_start(RouteMessage::parse(buf)),
                RouteMessage::parse(buf).dst_len,
                s,
            ),
        }
    }
}

/// Applies one attribute to a route.
fn apply_route_attr(route: Route, dst_len: u8, attr: &NetlinkRouteAttr) -> (r: Result<
    Route,
    Error,
>)
    ensures
        r == route_with_attr(route, dst_len, attr.head()),
{
    let mut route = route;
    let ty: u16 = attr.rt_attr.rta_type;
    if ty == consts::RTA_GATEWAY {
        route.gw = Some(slice_to_addr(attr.value.as_slice())?);
    } else if ty == consts::RTA_PREFSRC {
        route.src = Some(slice_to_addr(attr.value.as_slice())?);
    } else if ty == consts::RTA_DST {
        let ip = slice_to_addr(attr.value.as_slice())?;
        route.dst = Some(IpNet::new(ip, dst_len)?);
    } else if ty == consts::RTA_OIF {
        if attr.value.len() < 4 {
            return Err(Error::Decode);
        }
        route.oif_index = get_i32(attr.value.as_slice(), 0);
    } else if ty == consts::RTA_IIF {
        if attr.value.len() < 4 {
            return Err(Error::Decode);
        }
        route.iif_index = get_i32(attr.value.as_slice(), 0);
    }
    Ok(route)
}

/// Reads a route from a reply of the kernel.
pub fn route_deserialize(buf: &[u8]) -> (r: Result<Route, Error>)
    ensures
        r == route_of(buf@),
{
    let msg = RouteMessage::deserialize(buf)?;
    let rest = vstd::slice::slice_subrange(buf, consts::ROUTE_MSG_SIZE, buf.len());
    assert(rest@ == buf@.skip(12));
    let attrs = NetlinkRouteAttr::from(rest)?;
    let mut route = Route {
        oif_index: 0,
        iif_index: 0,
        family: msg.family,
        dst: None,
        src: None,
        gw: None,
        tos: msg.tos,
        table: msg.table,
        protocol: msg.protocol,
        scope: msg.scope,
        rtm_type: msg.rtm_type,
        flags: 0,
    };
    let ghost all = heads(attrs@);
    let ghost start = route;
    let mut i: usize = 0;
    while i < attrs.len()
        invariant
            i <= attrs@.len(),
            all == heads(attrs@),
            route_of(buf@) == route_with_attrs(start, msg.dst_len, all),
            route_with_attrs(start, msg.dst_len, all.take(i as int)) == Ok::<Route, Error>(route),
        decreases attrs@.len() - i,
    {
        proof {
            assert(all.take(i + 1).drop_last() == all.take(i as int));
            assert(all.take(i + 1).last() == attrs@[i as int].head());
        }
        match apply_route_attr(route, msg.dst_len, &attrs[i]) {
            Ok(next) => {
                route = next;
            },
            Err(e) => {
                proof {
                    lemma_route_attrs_fail(start, msg.dst_len, all, i + 1);
                }
                return Err(e);
            },
        }
        i += 1;
    }
    assert(all.take(i as int) == all);
    Ok(route)
}

/// Once a prefix of the attributes cannot be read, the whole cannot, and
/// for the same reason.
proof fn lemma_route_attrs_fail(start: Route, dst_len: u8, s: Seq<AttrView>, n: int)
    requires
        0 <= n <= s.len(),
        route_with_attrs(start, dst_len, s.take(n)) is Err,
    ensures
        route_with_attrs(start, dst_len, s) == route_with_attrs(start, dst_len, s.take(n)),
    decreases s.len() - n,
{
    if n == s.len() {
        assert(s.take(n) == s);
    } else {
        assert(s.take(n + 1).drop_last() == s.take(n));
        lemma_route_attrs_fail(start, dst_len, s, n + 1);
    }
}

} // verus!
