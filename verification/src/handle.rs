//! The transaction driver: how one request is numbered and sent, and what
//! each message of the kernel's answer does to the transaction.
//!
//! The driver owns no socket. A caller sends the bytes that `prepare`
//! returns, then hands every datagram it receives to
//! `Transaction::receive` until that reports the end.

use vstd::prelude::*;
use crate::addr::{addr_deserialize, address_of, AddrFamily, Address, AddressView};
use crate::bytes::{copy_range, get_i32, i32_at};
use crate::consts;
use crate::error::{Error, ErrorView};
use crate::link::{link_deserialize, link_of, link_set_master, Kind, Link, LinkAttrs};
use crate::message::{frames, parse_frames, Frame, NetlinkMessage, Payload};
use crate::request::NetlinkRequest;
use crate::route::{
    route_deserialize,
    route_flags,
    route_handle,
    route_len,
    route_msg,
    route_of,
    route_payload_bytes,
    route_proto,
    Route,
    RtCmd,
    RtFilter,
};

verus! {

/// What one message does to a transaction.
#[derive(Debug, Clone, Copy, PartialEq, Eq)]
pub enum Verdict {
    /// It is not part of the answer and is dropped.
    Skip,
    /// Its payload is collected and more is to come.
    Keep,
    /// Its payload is collected and the answer is complete.
    KeepLast,
    /// It ends the answer with success and carries nothing to collect.
    Finish,
    /// It ends the answer with the kernel's error number, which is not
    /// zero.
    Fail(i32),
    /// It ought to end the answer but is too short to hold an error number.
    Malformed,
}

/// Whether a message belongs to the request numbered `seq` that the socket
/// with port id `pid` sent.
pub open spec fn belongs(seq: u32, pid: u32, m: Frame) -> bool {
    m.header.nlmsg_seq == seq && m.header.nlmsg_pid == pid
}

/// Whether a message is of one of the two types that end an answer.
pub open spec fn is_terminator(m: Frame) -> bool {
    m.header.nlmsg_type == consts::NLMSG_DONE || m.header.nlmsg_type == consts::NLMSG_ERROR
}

/// Whether a message says that more messages follow it.
pub open spec fn is_multi(m: Frame) -> bool {
    m.header.nlmsg_flags & 0x2 != 0
}

/// What the message `m` does to the transaction of the request numbered
/// `seq`, sent from port `pid`, that expects payloads of type `res_type`
/// (any type where that is zero). A message of another request or another
/// port is dropped, and so is one of another type than the expected. Only a
/// message that is collected can end the answer by not announcing more: one
/// that is dropped never ends it.
pub open spec fn verdict(seq: u32, pid: u32, res_type: u16, m: Frame) -> Verdict {
    if !belongs(seq, pid, m) {
        Verdict::Skip
    } else if is_terminator(m) {
        if m.data.len() < 4 {
            Verdict::Malformed
        } else if i32_at(m.data, 0) == 0 {
            Verdict::Finish
        } else {
            Verdict::Fail(i32_at(m.data, 0))
        }
    } else if res_type != 0 && m.header.nlmsg_type != res_type {
        Verdict::Skip
    } else if is_multi(m) {
        Verdict::Keep
    } else {
        Verdict::KeepLast
    }
}

/// Where a transaction stands after some messages: the payloads collected
/// so far, and whether the answer is still awaited, complete or failed.
pub enum Outcome {
    Pending(Seq<Seq<u8>>),
    Done(Seq<Seq<u8>>),
    Failed(Seq<Seq<u8>>, ErrorView),
}

impl Outcome {
    /// The payloads collected so far.
    pub open spec fn collected(self) -> Seq<Seq<u8>> {
        match self {
            Outcome::Pending(c) => c,
            Outcome::Done(c) => c,
            Outcome::Failed(c, _) => c,
        }
    }
}

/// Where a transaction that has collected `collected` stands after the
/// messages `msgs`, taken in their order. Nothing after the message that
/// ends the answer is looked at.
pub open spec fn run(seq: u32, pid: u32, res_type: u16, collected: Seq<Seq<u8>>, msgs: Seq<Frame>)
    -> Outcome
    decreases msgs.len(),
{
    if msgs.len() == 0 {
        Outcome::Pending(collected)
    } else {
        match verdict(seq, pid, res_type, msgs[0]) {
            Verdict::Skip => run(seq, pid, res_type, collected, msgs.skip(1)),
            Verdict::Keep => run(seq, pid, res_type, collected.push(msgs[0].data), msgs.skip(1)),
            Verdict::KeepLast => Outcome::Done(collected.push(msgs[0].data)),
            Verdict::Finish => Outcome::Done(collected),
            Verdict::Fail(errno) => Outcome::Failed(
                collected,
                ErrorView::Netlink { errno, context: msgs[0].data.skip(4) },
            ),
            Verdict::Malformed => Outcome::Failed(collected, ErrorView::Decode),
        }
    }
}

/// Where a transaction stands after one datagram from the sender with port
/// id `sender`. A datagram that did not come from the kernel fails the
/// transaction before any of its messages is looked at.
pub open spec fn run_datagram(
    seq: u32,
    pid: u32,
    res_type: u16,
    collected: Seq<Seq<u8>>,
    sender: u32,
    buf: Seq<u8>,
) -> Outcome {
    if sender != consts::PID_KERNEL {
        Outcome::Failed(collected, ErrorView::WrongSender(sender))
    } else {
        run(seq, pid, res_type, collected, parse_frames(buf))
    }
}

/// The payloads of a list as values.
pub open spec fn payload_views(v: Seq<Vec<u8>>) -> Seq<Seq<u8>> {
    v.map_values(|p: Vec<u8>| p@)
}

/// The answer to one request as far as it was received.
#[derive(Debug)]
pub struct Transaction {
    /// The sequence number of the request.
    pub seq: u32,
    /// The port id of the socket that sent it.
    pub pid: u32,
    /// The message type of the payloads to collect; zero for any.
    pub res_type: u16,
    /// The payloads collected so far.
    pub res: Vec<Vec<u8>>,
}

/// Stamps the next sequence number on a request and gives the bytes to
/// send; the call always succeeds. The counter is raised before it is used,
/// so that no request carries the number zero.
pub fn prepare(counter: &mut u32, req: &mut NetlinkRequest) -> (r: Result<Vec<u8>, Error>)
    requires
        *old(counter) < u32::MAX,
    ensures
        *final(counter) == *old(counter) + 1,
        final(req).header == (crate::message::NetlinkMessageHeader {
            nlmsg_seq: *final(counter),
            ..old(req).header
        }),
        final(req).data == old(req).data,
        final(req).raw_data == old(req).raw_data,
        r matches Ok(v) && v@ == final(req).wire(),
{
    *counter = *counter + 1;
    req.header.nlmsg_seq = *counter;
    req.serialize()
}

impl Transaction {
    /// The transaction of the request numbered `seq`, sent from port `pid`,
    /// with nothing collected yet.
    pub fn new(seq: u32, pid: u32, res_type: u16) -> (t: Self)
        ensures
            t.seq == seq,
            t.pid == pid,
            t.res_type == res_type,
            t.res@.len() == 0,
    {
        Self { seq, pid, res_type, res: Vec::new() }
    }

    /// The payloads collected so far, as values.
    pub open spec fn collected(self) -> Seq<Seq<u8>> {
        payload_views(self.res@)
    }

    /// What one message does to this transaction.
    pub fn judge(&self, m: &NetlinkMessage) -> (v: Verdict)
        ensures
            v == verdict(self.seq, self.pid, self.res_type, m@),
    {
        if m.header.nlmsg_seq != self.seq || m.header.nlmsg_pid != self.pid {
            return Verdict::Skip;
        }
        let ty: u16 = m.header.nlmsg_type;
        if ty == consts::NLMSG_DONE || ty == consts::NLMSG_ERROR {
            if m.data.len() < 4 {
                return Verdict::Malformed;
            }
            let errno: i32 = get_i32(m.data.as_slice(), 0);
            if errno == 0 {
                return Verdict::Finish;
            }
            return Verdict::Fail(errno);
        }
        if self.res_type != 0 && ty != self.res_type {
            return Verdict::Skip;
        }
        if m.header.nlmsg_flags & 0x2 != 0 {
            Verdict::Keep
        } else {
            Verdict::KeepLast
        }
    }

    /// Takes in the messages of `msgs` in their order, until one of them
    /// ends the answer or none is left. Returns whether the
    /// answer is complete.
    pub fn feed(&mut self, msgs: &Vec<NetlinkMessage>) -> (r: Result<bool, Error>)
        ensures
            final(self).seq == old(self).seq,
            final(self).pid == old(self).pid,
            final(self).res_type == old(self).res_type,
            final(self).collected() == run(
                old(self).seq,
                old(self).pid,
                old(self).res_type,
                old(self).collected(),
                frames(msgs@),
            ).collected(),
            match run(
                old(self).seq,
                old(self).pid,
                old(self).res_type,
                old(self).collected(),
                frames(msgs@),
            ) {
                Outcome::Pending(_) => r == Ok::<bool, Error>(false),
                Outcome::Done(_) => r == Ok::<bool, Error>(true),
                Outcome::Failed(_, e) => r matches Err(x) && x@ == e,
            },
    {
        let ghost all = frames(msgs@);
        let mut i: usize = 0;
        assert(all.skip(0) == all);
        while i < msgs.len()
            invariant
                i <= msgs@.len(),
                all == frames(msgs@),
                self.seq == old(self).seq,
                self.pid == old(self).pid,
                self.res_type == old(self).res_type,
                run(self.seq, self.pid, self.res_type, self.collected(), all.skip(i as int)) == run(
                    old(self).seq,
                    old(self).pid,
                    old(self).res_type,
                    old(self).collected(),
                    all,
                ),
            decreases msgs@.len() - i,
        {
            let ghost rest = all.skip(i as int);
            proof {
                assert(rest[0] == msgs@[i as int]@);
                assert(rest.skip(1) == all.skip(i + 1));
            }
            let m = &msgs[i];
            match self.judge(m) {
                Verdict::Skip => {},
                Verdict::Keep => {
                    let ghost before = self.res@;
                    self.res.push(copy_range(m.data.as_slice(), 0, m.data.len()));
                    proof {
                        assert(m.data@.subrange(0, m.data@.len() as int) == m.data@);
                        assert(payload_views(self.res@) == payload_views(before).push(m.data@));
                    }
                },
                Verdict::KeepLast => {
                    let ghost before = self.res@;
                    self.res.push(copy_range(m.data.as_slice(), 0, m.data.len()));
                    proof {
                        assert(m.data@.subrange(0, m.data@.len() as int) == m.data@);
                        assert(payload_views(self.res@) == payload_views(before).push(m.data@));
                    }
                    return Ok(true);
                },
                Verdict::Finish => {
                    return Ok(true);
                },
                Verdict::Fail(errno) => {
                    let context = copy_range(m.data.as_slice(), 4, m.data.len());
                    assert(context@ == m.data@.skip(4));
                    return Err(Error::Netlink { errno, context });
                },
                Verdict::Malformed => {
                    return Err(Error::Decode);
                },
            }
            i += 1;
        }
        Ok(false)
    }

    /// Takes in one datagram that came from the sender with port id
    /// `sender`. A datagram that did not come from the kernel fails the
    /// transaction. Returns whether the answer is complete; where it is
    /// not, the caller receives again.
    pub fn receive(&mut self, sender: u32, buf: &[u8]) -> (r: Result<bool, Error>)
        ensures
            final(self).seq == old(self).seq,
            final(self).pid == old(self).pid,
            final(self).res_type == old(self).res_type,
            final(self).collected() == run_datagram(
                old(self).seq,
                old(self).pid,
                old(self).res_type,
                old(self).collected(),
                sender,
                buf@,
            ).collected(),
            match run_datagram(
                old(self).seq,
                old(self).pid,
                old(self).res_type,
                old(self).collected(),
                sender,
                buf@,
            ) {
                Outcome::Pending(_) => r == Ok::<bool, Error>(false),
                Outcome::Done(_) => r == Ok::<bool, Error>(true),
                Outcome::Failed(_, e) => r matches Err(x) && x@ == e,
            },
    {
        if sender != consts::PID_KERNEL {
            return Err(Error::WrongSender(sender));
        }
        match NetlinkMessage::from(buf) {
            Ok(msgs) => self.feed(&msgs),
            Err(e) => Err(e),
        }
    }

    /// The payloads that were collected, in the order of their arrival.
    pub fn into_payloads(self) -> (v: Vec<Vec<u8>>)
        ensures
            payload_views(v@) == self.collected(),
    {
        self.res
    }
}

/// Whether a verdict ends the answer, with success or without.
pub open spec fn is_final(v: Verdict) -> bool {
    !(v is Skip || v is Keep)
}

/// The place of the first message of `msgs` that ends the answer; the
/// number of messages where none does.
pub open spec fn stop_at(seq: u32, pid: u32, res_type: u16, msgs: Seq<Frame>) -> int
    decreases msgs.len(),
{
    if msgs.len() == 0 {
        0
    } else if is_final(verdict(seq, pid, res_type, msgs[0])) {
        0
    } else {
        1 + stop_at(seq, pid, res_type, msgs.skip(1))
    }
}

/// The messages of `msgs` that belong to the request, in their order.
pub open spec fn belonging(seq: u32, pid: u32, msgs: Seq<Frame>) -> Seq<Frame>
    decreases msgs.len(),
{
    if msgs.len() == 0 {
        Seq::empty()
    } else if belongs(seq, pid, msgs[0]) {
        seq![msgs[0]] + belonging(seq, pid, msgs.skip(1))
    } else {
        belonging(seq, pid, msgs.skip(1))
    }
}

/// A transaction is over exactly when one of the messages ends it, and it
/// is then decided by that message and those before it: every message
/// before it was dropped or collected, and none after it is looked at.
pub proof fn lemma_run_stops(
    seq: u32,
    pid: u32,
    res_type: u16,
    collected: Seq<Seq<u8>>,
    msgs: Seq<Frame>,
)
    ensures
        0 <= stop_at(seq, pid, res_type, msgs) <= msgs.len(),
        forall|j: int|
            0 <= j < stop_at(seq, pid, res_type, msgs) ==> !is_final(
                verdict(seq, pid, res_type, #[trigger] msgs[j]),
            ),
        stop_at(seq, pid, res_type, msgs) < msgs.len() ==> is_final(
            verdict(seq, pid, res_type, msgs[stop_at(seq, pid, res_type, msgs)]),
        ),
        run(seq, pid, res_type, collected, msgs) is Pending <==> stop_at(seq, pid, res_type, msgs)
            == msgs.len(),
        run(seq, pid, res_type, collected, msgs) is Done <==> (stop_at(seq, pid, res_type, msgs)
            < msgs.len() && (verdict(
            seq,
            pid,
            res_type,
            msgs[stop_at(seq, pid, res_type, msgs)],
        ) is Finish || verdict(seq, pid, res_type, msgs[stop_at(seq, pid, res_type, msgs)])
            is KeepLast)),
        stop_at(seq, pid, res_type, msgs) < msgs.len() ==> run(seq, pid, res_type, collected, msgs)
            == run(
            seq,
            pid,
            res_type,
            collected,
            msgs.take(stop_at(seq, pid, res_type, msgs) + 1),
        ),
    decreases msgs.len(),
{
    if msgs.len() > 0 {
        let v = verdict(seq, pid, res_type, msgs[0]);
        let rest = msgs.skip(1);
        if is_final(v) {
            assert(msgs.take(1)[0] == msgs[0]);
        } else {
            let next = if v is Keep {
                collected.push(msgs[0].data)
            } else {
                collected
            };
            lemma_run_stops(seq, pid, res_type, next, rest);
            let k = stop_at(seq, pid, res_type, rest);
            assert forall|j: int| 0 <= j < k + 1 implies !is_final(
                verdict(seq, pid, res_type, #[trigger] msgs[j]),
            ) by {
                if j > 0 {
                    assert(msgs[j] == rest[j - 1]);
                }
            }
            if k < rest.len() {
                assert(msgs[k + 1] == rest[k]);
            }
            if k < rest.len() {
                let cut = msgs.take(k + 2);
                assert(cut[0] == msgs[0]);
                assert(cut.skip(1) == rest.take(k + 1));
            }
        }
    }
}

/// Every message that a transaction collects, or that ends it, carries the
/// sequence number of the request and the port id of the socket.
pub proof fn lemma_consumed_belongs(seq: u32, pid: u32, res_type: u16, m: Frame)
    ensures
        !(verdict(seq, pid, res_type, m) is Skip) ==> m.header.nlmsg_seq == seq
            && m.header.nlmsg_pid == pid,
{
}

/// Messages with another sequence number or another port id do not affect
/// a transaction: it ends as it would if they had never arrived.
pub proof fn lemma_strangers_ignored(
    seq: u32,
    pid: u32,
    res_type: u16,
    collected: Seq<Seq<u8>>,
    msgs: Seq<Frame>,
)
    ensures
        run(seq, pid, res_type, collected, msgs) == run(
            seq,
            pid,
            res_type,
            collected,
            belonging(seq, pid, msgs),
        ),
    decreases msgs.len(),
{
    if msgs.len() > 0 {
        let rest = msgs.skip(1);
        let kept = belonging(seq, pid, rest);
        if belongs(seq, pid, msgs[0]) {
            let all = seq![msgs[0]] + kept;
            assert(all[0] == msgs[0]);
            assert(all.skip(1) == kept);
            lemma_strangers_ignored(seq, pid, res_type, collected, rest);
            lemma_strangers_ignored(seq, pid, res_type, collected.push(msgs[0].data), rest);
        } else {
            lemma_strangers_ignored(seq, pid, res_type, collected, rest);
        }
    }
}

/// Taking in two batches of messages one after the other is taking in
/// all of them at once: a transaction that the first batch leaves pending
/// goes on with the second, and one that the first batch ends stays as it
/// ended.
pub proof fn lemma_run_concat(
    seq: u32,
    pid: u32,
    res_type: u16,
    collected: Seq<Seq<u8>>,
    first: Seq<Frame>,
    second: Seq<Frame>,
)
    ensures
        run(seq, pid, res_type, collected, first + second) == (match run(
            seq,
            pid,
            res_type,
            collected,
            first,
        ) {
            Outcome::Pending(c) => run(seq, pid, res_type, c, second),
            other => other,
        }),
    decreases first.len(),
{
    if first.len() == 0 {
        assert(first + second == second);
    } else {
        let all = first + second;
        assert(all[0] == first[0]);
        assert(all.skip(1) == first.skip(1) + second);
        lemma_run_concat(seq, pid, res_type, collected, first.skip(1), second);
        lemma_run_concat(
            seq,
            pid,
            res_type,
            collected.push(first[0].data),
            first.skip(1),
            second,
        );
    }
}

/// Whether no message of the answer is of type `NLMSG_DONE`: the answer to
/// a request that asks for no dump.
pub open spec fn is_single_answer(seq: u32, pid: u32, msgs: Seq<Frame>) -> bool {
    forall|j: int|
        0 <= j < msgs.len() && belongs(seq, pid, #[trigger] msgs[j]) ==> msgs[j].header.nlmsg_type
            != consts::NLMSG_DONE
}

/// Whether the answer is a dump: each of its messages is of type
/// `NLMSG_DONE`, or says that more follow and is not of type `NLMSG_ERROR`.
pub open spec fn is_dump_answer(seq: u32, pid: u32, msgs: Seq<Frame>) -> bool {
    forall|j: int|
        0 <= j < msgs.len() && belongs(seq, pid, #[trigger] msgs[j]) ==> msgs[j].header.nlmsg_type
            == consts::NLMSG_DONE || (is_multi(msgs[j]) && msgs[j].header.nlmsg_type
            != consts::NLMSG_ERROR)
}

/// A completed transaction whose answer is no dump ended at a message of
/// type `NLMSG_ERROR` with error number zero, which is an acknowledgement,
/// or at a message that does not say that more follow.
pub proof fn lemma_single_answer_end(
    seq: u32,
    pid: u32,
    res_type: u16,
    collected: Seq<Seq<u8>>,
    msgs: Seq<Frame>,
)
    requires
        run(seq, pid, res_type, collected, msgs) is Done,
        is_single_answer(seq, pid, msgs),
    ensures
        ({
            let last = msgs[stop_at(seq, pid, res_type, msgs)];
            0 <= stop_at(seq, pid, res_type, msgs) < msgs.len() && belongs(seq, pid, last) && ((
            last.header.nlmsg_type == consts::NLMSG_ERROR && last.data.len() >= 4 && i32_at(
                last.data,
                0,
            ) == 0) || !is_multi(last))
        }),
{
    lemma_run_stops(seq, pid, res_type, collected, msgs);
}

/// A completed transaction whose answer is a dump ended at a message of
/// type `NLMSG_DONE`.
pub proof fn lemma_dump_answer_end(
    seq: u32,
    pid: u32,
    res_type: u16,
    collected: Seq<Seq<u8>>,
    msgs: Seq<Frame>,
)
    requires
        run(seq, pid, res_type, collected, msgs) is Done,
        is_dump_answer(seq, pid, msgs),
    ensures
        ({
            let last = msgs[stop_at(seq, pid, res_type, msgs)];
            0 <= stop_at(seq, pid, res_type, msgs) < msgs.len() && belongs(seq, pid, last)
                && last.header.nlmsg_type == consts::NLMSG_DONE && last.data.len() >= 4 && i32_at(
                last.data,
                0,
            ) == 0
        }),
{
    lemma_run_stops(seq, pid, res_type, collected, msgs);
}

/// The number of a link where its attributes hold it; none where the link
/// has to be looked up by its name first.
pub fn known_index(attrs: &LinkAttrs) -> (r: Option<i32>)
    ensures
        r == (if attrs.index != 0 {
            Some(attrs.index)
        } else {
            None::<i32>
        }),
{
    if attrs.index != 0 {
        Some(attrs.index)
    } else {
        None
    }
}

/// The request that follows the creation of a link that names a master:
/// it puts the link numbered `index` under that master. A link that names
/// none needs no such request.
pub fn master_request(link: &Kind, index: i32) -> (r: Option<NetlinkRequest>)
    ensures
        link@.attrs().master_index == 0 ==> r is None,
        link@.attrs().master_index != 0 ==> (r matches Some(req) && req.header.nlmsg_type
            == consts::RTM_NEWLINK && req.header.nlmsg_flags == (consts::NLM_F_REQUEST
            | consts::NLM_F_ACK) as u16 && req.header.nlmsg_len == 40 && req.header.nlmsg_seq == 0
            && req.header.nlmsg_pid == 0 && req.raw_data is None && req.payloads().len() == 2
            && req.payloads()[0] == Payload::Info(crate::link::index_msg(index))
            && req.payload_bytes() == crate::link::index_msg(index).wire_spec()
            + crate::message::leaf_wire(
            consts::IFLA_MASTER,
            crate::bytes::le32(crate::bytes::i32_bits(link@.attrs().master_index)),
        )),
{
    let master: i32 = link.attrs().master_index;
    if master == 0 {
        None
    } else {
        match link_set_master(index, master) {
            Ok(req) => Some(req),
            Err(_) => None,
        }
    }
}

/// The one link that the answer to a lookup holds. An answer without a
/// link and an answer with several are failures of their own.
pub fn link_reply(msgs: &Vec<Vec<u8>>) -> (r: Result<Kind, Error>)
    ensures
        msgs@.len() == 0 ==> r == Err::<Kind, Error>(Error::NoLinkFound),
        msgs@.len() > 1 ==> r == Err::<Kind, Error>(Error::MultipleLinksFound),
        msgs@.len() == 1 ==> (match link_of(msgs@[0]@) {
            Some(k) => r matches Ok(x) && x@ == k,
            None => r == Err::<Kind, Error>(Error::Decode),
        }),
{
    if msgs.len() == 0 {
        Err(Error::NoLinkFound)
    } else if msgs.len() == 1 {
        link_deserialize(msgs[0].as_slice())
    } else {
        Err(Error::MultipleLinksFound)
    }
}

/// The routes that the payloads of `msgs` hold, in their order. A payload
/// that holds no route is passed over, and so is, where the filter asks for
/// it, a route that does not leave through the link `index`.
pub open spec fn kept_routes(msgs: Seq<Seq<u8>>, index: i32, filter: RtFilter) -> Seq<Route>
    decreases msgs.len(),
{
    if msgs.len() == 0 {
        Seq::empty()
    } else {
        let before = kept_routes(msgs.drop_last(), index, filter);
        match route_of(msgs.last()) {
            Ok(r) => if filter is NoFilter || r.oif_index == index {
                before.push(r)
            } else {
                before
            },
            Err(_) => before,
        }
    }
}

/// The addresses of the link `index` that the payloads of `msgs` hold, in
/// their order. A payload that holds no address is passed over, and so is
/// an address of another link.
pub open spec fn kept_addresses(msgs: Seq<Seq<u8>>, index: i32) -> Seq<AddressView>
    decreases msgs.len(),
{
    if msgs.len() == 0 {
        Seq::empty()
    } else {
        let before = kept_addresses(msgs.drop_last(), index);
        match address_of(msgs.last()) {
            Ok(a) => if a.index == index {
                before.push(a)
            } else {
                before
            },
            Err(_) => before,
        }
    }
}

/// The addresses of a list as values.
pub open spec fn address_views(v: Seq<Address>) -> Seq<AddressView> {
    v.map_values(|a: Address| a@)
}

/// The routes of the answer to a listing that pass the filter.
pub fn route_list_reply(msgs: &Vec<Vec<u8>>, index: i32, filter: RtFilter) -> (r: Vec<Route>)
    ensures
        r@ == kept_routes(payload_views(msgs@), index, filter),
{
    let ghost all = payload_views(msgs@);
    let mut out: Vec<Route> = Vec::new();
    let mut i: usize = 0;
    let any: bool = match filter {
        RtFilter::Oif => false,
        RtFilter::NoFilter => true,
    };
    while i < msgs.len()
        invariant
            i <= msgs@.len(),
            all == payload_views(msgs@),
            any == (filter is NoFilter),
            out@ == kept_routes(all.take(i as int), index, filter),
        decreases msgs@.len() - i,
    {
        proof {
            assert(all.take(i + 1).drop_last() == all.take(i as int));
            assert(all.take(i + 1).last() == msgs@[i as int]@);
        }
        match route_deserialize(msgs[i].as_slice()) {
            Ok(route) => {
                if any || route.oif_index == index {
                    out.push(route);
                }
            },
            Err(_) => {},
        }
        i += 1;
    }
    assert(all.take(i as int) == all);
    out
}

/// The routes of the answer to a lookup.
pub fn route_get_reply(msgs: &Vec<Vec<u8>>) -> (r: Vec<Route>)
    ensures
        r@ == kept_routes(payload_views(msgs@), 0, RtFilter::NoFilter),
{
    route_list_reply(msgs, 0, RtFilter::NoFilter)
}

/// The addresses of the link `index` in the answer to a listing.
pub fn addr_list_reply(msgs: &Vec<Vec<u8>>, index: i32) -> (r: Vec<Address>)
    ensures
        address_views(r@) == kept_addresses(payload_views(msgs@), index),
{
    let ghost all = payload_views(msgs@);
    let mut out: Vec<Address> = Vec::new();
    let mut i: usize = 0;
    assert(address_views(out@) == Seq::<AddressView>::empty());
    while i < msgs.len()
        invariant
            i <= msgs@.len(),
            all == payload_views(msgs@),
            address_views(out@) == kept_addresses(all.take(i as int), index),
        decreases msgs@.len() - i,
    {
        proof {
            assert(all.take(i + 1).drop_last() == all.take(i as int));
            assert(all.take(i + 1).last() == msgs@[i as int]@);
        }
        match addr_deserialize(msgs[i].as_slice()) {
            Ok(addr) => {
                if addr.index == index {
                    let ghost before = out@;
                    out.push(addr);
                    assert(address_views(out@) == address_views(before).push(addr@));
                }
            },
            Err(_) => {},
        }
        i += 1;
    }
    assert(all.take(i as int) == all);
    out
}

/// The route that stands for a listing of the routes of a family that
/// leave through the link `index`.
pub open spec fn listing(family: AddrFamily, index: i32) -> Route {
    Route { family: family.value_spec(), oif_index: index, ..Route::zero() }
}

/// Builds the request that lists the routes of a family. It names the
/// link `index` where that is above zero.
pub fn route_list_request(family: AddrFamily, index: i32) -> (r: Result<NetlinkRequest, Error>)
    ensures
        r matches Ok(req) && req.header.nlmsg_type == route_proto(RtCmd::Show)
            && req.header.nlmsg_flags == (consts::NLM_F_REQUEST | route_flags(RtCmd::Show)) as u16
            && req.header.nlmsg_len == route_len(RtCmd::Show, listing(family, index))
            && req.header.nlmsg_seq == 0 && req.header.nlmsg_pid == 0 && req.raw_data is None
            && req.payloads()[0] == Payload::Route(route_msg(RtCmd::Show, listing(family, index)))
            && req.payload_bytes() == route_payload_bytes(RtCmd::Show, listing(family, index)),
{
    let mut route = Route::default();
    route.family = family.value();
    route.oif_index = index;
    route_handle(RtCmd::Show, &route)
}

} // verus!
