//! The request builder: a header, an ordered list of payloads and a raw tail.

use vstd::prelude::*;
use crate::bytes::{le16, put_bytes, put_u16, u16_at};
use crate::error::Error;
use crate::message::{
    lemma_piece_concat,
    piece_of,
    reported_len,
    leaf_wire,
    lemma_payloads_wire_push,
    NetlinkRouteAttr,
    payload_len,
    payload_wire,
    payloads_wire,
    serialize_all,
    NetlinkMessageHeader,
    Payload,
};

verus! {

/// What can be put into a request: a record or an attribute that knows its
/// own length and its bytes on the wire.
pub trait NetlinkRequestData {
    /// The bytes that this payload contributes to a serialized request.
    spec fn wire(&self) -> Seq<u8>;

    /// The length that the payload reports for itself. For an attribute it
    /// is the length field, which leaves the padding out.
    spec fn len_spec(&self) -> usize;

    /// Whether the payload counts as empty.
    spec fn is_empty_spec(&self) -> bool;

    fn len(&self) -> (n: usize)
        ensures
            n == self.len_spec(),
    ;

    fn is_empty(&self) -> (b: bool)
        ensures
            b == self.is_empty_spec(),
    ;

    /// The bytes of the payload. The call always succeeds.
    fn serialize(&self) -> (r: Result<Vec<u8>, Error>)
        ensures
            r matches Ok(v) && v@ == self.wire(),
    ;
}

/// A request under construction: a header, the payloads in the order in
/// which they were added, and raw bytes that follow them.
#[derive(Debug)]
pub struct NetlinkRequest {
    pub header: NetlinkMessageHeader,
    pub data: Option<Vec<Payload>>,
    pub raw_data: Option<Vec<u8>>,
}

impl NetlinkRequest {
    /// The payloads of the request; none where it has no list of them.
    pub open spec fn payloads(self) -> Seq<Payload> {
        match self.data {
            Some(d) => d@,
            None => Seq::empty(),
        }
    }

    /// The raw tail of the request; empty where it has none.
    pub open spec fn raw(self) -> Seq<u8> {
        match self.raw_data {
            Some(d) => d@,
            None => Seq::empty(),
        }
    }

    /// The bytes of the payloads, one after the other.
    pub open spec fn payload_bytes(self) -> Seq<u8> {
        payloads_wire(self.payloads())
    }

    /// Header, payloads and raw tail, one after the other, as they are
    /// before the length is written over the first two bytes.
    pub open spec fn body(self) -> Seq<u8> {
        self.header.wire() + payloads_wire(self.payloads()) + self.raw()
    }

    /// The request on the wire: its body, with the first two bytes
    /// replaced by the number of its bytes, kept to sixteen bits, low byte
    /// first.
    pub open spec fn wire(self) -> Seq<u8> {
        le16((self.body().len() % 0x10000) as u16) + self.body().skip(2)
    }

    /// A request of the given type, with the request flag set beside the
    /// caller's flags, and with neither payloads nor a raw tail.
    pub fn new(proto: u16, flags: i32) -> (r: Self)
        ensures
            r.header.nlmsg_len == 16,
            r.header.nlmsg_type == proto,
            r.header.nlmsg_flags == (crate::consts::NLM_F_REQUEST | flags) as u16,
            r.header.nlmsg_seq == 0,
            r.header.nlmsg_pid == 0,
            r.data is None,
            r.raw_data is None,
    {
        Self { header: NetlinkMessageHeader::new(proto, flags), data: None, raw_data: None }
    }

    /// The bytes to send; the call always succeeds. The request itself is
    /// left as it was. Whatever length the header holds, the first two bytes
    /// of the result give the number of bytes of the result.
    pub fn serialize(&mut self) -> (r: Result<Vec<u8>, Error>)
        ensures
            *final(self) == *old(self),
            r matches Ok(v) && v@ == old(self).wire() && v@.len() == old(self).body().len()
                && v@.len() >= 16 && (v@.len() <= 0xffff ==> v@[0] + 256 * v@[1] == v@.len()),
    {
        let mut body: Vec<u8> = self.header.serialize()?;
        if let Some(data) = &self.data {
            let part = serialize_all(data)?;
            put_bytes(&mut body, part.as_slice());
        }
        if let Some(raw) = &self.raw_data {
            put_bytes(&mut body, raw.as_slice());
        }
        assert(body@ == self.body());
        let len: usize = body.len() % 0x10000;
        let mut buf: Vec<u8> = Vec::new();
        put_u16(&mut buf, len as u16);
        let ghost head = buf@;
        let mut i: usize = 2;
        while i < body.len()
            invariant
                2 <= i <= body@.len(),
                buf@ == head + body@.subrange(2, i as int),
            decreases body@.len() - i,
        {
            buf.push(body[i]);
            i += 1;
        }
        assert(body@.subrange(2, body@.len() as int) == body@.skip(2));
        Ok(buf)
    }

    /// Appends a payload. The length that the header holds grows by the
    /// length that the payload reports, kept to thirty-two bits.
    pub fn add_data(&mut self, data: Payload)
        ensures
            final(self).header == (NetlinkMessageHeader {
                nlmsg_len: ((old(self).header.nlmsg_len + payload_len(data))
                    % 0x1_0000_0000) as u32,
                ..old(self).header
            }),
            final(self).data is Some,
            final(self).payloads() == old(self).payloads().push(data),
            final(self).payload_bytes() == old(self).payload_bytes() + payload_wire(data),
            final(self).raw_data == old(self).raw_data,
    {
        proof {
            lemma_payloads_wire_push(self.payloads(), data);
        }
        let add: u64 = (data.len() as u64) % 0x1_0000_0000;
        let sum: u64 = (self.header.nlmsg_len as u64 + add) % 0x1_0000_0000;
        self.header.nlmsg_len = sum as u32;
        let mut list: Vec<Payload> = match self.data.take() {
            Some(d) => d,
            None => Vec::new(),
        };
        list.push(data);
        self.data = Some(list);
    }

    /// Appends an attribute without children, made of the given type and
    /// value.
    pub fn add_attr(&mut self, rta_type: u16, value: Vec<u8>)
        ensures
            final(self).header == (NetlinkMessageHeader {
                nlmsg_len: ((old(self).header.nlmsg_len + NetlinkRouteAttr::length_for(
                    value@.len(),
                )) % 0x1_0000_0000) as u32,
                ..old(self).header
            }),
            final(self).data is Some,
            final(self).payloads().len() == old(self).payloads().len() + 1,
            final(self).payloads().drop_last() == old(self).payloads(),
            final(self).payload_bytes() == old(self).payload_bytes() + leaf_wire(rta_type, value@),
            final(self).raw_data == old(self).raw_data,
    {
        let attr = NetlinkRouteAttr::new(rta_type, value);
        self.add_data(Payload::Attr(attr));
    }

    /// Appends the payloads of `items` in their order. The length that the
    /// header holds grows by the lengths that they report, kept to
    /// thirty-two bits.
    pub fn add_all(&mut self, items: Vec<Payload>)
        ensures
            final(self).header == (NetlinkMessageHeader {
                nlmsg_len: ((old(self).header.nlmsg_len + piece_of(items@).len)
                    % 0x1_0000_0000) as u32,
                ..old(self).header
            }),
            final(self).data is Some,
            final(self).payloads() == old(self).payloads() + items@,
            final(self).payload_bytes() == old(self).payload_bytes() + piece_of(items@).bytes,
            final(self).raw_data == old(self).raw_data,
    {
        proof {
            lemma_piece_concat(self.payloads(), items@);
        }
        let add: u64 = reported_len(&items) as u64;
        let sum: u64 = (self.header.nlmsg_len as u64 + add) % 0x1_0000_0000;
        self.header.nlmsg_len = sum as u32;
        let mut list: Vec<Payload> = match self.data.take() {
            Some(d) => d,
            None => Vec::new(),
        };
        let mut items = items;
        list.append(&mut items);
        self.data = Some(list);
    }

    /// Appends raw bytes to the tail. The length that the header holds
    /// grows by their number, kept to thirty-two bits.
    pub fn add_raw_data(&mut self, data: Vec<u8>)
        ensures
            final(self).header == (NetlinkMessageHeader {
                nlmsg_len: ((old(self).header.nlmsg_len + data@.len()) % 0x1_0000_0000) as u32,
                ..old(self).header
            }),
            final(self).data == old(self).data,
            final(self).raw_data is Some,
            final(self).raw() == old(self).raw() + data@,
    {
        let add: u64 = (data.len() as u64) % 0x1_0000_0000;
        let sum: u64 = (self.header.nlmsg_len as u64 + add) % 0x1_0000_0000;
        self.header.nlmsg_len = sum as u32;
        let mut tail: Vec<u8> = match self.raw_data.take() {
            Some(d) => d,
            None => Vec::new(),
        };
        put_bytes(&mut tail, data.as_slice());
        self.raw_data = Some(tail);
    }
}

/// The first two bytes of a request on the wire, read low byte first,
/// give the number of its bytes, for every request of at most 65535 bytes.
/// A longer one holds the number kept to sixteen bits.
pub proof fn lemma_wire_starts_with_length(req: NetlinkRequest)
    ensures
        req.wire().len() == req.body().len(),
        req.wire().len() >= 16,
        u16_at(req.wire(), 0) == req.wire().len() % 0x10000,
        req.wire().len() <= 0xffff ==> u16_at(req.wire(), 0) == req.wire().len(),
{
    let n = (req.body().len() % 0x10000) as u16;
    assert(req.wire()[0] == le16(n)[0]);
    assert(req.wire()[1] == le16(n)[1]);
}

} // verus!
