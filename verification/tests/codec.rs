use std::collections::HashMap;

use lnwasi::error::Error;
use lnwasi::message::{
    encoded, serialize_all, AddressMessage, InfoMessage, NetlinkMessage, NetlinkMessageHeader,
    NetlinkRouteAttr, Payload, RouteMessage, RtAttr,
};
use lnwasi::request::{NetlinkRequest, NetlinkRequestData};

const NETLINK_MSG: [u8; 96] = [
    0x00, // interface family
    0x00, // reserved
    0x04, 0x03, // link layer type 772 = loopback
    0x01, 0x00, 0x00, 0x00, // interface index = 1
    0x49, 0x00, 0x00, 0x00, // device flags: UP, LOOPBACK, RUNNING, LOWERUP
    0x00, 0x00, 0x00, 0x00, // reserved 2 (aka device change flag)
    // nlas
    0x07, 0x00, 0x03, 0x00, 0x6c, 0x6f, 0x00, // device name L=7,T=3,V=lo
    0x00, // padding
    0x08, 0x00, 0x0d, 0x00, 0xe8, 0x03, 0x00, 0x00, // TxQueue length L=8,T=13,V=1000
    0x05, 0x00, 0x10, 0x00, 0x00, // OperState L=5,T=16,V=0 (unknown)
    0x00, 0x00, 0x00, // padding
    0x05, 0x00, 0x11, 0x00, 0x00, // Link mode L=5,T=17,V=0
    0x00, 0x00, 0x00, // padding
    0x08, 0x00, 0x04, 0x00, 0x00, 0x00, 0x01, 0x00, // MTU L=8,T=4,V=65536
    0x08, 0x00, 0x1b, 0x00, 0x00, 0x00, 0x00, 0x00, // Group L=8,T=27,V=9
    0x08, 0x00, 0x1e, 0x00, 0x00, 0x00, 0x00, 0x00, // Promiscuity L=8,T=30,V=0
    0x08, 0x00, 0x1f, 0x00, 0x01, 0x00, 0x00, 0x00, // Number of Tx Queues L=8,T=31,V=1
    0x08, 0x00, 0x28, 0x00, 0xff, 0xff, 0x00, 0x00, // Maximum GSO segment count L=8,T=40,V=65536
    0x08, 0x00, 0x29, 0x00, 0x00, 0x00, 0x01, 0x00, // Maximum GSO size L=8,T=41,V=65536
];

#[test]
fn test_netlink_request() {
    let mut req = NetlinkRequest::new(0, 0);
    let msg = InfoMessage::deserialize(&NETLINK_MSG).unwrap();
    req.add_data(Payload::Info(msg));

    let name = NetlinkRouteAttr::new(libc::IFLA_IFNAME, "lo".as_bytes().to_vec());
    req.add_data(Payload::Attr(name));

    let buf = req.serialize().unwrap();
    assert_eq!(buf.len(), 40);
    assert_eq!(req.header.nlmsg_len, 38);
}

#[test]
fn test_if_info_message() {
    let msg = InfoMessage::deserialize(&NETLINK_MSG).unwrap();

    assert_eq!(msg.family, 0);
    assert_eq!(msg.ifi_type, 772);
    assert_eq!(msg.index, 1);
    assert_eq!(
        msg.flags,
        libc::IFF_UP as u32 | libc::IFF_LOOPBACK as u32 | libc::IFF_RUNNING as u32
    );
    assert_eq!(msg.change, 0);
}

#[test]
fn request_bytes_are_exact() {
    let mut req = NetlinkRequest::new(18, 0x300);
    req.header.nlmsg_seq = 0x01020304;
    req.header.nlmsg_pid = 7;
    let msg = InfoMessage::deserialize(&NETLINK_MSG).unwrap();
    req.add_data(Payload::Info(msg));
    req.add_data(Payload::Attr(NetlinkRouteAttr::new(3, "lo".as_bytes().to_vec())));
    let buf = req.serialize().unwrap();
    let want: Vec<u8> = vec![
        0x28, 0x00, 0x00, 0x00, // length 40
        0x12, 0x00, // type 18
        0x01, 0x03, // flags: request, dump
        0x04, 0x03, 0x02, 0x01, // sequence number
        0x07, 0x00, 0x00, 0x00, // port id
        0x00, 0x00, 0x04, 0x03, 0x01, 0x00, 0x00, 0x00, 0x49, 0x00, 0x00, 0x00, 0x00, 0x00,
        0x00, 0x00, // the record
        0x06, 0x00, 0x03, 0x00, 0x6c, 0x6f, 0x00, 0x00, // the name, padded
    ];
    assert_eq!(buf, want);
}

#[test]
fn first_two_bytes_give_the_length() {
    for n in [0usize, 1, 2, 3, 4, 5, 100, 255, 256, 1000, 40000] {
        let mut req = NetlinkRequest::new(16, 0);
        req.add_data(Payload::Info(InfoMessage::new(0)));
        req.add_data(Payload::Attr(NetlinkRouteAttr::new(1, vec![0xaa; n])));
        req.add_raw_data(vec![0x55; n % 7]);
        let buf = req.serialize().unwrap();
        let len = u16::from_le_bytes([buf[0], buf[1]]) as usize;
        assert_eq!(len, buf.len());
    }
}

#[test]
fn length_of_a_long_request_is_kept_to_sixteen_bits() {
    let mut req = NetlinkRequest::new(16, 0);
    req.add_raw_data(vec![0; 70000]);
    let buf = req.serialize().unwrap();
    assert_eq!(buf.len(), 70016);
    assert_eq!(u16::from_le_bytes([buf[0], buf[1]]) as usize, 70016 % 65536);
    assert_eq!(req.header.nlmsg_len, 70016);
    // The upper half of the length field is that of the length in the header.
    assert_eq!(u16::from_le_bytes([buf[2], buf[3]]), 1);
}

#[test]
fn serialize_leaves_the_request_as_it_was() {
    let mut req = NetlinkRequest::new(20, 4);
    req.add_data(Payload::Address(AddressMessage::new(2)));
    req.add_raw_data(vec![1, 2, 3]);
    let first = req.serialize().unwrap();
    let second = req.serialize().unwrap();
    assert_eq!(first, second);
    assert_eq!(req.header.nlmsg_len, 16 + 8 + 3);
    assert_eq!(first.len(), 27);
    assert_eq!(&first[24..], &[1, 2, 3]);
}

#[test]
fn raw_data_accumulates() {
    let mut req = NetlinkRequest::new(16, 0);
    assert!(req.raw_data.is_none());
    assert!(req.data.is_none());
    req.add_raw_data(vec![1, 2]);
    req.add_raw_data(vec![3]);
    assert_eq!(req.raw_data, Some(vec![1, 2, 3]));
    assert_eq!(req.header.nlmsg_len, 19);
    assert!(req.data.is_none());
}

#[test]
fn new_request_sets_the_request_flag() {
    let req = NetlinkRequest::new(24, 0x400 | 0x200 | 0x4);
    assert_eq!(req.header.nlmsg_len, 16);
    assert_eq!(req.header.nlmsg_type, 24);
    assert_eq!(req.header.nlmsg_flags, 0x605);
    assert_eq!(req.header.nlmsg_seq, 0);
    assert_eq!(req.header.nlmsg_pid, 0);
    let header = NetlinkMessageHeader::new(3, 0);
    assert_eq!(header.nlmsg_flags, 1);
    assert_eq!(header.nlmsg_len, 16);
}

#[test]
fn header_on_the_wire() {
    let header = NetlinkMessageHeader {
        nlmsg_len: 0x11223344,
        nlmsg_type: 0x5566,
        nlmsg_flags: 0x7788,
        nlmsg_seq: 0x99aabbcc,
        nlmsg_pid: 0xddeeff00,
    };
    let bytes = header.serialize().unwrap();
    assert_eq!(
        bytes,
        vec![
            0x44, 0x33, 0x22, 0x11, 0x66, 0x55, 0x88, 0x77, 0xcc, 0xbb, 0xaa, 0x99, 0x00, 0xff,
            0xee, 0xdd
        ]
    );
    assert_eq!(NetlinkMessageHeader::deserialize(&bytes), Ok(header));
    assert_eq!(
        NetlinkMessageHeader::deserialize(&bytes[..15]),
        Err(Error::Decode)
    );
}

#[test]
fn info_message_on_the_wire() {
    let msg = InfoMessage {
        family: 7,
        _pad: 9,
        ifi_type: 772,
        index: -2,
        flags: 0x10203040,
        change: 0xffff_ffff,
    };
    let bytes = msg.serialize().unwrap();
    assert_eq!(
        bytes,
        vec![
            0x07, 0x09, 0x04, 0x03, 0xfe, 0xff, 0xff, 0xff, 0x40, 0x30, 0x20, 0x10, 0xff, 0xff,
            0xff, 0xff
        ]
    );
    assert_eq!(InfoMessage::deserialize(&bytes), Ok(msg));
    assert_eq!(msg.len(), 16);
    assert!(!msg.is_empty());
    assert!(InfoMessage::new(0).is_empty());
    assert_eq!(InfoMessage::new(0), InfoMessage::default());
    assert_eq!(InfoMessage::new(10).family, 10);
    assert_eq!(InfoMessage::new(0x1ff).family, 0xff);
}

#[test]
fn address_message_on_the_wire() {
    let msg = AddressMessage {
        family: 2,
        prefix_len: 24,
        flags: 0x80,
        scope: 253,
        index: 3,
    };
    let bytes = msg.serialize().unwrap();
    assert_eq!(bytes, vec![0x02, 0x18, 0x80, 0xfd, 0x03, 0x00, 0x00, 0x00]);
    assert_eq!(AddressMessage::deserialize(&bytes), Ok(msg));
    assert_eq!(msg.len(), 8);
    assert!(!msg.is_empty());
    assert!(AddressMessage::default().is_empty());
    assert_eq!(AddressMessage::new(10).family, 10);
    assert_eq!(AddressMessage::new(10).index, 0);
}

#[test]
fn route_message_on_the_wire() {
    let msg = RouteMessage {
        family: 2,
        dst_len: 24,
        src_len: 1,
        tos: 2,
        table: 254,
        protocol: 3,
        scope: 253,
        rtm_type: 1,
        flags: 0x1000,
    };
    let bytes = msg.serialize().unwrap();
    assert_eq!(
        bytes,
        vec![0x02, 0x18, 0x01, 0x02, 0xfe, 0x03, 0xfd, 0x01, 0x00, 0x10, 0x00, 0x00]
    );
    assert_eq!(RouteMessage::deserialize(&bytes), Ok(msg));
    assert_eq!(msg.len(), 12);
    assert!(!msg.is_empty());
    assert!(RouteMessage::default().is_empty());
}

#[test]
fn route_message_defaults() {
    let msg = RouteMessage::new_rt_msg();
    assert_eq!(msg.table, 254);
    assert_eq!(msg.protocol, 3);
    assert_eq!(msg.scope, 0);
    assert_eq!(msg.rtm_type, 1);
    assert_eq!(msg.family, 0);
    assert_eq!(msg.flags, 0);
    let del = RouteMessage::new_rt_del_msg();
    assert_eq!(del.table, 254);
    assert_eq!(del.scope, 255);
    assert_eq!(del.protocol, 0);
    assert_eq!(del.rtm_type, 0);
    let list = RouteMessage::new_rt_list_msg(10);
    assert_eq!(
        list,
        RouteMessage {
            family: 10,
            ..RouteMessage::default()
        }
    );
}

#[test]
fn records_reject_short_buffers() {
    assert_eq!(InfoMessage::deserialize(&[0; 15]), Err(Error::Decode));
    assert_eq!(AddressMessage::deserialize(&[0; 7]), Err(Error::Decode));
    assert_eq!(RouteMessage::deserialize(&[0; 11]), Err(Error::Decode));
    assert_eq!(InfoMessage::deserialize(&[]), Err(Error::Decode));
    assert!(InfoMessage::deserialize(&[0; 16]).is_ok());
    assert!(AddressMessage::deserialize(&[0; 8]).is_ok());
    assert!(RouteMessage::deserialize(&[0; 12]).is_ok());
}

#[test]
fn encoder_failure_becomes_an_encode_error() {
    assert_eq!(encoded(Ok(vec![1, 2])), Ok(vec![1, 2]));
    let refused = Box::new(bincode::ErrorKind::SizeLimit);
    assert_eq!(encoded(Err(refused)), Err(Error::Encode));
}

#[test]
fn attribute_without_children() {
    let attr = NetlinkRouteAttr::new(3, vec![0x6c, 0x6f, 0x00]);
    assert_eq!(
        attr.rt_attr,
        RtAttr {
            rta_len: 7,
            rta_type: 3
        }
    );
    assert!(attr.children.is_none());
    assert_eq!(attr.len(), 7);
    assert!(!attr.is_empty());
    assert_eq!(
        attr.serialize().unwrap(),
        vec![0x07, 0x00, 0x03, 0x00, 0x6c, 0x6f, 0x00, 0x00]
    );
}

#[test]
fn attribute_with_an_empty_value() {
    let attr = NetlinkRouteAttr::new(18, vec![]);
    assert_eq!(attr.rt_attr.rta_len, 4);
    assert_eq!(attr.serialize().unwrap(), vec![0x04, 0x00, 0x12, 0x00]);
}

#[test]
fn attribute_padding_for_every_remainder() {
    for n in 0usize..9 {
        let attr = NetlinkRouteAttr::new(1, vec![0xab; n]);
        let bytes = attr.serialize().unwrap();
        assert_eq!(bytes.len(), (4 + n + 3) & !3);
        assert_eq!(u16::from_le_bytes([bytes[0], bytes[1]]) as usize, 4 + n);
        assert!(bytes[4..4 + n].iter().all(|b| *b == 0xab));
        assert!(bytes[4 + n..].iter().all(|b| *b == 0));
    }
}

#[test]
fn attribute_length_is_kept_to_sixteen_bits() {
    let attr = NetlinkRouteAttr::new(1, vec![0; 65536]);
    assert_eq!(attr.rt_attr.rta_len, 4);
    let attr = NetlinkRouteAttr::new(1, vec![0; 65531]);
    assert_eq!(attr.rt_attr.rta_len, 65535);
}

#[test]
fn nested_attribute() {
    let mut info = NetlinkRouteAttr::new(18, vec![]);
    info.add_child(1, "dummy".as_bytes().to_vec());
    assert_eq!(info.rt_attr.rta_len, 4 + 9);
    let mut data = NetlinkRouteAttr::new(2, vec![]);
    data.add_child(7, vec![1]);
    assert_eq!(data.rt_attr.rta_len, 4 + 5);
    info.add_child_from_attr(Payload::Attr(data));
    assert_eq!(info.rt_attr.rta_len, 4 + 9 + 9);
    assert_eq!(info.children.as_ref().unwrap().len(), 2);
    let want: Vec<u8> = vec![
        0x1c, 0x00, 0x12, 0x00, // the whole: 28 bytes
        0x09, 0x00, 0x01, 0x00, 0x64, 0x75, 0x6d, 0x6d, 0x79, 0x00, 0x00, 0x00, // the kind
        0x0c, 0x00, 0x02, 0x00, // the data: 12 bytes
        0x05, 0x00, 0x07, 0x00, 0x01, 0x00, 0x00, 0x00, // one flag
    ];
    assert_eq!(info.serialize().unwrap(), want);
}

#[test]
fn nested_attribute_with_a_value_and_a_record() {
    let mut peer = NetlinkRouteAttr::new(1, vec![0xee, 0xff]);
    peer.add_child_from_attr(Payload::Info(InfoMessage::new(0)));
    peer.add_child(3, vec![0x62, 0x00]);
    assert_eq!(peer.rt_attr.rta_len, 6 + 16 + 6);
    let bytes = peer.serialize().unwrap();
    assert_eq!(bytes.len(), 8 + 16 + 8);
    assert_eq!(&bytes[..8], &[0x20, 0x00, 0x01, 0x00, 0xee, 0xff, 0x00, 0x00]);
    assert_eq!(&bytes[8..24], &[0u8; 16]);
    assert_eq!(&bytes[24..], &[0x06, 0x00, 0x03, 0x00, 0x62, 0x00, 0x00, 0x00]);
}

#[test]
fn nested_constructor_equals_adding_children() {
    let mut by_steps = NetlinkRouteAttr::new(2, vec![9]);
    by_steps.add_child(4, vec![1, 2, 3, 4]);
    by_steps.add_child(7, vec![1]);
    let at_once = NetlinkRouteAttr::nested(
        2,
        vec![9],
        vec![
            Payload::Attr(NetlinkRouteAttr::new(4, vec![1, 2, 3, 4])),
            Payload::Attr(NetlinkRouteAttr::new(7, vec![1])),
        ],
    );
    assert_eq!(by_steps, at_once);
    assert_eq!(by_steps.serialize().unwrap(), at_once.serialize().unwrap());
    assert_eq!(at_once.rt_attr.rta_len, 5 + 8 + 5);
}

#[test]
fn attribute_with_an_empty_list_of_children() {
    let attr = NetlinkRouteAttr {
        rt_attr: RtAttr {
            rta_len: 99,
            rta_type: 2,
        },
        value: vec![1],
        children: Some(vec![]),
    };
    // With a list of children the length is written anew.
    assert_eq!(
        attr.serialize().unwrap(),
        vec![0x08, 0x00, 0x02, 0x00, 0x01, 0x00, 0x00, 0x00]
    );
    let attr = NetlinkRouteAttr {
        rt_attr: RtAttr {
            rta_len: 99,
            rta_type: 2,
        },
        value: vec![1],
        children: None,
    };
    // Without one the length that the attribute holds is written.
    assert_eq!(
        attr.serialize().unwrap(),
        vec![0x63, 0x00, 0x02, 0x00, 0x01, 0x00, 0x00, 0x00]
    );
}

#[test]
fn next_attribute_starts_at_the_aligned_length() {
    let attrs = vec![
        Payload::Attr(NetlinkRouteAttr::new(1, vec![1])),
        Payload::Attr(NetlinkRouteAttr::new(2, vec![1, 2, 3, 4, 5, 6])),
        Payload::Attr(NetlinkRouteAttr::nested(
            3,
            vec![],
            vec![Payload::Attr(NetlinkRouteAttr::new(4, vec![7, 7, 7]))],
        )),
        Payload::Attr(NetlinkRouteAttr::new(5, vec![])),
    ];
    let bytes = serialize_all(&attrs).unwrap();
    let mut at = 0usize;
    let mut types = Vec::new();
    while at < bytes.len() {
        let len = u16::from_le_bytes([bytes[at], bytes[at + 1]]) as usize;
        types.push(u16::from_le_bytes([bytes[at + 2], bytes[at + 3]]));
        at += (len + 3) & !3;
    }
    assert_eq!(at, bytes.len());
    assert_eq!(types, vec![1, 2, 3, 5]);
}

#[test]
fn attributes_are_read_back() {
    let attrs = NetlinkRouteAttr::from(&NETLINK_MSG[16..]).unwrap();
    assert_eq!(attrs.len(), 10);
    assert_eq!(attrs[0].rt_attr.rta_type, 3);
    assert_eq!(attrs[0].rt_attr.rta_len, 7);
    assert_eq!(attrs[0].value, vec![0x6c, 0x6f, 0x00]);
    assert_eq!(attrs[1].rt_attr.rta_type, 13);
    assert_eq!(attrs[1].value, vec![0xe8, 0x03, 0x00, 0x00]);
    assert_eq!(attrs[2].value, vec![0x00]);
    assert_eq!(attrs[9].rt_attr.rta_type, 41);
    assert!(attrs.iter().all(|a| a.children.is_none()));
}

#[test]
fn written_attributes_are_read_back() {
    let written = vec![
        Payload::Attr(NetlinkRouteAttr::new(1, vec![1])),
        Payload::Attr(NetlinkRouteAttr::new(2, vec![])),
        Payload::Attr(NetlinkRouteAttr::new(3, vec![1, 2, 3, 4, 5])),
    ];
    let bytes = serialize_all(&written).unwrap();
    let read = NetlinkRouteAttr::from(&bytes).unwrap();
    assert_eq!(read.len(), 3);
    for (r, w) in read.iter().zip(written.iter()) {
        assert_eq!(&Payload::Attr(NetlinkRouteAttr::new(r.rt_attr.rta_type, r.value.clone())), w);
    }
}

#[test]
fn attributes_of_an_empty_buffer() {
    assert_eq!(NetlinkRouteAttr::from(&[]).unwrap().len(), 0);
    assert_eq!(NetlinkRouteAttr::from(&[1, 2, 3]).unwrap().len(), 0);
    assert!(NetlinkRouteAttr::map(&[]).unwrap().is_empty());
}

#[test]
fn attribute_without_its_padding_at_the_end() {
    let attrs = NetlinkRouteAttr::from(&[0x05, 0x00, 0x10, 0x00, 0x06]).unwrap();
    assert_eq!(attrs.len(), 1);
    assert_eq!(attrs[0].value, vec![0x06]);
    let attrs = NetlinkRouteAttr::from(&[0x05, 0x00, 0x10, 0x00, 0x06, 0x00, 0x00]).unwrap();
    assert_eq!(attrs.len(), 1);
}

#[test]
fn attribute_longer_than_the_buffer_is_rejected() {
    assert_eq!(
        NetlinkRouteAttr::from(&[0x09, 0x00, 0x01, 0x00, 1, 2, 3, 4]),
        Err(Error::Decode)
    );
    // The failure discards what was read before it.
    assert_eq!(
        NetlinkRouteAttr::from(&[0x04, 0x00, 0x01, 0x00, 0x09, 0x00, 0x02, 0x00, 1, 2, 3, 4]),
        Err(Error::Decode)
    );
    assert_eq!(
        NetlinkRouteAttr::map(&[0x09, 0x00, 0x01, 0x00, 1, 2, 3, 4]),
        Err(Error::Decode)
    );
}

#[test]
fn attribute_shorter_than_its_header_is_rejected() {
    assert_eq!(
        NetlinkRouteAttr::from(&[0x03, 0x00, 0x01, 0x00]),
        Err(Error::Decode)
    );
    assert_eq!(
        NetlinkRouteAttr::from(&[0x00, 0x00, 0x00, 0x00]),
        Err(Error::Decode)
    );
}

#[test]
fn attribute_map_keeps_the_last_value() {
    let bytes: Vec<u8> = vec![
        0x05, 0x00, 0x01, 0x00, 0x0a, 0x00, 0x00, 0x00, // type 1
        0x06, 0x00, 0x02, 0x00, 0x0b, 0x0c, 0x00, 0x00, // type 2
        0x05, 0x00, 0x01, 0x00, 0x0d, 0x00, 0x00, 0x00, // type 1 again
    ];
    let map = NetlinkRouteAttr::map(&bytes).unwrap();
    let mut want: HashMap<u16, Vec<u8>> = HashMap::new();
    want.insert(1, vec![0x0d]);
    want.insert(2, vec![0x0b, 0x0c]);
    assert_eq!(map, want);
}

#[test]
fn unknown_attribute_types_are_kept_by_the_reader() {
    let bytes: Vec<u8> = vec![0x04, 0x00, 0xff, 0x7f, 0x05, 0x00, 0x00, 0x80, 0x01];
    let attrs = NetlinkRouteAttr::from(&bytes).unwrap();
    assert_eq!(attrs.len(), 2);
    assert_eq!(attrs[0].rt_attr.rta_type, 0x7fff);
    assert_eq!(attrs[1].rt_attr.rta_type, 0x8000);
}

fn frame(ty: u16, flags: u16, seq: u32, pid: u32, payload: &[u8]) -> Vec<u8> {
    let mut out = Vec::new();
    out.extend_from_slice(&((16 + payload.len()) as u32).to_le_bytes());
    out.extend_from_slice(&ty.to_le_bytes());
    out.extend_from_slice(&flags.to_le_bytes());
    out.extend_from_slice(&seq.to_le_bytes());
    out.extend_from_slice(&pid.to_le_bytes());
    out.extend_from_slice(payload);
    while out.len() % 4 != 0 {
        out.push(0);
    }
    out
}

#[test]
fn datagram_is_split_into_messages() {
    let mut datagram = frame(16, 2, 5, 9, &[1, 2, 3, 4, 5]);
    datagram.extend(frame(3, 2, 5, 9, &[0, 0, 0, 0]));
    let msgs = NetlinkMessage::from(&datagram).unwrap();
    assert_eq!(msgs.len(), 2);
    assert_eq!(
        msgs[0].header,
        NetlinkMessageHeader {
            nlmsg_len: 21,
            nlmsg_type: 16,
            nlmsg_flags: 2,
            nlmsg_seq: 5,
            nlmsg_pid: 9
        }
    );
    assert_eq!(msgs[0].data, vec![1, 2, 3, 4, 5]);
    assert_eq!(msgs[1].header.nlmsg_type, 3);
    assert_eq!(msgs[1].header.nlmsg_len, 20);
    assert_eq!(msgs[1].data, vec![0, 0, 0, 0]);
}

#[test]
fn short_datagrams_hold_no_message() {
    assert_eq!(NetlinkMessage::from(&[]).unwrap().len(), 0);
    assert_eq!(NetlinkMessage::from(&[0; 15]).unwrap().len(), 0);
}

#[test]
fn message_with_a_bad_length_ends_the_reading() {
    // A length below that of the header.
    let mut datagram = frame(16, 0, 1, 1, &[]);
    datagram[0] = 15;
    assert_eq!(NetlinkMessage::from(&datagram).unwrap().len(), 0);
    // A length beyond the end of the datagram, after a good message.
    let mut datagram = frame(16, 0, 1, 1, &[7, 7, 7, 7]);
    let mut second = frame(17, 0, 1, 1, &[1, 2, 3, 4]);
    second[0] = 200;
    datagram.extend(second);
    let msgs = NetlinkMessage::from(&datagram).unwrap();
    assert_eq!(msgs.len(), 1);
    assert_eq!(msgs[0].data, vec![7, 7, 7, 7]);
}

#[test]
fn message_without_its_padding_at_the_end() {
    let mut datagram = frame(16, 0, 1, 1, &[1, 2, 3, 4, 5]);
    datagram.truncate(21);
    let msgs = NetlinkMessage::from(&datagram).unwrap();
    assert_eq!(msgs.len(), 1);
    assert_eq!(msgs[0].data, vec![1, 2, 3, 4, 5]);
}

#[test]
fn payload_of_each_kind() {
    let items = vec![
        Payload::Info(InfoMessage::new(1)),
        Payload::Address(AddressMessage::new(2)),
        Payload::Route(RouteMessage::new_rt_list_msg(3)),
        Payload::Attr(NetlinkRouteAttr::new(4, vec![5])),
    ];
    let lens: Vec<usize> = items.iter().map(|p| p.len()).collect();
    assert_eq!(lens, vec![16, 8, 12, 5]);
    assert!(items.iter().all(|p| !p.is_empty()));
    assert!(Payload::Route(RouteMessage::default()).is_empty());
    let bytes = serialize_all(&items).unwrap();
    assert_eq!(bytes.len(), 16 + 8 + 12 + 8);
    assert_eq!(bytes[0], 1);
    assert_eq!(bytes[16], 2);
    assert_eq!(bytes[24], 3);
    assert_eq!(&bytes[36..], &[0x05, 0x00, 0x04, 0x00, 0x05, 0x00, 0x00, 0x00]);
    assert_eq!(lnwasi::message::reported_len(&items), 41);
}
