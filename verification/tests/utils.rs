use lnwasi::bytes::{
    bits_of_i32, copy_range, get_i32, get_u16, get_u32, i32_bytes, i32_from_bits, put_bytes,
    put_i32, put_u16, put_u32, u32_bytes,
};
use lnwasi::consts;
use lnwasi::error::Error;
use lnwasi::ip::{IpAddr, IpNet};
use lnwasi::utils::{align_of, slice_to_addr, vec_to_addr, zero_terminated};

#[test]
fn align_of_rounds_up_to_four() {
    assert_eq!(align_of(0, 4), 0);
    assert_eq!(align_of(1, 4), 4);
    assert_eq!(align_of(3, 4), 4);
    assert_eq!(align_of(4, 4), 4);
    assert_eq!(align_of(5, 4), 8);
    assert_eq!(align_of(7, 4), 8);
    assert_eq!(align_of(16, 4), 16);
    assert_eq!(align_of(65533, 4), 65536);
}

#[test]
fn align_of_is_the_mask_formula() {
    for n in 0usize..4096 {
        assert_eq!(align_of(n, 4), (n + 3) & !3);
        assert_eq!(align_of(n, 4) % 4, 0);
        assert!(align_of(n, 4) >= n);
        assert!(align_of(n, 4) < n + 4);
    }
}

#[test]
fn align_of_other_powers_of_two() {
    assert_eq!(align_of(5, 1), 5);
    assert_eq!(align_of(5, 2), 6);
    assert_eq!(align_of(9, 8), 16);
    assert_eq!(align_of(16, 16), 16);
    assert_eq!(align_of(17, 16), 32);
}

#[test]
fn zero_terminated_appends_one_zero() {
    assert_eq!(zero_terminated("lo"), vec![0x6c, 0x6f, 0x00]);
    assert_eq!(zero_terminated(""), vec![0x00]);
    assert_eq!(zero_terminated("é"), vec![0xc3, 0xa9, 0x00]);
}

#[test]
fn vec_to_addr_reads_ipv4() {
    assert_eq!(
        vec_to_addr(vec![127, 0, 0, 1]),
        Ok(IpAddr::V4([127, 0, 0, 1]))
    );
}

#[test]
fn vec_to_addr_reads_ipv6() {
    let octets: Vec<u8> = vec![0xfd, 0, 0, 0, 0, 0, 0, 0, 0, 0, 0, 0, 0, 0, 0, 1];
    assert_eq!(
        vec_to_addr(octets),
        Ok(IpAddr::V6([0xfd, 0, 0, 0, 0, 0, 0, 0, 0, 0, 0, 0, 0, 0, 0, 1]))
    );
}

#[test]
fn vec_to_addr_rejects_other_lengths() {
    assert_eq!(vec_to_addr(vec![]), Err(Error::InvalidAddressLength(0)));
    assert_eq!(
        vec_to_addr(vec![1, 2, 3]),
        Err(Error::InvalidAddressLength(3))
    );
    assert_eq!(
        vec_to_addr(vec![1, 2, 3, 4, 5]),
        Err(Error::InvalidAddressLength(5))
    );
    assert_eq!(
        vec_to_addr(vec![0; 17]),
        Err(Error::InvalidAddressLength(17))
    );
    assert_eq!(slice_to_addr(&[9; 15]), Err(Error::InvalidAddressLength(15)));
}

#[test]
fn octets_round_trip() {
    let v4 = IpAddr::V4([192, 168, 0, 1]);
    assert_eq!(vec_to_addr(v4.octets()), Ok(v4));
    let v6 = IpAddr::V6([0x20, 0x01, 0x0d, 0xb8, 0, 0, 0, 0, 0, 0, 0, 0, 0, 0, 0, 0x2a]);
    assert_eq!(vec_to_addr(v6.octets()), Ok(v6));
    let zero = IpAddr::V4([0, 0, 0, 0]);
    assert_eq!(vec_to_addr(zero.octets()), Ok(zero));
    let ones = IpAddr::V6([0xff; 16]);
    assert_eq!(vec_to_addr(ones.octets()), Ok(ones));
}

#[test]
fn little_endian_numbers() {
    let mut buf: Vec<u8> = Vec::new();
    put_u16(&mut buf, 0x0304);
    put_u32(&mut buf, 0x0a0b0c0d);
    put_i32(&mut buf, -2);
    assert_eq!(
        buf,
        vec![0x04, 0x03, 0x0d, 0x0c, 0x0b, 0x0a, 0xfe, 0xff, 0xff, 0xff]
    );
    assert_eq!(get_u16(&buf, 0), 0x0304);
    assert_eq!(get_u32(&buf, 2), 0x0a0b0c0d);
    assert_eq!(get_i32(&buf, 6), -2);
    assert_eq!(u32_bytes(1000), vec![0xe8, 0x03, 0x00, 0x00]);
    assert_eq!(i32_bytes(-1), vec![0xff, 0xff, 0xff, 0xff]);
    assert_eq!(i32_bytes(i32::MIN), vec![0x00, 0x00, 0x00, 0x80]);
}

#[test]
fn signed_numbers_and_their_bits() {
    assert_eq!(bits_of_i32(0), 0);
    assert_eq!(bits_of_i32(-1), 0xffff_ffff);
    assert_eq!(bits_of_i32(i32::MIN), 0x8000_0000);
    assert_eq!(bits_of_i32(i32::MAX), 0x7fff_ffff);
    assert_eq!(i32_from_bits(0xffff_ffed), -19);
    assert_eq!(i32_from_bits(0x7fff_ffff), i32::MAX);
    assert_eq!(i32_from_bits(0x8000_0000), i32::MIN);
    for x in [-5i32, -1, 0, 1, 77, i32::MAX, i32::MIN] {
        assert_eq!(i32_from_bits(bits_of_i32(x)), x);
        assert_eq!(bits_of_i32(x), x as u32);
    }
}

#[test]
fn byte_ranges() {
    let data = [1u8, 2, 3, 4, 5];
    assert_eq!(copy_range(&data, 1, 4), vec![2, 3, 4]);
    assert_eq!(copy_range(&data, 2, 2), Vec::<u8>::new());
    let mut buf = vec![9u8];
    put_bytes(&mut buf, &data);
    assert_eq!(buf, vec![9, 1, 2, 3, 4, 5]);
}

#[test]
fn broadcast_of_ipv4_networks() {
    let net = IpNet::new(IpAddr::V4([172, 16, 0, 0]), 22).unwrap();
    assert_eq!(net.broadcast(), IpAddr::V4([172, 16, 3, 255]));
    let net = IpNet::new(IpAddr::V4([127, 0, 0, 2]), 24).unwrap();
    assert_eq!(net.broadcast(), IpAddr::V4([127, 0, 0, 255]));
    let net = IpNet::new(IpAddr::V4([10, 1, 2, 3]), 0).unwrap();
    assert_eq!(net.broadcast(), IpAddr::V4([255, 255, 255, 255]));
    let net = IpNet::new(IpAddr::V4([10, 1, 2, 3]), 31).unwrap();
    assert_eq!(net.broadcast(), IpAddr::V4([10, 1, 2, 3]));
}

#[test]
fn broadcast_of_a_host_network_is_the_address() {
    let net = IpNet::new(IpAddr::V4([127, 0, 0, 2]), 32).unwrap();
    assert_eq!(net.broadcast(), IpAddr::V4([127, 0, 0, 2]));
}

#[test]
fn broadcast_of_ipv6_networks() {
    let net = IpNet::new(
        IpAddr::V6([0xfd, 0x00, 0x12, 0x34, 0x56, 0x78, 0, 0, 0, 0, 0, 0, 0, 0, 0, 0]),
        24,
    )
    .unwrap();
    assert_eq!(
        net.broadcast(),
        IpAddr::V6([
            0xfd, 0x00, 0x12, 0xff, 0xff, 0xff, 0xff, 0xff, 0xff, 0xff, 0xff, 0xff, 0xff, 0xff,
            0xff, 0xff
        ])
    );
    let host = IpNet::new(IpAddr::V6([1; 16]), 128).unwrap();
    assert_eq!(host.broadcast(), IpAddr::V6([1; 16]));
}

#[test]
fn networks_check_their_prefix_length() {
    assert!(IpNet::new(IpAddr::V4([10, 0, 0, 0]), 32).is_ok());
    assert_eq!(
        IpNet::new(IpAddr::V4([10, 0, 0, 0]), 33),
        Err(Error::InvalidPrefixLength(33))
    );
    assert!(IpNet::new(IpAddr::V6([0; 16]), 128).is_ok());
    assert_eq!(
        IpNet::new(IpAddr::V6([0; 16]), 129),
        Err(Error::InvalidPrefixLength(129))
    );
    let net = IpNet::new(IpAddr::V4([10, 1, 1, 0]), 24).unwrap();
    assert_eq!(net.addr(), IpAddr::V4([10, 1, 1, 0]));
    assert_eq!(net.prefix_len(), 24);
    let zero = IpNet::default();
    assert_eq!(zero.addr(), IpAddr::V4([0, 0, 0, 0]));
    assert_eq!(zero.prefix_len(), 0);
}

#[test]
fn address_families() {
    let v4 = IpAddr::V4([1, 2, 3, 4]);
    let v6 = IpAddr::V6([0; 16]);
    assert!(v4.is_ipv4());
    assert!(!v4.is_ipv6());
    assert!(v6.is_ipv6());
    assert!(!v6.is_ipv4());
    assert_eq!(v4.family(), 2);
    assert_eq!(v6.family(), 10);
    assert_eq!(v4.max_prefix_len(), 32);
    assert_eq!(v6.max_prefix_len(), 128);
    assert_eq!(v4.octets(), vec![1, 2, 3, 4]);
    assert_eq!(v6.octets(), vec![0; 16]);
}

#[test]
fn ipv4_mapped_addresses() {
    let v4 = IpAddr::V4([192, 0, 2, 1]);
    let mapped = IpAddr::V6([0, 0, 0, 0, 0, 0, 0, 0, 0, 0, 0xff, 0xff, 192, 0, 2, 1]);
    assert_eq!(v4.to_ipv6_mapped(), mapped);
    assert_eq!(mapped.to_ipv6_mapped(), mapped);
    assert_eq!(mapped.to_ipv4(), Some(v4));
    assert_eq!(v4.to_ipv4(), Some(v4));
    let compatible = IpAddr::V6([0, 0, 0, 0, 0, 0, 0, 0, 0, 0, 0, 0, 192, 0, 2, 1]);
    assert_eq!(compatible.to_ipv4(), Some(v4));
    let other = IpAddr::V6([0xfd, 0, 0, 0, 0, 0, 0, 0, 0, 0, 0, 0, 192, 0, 2, 1]);
    assert_eq!(other.to_ipv4(), None);
    let half = IpAddr::V6([0, 0, 0, 0, 0, 0, 0, 0, 0, 0, 0xff, 0, 192, 0, 2, 1]);
    assert_eq!(half.to_ipv4(), None);
    let late = IpAddr::V6([0, 0, 0, 0, 0, 0, 0, 0, 0, 1, 0xff, 0xff, 192, 0, 2, 1]);
    assert_eq!(late.to_ipv4(), None);
}

#[test]
fn failures_have_words() {
    assert_eq!(Error::NoLinkFound.message(), "no link found");
    assert_eq!(Error::MultipleLinksFound.message(), "multiple links found");
    assert_eq!(
        Error::InvalidAddressLength(3).message(),
        "invalid address length"
    );
    assert_eq!(
        Error::SrcDstFamilyMismatch.message(),
        "src and dst address family mismatch"
    );
    assert_eq!(
        Error::GatewayFamilyMismatch.message(),
        "gw, src and dst address family mismatch"
    );
    assert_eq!(Error::WrongSender(7).message(), "wrong sender pid");
}

#[test]
fn protocol_numbers_are_those_of_the_c_library() {
    assert_eq!(consts::NETLINK_ROUTE, libc::NETLINK_ROUTE);
    assert_eq!(consts::AF_UNSPEC as i32, libc::AF_UNSPEC);
    assert_eq!(consts::AF_INET as i32, libc::AF_INET);
    assert_eq!(consts::AF_INET6 as i32, libc::AF_INET6);
    assert_eq!(consts::NLM_F_REQUEST, libc::NLM_F_REQUEST);
    assert_eq!(consts::NLM_F_MULTI, libc::NLM_F_MULTI);
    assert_eq!(consts::NLM_F_ACK, libc::NLM_F_ACK);
    assert_eq!(consts::NLM_F_REPLACE, libc::NLM_F_REPLACE);
    assert_eq!(consts::NLM_F_EXCL, libc::NLM_F_EXCL);
    assert_eq!(consts::NLM_F_DUMP, libc::NLM_F_DUMP);
    assert_eq!(consts::NLM_F_CREATE, libc::NLM_F_CREATE);
    assert_eq!(consts::NLM_F_APPEND, libc::NLM_F_APPEND);
    assert_eq!(consts::NLMSG_ERROR as i32, libc::NLMSG_ERROR);
    assert_eq!(consts::NLMSG_DONE as i32, libc::NLMSG_DONE);
    assert_eq!(consts::RTM_NEWLINK, libc::RTM_NEWLINK);
    assert_eq!(consts::RTM_DELLINK, libc::RTM_DELLINK);
    assert_eq!(consts::RTM_GETLINK, libc::RTM_GETLINK);
    assert_eq!(consts::RTM_NEWADDR, libc::RTM_NEWADDR);
    assert_eq!(consts::RTM_DELADDR, libc::RTM_DELADDR);
    assert_eq!(consts::RTM_GETADDR, libc::RTM_GETADDR);
    assert_eq!(consts::RTM_NEWROUTE, libc::RTM_NEWROUTE);
    assert_eq!(consts::RTM_DELROUTE, libc::RTM_DELROUTE);
    assert_eq!(consts::RTM_GETROUTE, libc::RTM_GETROUTE);
    assert_eq!(consts::IFF_UP as i32, libc::IFF_UP);
    assert_eq!(consts::IFLA_ADDRESS, libc::IFLA_ADDRESS);
    assert_eq!(consts::IFLA_IFNAME, libc::IFLA_IFNAME);
    assert_eq!(consts::IFLA_MTU, libc::IFLA_MTU);
    assert_eq!(consts::IFLA_LINK, libc::IFLA_LINK);
    assert_eq!(consts::IFLA_MASTER, libc::IFLA_MASTER);
    assert_eq!(consts::IFLA_TXQLEN, libc::IFLA_TXQLEN);
    assert_eq!(consts::IFLA_OPERSTATE, libc::IFLA_OPERSTATE);
    assert_eq!(consts::IFLA_LINKINFO, libc::IFLA_LINKINFO);
    assert_eq!(consts::IFLA_NET_NS_PID, libc::IFLA_NET_NS_PID);
    assert_eq!(consts::IFLA_NET_NS_FD, libc::IFLA_NET_NS_FD);
    assert_eq!(consts::IFLA_NUM_TX_QUEUES, libc::IFLA_NUM_TX_QUEUES);
    assert_eq!(consts::IFLA_NUM_RX_QUEUES, libc::IFLA_NUM_RX_QUEUES);
    assert_eq!(consts::IFLA_GRO_MAX_SIZE, libc::IFLA_GRO_MAX_SIZE);
    assert_eq!(consts::IFLA_INFO_KIND, libc::IFLA_INFO_KIND);
    assert_eq!(consts::IFLA_INFO_DATA, libc::IFLA_INFO_DATA);
    assert_eq!(consts::IFA_ADDRESS, libc::IFA_ADDRESS);
    assert_eq!(consts::IFA_LOCAL, libc::IFA_LOCAL);
    assert_eq!(consts::IFA_LABEL, libc::IFA_LABEL);
    assert_eq!(consts::IFA_BROADCAST, libc::IFA_BROADCAST);
    assert_eq!(consts::IFA_CACHEINFO, libc::IFA_CACHEINFO);
    assert_eq!(consts::RTA_DST, libc::RTA_DST);
    assert_eq!(consts::RTA_IIF, libc::RTA_IIF);
    assert_eq!(consts::RTA_OIF, libc::RTA_OIF);
    assert_eq!(consts::RTA_GATEWAY, libc::RTA_GATEWAY);
    assert_eq!(consts::RTA_PREFSRC, libc::RTA_PREFSRC);
    assert_eq!(consts::RT_TABLE_MAIN, libc::RT_TABLE_MAIN);
    assert_eq!(consts::RTPROT_BOOT, libc::RTPROT_BOOT);
    assert_eq!(consts::RT_SCOPE_UNIVERSE, libc::RT_SCOPE_UNIVERSE);
    assert_eq!(consts::RT_SCOPE_NOWHERE, libc::RT_SCOPE_NOWHERE);
    assert_eq!(consts::RTN_UNICAST, libc::RTN_UNICAST);
    assert_eq!(consts::RTM_F_LOOKUP_TABLE, libc::RTM_F_LOOKUP_TABLE);
    assert_eq!(consts::NLMSG_HDRLEN, 16);
    assert_eq!(consts::RECV_BUF_SIZE, 65536);
    assert_eq!(consts::PID_KERNEL, 0);
}
