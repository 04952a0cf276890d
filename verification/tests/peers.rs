use blockchain::bytes_utils::BytesConversion;
use blockchain::peers::{Peer, PeerIp, Peers};

#[test]
fn peer_bytes_conversion() {
    {
        let original_peer = Peer::new(PeerIp::V4(0x7f00_0001), 1337);
        let peer_bytes = original_peer.as_actix_bytes().unwrap();
        let converted_peer = Peer::from_actix_bytes(peer_bytes).unwrap();
        assert!(original_peer == converted_peer);
    }
    {
        let original_peer = Peer::new(PeerIp::V6(1, 0, 0), 1337);
        let peer_bytes = original_peer.as_actix_bytes().unwrap();
        let converted_peer = Peer::from_actix_bytes(peer_bytes).unwrap();
        assert!(original_peer == converted_peer);
    }
}

#[test]
fn peer_byte_layout() {
    let ipv4_peer = Peer::new(PeerIp::V4(0), 0);
    assert_eq!(ipv4_peer.size_of_self(), (std::mem::size_of::<u16>() * 2) + std::mem::size_of::<u32>());
    assert_eq!(Peer::offset_of_tag(), 0);
    assert_eq!(Peer::offset_of_ip(), std::mem::size_of::<u16>());
    assert_eq!(Peer::offset_of_port(true), std::mem::size_of::<u16>() + std::mem::size_of::<u32>());
    let ipv6_peer = Peer::new(PeerIp::V6(0, 0, 0), 0);
    assert_eq!(ipv6_peer.size_of_self(), (std::mem::size_of::<u16>() * 2) + std::mem::size_of::<u128>());
    assert_eq!(Peer::offset_of_port(false), std::mem::size_of::<u16>() + std::mem::size_of::<u128>());
    assert!(Peer::is_ipv4_tag(4) && !Peer::is_ipv4_tag(16));
    assert!(Peer::is_ipv6_tag(16) && !Peer::is_ipv6_tag(4));
}

#[test]
fn peer_bytes_are_tag_ip_port() {
    let peer = Peer::new(PeerIp::V4(0x7f000001), 1337);
    let bytes = peer.as_boxed_bytes().unwrap();
    assert_eq!(&bytes[..], &[0, 4, 127, 0, 0, 1, 0x05, 0x39]);
    let peer = Peer::new(PeerIp::V6(1, 0, 0), 80);
    let bytes = peer.as_boxed_bytes().unwrap();
    assert_eq!(bytes.len(), 20);
    assert_eq!(&bytes[0..2], &[0, 16]);
    assert_eq!(bytes[17], 1);
    assert_eq!(&bytes[18..20], &[0, 80]);
}

#[test]
fn malformed_peer_bytes_are_refused() {
    assert!(Peer::from_raw_bytes(&[0]).is_err());
    assert!(Peer::from_raw_bytes(&[0, 5, 1, 2, 3, 4, 0, 1]).is_err());
    assert!(Peer::from_raw_bytes(&[0, 4, 1, 2, 3, 4, 0]).is_err());
    assert!(Peer::from_raw_bytes(&[0, 16, 1, 2, 3]).is_err());
    assert!(Peer::from_raw_bytes(&[0, 4, 1, 2, 3, 4, 0, 1, 99]).is_ok());
}

#[test]
fn peers_hold_each_peer_once() {
    let mut peers = Peers::with_capacity(4);
    let a = Peer::new(PeerIp::V4(1), 1);
    let b = Peer::new(PeerIp::V6(2, 0, 0), 2);
    assert!(peers.insert(a));
    assert!(peers.insert(b));
    assert!(!peers.insert(a));
    assert_eq!(peers.len(), 2);
    assert!(peers.contains(&a));
    assert!(peers.remove(&a));
    assert!(!peers.remove(&a));
    assert!(!peers.contains(&a));
    assert_eq!(peers.as_slice(), &[b]);
}

#[test]
fn peers_bytes_conversion() {
    let mut peers = Peers::with_capacity(4);
    peers.insert(Peer::new(PeerIp::V4(0x0a000001), 31337));
    peers.insert(Peer::new(PeerIp::V6(0x20010db8 << 96, 0, 0), 8080));
    peers.insert(Peer::new(PeerIp::V4(0x0a000002), 31337));
    let bytes = peers.as_actix_bytes().unwrap();
    assert_eq!(bytes.len(), 8 + 8 + 20 + 8);
    let converted = Peers::from_actix_bytes(bytes).unwrap();
    assert_eq!(converted.as_slice(), peers.as_slice());
}

#[test]
fn repeated_peers_in_bytes_collapse() {
    let peer: [u8; 8] = [0, 4, 1, 1, 1, 1, 0, 9];
    let mut bytes = 2u64.to_be_bytes().to_vec();
    bytes.extend_from_slice(&peer);
    bytes.extend_from_slice(&peer);
    let peers = Peers::from_raw_bytes(&bytes).unwrap();
    assert_eq!(peers.len(), 1);
    let mut short = 3u64.to_be_bytes().to_vec();
    short.extend_from_slice(&peer);
    assert!(Peers::from_raw_bytes(&short).is_err());
    assert!(Peers::from_raw_bytes(&[0, 0, 0]).is_err());
}

#[test]
fn ipv6_scope_tells_peers_apart_but_is_not_sent() {
    let plain = Peer::new(PeerIp::V6(1, 0, 0), 80);
    let scoped = Peer::new(PeerIp::V6(1, 7, 3), 80);
    assert_ne!(plain, scoped);
    let mut peers = Peers::with_capacity(2);
    assert!(peers.insert(plain));
    assert!(peers.insert(scoped));
    assert_eq!(peers.len(), 2);
    let bytes = scoped.as_boxed_bytes().unwrap();
    assert_eq!(bytes, plain.as_boxed_bytes().unwrap());
    assert_eq!(Peer::from_raw_bytes(&bytes).unwrap(), plain);
}
