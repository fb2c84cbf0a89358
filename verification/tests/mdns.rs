use iso_usb_hub::mdns::{reply_destination, respond_to_query, Query, ReplyDestination};
use iso_usb_hub::device_identity::mac_to_string;
use iso_usb_hub::mdns::{
    build_a_only_response, encode_dotted_name, classify_query, parse_query, service_instance_name, MdnsConfig,
    ResponseKind,
};
use iso_usb_hub::text::TextBuf;

fn text(cap: usize, s: &str) -> TextBuf {
    let mut t = TextBuf::with_capacity(cap);
    assert!(t.push_str(s));
    t
}

fn sample_config() -> MdnsConfig {
    MdnsConfig {
        hostname: text(32, "isolarail-aabbcc"),
        hostname_fqdn: text(48, "isolarail-aabbcc.local"),
        instance_name: text(64, "isolarail-aabbcc._http._tcp.local"),
        port: 80,
    }
}

#[test]
fn encode_decode_roundtrip_for_a_response() {
    let cfg = sample_config();
    let ip = [192, 168, 1, 42];
    let mut buf = [0u8; 256];
    let len = build_a_only_response(&mut buf, &cfg, ip, None).unwrap();
    assert_eq!(&buf[0..2], &[0, 0]);
    assert_eq!(buf[2], 0x84);
    assert!(len > 12);
}

#[test]
fn mac_string_helper_stays_available_for_network_identity() {
    assert_eq!(mac_to_string([0x02, 0xaa, 0xbb, 0xcc, 0xdd, 0xee]).as_str(), "02:aa:bb:cc:dd:ee");
}

#[test]
fn service_instance_name_appends_http_service() {
    assert_eq!(
        service_instance_name("isolarail-aabbcc").as_str(),
        "isolarail-aabbcc._http._tcp.local"
    );
}

#[test]
fn a_response_has_the_exact_record() {
    let cfg = sample_config();
    let mut buf = [0u8; 256];
    let len = build_a_only_response(&mut buf, &cfg, [10, 0, 0, 7], None).unwrap();
    // Header: id 0, authoritative response, no question, one answer.
    assert_eq!(&buf[0..12], &[0, 0, 0x84, 0, 0, 0, 0, 1, 0, 0, 0, 0]);
    // Name: isolarail-aabbcc.local
    let mut name = vec![16u8];
    name.extend_from_slice(b"isolarail-aabbcc");
    name.push(5);
    name.extend_from_slice(b"local");
    name.push(0);
    assert_eq!(&buf[12..12 + name.len()], &name[..]);
    let rest = &buf[12 + name.len()..len];
    // Type A, class IN with cache flush, TTL 120, length 4, address.
    assert_eq!(rest, &[0, 1, 0x80, 1, 0, 0, 0, 120, 0, 4, 10, 0, 0, 7]);
}

#[test]
fn too_small_buffer_gives_none() {
    let cfg = sample_config();
    let mut buf = [0u8; 20];
    assert_eq!(build_a_only_response(&mut buf, &cfg, [10, 0, 0, 7], None), None);
}

#[test]
fn query_for_hostname_is_parsed_and_classified() {
    let mut packet = vec![0u8, 0, 0, 0, 0, 1, 0, 0, 0, 0, 0, 0];
    packet.push(16);
    packet.extend_from_slice(b"ISOLARAIL-aabbcc");
    packet.push(5);
    packet.extend_from_slice(b"local");
    packet.push(0);
    packet.extend_from_slice(&[0, 1, 0x80, 1]);
    let query = parse_query(&packet).expect("query");
    assert_eq!(query.name.as_str(), "isolarail-aabbcc.local");
    assert_eq!(query.qtype, 1);
    assert!(query.unicast_response);
    assert_eq!(classify_query(&query, &sample_config()), Some(ResponseKind::AOnly));
}

#[test]
fn compression_loop_is_rejected() {
    // The question name is a pointer to itself.
    let packet = vec![0u8, 0, 0, 0, 0, 1, 0, 0, 0, 0, 0, 0, 0xC0, 12, 0, 1, 0, 1];
    assert!(parse_query(&packet).is_none());
}

#[test]
fn encoded_hostname_question_reads_back_lower_case() {
    let mut packet = vec![0u8; 64];
    packet[5] = 1;
    let end = encode_dotted_name(&mut packet, 12, "Bench-HUB.local.").expect("encodable");
    packet.truncate(end);
    packet.extend_from_slice(&[0, 255, 0, 1]);
    let query = parse_query(&packet).expect("query");
    assert_eq!(query.name.as_str(), "bench-hub.local");
    assert_eq!(query.qtype, 255);
    assert!(!query.unicast_response);
}

fn hostname_query(unicast: bool, qtype: u16) -> Query {
    Query {
        name: text(64, "isolarail-aabbcc.local"),
        qtype,
        unicast_response: unicast,
    }
}

#[test]
fn unicast_question_is_answered_to_the_sender() {
    let cfg = sample_config();
    let q = hostname_query(true, 1);
    assert_eq!(reply_destination(&q), ReplyDestination::Sender);
    let mut buf = [0u8; 256];
    let (len, dest) = respond_to_query(&q, &cfg, [10, 0, 0, 7], &mut buf).expect("answer");
    assert_eq!(dest, ReplyDestination::Sender);
    let mut direct = [0u8; 256];
    let direct_len = build_a_only_response(&mut direct, &cfg, [10, 0, 0, 7], Some(&q)).unwrap();
    assert_eq!(len, direct_len);
    assert_eq!(&buf[..len], &direct[..direct_len]);
    // One question echoed, one answer.
    assert_eq!(&buf[4..8], &[0, 1, 0, 1]);
}

#[test]
fn multicast_question_is_answered_to_the_group() {
    let mut buf = [0u8; 256];
    let (_, dest) = respond_to_query(&hostname_query(false, 255), &sample_config(), [10, 0, 0, 7], &mut buf)
        .expect("answer");
    assert_eq!(dest, ReplyDestination::Multicast);
}

#[test]
fn foreign_question_gets_no_answer() {
    let mut buf = [7u8; 64];
    assert_eq!(respond_to_query(&hostname_query(true, 28), &sample_config(), [10, 0, 0, 7], &mut buf), None);
    assert!(buf.iter().all(|&b| b == 7));
}

#[test]
fn answer_that_does_not_fit_is_not_sent() {
    let mut buf = [0u8; 20];
    assert_eq!(respond_to_query(&hostname_query(true, 1), &sample_config(), [10, 0, 0, 7], &mut buf), None);
}
