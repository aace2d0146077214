use dns_relay::codec::{DecodeError, EncodeError};
use dns_relay::message::{AnswerRecord, MAX_UDP_PAYLOAD};
use dns_relay::outcome::ResolveError;
use dns_relay::relay::{accept, conclude};
use dns_relay::routing::{RoutingPolicy, UpstreamId};
use trust_dns_proto::op::{Message as WireMessage, MessageType, Query, ResponseCode};
use trust_dns_proto::rr::rdata::A;
use trust_dns_proto::rr::{Name, RData, RecordType};
use trust_dns_proto::serialize::binary::BinEncodable;

fn query_datagram(id: u16, names: &[&str]) -> Vec<u8> {
    let mut wire = WireMessage::new();
    wire.set_id(id).set_recursion_desired(true);
    for name in names {
        wire.add_query(Query::query(Name::from_ascii(name).unwrap(), RecordType::A));
    }
    wire.to_vec().unwrap()
}

fn address(name: &str, a: [u8; 4]) -> AnswerRecord {
    AnswerRecord {
        name: Name::from_ascii(name).unwrap().to_bytes().unwrap(),
        record_type: 1,
        class: 1,
        ttl: 120,
        rdata: a.to_vec(),
    }
}

#[test]
fn example_com_is_answered_by_the_public_upstream() {
    let datagram = query_datagram(0x1234, &["example.com."]);
    let mut d = accept(&datagram, &RoutingPolicy::standard(), 4).unwrap();
    let lookup = d.next_lookup().unwrap();
    assert_eq!(lookup.upstream, UpstreamId::Public);
    assert_eq!(lookup.name, "example.com.");
    assert_eq!(lookup.record_type, 1);
    assert!(d.complete(lookup.index, Ok(vec![address("example.com.", [93, 184, 216, 34])])));
    let octets = conclude(&mut d, MAX_UDP_PAYLOAD).unwrap();
    assert_eq!(octets[..2], datagram[..2]);
    assert_eq!(octets[2], datagram[2] | 0x80);
    assert_eq!(octets[3], datagram[3]);
    assert_eq!(octets[4..6], datagram[4..6]);
    assert_eq!(octets[8..12], datagram[8..12]);
    assert_eq!(octets[12..datagram.len()], datagram[12..]);
    let reply = WireMessage::from_vec(&octets).unwrap();
    assert_eq!(reply.id(), 0x1234);
    assert_eq!(reply.message_type(), MessageType::Response);
    assert_eq!(reply.response_code(), ResponseCode::NoError);
    assert!(reply.recursion_desired());
    assert!(!reply.truncated());
    assert_eq!(reply.queries(), WireMessage::from_vec(&datagram).unwrap().queries());
    assert_eq!(reply.answers().len(), 1);
    assert_eq!(reply.answers()[0].name().to_ascii(), "example.com.");
    assert_eq!(reply.answers()[0].record_type(), RecordType::A);
    assert_eq!(reply.answers()[0].ttl(), 120);
    assert_eq!(reply.answers()[0].data(), Some(&RData::A(A::new(93, 184, 216, 34))));
}

#[test]
fn cn_fragment_inside_the_name_goes_to_the_public_upstream() {
    let datagram = query_datagram(1, &["mail.cn.example.com."]);
    let mut d = accept(&datagram, &RoutingPolicy::standard(), 1).unwrap();
    assert_eq!(d.next_lookup().unwrap().upstream, UpstreamId::Public);
}

#[test]
fn name_under_cn_goes_to_the_default_upstream() {
    let datagram = query_datagram(1, &["www.example.CN.", "cn."]);
    let mut d = accept(&datagram, &RoutingPolicy::standard(), 2).unwrap();
    let lookup = d.next_lookup().unwrap();
    assert_eq!(lookup.upstream, UpstreamId::Default);
    assert_eq!(lookup.name, "www.example.CN.");
    assert_eq!(d.next_lookup().unwrap().upstream, UpstreamId::Public);
}

#[test]
fn one_timeout_leaves_the_other_answer_in_the_reply() {
    let datagram = query_datagram(0x0777, &["a.example.", "b.example."]);
    let mut d = accept(&datagram, &RoutingPolicy::standard(), 2).unwrap();
    assert_eq!(d.next_lookup().unwrap().index, 0);
    assert_eq!(d.next_lookup().unwrap().index, 1);
    assert!(d.complete(1, Err(ResolveError::Timeout)));
    assert!(d.complete(0, Ok(vec![address("a.example.", [192, 0, 2, 10])])));
    let reply = WireMessage::from_vec(&conclude(&mut d, MAX_UDP_PAYLOAD).unwrap()).unwrap();
    assert_eq!(reply.id(), 0x0777);
    assert_eq!(reply.queries().len(), 2);
    assert_eq!(reply.answers().len(), 1);
    assert_eq!(reply.answers()[0].name().to_ascii(), "a.example.");
    assert_eq!(reply.response_code(), ResponseCode::NoError);
    assert!(!reply.truncated());
}

#[test]
fn deadline_without_any_outcome_is_answered_with_server_failure() {
    let datagram = query_datagram(0x0042, &["slow.example."]);
    let mut d = accept(&datagram, &RoutingPolicy::standard(), 2).unwrap();
    d.next_lookup();
    let reply = WireMessage::from_vec(&conclude(&mut d, MAX_UDP_PAYLOAD).unwrap()).unwrap();
    assert!(d.is_settled());
    assert_eq!(reply.id(), 0x0042);
    assert_eq!(reply.message_type(), MessageType::Response);
    assert_eq!(reply.response_code(), ResponseCode::ServFail);
    assert!(reply.answers().is_empty());
    assert_eq!(reply.queries().len(), 1);
}

#[test]
fn two_requests_in_turn_keep_their_ids() {
    let first = query_datagram(0x1111, &["one.example."]);
    let second = query_datagram(0x2222, &["two.example."]);
    let policy = RoutingPolicy::standard();
    let mut d1 = accept(&first, &policy, 1).unwrap();
    let mut d2 = accept(&second, &policy, 1).unwrap();
    let l1 = d1.next_lookup().unwrap();
    let l2 = d2.next_lookup().unwrap();
    assert!(d2.complete(l2.index, Ok(vec![address("two.example.", [2, 2, 2, 2])])));
    assert!(d1.complete(l1.index, Ok(vec![address("one.example.", [1, 1, 1, 1])])));
    let r2 = WireMessage::from_vec(&conclude(&mut d2, MAX_UDP_PAYLOAD).unwrap()).unwrap();
    let r1 = WireMessage::from_vec(&conclude(&mut d1, MAX_UDP_PAYLOAD).unwrap()).unwrap();
    assert_eq!(r1.id(), 0x1111);
    assert_eq!(r2.id(), 0x2222);
    assert_eq!(r1.answers()[0].data(), Some(&RData::A(A::new(1, 1, 1, 1))));
    assert_eq!(r2.answers()[0].data(), Some(&RData::A(A::new(2, 2, 2, 2))));
}

#[test]
fn same_upstream_answer_gives_the_same_datagram() {
    let datagram = query_datagram(0x0505, &["example.com."]);
    let policy = RoutingPolicy::standard();
    let mut replies = Vec::new();
    for _ in 0..2 {
        let mut d = accept(&datagram, &policy, 1).unwrap();
        let lookup = d.next_lookup().unwrap();
        d.complete(lookup.index, Ok(vec![address("example.com.", [93, 184, 216, 34])]));
        replies.push(conclude(&mut d, MAX_UDP_PAYLOAD).unwrap());
    }
    assert_eq!(replies[0], replies[1]);
}

#[test]
fn reply_over_the_limit_is_cut_and_marked() {
    let datagram = query_datagram(9, &["a.example."]);
    let mut d = accept(&datagram, &RoutingPolicy::standard(), 1).unwrap();
    d.next_lookup();
    let many: Vec<AnswerRecord> = (0..40u8).map(|i| address("a.example.", [10, 0, 0, i])).collect();
    d.complete(0, Ok(many));
    let octets = conclude(&mut d, MAX_UDP_PAYLOAD).unwrap();
    assert_eq!(octets.len(), 507);
    let reply = WireMessage::from_vec(&octets).unwrap();
    assert!(reply.truncated());
    assert_eq!(reply.answers().len(), 30);
    assert_eq!(reply.answers()[29].data(), Some(&RData::A(A::new(10, 0, 0, 29))));
}

#[test]
fn reply_within_the_limit_is_whole() {
    let datagram = query_datagram(9, &["a.example."]);
    let mut d = accept(&datagram, &RoutingPolicy::standard(), 1).unwrap();
    d.next_lookup();
    let many: Vec<AnswerRecord> = (0..25u8).map(|i| address("a.example.", [10, 0, 0, i])).collect();
    d.complete(0, Ok(many));
    let octets = conclude(&mut d, MAX_UDP_PAYLOAD).unwrap();
    assert_eq!(octets.len(), 427);
    let reply = WireMessage::from_vec(&octets).unwrap();
    assert!(!reply.truncated());
    assert_eq!(reply.answers().len(), 25);
}

#[test]
fn upstream_records_of_a_signing_type_do_no_harm() {
    let mut datagram = query_datagram(9, &["a.example."]);
    datagram[24] = 48;
    let mut d = accept(&datagram, &RoutingPolicy::standard(), 1).unwrap();
    let lookup = d.next_lookup().unwrap();
    assert_eq!(lookup.record_type, 48);
    let key = AnswerRecord {
        name: Name::from_ascii("a.example.").unwrap().to_bytes().unwrap(),
        record_type: 48,
        class: 1,
        ttl: 60,
        rdata: vec![1, 0, 3, 8, 1, 2, 3],
    };
    d.complete(0, Ok(vec![key]));
    let octets = conclude(&mut d, MAX_UDP_PAYLOAD).unwrap();
    assert_eq!(octets[..27], [&[0, 9, 0x81, 0, 0, 1, 0, 1, 0, 0, 0, 0], &datagram[12..]].concat()[..]);
    assert_eq!(octets[27..], [0xc0, 0x0c, 0, 48, 0, 1, 0, 0, 0, 60, 0, 7, 1, 0, 3, 8, 1, 2, 3]);
}

#[test]
fn garbage_opens_no_dispatch() {
    let policy = RoutingPolicy::standard();
    assert_eq!(accept(&[1, 2, 3], &policy, 1).err(), Some(DecodeError::Header));
    let mut cut = query_datagram(1, &["example.com."]);
    cut.truncate(20);
    assert_eq!(accept(&cut, &policy, 1).err(), Some(DecodeError::Questions));
}

#[test]
fn reply_that_cannot_be_sent_is_reported() {
    let datagram = query_datagram(9, &["a.example."]);
    let mut d = accept(&datagram, &RoutingPolicy::standard(), 1).unwrap();
    d.next_lookup();
    d.complete(0, Ok(vec![address("a.example.", [1, 2, 3, 4])]));
    assert_eq!(conclude(&mut d, 20), Err(EncodeError::TooLong));
    assert_eq!(conclude(&mut d, 27).unwrap().len(), 27);
    assert_eq!(conclude(&mut d, 43).unwrap().len(), 43);
}
