use dns_relay::assemble::{assemble, collect_resolved, Reply};
use dns_relay::codec::EncodeError;
use dns_relay::message::{AnswerRecord, Header, Message, Question};
use dns_relay::message::{MAX_UDP_PAYLOAD, RCODE_SERVER_FAILURE};
use dns_relay::outcome::{outcome_of_failure, LookupFailure, Outcome, ResolveError};
use dns_relay::size::{charge_question, charge_questions, charge_record, charge_records};
use trust_dns_proto::op::{Message as WireMessage, MessageType, Query};
use trust_dns_proto::rr::rdata::A;
use trust_dns_proto::rr::{Name, RData, RecordType};
use trust_dns_proto::serialize::binary::BinEncodable;

fn wire_name(name: &str) -> Vec<u8> {
    Name::from_ascii(name).unwrap().to_bytes().unwrap()
}

fn question(name: &str) -> Question {
    let query = Query::query(Name::from_ascii(name).unwrap(), RecordType::A);
    Question { name: name.to_string(), record_type: 1, class: 1, wire: query.to_bytes().unwrap() }
}

fn a_record(name: &str, address: [u8; 4]) -> AnswerRecord {
    AnswerRecord { name: wire_name(name), record_type: 1, class: 1, ttl: 300, rdata: address.to_vec() }
}

fn query_header(id: u16) -> Header {
    Header {
        id,
        response: false,
        op_code: 0,
        authoritative: false,
        truncated: false,
        recursion_desired: true,
        recursion_available: false,
        authentic_data: false,
        checking_disabled: false,
        response_code: 0,
    }
}

fn request(id: u16, names: &[&str]) -> Message {
    Message {
        header: query_header(id),
        questions: names.iter().map(|n| question(n)).collect(),
        answers: Vec::new(),
    }
}

fn reply_header(id: u16) -> Header {
    Header { response: true, ..query_header(id) }
}

#[test]
fn public_answer_is_echoed_with_id_and_question() {
    let req = request(0x1234, &["example.com."]);
    let reported = vec![a_record("example.com.", [93, 184, 216, 34])];
    let outcomes: Vec<Outcome> = vec![Ok(reported.clone())];
    let reply = assemble(&req, &outcomes, MAX_UDP_PAYLOAD).unwrap();
    assert_eq!(reply.message.header, reply_header(0x1234));
    assert_eq!(reply.message.questions, req.questions);
    assert_eq!(reply.message.answers, reported);
    let wire = WireMessage::from_vec(&reply.octets).unwrap();
    assert_eq!(wire.id(), 0x1234);
    assert_eq!(wire.message_type(), MessageType::Response);
    assert!(wire.recursion_desired());
    assert!(!wire.truncated());
    assert_eq!(wire.queries().len(), 1);
    assert_eq!(wire.queries()[0].name().to_ascii(), "example.com.");
    assert_eq!(wire.answers().len(), 1);
    assert_eq!(wire.answers()[0].ttl(), 300);
    assert_eq!(wire.answers()[0].data(), Some(&RData::A(A::new(93, 184, 216, 34))));
}

#[test]
fn reply_octets_are_what_the_codec_writes() {
    let req = request(0x1234, &["example.com."]);
    let outcomes: Vec<Outcome> = vec![Ok(vec![a_record("example.com.", [93, 184, 216, 34])])];
    let reply = assemble(&req, &outcomes, MAX_UDP_PAYLOAD).unwrap();
    let mut expected = vec![0x12, 0x34, 0x81, 0x00, 0, 1, 0, 1, 0, 0, 0, 0];
    expected.extend_from_slice(&[7, b'e', b'x', b'a', b'm', b'p', b'l', b'e', 3, b'c', b'o', b'm', 0]);
    expected.extend_from_slice(&[0, 1, 0, 1]);
    expected.extend_from_slice(&[0xc0, 0x0c, 0, 1, 0, 1, 0, 0, 1, 0x2c, 0, 4, 93, 184, 216, 34]);
    assert_eq!(reply.octets, expected);
}

#[test]
fn records_keep_the_order_the_upstream_gave() {
    let req = request(7, &["example.com."]);
    let reported = vec![
        a_record("example.com.", [10, 0, 0, 3]),
        a_record("example.com.", [10, 0, 0, 1]),
        a_record("example.com.", [10, 0, 0, 2]),
    ];
    let reply = assemble(&req, &vec![Ok(reported.clone())], MAX_UDP_PAYLOAD).unwrap();
    assert_eq!(reply.message.answers, reported);
}

#[test]
fn failed_question_leaves_the_other_answers() {
    let req = request(9, &["a.example.", "b.example."]);
    let a = vec![a_record("a.example.", [192, 0, 2, 1])];
    let outcomes: Vec<Outcome> = vec![Ok(a.clone()), Err(ResolveError::Timeout)];
    let reply = assemble(&req, &outcomes, MAX_UDP_PAYLOAD).unwrap();
    assert_eq!(reply.message.answers, a);
    assert_eq!(reply.message.questions.len(), 2);
    assert_eq!(reply.message.header, reply_header(9));
    let wire = WireMessage::from_vec(&reply.octets).unwrap();
    assert_eq!(wire.answers().len(), 1);
    assert_eq!(wire.queries().len(), 2);
}

#[test]
fn answers_follow_question_order() {
    let req = request(9, &["a.example.", "b.example.", "c.example."]);
    let a = a_record("a.example.", [192, 0, 2, 1]);
    let c1 = a_record("c.example.", [192, 0, 2, 3]);
    let c2 = a_record("c.example.", [192, 0, 2, 4]);
    let outcomes: Vec<Outcome> =
        vec![Ok(vec![a.clone()]), Err(ResolveError::NetworkError), Ok(vec![c1.clone(), c2.clone()])];
    let reply = assemble(&req, &outcomes, MAX_UDP_PAYLOAD).unwrap();
    assert_eq!(reply.message.answers, vec![a, c1, c2]);
}

#[test]
fn same_outcomes_give_the_same_reply() {
    let req = request(0x4242, &["example.com."]);
    let outcomes: Vec<Outcome> = vec![Ok(vec![a_record("example.com.", [93, 184, 216, 34])])];
    let first = assemble(&req, &outcomes, MAX_UDP_PAYLOAD);
    let second = assemble(&req, &outcomes, MAX_UDP_PAYLOAD);
    assert!(first.is_ok());
    assert_eq!(first, second);
}

#[test]
fn each_reply_carries_its_own_id() {
    let one = request(0x0001, &["one.example."]);
    let two = request(0x0002, &["two.example."]);
    let outcomes_one: Vec<Outcome> = vec![Ok(vec![a_record("one.example.", [1, 1, 1, 1])])];
    let outcomes_two: Vec<Outcome> = vec![Ok(vec![a_record("two.example.", [2, 2, 2, 2])])];
    let reply_two = assemble(&two, &outcomes_two, MAX_UDP_PAYLOAD).unwrap();
    let reply_one = assemble(&one, &outcomes_one, MAX_UDP_PAYLOAD).unwrap();
    assert_eq!(reply_one.message.header.id, 0x0001);
    assert_eq!(reply_two.message.header.id, 0x0002);
    assert_eq!(reply_one.octets[..2], [0, 1]);
    assert_eq!(reply_two.octets[..2], [0, 2]);
    assert_eq!(reply_one.message.answers[0].rdata, vec![1, 1, 1, 1]);
    assert_eq!(reply_two.message.answers[0].rdata, vec![2, 2, 2, 2]);
}

#[test]
fn no_records_is_no_failure() {
    let req = request(3, &["empty.example."]);
    let reply = assemble(&req, &vec![Ok(Vec::new())], MAX_UDP_PAYLOAD).unwrap();
    assert!(reply.message.answers.is_empty());
    assert_eq!(reply.message.header, reply_header(3));
}

#[test]
fn nothing_resolved_is_a_server_failure() {
    let req = request(3, &["a.example.", "b.example."]);
    let outcomes: Vec<Outcome> = vec![Err(ResolveError::Timeout), Err(ResolveError::Malformed)];
    let reply = assemble(&req, &outcomes, MAX_UDP_PAYLOAD).unwrap();
    assert!(reply.message.answers.is_empty());
    assert_eq!(reply.message.header.response_code, RCODE_SERVER_FAILURE);
    assert_eq!(
        reply.message.header,
        Header { response_code: 2, ..reply_header(3) }
    );
    assert_eq!(reply.message.questions, req.questions);
    assert_eq!(reply.octets[3] & 0x0f, 2);
}

#[test]
fn missing_outcome_counts_as_timed_out() {
    let req = request(3, &["a.example.", "b.example."]);
    let a = vec![a_record("a.example.", [192, 0, 2, 1])];
    let reply = assemble(&req, &vec![Ok(a.clone())], MAX_UDP_PAYLOAD).unwrap();
    assert_eq!(reply.message.answers, a);
    let none = assemble(&req, &Vec::new(), MAX_UDP_PAYLOAD).unwrap();
    assert!(none.message.answers.is_empty());
    assert_eq!(none.message.header.response_code, RCODE_SERVER_FAILURE);
}

#[test]
fn outcome_without_question_is_not_looked_at() {
    let req = request(3, &["a.example."]);
    let a = vec![a_record("a.example.", [192, 0, 2, 1])];
    let extra = vec![a_record("z.example.", [192, 0, 2, 9])];
    let reply = assemble(&req, &vec![Ok(a.clone()), Ok(extra)], MAX_UDP_PAYLOAD).unwrap();
    assert_eq!(reply.message.answers, a);
}

#[test]
fn request_without_questions_is_answered_empty() {
    let req = request(5, &[]);
    let reply = assemble(&req, &Vec::new(), MAX_UDP_PAYLOAD).unwrap();
    assert_eq!(reply.message.header, reply_header(5));
    assert!(reply.message.questions.is_empty());
    assert!(reply.message.answers.is_empty());
    assert_eq!(reply.octets, vec![0, 5, 0x81, 0, 0, 0, 0, 0, 0, 0, 0, 0]);
}

#[test]
fn records_in_the_request_are_not_repeated() {
    let mut req = request(5, &["a.example."]);
    req.answers.push(a_record("own.example.", [10, 1, 1, 1]));
    let got = a_record("a.example.", [192, 0, 2, 1]);
    let reply = assemble(&req, &vec![Ok(vec![got.clone()])], MAX_UDP_PAYLOAD).unwrap();
    assert_eq!(reply.message.answers, vec![got]);
}

// On the wire the request "a.example." takes 12 + 15 octets, and each of
// its address records, its name a pointer, 2 + 10 + 4.
#[test]
fn reply_that_fits_on_the_wire_is_not_cut() {
    let req = request(5, &["a.example."]);
    let records: Vec<AnswerRecord> =
        (0..25u8).map(|i| a_record("a.example.", [192, 0, 2, i])).collect();
    let reply = assemble(&req, &vec![Ok(records.clone())], MAX_UDP_PAYLOAD).unwrap();
    assert_eq!(reply.message.answers, records);
    assert!(!reply.message.header.truncated);
    assert_eq!(reply.octets.len(), 27 + 25 * 16);
    assert_eq!(reply.octets.len(), 427);
}

#[test]
fn reply_keeps_the_longest_run_that_fits_on_the_wire() {
    let req = request(5, &["a.example."]);
    let records: Vec<AnswerRecord> =
        (0..40u8).map(|i| a_record("a.example.", [192, 0, 2, i])).collect();
    let reply = assemble(&req, &vec![Ok(records.clone())], MAX_UDP_PAYLOAD).unwrap();
    assert_eq!(reply.message.answers.len(), 30);
    assert_eq!(reply.message.answers[..], records[..30]);
    assert!(reply.message.header.truncated);
    assert_eq!(reply.message.header, Header { truncated: true, ..reply_header(5) });
    assert_eq!(reply.octets.len(), 27 + 30 * 16);
    let wire = WireMessage::from_vec(&reply.octets).unwrap();
    assert!(wire.truncated());
    assert_eq!(wire.answers().len(), 30);
    assert_eq!(wire.answers()[29].data(), Some(&RData::A(A::new(192, 0, 2, 29))));
}

#[test]
fn exact_fit_is_not_truncated() {
    let req = request(5, &["a.example."]);
    let records: Vec<AnswerRecord> =
        (0..2u8).map(|i| a_record("a.example.", [192, 0, 2, i])).collect();
    let fits = assemble(&req, &vec![Ok(records.clone())], 27 + 2 * 16).unwrap();
    assert_eq!(fits.message.answers, records);
    assert!(!fits.message.header.truncated);
    assert_eq!(fits.octets.len(), 59);
    let cut = assemble(&req, &vec![Ok(records.clone())], 27 + 2 * 16 - 1).unwrap();
    assert_eq!(cut.message.answers[..], records[..1]);
    assert!(cut.message.header.truncated);
    assert_eq!(cut.octets.len(), 43);
}

#[test]
fn later_small_record_does_not_jump_the_queue() {
    let req = request(5, &["a.example."]);
    let big = AnswerRecord {
        name: wire_name("a.example."),
        record_type: 16,
        class: 1,
        ttl: 1,
        rdata: vec![0u8; 600],
    };
    let small = a_record("a.example.", [192, 0, 2, 1]);
    let reply = assemble(&req, &vec![Ok(vec![big, small])], MAX_UDP_PAYLOAD).unwrap();
    assert!(reply.message.answers.is_empty());
    assert!(reply.message.header.truncated);
    assert_eq!(reply.message.header.response_code, 0);
    assert_eq!(reply.octets.len(), 27);
}

#[test]
fn limit_below_the_bare_reply_fails_the_assembly() {
    let req = request(5, &["a.example."]);
    let records = vec![a_record("a.example.", [192, 0, 2, 1])];
    assert_eq!(assemble(&req, &vec![Ok(records.clone())], 26), Err(EncodeError::TooLong));
    assert_eq!(assemble(&req, &vec![Ok(records.clone())], 0), Err(EncodeError::TooLong));
    let bare = assemble(&req, &vec![Ok(records)], 27).unwrap();
    assert!(bare.message.answers.is_empty());
    assert!(bare.message.header.truncated);
}

#[test]
fn request_that_cannot_be_written_fails_the_assembly() {
    let mut req = request(5, &["a.example."]);
    req.header.op_code = 7;
    assert_eq!(assemble(&req, &vec![Ok(Vec::new())], MAX_UDP_PAYLOAD), Err(EncodeError::Unwritable));
    let mut bad = request(5, &["a.example."]);
    bad.questions[0].wire = vec![200, 1, 2];
    assert_eq!(assemble(&bad, &vec![Ok(Vec::new())], MAX_UDP_PAYLOAD), Err(EncodeError::Unwritable));
}

#[test]
fn record_that_cannot_be_written_ends_the_run_before_it() {
    let req = request(5, &["a.example."]);
    let good = a_record("a.example.", [192, 0, 2, 1]);
    let bad = AnswerRecord { name: vec![9, b'x'], record_type: 1, class: 1, ttl: 1, rdata: vec![1] };
    let after = a_record("a.example.", [192, 0, 2, 2]);
    let reply =
        assemble(&req, &vec![Ok(vec![good.clone(), bad, after])], MAX_UDP_PAYLOAD).unwrap();
    assert_eq!(reply.message.answers, vec![good]);
    assert!(reply.message.header.truncated);
}

#[test]
fn truncation_flag_of_the_request_is_kept() {
    let mut req = request(5, &["a.example."]);
    req.header.truncated = true;
    req.header.checking_disabled = true;
    let reply = assemble(&req, &vec![Ok(Vec::new())], MAX_UDP_PAYLOAD).unwrap();
    assert_eq!(
        reply.message.header,
        Header { truncated: true, checking_disabled: true, ..reply_header(5) }
    );
    assert_eq!(reply.octets[2..4], [0x83, 0x10]);
}

#[test]
fn record_without_data_is_written_with_length_zero() {
    let req = request(5, &[]);
    let bare = AnswerRecord { name: vec![0], record_type: 2, class: 3, ttl: 0, rdata: vec![] };
    let reply = Reply {
        message: Message { header: reply_header(5), questions: vec![], answers: vec![bare.clone()] },
        octets: vec![0, 5, 0x81, 0, 0, 0, 0, 1, 0, 0, 0, 0, 0, 0, 2, 0, 3, 0, 0, 0, 0, 0, 0],
    };
    assert_eq!(dns_relay::codec::encode(&reply.message), Some(reply.octets.clone()));
    assert!(assemble(&req, &Vec::new(), 12).is_ok());
}

#[test]
fn collect_gathers_the_resolved_in_question_order() {
    let a = a_record("a.example.", [1, 0, 0, 1]);
    let b = a_record("b.example.", [1, 0, 0, 2]);
    let outcomes: Vec<Outcome> =
        vec![Err(ResolveError::Timeout), Ok(vec![a.clone()]), Ok(vec![b.clone()])];
    assert_eq!(collect_resolved(&outcomes, 3), (vec![a.clone(), b], false));
    assert_eq!(collect_resolved(&outcomes, 2), (vec![a], false));
    assert_eq!(collect_resolved(&outcomes, 1), (Vec::new(), true));
    assert_eq!(collect_resolved(&outcomes, 0), (Vec::new(), false));
}

#[test]
fn copies_are_equal_to_what_they_copy() {
    let mut m = request(1, &["a.example."]);
    m.answers.push(a_record("a.example.", [1, 2, 3, 4]));
    assert_eq!(m.clone(), m);
    assert_eq!(dns_relay::message::copy_questions(&m.questions), m.questions);
    assert_eq!(dns_relay::message::copy_records(&m.answers), m.answers);
}

#[test]
fn upstream_without_records_resolved_the_question() {
    assert_eq!(outcome_of_failure(LookupFailure::NoRecords), Ok(Vec::new()));
    assert_eq!(outcome_of_failure(LookupFailure::Timeout), Err(ResolveError::Timeout));
    assert_eq!(outcome_of_failure(LookupFailure::Network), Err(ResolveError::NetworkError));
    assert_eq!(outcome_of_failure(LookupFailure::Protocol), Err(ResolveError::Malformed));
    let req = request(3, &["empty.example."]);
    let outcomes = vec![outcome_of_failure(LookupFailure::NoRecords)];
    let reply = assemble(&req, &outcomes, MAX_UDP_PAYLOAD).unwrap();
    assert_eq!(reply.message.header.response_code, 0);
}

#[test]
fn budget_is_charged_by_the_written_out_size() {
    let q = question("a.example.");
    assert_eq!(charge_question(15, &q), Some(0));
    assert_eq!(charge_question(100, &q), Some(85));
    assert_eq!(charge_question(14, &q), None);
    assert_eq!(charge_question(0, &q), None);
    let r = a_record("a.example.", [1, 2, 3, 4]);
    assert_eq!(charge_record(25, &r), Some(0));
    assert_eq!(charge_record(24, &r), None);
    assert_eq!(charge_record(usize::MAX, &r), Some(usize::MAX - 25));
    assert_eq!(charge_questions(31, &vec![question("a.example."), question("b.example.")]), Some(1));
    assert_eq!(charge_questions(29, &vec![question("a.example."), question("b.example.")]), None);
    assert_eq!(charge_questions(0, &Vec::new()), Some(0));
    assert_eq!(charge_records(50, &vec![r.clone(), r.clone()]), Some(0));
    assert_eq!(charge_records(49, &vec![r.clone(), r]), None);
    let mut m = request(1, &["a.example."]);
    assert!(m.fits(27));
    assert!(!m.fits(26));
    m.answers.push(a_record("a.example.", [1, 2, 3, 4]));
    assert!(m.fits(52));
    assert!(!m.fits(51));
}
