use wascc_authz::extras::MAX_REQUEST_BYTES;
use wascc_authz::{
    random_reply, ExtrasProvider, GeneratorRequest, Operation, ProviderError, CAPABILITY_ID,
    OP_REQUEST_GUID, OP_REQUEST_RANDOM, OP_REQUEST_SEQUENCE,
};
use wascc_codec::extras::GeneratorResult;

fn request(random: bool, min: u32, max: u32) -> Vec<u8> {
    wascc_codec::serialize(wascc_codec::extras::GeneratorRequest {
        guid: false,
        sequence: false,
        random,
        min,
        max,
    })
    .unwrap()
}

fn result(bytes: &[u8]) -> GeneratorResult {
    wascc_codec::deserialize(bytes).unwrap()
}

#[test]
fn provider_identifies_itself() {
    let p = ExtrasProvider::new();
    assert_eq!(p.capability_id(), "wascc:extras");
    assert_eq!(CAPABILITY_ID, "wascc:extras");
}

#[test]
fn operation_names_are_recognised() {
    assert_eq!(wascc_authz::extras::operation(OP_REQUEST_GUID), Some(Operation::Guid));
    assert_eq!(wascc_authz::extras::operation(OP_REQUEST_SEQUENCE), Some(Operation::Sequence));
    assert_eq!(wascc_authz::extras::operation(OP_REQUEST_RANDOM), Some(Operation::Random));
    assert_eq!(wascc_authz::extras::operation("RequestTime"), None);
}

#[test]
fn sequences_count_per_actor() {
    let mut p = ExtrasProvider::new();
    let msg = request(false, 0, 0);
    let a0 = result(&p.handle_call("A", OP_REQUEST_SEQUENCE, &msg).unwrap());
    let a1 = result(&p.handle_call("A", OP_REQUEST_SEQUENCE, &msg).unwrap());
    let b0 = result(&p.handle_call("B", OP_REQUEST_SEQUENCE, &msg).unwrap());
    let a2 = result(&p.handle_call("A", OP_REQUEST_SEQUENCE, &msg).unwrap());
    assert_eq!(a0.sequence_number, 0);
    assert_eq!(a1.sequence_number, 1);
    assert_eq!(b0.sequence_number, 0);
    assert_eq!(a2.sequence_number, 2);
    assert_eq!(a2.guid, None);
    assert_eq!(p.next_sequence("B"), 1);
}

#[test]
fn random_number_stays_in_range() {
    let mut p = ExtrasProvider::new();
    for _ in 0..50 {
        let r = result(&p.handle_call("A", OP_REQUEST_RANDOM, &request(true, 10, 13)).unwrap());
        assert!(r.random_number >= 10 && r.random_number < 13);
        assert_eq!(r.sequence_number, 0);
    }
}

#[test]
fn random_without_request_flag_is_default() {
    let mut p = ExtrasProvider::new();
    let r = result(&p.handle_call("A", OP_REQUEST_RANDOM, &request(false, 10, 13)).unwrap());
    assert_eq!(r, GeneratorResult::default());
}

#[test]
fn random_with_empty_range_fails() {
    let mut p = ExtrasProvider::new();
    assert_eq!(
        p.handle_call("A", OP_REQUEST_RANDOM, &request(true, 5, 5)),
        Err(ProviderError::EmptyRange)
    );
}

#[test]
fn random_reply_carries_drawn_number() {
    let req = GeneratorRequest { guid: false, sequence: false, random: true, min: 1, max: 100 };
    let r = result(&random_reply(req, 77).unwrap());
    assert_eq!(r.random_number, 77);
}

#[test]
fn guid_is_hyphenated() {
    let mut p = ExtrasProvider::new();
    let r = result(&p.handle_call("A", OP_REQUEST_GUID, &request(false, 0, 0)).unwrap());
    let g: Vec<char> = r.guid.unwrap().chars().collect();
    assert_eq!(g.len(), 36);
    for (i, c) in g.iter().enumerate() {
        if i == 8 || i == 13 || i == 18 || i == 23 {
            assert_eq!(*c, '-');
        } else {
            assert!(c.is_ascii_digit() || ('a'..='f').contains(c));
        }
    }
    assert_eq!(g[14], '4');
    assert!(matches!(g[19], '8' | '9' | 'a' | 'b'));
}

#[test]
fn unknown_operation_fails() {
    let mut p = ExtrasProvider::new();
    assert_eq!(
        p.handle_call("A", "RequestTime", &request(false, 0, 0)),
        Err(ProviderError::UnknownOperation)
    );
}

#[test]
fn malformed_payload_fails() {
    let mut p = ExtrasProvider::new();
    assert_eq!(
        p.handle_call("A", OP_REQUEST_SEQUENCE, &[0xc1]),
        Err(ProviderError::MalformedRequest)
    );
    assert_eq!(p.next_sequence("A"), 0);
}

#[test]
fn oversized_payload_fails() {
    let mut p = ExtrasProvider::new();
    let mut msg = request(false, 0, 0);
    msg.resize(MAX_REQUEST_BYTES + 1, 0);
    assert_eq!(
        p.handle_call("A", OP_REQUEST_SEQUENCE, &msg),
        Err(ProviderError::MalformedRequest)
    );
    let nested = vec![0x91u8; 1_000_000];
    assert_eq!(
        p.handle_call("A", OP_REQUEST_RANDOM, &nested),
        Err(ProviderError::MalformedRequest)
    );
    assert_eq!(p.handle_call("A", "RequestTime", &nested), Err(ProviderError::UnknownOperation));
    assert_eq!(p.next_sequence("A"), 0);
}

#[test]
fn nested_payload_within_bound_fails_cleanly() {
    let mut p = ExtrasProvider::new();
    let nested = vec![0x91u8; MAX_REQUEST_BYTES];
    assert_eq!(
        p.handle_call("A", OP_REQUEST_GUID, &nested),
        Err(ProviderError::MalformedRequest)
    );
}
