//! End-to-end tests of the event-to-response pipeline core.

use haiku_core::channel::BoundedChannel;
use haiku_core::config::{Config, EventConfig};
use haiku_core::hexfelt::{parse_credentials, parse_hex_scalar, CredentialError};
use haiku_core::memory::{MemoryRecord, MemoryStore};
use haiku_core::offchain::{encode_message, sign_offchain_message, OffchainMessage};
use haiku_core::pipeline::{
    build_request, step, PipelineAction, PipelineEvent, PipelineState, PromptRequest, RequestError,
};
use haiku_core::prompt::compose_prompt;
use haiku_core::run::RunSubcommand;
use haiku_core::tags::{str_eq, tags_match_exec, TagPair};
use starknet_crypto::Felt;

fn tag(key: &str, value: &str) -> TagPair {
    TagPair { key: key.to_string(), value: value.to_string() }
}

fn combat_config() -> Config {
    Config {
        agent_name: "haiku".to_string(),
        story: "You are a storyteller. ".to_string(),
        events: vec![EventConfig { tag: "combat".to_string() }],
        retrieval_limit: 5,
    }
}

fn combat_request() -> PromptRequest {
    PromptRequest {
        id: 1,
        event_tag: "combat".to_string(),
        prompt_text: "A dragon attacks the village".to_string(),
        retrieval_tags: vec![tag("region", "north")],
        storage_tags: vec![tag("region", "north")],
        timestamp: 1700000000,
    }
}

#[test]
fn str_eq_basics() {
    assert!(str_eq("abc", "abc"));
    assert!(!str_eq("abc", "abd"));
    assert!(!str_eq("abc", "abcd"));
    assert!(str_eq("", ""));
}

#[test]
fn tags_superset_match() {
    let filter = vec![tag("region", "north")];
    let tags = vec![tag("biome", "tundra"), tag("region", "north")];
    assert!(tags_match_exec(&filter, &tags));
    let other = vec![tag("region", "south")];
    assert!(!tags_match_exec(&filter, &other));
    let empty: Vec<TagPair> = vec![];
    assert!(tags_match_exec(&empty, &other));
    assert!(!tags_match_exec(&filter, &empty));
}

#[test]
fn find_event_resolves_exact_tag() {
    let c = combat_config();
    assert_eq!(c.find_event("combat"), Some(0));
    assert_eq!(c.find_event("unknown"), None);
    assert_eq!(c.find_event(""), None);
}

#[test]
fn empty_store_returns_nothing() {
    let store = MemoryStore::new(3);
    let out = store.retrieve_similar(&vec![1, 2, 3], &vec![tag("region", "north")], 10);
    assert!(out.is_empty());
}

#[test]
fn retrieval_filters_ranks_and_limits() {
    let mut store = MemoryStore::new(2);
    let north = vec![tag("region", "north")];
    let south = vec![tag("region", "south")];
    store.store(MemoryRecord {
        text: "far".to_string(),
        embedding: vec![10, 10],
        tags: clone_tags(&north),
        timestamp: 1,
    });
    store.store(MemoryRecord {
        text: "near".to_string(),
        embedding: vec![1, 1],
        tags: clone_tags(&north),
        timestamp: 2,
    });
    store.store(MemoryRecord {
        text: "elsewhere".to_string(),
        embedding: vec![0, 0],
        tags: clone_tags(&south),
        timestamp: 3,
    });
    store.store(MemoryRecord {
        text: "mid".to_string(),
        embedding: vec![4, 4],
        tags: clone_tags(&north),
        timestamp: 4,
    });
    // query at the origin: near (2) < mid (32) < far (200); "elsewhere" filtered out
    let out = store.retrieve_similar(&vec![0, 0], &north, 10);
    assert_eq!(out, vec!["near".to_string(), "mid".to_string(), "far".to_string()]);
    // the limit caps the result
    let out2 = store.retrieve_similar(&vec![0, 0], &north, 2);
    assert_eq!(out2, vec!["near".to_string(), "mid".to_string()]);
    let out0 = store.retrieve_similar(&vec![0, 0], &north, 0);
    assert!(out0.is_empty());
}

#[test]
fn retrieval_round_trip_self_first() {
    let mut store = MemoryStore::new(2);
    let north = vec![tag("region", "north")];
    store.store(MemoryRecord {
        text: "old".to_string(),
        embedding: vec![5, 5],
        tags: clone_tags(&north),
        timestamp: 1,
    });
    store.store(MemoryRecord {
        text: "fresh".to_string(),
        embedding: vec![7, -3],
        tags: clone_tags(&north),
        timestamp: 2,
    });
    let out = store.retrieve_similar(&vec![7, -3], &north, 5);
    assert_eq!(out[0], "fresh".to_string());
}

#[test]
fn retrieval_tie_breaks_by_insertion_order() {
    let mut store = MemoryStore::new(1);
    let none: Vec<TagPair> = vec![];
    store.store(MemoryRecord {
        text: "first".to_string(),
        embedding: vec![3],
        tags: vec![],
        timestamp: 1,
    });
    store.store(MemoryRecord {
        text: "second".to_string(),
        embedding: vec![3],
        tags: vec![],
        timestamp: 2,
    });
    let out = store.retrieve_similar(&vec![3], &none, 2);
    assert_eq!(out, vec!["first".to_string(), "second".to_string()]);
}

#[test]
fn compose_prompt_without_memories_omits_instruction() {
    let out = compose_prompt(
        "You are a storyteller. ",
        "A dragon attacks the village",
        &vec![],
    );
    assert_eq!(
        out,
        "You are a storyteller. An event happened in the world. A dragon attacks the village"
    );
    assert!(!out.contains("For context"));
}

#[test]
fn compose_prompt_with_memories_appends_each() {
    let mems = vec!["one".to_string(), "two".to_string()];
    let out = compose_prompt("S. ", "E", &mems);
    assert_eq!(
        out,
        "S. An event happened in the world. E For context, here are some prompts generated \
         from past events. You must use them in your answer\none.\ntwo."
    );
}

#[test]
fn unknown_tag_fails_without_any_action() {
    let c = combat_config();
    let mut req = combat_request();
    req.event_tag = "unknown".to_string();
    let (state, action) = step(&c, PipelineState::Idle, PipelineEvent::Request { req });
    assert!(action.is_none());
    match state {
        PipelineState::Failed { request_id, error } => {
            assert_eq!(request_id, 1);
            assert_eq!(error, RequestError::TagNotFound);
        }
        _ => panic!("expected a failed request"),
    }
}

#[test]
fn failed_state_is_terminal() {
    let c = combat_config();
    let failed = PipelineState::Failed { request_id: 7, error: RequestError::Provider };
    let (state, action) =
        step(&c, failed, PipelineEvent::Completion { result: Some("r".to_string()) });
    assert!(action.is_none());
    match state {
        PipelineState::Failed { request_id, error } => {
            assert_eq!(request_id, 7);
            assert_eq!(error, RequestError::Provider);
        }
        _ => panic!("failure must be terminal"),
    }
}

#[test]
fn full_pipeline_happy_path() {
    let c = combat_config();
    let mut store = MemoryStore::new(2);

    // resolve the tag and ask for the query embedding
    let (s1, a1) = step(&c, PipelineState::Idle, PipelineEvent::Request { req: combat_request() });
    match a1 {
        Some(PipelineAction::Embed { text }) => {
            assert_eq!(text, "A dragon attacks the village".to_string())
        }
        _ => panic!("expected an embedding request"),
    }

    // the provider answers; the pipeline asks for retrieval
    let (s2, a2) = step(&c, s1, PipelineEvent::QueryEmbedding { result: Some(vec![1, 2]) });
    let memories = match a2 {
        Some(PipelineAction::Retrieve { query, filter, limit }) => {
            assert_eq!(query, vec![1, 2]);
            assert_eq!(limit, 5);
            store.retrieve_similar(&query, &filter, limit)
        }
        _ => panic!("expected a retrieval request"),
    };
    assert!(memories.is_empty());

    // empty store: the augmented prompt has no memory block
    let (s3, a3) = step(&c, s2, PipelineEvent::Memories { result: Some(memories) });
    match a3 {
        Some(PipelineAction::Complete { prompt }) => assert_eq!(
            prompt,
            "You are a storyteller. An event happened in the world. A dragon attacks the village"
        ),
        _ => panic!("expected a completion request"),
    }

    // generation succeeds; the response goes out for embedding
    let (s4, a4) =
        step(&c, s3, PipelineEvent::Completion { result: Some("The village burns".to_string()) });
    match a4 {
        Some(PipelineAction::Embed { text }) => assert_eq!(text, "The village burns".to_string()),
        _ => panic!("expected an embedding request for the response"),
    }

    // the storage vector arrives; the new memory is persisted
    let (s5, a5) = step(&c, s4, PipelineEvent::ResponseEmbedding { result: Some(vec![3, 4]) });
    match a5 {
        Some(PipelineAction::StoreMemory { record }) => {
            assert_eq!(record.text, "The village burns".to_string());
            assert_eq!(record.embedding, vec![3, 4]);
            assert_eq!(record.tags.len(), 1);
            assert_eq!(record.tags[0].key, "region".to_string());
            assert_eq!(record.tags[0].value, "north".to_string());
            assert_eq!(record.timestamp, 1700000000);
            store.store(record);
        }
        _ => panic!("expected a store request"),
    }
    assert_eq!(store.len(), 1);

    // the record is retrievable right away, first in rank
    let got = store.retrieve_similar(&vec![3, 4], &vec![tag("region", "north")], 5);
    assert_eq!(got, vec!["The village burns".to_string()]);

    // storage succeeded: the signed message goes out exactly once
    let (s6, a6) = step(&c, s5, PipelineEvent::StoreDone { ok: true });
    let message = match a6 {
        Some(PipelineAction::SignAndPublish { message }) => {
            assert_eq!(message.agent_name, "haiku".to_string());
            assert_eq!(message.request_id, 1);
            assert_eq!(message.event_tag, "combat".to_string());
            assert_eq!(message.response_text, "The village burns".to_string());
            assert_eq!(message.timestamp, 1700000000);
            message
        }
        _ => panic!("expected a publish request"),
    };

    // the real curve library signs the encoded message
    let key = parse_hex_scalar("0x1234abcd").expect("valid key");
    let signed = sign_offchain_message(message, &key).expect("signable");
    assert_eq!(signed.sig_r.len(), 32);
    assert_eq!(signed.sig_s.len(), 32);
    assert_ne!(signed.sig_r, vec![0u8; 32]);

    // publication succeeds; the request is done
    let (s7, a7) = step(&c, s6, PipelineEvent::PublishDone { ok: true });
    assert!(a7.is_none());
    match s7 {
        PipelineState::Done { request_id } => assert_eq!(request_id, 1),
        _ => panic!("expected the request to be done"),
    }
}

#[test]
fn provider_failure_aborts_request() {
    let c = combat_config();
    let (s1, _) = step(&c, PipelineState::Idle, PipelineEvent::Request { req: combat_request() });
    let (s2, a2) = step(&c, s1, PipelineEvent::QueryEmbedding { result: None });
    assert!(a2.is_none());
    match s2 {
        PipelineState::Failed { error, .. } => assert_eq!(error, RequestError::Provider),
        _ => panic!("expected failure"),
    }
}

#[test]
fn store_failure_aborts_request() {
    let c = combat_config();
    let (s1, _) = step(&c, PipelineState::Idle, PipelineEvent::Request { req: combat_request() });
    let (s2, _) = step(&c, s1, PipelineEvent::QueryEmbedding { result: Some(vec![0, 0]) });
    let (s3, a3) = step(&c, s2, PipelineEvent::Memories { result: None });
    assert!(a3.is_none());
    match s3 {
        PipelineState::Failed { error, .. } => assert_eq!(error, RequestError::Store),
        _ => panic!("expected failure"),
    }
}

#[test]
fn publish_failure_aborts_request() {
    let c = combat_config();
    let (s1, _) = step(&c, PipelineState::Idle, PipelineEvent::Request { req: combat_request() });
    let (s2, _) = step(&c, s1, PipelineEvent::QueryEmbedding { result: Some(vec![0, 0]) });
    let (s3, _) = step(&c, s2, PipelineEvent::Memories { result: Some(vec![]) });
    let (s4, _) = step(&c, s3, PipelineEvent::Completion { result: Some("r".to_string()) });
    let (s5, _) = step(&c, s4, PipelineEvent::ResponseEmbedding { result: Some(vec![1, 1]) });
    let (s6, _) = step(&c, s5, PipelineEvent::StoreDone { ok: true });
    let (s7, a7) = step(&c, s6, PipelineEvent::PublishDone { ok: false });
    assert!(a7.is_none());
    match s7 {
        PipelineState::Failed { error, .. } => assert_eq!(error, RequestError::Publish),
        _ => panic!("expected failure"),
    }
}

#[test]
fn channel_is_fifo_and_never_drops() {
    let mut ch: BoundedChannel<u64> = BoundedChannel::new(2);
    assert!(ch.try_send(1).is_ok());
    assert!(ch.try_send(2).is_ok());
    // full: the value comes back instead of being dropped
    assert_eq!(ch.try_send(3), Err(3));
    assert_eq!(ch.len(), 2);
    // receives hand the values out in enqueue order
    assert_eq!(ch.try_recv(), Some(1));
    // room again: the producer's retry succeeds
    assert!(ch.try_send(3).is_ok());
    assert_eq!(ch.try_recv(), Some(2));
    assert_eq!(ch.try_recv(), Some(3));
    assert_eq!(ch.try_recv(), None);
}

#[test]
fn hex_scalar_parsing() {
    let b = parse_hex_scalar("0xff").expect("valid");
    assert_eq!(b.len(), 32);
    assert_eq!(b[31], 0xff);
    assert_eq!(&b[..31], &[0u8; 31][..]);

    let b2 = parse_hex_scalar("1a2B").expect("valid without prefix");
    assert_eq!(b2[30], 0x1a);
    assert_eq!(b2[31], 0x2b);

    assert_eq!(parse_hex_scalar(""), Err(CredentialError::InvalidHex));
    assert_eq!(parse_hex_scalar("0x"), Err(CredentialError::InvalidHex));
    assert_eq!(parse_hex_scalar("0xzz"), Err(CredentialError::InvalidHex));
    // 65 digits: one too many
    let long = "1".repeat(65);
    assert_eq!(parse_hex_scalar(&long), Err(CredentialError::InvalidHex));
    let max = "f".repeat(64);
    assert!(parse_hex_scalar(&max).is_ok());
}

#[test]
fn credentials_parse_both_or_fail() {
    let c = parse_credentials("0x01", "0x02").expect("valid pair");
    assert_eq!(c.signer_address[31], 1);
    assert_eq!(c.signer_private_key[31], 2);
    assert!(parse_credentials("xyz", "0x02").is_err());
    assert!(parse_credentials("0x01", "").is_err());
}

#[test]
fn message_encoding_layout() {
    let m = OffchainMessage {
        agent_name: "abc".to_string(),
        request_id: 0x0102,
        event_tag: "t".to_string(),
        response_text: "".to_string(),
        timestamp: 5,
    };
    let felts = encode_message(&m);
    // id, ts, len+1 chunk, len+1 chunk, len (empty text: no chunk)
    assert_eq!(felts.len(), 7);
    for f in &felts {
        assert_eq!(f.len(), 32);
    }
    // the request id, big-endian, right-aligned
    assert_eq!(felts[0][30], 0x01);
    assert_eq!(felts[0][31], 0x02);
    // the timestamp
    assert_eq!(felts[1][31], 5);
    // agent name: length 3, then the bytes right-aligned in one chunk
    assert_eq!(felts[2][31], 3);
    assert_eq!(&felts[3][29..], b"abc");
    // event tag: length 1, then its chunk
    assert_eq!(felts[4][31], 1);
    assert_eq!(felts[5][31], b't');
    // empty response text: a zero length element and nothing after it
    assert_eq!(felts[6], vec![0u8; 32]);
}

#[test]
fn long_text_chunks_split_at_31_bytes() {
    let m = OffchainMessage {
        agent_name: "".to_string(),
        request_id: 0,
        event_tag: "".to_string(),
        response_text: "x".repeat(40),
        timestamp: 0,
    };
    let felts = encode_message(&m);
    // id, ts, 0-len, 0-len, len, chunk of 31, chunk of 9
    assert_eq!(felts.len(), 7);
    assert_eq!(felts[4][31], 40);
    assert_eq!(&felts[5][1..], "x".repeat(31).as_bytes());
    assert_eq!(&felts[6][23..], "x".repeat(9).as_bytes());
}

#[test]
fn signing_is_deterministic() {
    let key = parse_hex_scalar("0xdeadbeef").expect("valid");
    let mk = || OffchainMessage {
        agent_name: "haiku".to_string(),
        request_id: 9,
        event_tag: "combat".to_string(),
        response_text: "calm".to_string(),
        timestamp: 3,
    };
    let s1 = sign_offchain_message(mk(), &key).expect("signable");
    let s2 = sign_offchain_message(mk(), &key).expect("signable");
    assert_eq!(s1.sig_r, s2.sig_r);
    assert_eq!(s1.sig_s, s2.sig_s);
    // a different message signs differently
    let mut m3 = mk();
    m3.request_id = 10;
    let s3 = sign_offchain_message(m3, &key).expect("signable");
    assert!(s3.sig_r != s1.sig_r || s3.sig_s != s1.sig_s);
}

#[test]
fn signature_agrees_with_curve_library() {
    let key_bytes = parse_hex_scalar("0x4d3e2f1a").expect("valid");
    let mk = || OffchainMessage {
        agent_name: "haiku".to_string(),
        request_id: 42,
        event_tag: "combat".to_string(),
        response_text: "The dragon retreats".to_string(),
        timestamp: 1700000001,
    };
    let felts = encode_message(&mk());
    let signed = sign_offchain_message(mk(), &key_bytes).expect("signable");

    let fe: Vec<Felt> = felts
        .iter()
        .map(|f| Felt::from_bytes_be(f.as_slice().try_into().unwrap()))
        .collect();
    let hash = starknet_crypto::poseidon_hash_many(fe.iter());
    let key = Felt::from_bytes_be(key_bytes.as_slice().try_into().unwrap());
    let k = starknet_crypto::rfc6979_generate_k(&hash, &key, None);
    let sig = starknet_crypto::sign(&key, &hash, &k).expect("signable");
    assert_eq!(signed.sig_r, sig.r.to_bytes_be().to_vec());
    assert_eq!(signed.sig_s, sig.s.to_bytes_be().to_vec());

    // the signature checks out under the derived public key
    let public = starknet_crypto::get_public_key(&key);
    assert!(starknet_crypto::verify(&public, &hash, &sig.r, &sig.s).expect("verifiable"));
}

#[test]
fn malformed_events_are_skipped() {
    assert!(build_request(0, "".to_string(), "text".to_string(), vec![], 1).is_none());
    assert!(build_request(0, "combat".to_string(), "".to_string(), vec![], 1).is_none());
    let req = build_request(
        3,
        "combat".to_string(),
        "text".to_string(),
        vec![tag("region", "north")],
        9,
    )
    .expect("well-formed event");
    assert_eq!(req.id, 3);
    assert_eq!(req.event_tag, "combat".to_string());
    assert_eq!(req.prompt_text, "text".to_string());
    assert_eq!(req.retrieval_tags.len(), 1);
    assert_eq!(req.storage_tags.len(), 1);
    assert_eq!(req.timestamp, 9);
}

#[test]
fn run_subcommand_paths() {
    let d = RunSubcommand::with_default_path();
    assert_eq!(d.config_file_path, "haiku.toml".to_string());
    let c = RunSubcommand::new("other.toml".to_string());
    assert_eq!(c.config_file_path, "other.toml".to_string());
}

fn clone_tags(v: &Vec<TagPair>) -> Vec<TagPair> {
    v.iter().map(|t| t.duplicate()).collect()
}
