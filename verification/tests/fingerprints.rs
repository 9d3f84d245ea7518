use shade_coordinator::hasher::hash;
use shade_coordinator::payload::{
    decimal_bytes, encode_resume_payload, encode_yield_payload, frame_yield_payload,
};

#[test]
fn test_hash_string() {
    let data = "test data";
    let result = hash(data);
    assert_eq!(result.len(), 64);
}

#[test]
fn hash_matches_known_digests() {
    assert_eq!(hash(""), "e3b0c44298fc1c149afbf4c8996fb92427ae41e4649b934ca495991b7852b855");
    assert_eq!(hash("abc"), "ba7816bf8f01cfea414140de5dae2223b00361a396177a9cb410ff61f20015ad");
}

#[test]
fn hash_is_lowercase_hex_and_deterministic() {
    for text in ["", "cfg-A", "final", "ünïcödé ✓", "a much longer text with spaces\nand lines"] {
        let h = hash(text);
        assert_eq!(h.len(), 64);
        assert!(h.chars().all(|c| c.is_ascii_digit() || ('a'..='f').contains(&c)));
        assert_eq!(h, hash(text));
    }
    assert_ne!(hash("cfg-A"), hash("cfg-B"));
}

#[test]
fn decimal_has_no_leading_zeros() {
    assert_eq!(decimal_bytes(0), b"0".to_vec());
    assert_eq!(decimal_bytes(7), b"7".to_vec());
    assert_eq!(decimal_bytes(10), b"10".to_vec());
    assert_eq!(decimal_bytes(1234567890), b"1234567890".to_vec());
    assert_eq!(decimal_bytes(u64::MAX), b"18446744073709551615".to_vec());
}

#[test]
fn yield_payload_is_a_json_object() {
    assert_eq!(
        encode_yield_payload(1, "cfg-A"),
        b"{\"proposal_id\":1,\"task_config\":\"cfg-A\"}".to_vec()
    );
    let payload = encode_yield_payload(42, "say \"hi\"\n");
    assert_eq!(
        payload,
        b"{\"proposal_id\":42,\"task_config\":\"say \\\"hi\\\"\\n\"}".to_vec()
    );
    let value: serde_json::Value = serde_json::from_slice(&payload).unwrap();
    assert_eq!(value["proposal_id"].as_u64(), Some(42));
    assert_eq!(value["task_config"].as_str(), Some("say \"hi\"\n"));
}

#[test]
fn resume_payload_is_a_json_string() {
    assert_eq!(encode_resume_payload("final"), b"\"final\"".to_vec());
    assert_eq!(encode_resume_payload(""), b"\"\"".to_vec());
    let payload = encode_resume_payload("a\\b\t{\"k\":1}");
    let back: String = serde_json::from_slice(&payload).unwrap();
    assert_eq!(back, "a\\b\t{\"k\":1}");
}

#[test]
fn frame_puts_id_and_config_into_one_object() {
    assert_eq!(
        frame_yield_payload(7, b"\"x\""),
        b"{\"proposal_id\":7,\"task_config\":\"x\"}".to_vec()
    );
    assert_eq!(
        frame_yield_payload(0, b"null"),
        b"{\"proposal_id\":0,\"task_config\":null}".to_vec()
    );
    assert_eq!(
        frame_yield_payload(u64::MAX, b""),
        b"{\"proposal_id\":18446744073709551615,\"task_config\":}".to_vec()
    );
}
