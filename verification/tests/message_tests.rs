use px_mpc_module::message::frame_outgoing_message;
use px_mpc_module::{generate_outgoing_message, OutgoingMessage, OutputKind};

#[test]
fn outgoing_message_plain_text() {
    assert_eq!(generate_outgoing_message("key", "abc"), "{\"data_type\":\"key\",\"data\":\"abc\"}");
}

#[test]
fn outgoing_message_escapes_json_data() {
    let text = generate_outgoing_message("broadcast", "{\"sender\":1,\"receiver\":null}\n");
    assert_eq!(
        text,
        "{\"data_type\":\"broadcast\",\"data\":\"{\\\"sender\\\":1,\\\"receiver\\\":null}\\n\"}"
    );
    let value: serde_json::Value = serde_json::from_str(&text).unwrap();
    assert_eq!(value["data_type"], "broadcast");
    assert_eq!(value["data"], "{\"sender\":1,\"receiver\":null}\n");
}

#[test]
fn outgoing_message_empty_fields() {
    assert_eq!(generate_outgoing_message("", ""), "{\"data_type\":\"\",\"data\":\"\"}");
}

#[test]
fn outgoing_message_struct_encodes_like_function() {
    let message = OutgoingMessage { data_type: "signature", data: "\u{1}\"é" };
    let text = message.to_json();
    assert_eq!(text, generate_outgoing_message("signature", "\u{1}\"é"));
    assert_eq!(text, "{\"data_type\":\"signature\",\"data\":\"\\u0001\\\"é\"}");
}

#[test]
fn frame_uses_encoded_fields_verbatim() {
    assert_eq!(frame_outgoing_message("\"k\"", "[1,2]"), "{\"data_type\":\"k\",\"data\":[1,2]}");
}

#[test]
fn output_kind_labels() {
    assert_eq!(OutputKind::Key.data_type(), "key");
    assert_eq!(OutputKind::OfflineStage.data_type(), "stage");
    assert_eq!(OutputKind::PartialSignature.data_type(), "partial_signature");
    assert_eq!(OutputKind::PublicKey.data_type(), "public_key");
    assert_eq!(OutputKind::Signature.data_type(), "signature");
    assert_eq!(OutputKind::Broadcast.data_type(), "broadcast");
}

#[test]
fn output_kind_labels_are_distinct() {
    let kinds = [
        OutputKind::Key,
        OutputKind::OfflineStage,
        OutputKind::PartialSignature,
        OutputKind::PublicKey,
        OutputKind::Signature,
        OutputKind::Broadcast,
    ];
    for a in kinds.iter() {
        for b in kinds.iter() {
            assert_eq!(a == b, a.data_type() == b.data_type());
        }
    }
}

#[test]
fn control_characters_are_escaped() {
    let data = "\u{0}\u{8}\t\n\u{b}\u{c}\r\u{1f} \u{7f}\\/";
    let text = generate_outgoing_message("k", data);
    assert_eq!(
        text,
        "{\"data_type\":\"k\",\"data\":\"\\u0000\\b\\t\\n\\u000b\\f\\r\\u001f \u{7f}\\\\/\"}"
    );
    assert!(text.chars().all(|c| (c as u32) >= 0x20));
}

#[test]
fn agrees_with_serde_json_encoding() {
    let samples = ["", "plain", "quote\" back\\", "\u{0}\u{1}\u{1e}", "ünï ☃ 😀", "{\"a\":[1,2]}"];
    for t in samples.iter() {
        for d in samples.iter() {
            let expected = format!(
                "{{\"data_type\":{},\"data\":{}}}",
                serde_json::to_string(t).unwrap(),
                serde_json::to_string(d).unwrap()
            );
            assert_eq!(generate_outgoing_message(t, d), expected);
        }
    }
}
