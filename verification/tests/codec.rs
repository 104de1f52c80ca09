//! Tests of the wire codec: round trips, discriminator handling, field
//! strictness and permissiveness, and the accepted JSON grammar.

use account_webhook::types::DecodeError;
use account_webhook::types::HandleChanged;
use account_webhook::types::HandleCreated;
use account_webhook::types::KeyAdded;
use account_webhook::types::SIWFSignup;
use account_webhook::types::WebhookCallback;

fn s(x: &str) -> String {
    x.to_string()
}

#[test]
fn round_trip_signup() {
    let v = WebhookCallback::SIWFSignup(SIWFSignup {
        reference_id: s("r"),
        account_id: s("a"),
        msa_id: s("m"),
        handle: s("h"),
        provider_id: s("p"),
    });
    let w = WebhookCallback::decode(&v.encode()).unwrap();
    match w {
        WebhookCallback::SIWFSignup(q) => {
            assert_eq!(q.reference_id, "r");
            assert_eq!(q.account_id, "a");
            assert_eq!(q.msa_id, "m");
            assert_eq!(q.handle, "h");
            assert_eq!(q.provider_id, "p");
        }
        _ => panic!("wrong variant"),
    }
}

#[test]
fn round_trip_handle_change() {
    let v = WebhookCallback::HandleChange(HandleChanged {
        reference_id: s("r2"),
        msa_id: s("m2"),
        handle: s("h2"),
        provider_id: s("p2"),
    });
    let w = WebhookCallback::decode(&v.encode()).unwrap();
    match w {
        WebhookCallback::HandleChange(q) => {
            assert_eq!(q.reference_id, "r2");
            assert_eq!(q.msa_id, "m2");
            assert_eq!(q.handle, "h2");
            assert_eq!(q.provider_id, "p2");
        }
        _ => panic!("wrong variant"),
    }
}

#[test]
fn round_trip_handle_created() {
    let v = WebhookCallback::HandleCreated(HandleCreated {
        reference_id: s("r3"),
        msa_id: s("m3"),
        handle: s("h3"),
        provider_id: s("p3"),
    });
    let w = WebhookCallback::decode(&v.encode()).unwrap();
    match w {
        WebhookCallback::HandleCreated(q) => {
            assert_eq!(q.reference_id, "r3");
            assert_eq!(q.msa_id, "m3");
            assert_eq!(q.handle, "h3");
            assert_eq!(q.provider_id, "p3");
        }
        _ => panic!("wrong variant"),
    }
}

#[test]
fn round_trip_key_added() {
    let v = WebhookCallback::KeyAdded(KeyAdded {
        reference_id: s("r4"),
        msa_id: s("m4"),
        new_public_key: s("k4"),
    });
    let w = WebhookCallback::decode(&v.encode()).unwrap();
    match w {
        WebhookCallback::KeyAdded(q) => {
            assert_eq!(q.reference_id, "r4");
            assert_eq!(q.msa_id, "m4");
            assert_eq!(q.new_public_key, "k4");
        }
        _ => panic!("wrong variant"),
    }
}

#[test]
fn round_trip_awkward_characters() {
    let v = WebhookCallback::KeyAdded(KeyAdded {
        reference_id: s("line\nbreak\tand \"quotes\" and \\slash\\"),
        msa_id: s("control \u{1} \u{1f} end"),
        new_public_key: s("unicode \u{e9}\u{4e16}\u{1f600}"),
    });
    let w = WebhookCallback::decode(&v.encode()).unwrap();
    match w {
        WebhookCallback::KeyAdded(q) => {
            assert_eq!(q.reference_id, "line\nbreak\tand \"quotes\" and \\slash\\");
            assert_eq!(q.msa_id, "control \u{1} \u{1f} end");
            assert_eq!(q.new_public_key, "unicode \u{e9}\u{4e16}\u{1f600}");
        }
        _ => panic!("wrong variant"),
    }
}

#[test]
fn encode_exact_text() {
    let v = WebhookCallback::KeyAdded(KeyAdded {
        reference_id: s("r1"),
        msa_id: s("m1"),
        new_public_key: s("pk1"),
    });
    assert_eq!(
        v.encode(),
        "{\"transactionType\":\"ADD_KEY\",\"referenceId\":\"r1\",\"msaId\":\"m1\",\"newPublicKey\":\"pk1\"}"
    );
}

#[test]
fn encode_agrees_with_json_parser() {
    let v = WebhookCallback::SIWFSignup(SIWFSignup {
        reference_id: s("r \"x\"\n"),
        account_id: s("a"),
        msa_id: s("m"),
        handle: s("h\u{1}"),
        provider_id: s("p"),
    });
    let doc: serde_json::Value = serde_json::from_str(&v.encode()).unwrap();
    assert_eq!(doc["transactionType"], "SIWF_SIGNUP");
    assert_eq!(doc["referenceId"], "r \"x\"\n");
    assert_eq!(doc["handle"], "h\u{1}");
    assert_eq!(doc["providerId"], "p");
}

#[test]
fn decode_accepts_each_known_tag() {
    let signup = "{\"transactionType\":\"SIWF_SIGNUP\",\"referenceId\":\"r\",\"accountId\":\"a\",\"msaId\":\"m\",\"handle\":\"h\",\"providerId\":\"p\"}";
    assert!(WebhookCallback::decode(signup).is_ok());
    let change = "{\"transactionType\":\"CHANGE_HANDLE\",\"referenceId\":\"r\",\"msaId\":\"m\",\"handle\":\"h\",\"providerId\":\"p\"}";
    assert!(matches!(
        WebhookCallback::decode(change),
        Ok(WebhookCallback::HandleChange(_))
    ));
    let create = "{\"transactionType\":\"CREATE_HANDLE\",\"referenceId\":\"r\",\"msaId\":\"m\",\"handle\":\"h\",\"providerId\":\"p\"}";
    assert!(matches!(
        WebhookCallback::decode(create),
        Ok(WebhookCallback::HandleCreated(_))
    ));
    let add = "{\"transactionType\":\"ADD_KEY\",\"referenceId\":\"r\",\"msaId\":\"m\",\"newPublicKey\":\"k\"}";
    assert!(matches!(
        WebhookCallback::decode(add),
        Ok(WebhookCallback::KeyAdded(_))
    ));
}

#[test]
fn decode_rejects_unknown_tags() {
    let cases = [
        "{\"transactionType\":\"UNKNOWN\",\"x\":\"y\"}",
        "{\"transactionType\":\"siwf_signup\",\"referenceId\":\"r\",\"accountId\":\"a\",\"msaId\":\"m\",\"handle\":\"h\",\"providerId\":\"p\"}",
        "{\"transactionType\":\"\"}",
        "{\"transactionType\":\"ADD_KEY \"}",
    ];
    for body in cases {
        assert_eq!(
            WebhookCallback::decode(body),
            Err(DecodeError::UnknownDiscriminator),
            "body: {body}"
        );
    }
}

#[test]
fn decode_rejects_missing_discriminator() {
    assert_eq!(
        WebhookCallback::decode("{\"referenceId\":\"r\"}"),
        Err(DecodeError::UnknownDiscriminator)
    );
    assert_eq!(
        WebhookCallback::decode("{}"),
        Err(DecodeError::UnknownDiscriminator)
    );
    // a discriminator that is not a string does not select a variant
    assert_eq!(
        WebhookCallback::decode("{\"transactionType\":7}"),
        Err(DecodeError::UnknownDiscriminator)
    );
}

#[test]
fn decode_rejects_missing_fields() {
    // ADD_KEY, each required field omitted in turn
    let cases = [
        "{\"transactionType\":\"ADD_KEY\",\"msaId\":\"m\",\"newPublicKey\":\"k\"}",
        "{\"transactionType\":\"ADD_KEY\",\"referenceId\":\"r\",\"newPublicKey\":\"k\"}",
        "{\"transactionType\":\"ADD_KEY\",\"referenceId\":\"r\",\"msaId\":\"m\"}",
        // SIWF_SIGNUP with the handle omitted
        "{\"transactionType\":\"SIWF_SIGNUP\",\"referenceId\":\"r\",\"accountId\":\"a\",\"msaId\":\"m\",\"providerId\":\"p\"}",
        // CHANGE_HANDLE with the provider omitted
        "{\"transactionType\":\"CHANGE_HANDLE\",\"referenceId\":\"r\",\"msaId\":\"m\",\"handle\":\"h\"}",
    ];
    for body in cases {
        assert_eq!(
            WebhookCallback::decode(body),
            Err(DecodeError::MissingOrInvalidField),
            "body: {body}"
        );
    }
}

#[test]
fn decode_rejects_non_string_fields() {
    assert_eq!(
        WebhookCallback::decode(
            "{\"transactionType\":\"ADD_KEY\",\"referenceId\":1,\"msaId\":\"m\",\"newPublicKey\":\"k\"}"
        ),
        Err(DecodeError::MissingOrInvalidField)
    );
    assert_eq!(
        WebhookCallback::decode(
            "{\"transactionType\":\"ADD_KEY\",\"referenceId\":\"r\",\"msaId\":null,\"newPublicKey\":\"k\"}"
        ),
        Err(DecodeError::MissingOrInvalidField)
    );
}

#[test]
fn decode_ignores_extra_fields() {
    let body = "{\"transactionType\":\"ADD_KEY\",\"referenceId\":\"r\",\"msaId\":\"m\",\"newPublicKey\":\"k\",\"extraString\":\"s\",\"extraNumber\":-1.5e+10,\"extraBool\":true,\"extraNull\":null,\"extraArray\":[1,\"two\",{\"three\":3}],\"extraObject\":{\"nested\":{\"deep\":[]}}}";
    match WebhookCallback::decode(body).unwrap() {
        WebhookCallback::KeyAdded(q) => {
            assert_eq!(q.reference_id, "r");
            assert_eq!(q.msa_id, "m");
            assert_eq!(q.new_public_key, "k");
        }
        _ => panic!("wrong variant"),
    }
}

#[test]
fn decode_tolerates_whitespace() {
    let body = " \t\r\n{ \"transactionType\" : \"ADD_KEY\" ,\n \"referenceId\" : \"r\" , \"msaId\" : \"m\" , \"newPublicKey\" : \"k\" }\n ";
    assert!(WebhookCallback::decode(body).is_ok());
}

#[test]
fn decode_handles_escapes() {
    let body = "{\"transactionType\":\"ADD_KEY\",\"referenceId\":\"a\\nb\",\"msaId\":\"q\\\"s\\\\t\\/u\",\"newPublicKey\":\"\\u0041\\u007a\"}";
    match WebhookCallback::decode(body).unwrap() {
        WebhookCallback::KeyAdded(q) => {
            assert_eq!(q.reference_id, "a\nb");
            assert_eq!(q.msa_id, "q\"s\\t/u");
            assert_eq!(q.new_public_key, "Az");
        }
        _ => panic!("wrong variant"),
    }
}

#[test]
fn decode_first_duplicate_wins() {
    let body = "{\"transactionType\":\"ADD_KEY\",\"referenceId\":\"first\",\"referenceId\":\"second\",\"msaId\":\"m\",\"newPublicKey\":\"k\"}";
    match WebhookCallback::decode(body).unwrap() {
        WebhookCallback::KeyAdded(q) => assert_eq!(q.reference_id, "first"),
        _ => panic!("wrong variant"),
    }
}

#[test]
fn decode_rejects_malformed_documents() {
    let cases = [
        "",
        "   ",
        "{",
        "}",
        "{\"a\"}",
        "{\"a\":}",
        "{\"a\":\"b\",}",
        "{'a':'b'}",
        "[\"not\",\"an\",\"object\"]",
        "\"just a string\"",
        "42",
        "null",
        "{\"transactionType\":\"ADD_KEY\"} trailing",
        "{\"a\":01}",
        "{\"a\":1.}",
        "{\"a\":\"raw\ncontrol\"}",
        "{\"a\":\"bad escape \\x\"}",
        "{\"a\":\"unterminated}",
    ];
    for body in cases {
        assert_eq!(
            WebhookCallback::decode(body),
            Err(DecodeError::MalformedBody),
            "body: {body}"
        );
    }
}

#[test]
fn decode_agreement_with_json_parser_on_grammar() {
    // the accepted documents above are also accepted by serde_json, and
    // the malformed ones rejected
    let good = "{\"transactionType\":\"ADD_KEY\",\"referenceId\":\"r\",\"msaId\":\"m\",\"newPublicKey\":\"k\",\"n\":-1.5e+10}";
    assert!(serde_json::from_str::<serde_json::Value>(good).is_ok());
    assert!(WebhookCallback::decode(good).is_ok());
    for body in ["{", "{\"a\":01}", "{\"a\":\"raw\ncontrol\"}", "[1]"] {
        assert!(serde_json::from_str::<serde_json::Value>(body)
            .map(|v| v.as_object().is_some())
            .unwrap_or(false)
            == false);
        assert!(WebhookCallback::decode(body).is_err(), "body: {body}");
    }
}

#[test]
fn render_signup_lines_in_order() {
    let body = "{\"transactionType\":\"SIWF_SIGNUP\",\"referenceId\":\"r\",\"accountId\":\"a\",\"msaId\":\"m\",\"handle\":\"h\",\"providerId\":\"p\"}";
    let v = WebhookCallback::decode(body).unwrap();
    let text = v.render();
    assert_eq!(
        text,
        "\nreference_id: r\naccount_id: a\nmsa_id: m\nhandle: h\nprovider_id: p\n"
    );
    let lines: Vec<&str> = text.lines().collect();
    assert_eq!(lines[1], "reference_id: r");
    assert_eq!(lines[2], "account_id: a");
    assert_eq!(lines[3], "msa_id: m");
    assert_eq!(lines[4], "handle: h");
    assert_eq!(lines[5], "provider_id: p");
}

#[test]
fn render_other_variants_dump_fields() {
    let v = WebhookCallback::KeyAdded(KeyAdded {
        reference_id: s("r4"),
        msa_id: s("m4"),
        new_public_key: s("k4"),
    });
    let text = v.render();
    assert!(text.starts_with("KeyAdded: "));
    assert!(text.contains("r4") && text.contains("m4") && text.contains("k4"));
    let c = WebhookCallback::HandleChange(HandleChanged {
        reference_id: s("r"),
        msa_id: s("m"),
        handle: s("h"),
        provider_id: s("p"),
    });
    assert!(c.render().starts_with("HandleChange: "));
}

#[test]
fn describe_lists_all_variants() {
    let doc: serde_json::Value = serde_json::from_str(&account_webhook::types::describe()).unwrap();
    assert_eq!(doc["discriminator"], "transactionType");
    let variants = doc["variants"].as_object().unwrap();
    assert_eq!(variants.len(), 4);
    assert_eq!(
        variants["SIWF_SIGNUP"].as_array().unwrap().len(),
        5
    );
    assert_eq!(variants["ADD_KEY"].as_array().unwrap().len(), 3);
    assert!(variants.contains_key("CHANGE_HANDLE"));
    assert!(variants.contains_key("CREATE_HANDLE"));
}

#[test]
fn health_response_holds_message() {
    let h = account_webhook::types::HealthResponse {
        message: s("ok"),
    };
    assert_eq!(h.message, "ok");
}

#[test]
fn decode_handles_unicode_escapes() {
    let body = "{\"transactionType\":\"ADD_KEY\",\"referenceId\":\"caf\\u00e9\",\"msaId\":\"\\u4e16\\u754c\",\"newPublicKey\":\"\\ud83d\\ude00\\uD834\\uDD1E\"}";
    match WebhookCallback::decode(body).unwrap() {
        WebhookCallback::KeyAdded(q) => {
            assert_eq!(q.reference_id, "caf\u{e9}");
            assert_eq!(q.msa_id, "\u{4e16}\u{754c}");
            assert_eq!(q.new_public_key, "\u{1f600}\u{1d11e}");
        }
        _ => panic!("wrong variant"),
    }
}

#[test]
fn decode_rejects_lone_surrogate_escapes() {
    let cases = [
        "{\"a\":\"\\ud800\"}",
        "{\"a\":\"\\udc00\"}",
        "{\"a\":\"\\ud83dx\"}",
        "{\"a\":\"\\ud83d\\u0041\"}",
    ];
    for body in cases {
        assert_eq!(
            WebhookCallback::decode(body),
            Err(DecodeError::MalformedBody),
            "body: {body}"
        );
        assert!(
            serde_json::from_str::<serde_json::Value>(body).is_err(),
            "body: {body}"
        );
    }
}

#[test]
fn decode_accepts_moderate_nesting() {
    let mut extra = String::new();
    for _ in 0..100 {
        extra.push('[');
    }
    extra.push_str("null");
    for _ in 0..100 {
        extra.push(']');
    }
    let body = format!(
        "{{\"transactionType\":\"ADD_KEY\",\"referenceId\":\"r\",\"msaId\":\"m\",\"newPublicKey\":\"k\",\"x\":{extra}}}"
    );
    assert!(WebhookCallback::decode(&body).is_ok());
}

#[test]
fn decode_rejects_overdeep_nesting_without_crash() {
    // far past the nesting bound: the parser must answer with an error,
    // not exhaust the stack
    let mut extra = String::new();
    for _ in 0..100_000 {
        extra.push('[');
    }
    let body = format!("{{\"x\":{extra}");
    assert_eq!(
        WebhookCallback::decode(&body),
        Err(DecodeError::MalformedBody)
    );
    let mut nested = String::new();
    for _ in 0..200 {
        nested.push('{');
        nested.push_str("\"y\":");
    }
    let body2 = format!("{{\"transactionType\":\"ADD_KEY\",\"x\":{nested}");
    assert_eq!(
        WebhookCallback::decode(&body2),
        Err(DecodeError::MalformedBody)
    );
}

#[test]
fn decode_handles_large_flat_bodies() {
    // a long string value and many members: parsing iterates, so neither
    // may exhaust the stack
    let long: String = std::iter::repeat('x').take(500_000).collect();
    let mut members = String::new();
    for i in 0..20_000 {
        members.push_str(&format!("\"extra{i}\":\"v\","));
    }
    let body = format!(
        "{{{members}\"transactionType\":\"ADD_KEY\",\"referenceId\":\"{long}\",\"msaId\":\"m\",\"newPublicKey\":\"k\"}}"
    );
    match WebhookCallback::decode(&body).unwrap() {
        WebhookCallback::KeyAdded(q) => {
            assert_eq!(q.reference_id.len(), 500_000);
            assert_eq!(q.msa_id, "m");
        }
        _ => panic!("wrong variant"),
    }
}
