//! Tests of the handler contract: the success path acknowledges with 201
//! and one log line, and a body that fails to decode never reaches the
//! handler.

use account_webhook::handler::handle_request;
use account_webhook::handler::post_webhook;
use account_webhook::types::DecodeError;
use account_webhook::types::WebhookCallback;

#[test]
fn handler_success_path() {
    let body = "{\"transactionType\":\"ADD_KEY\",\"referenceId\":\"r1\",\"msaId\":\"m1\",\"newPublicKey\":\"pk1\"}";
    let (status, log) = handle_request(body).unwrap();
    assert_eq!(status, 201);
    assert!(log.contains("r1"));
    assert!(log.contains("m1"));
    assert!(log.contains("pk1"));
}

#[test]
fn handler_failure_path() {
    let body = "{\"transactionType\":\"UNKNOWN\",\"x\":\"y\"}";
    let r = handle_request(body);
    assert_eq!(r, Err(DecodeError::UnknownDiscriminator));
}

#[test]
fn handler_failure_malformed() {
    assert_eq!(
        handle_request("not json at all"),
        Err(DecodeError::MalformedBody)
    );
}

#[test]
fn post_webhook_renders_decoded_event() {
    let body = "{\"transactionType\":\"SIWF_SIGNUP\",\"referenceId\":\"r\",\"accountId\":\"a\",\"msaId\":\"m\",\"handle\":\"h\",\"providerId\":\"p\"}";
    let event = WebhookCallback::decode(body).unwrap();
    let (status, log) = post_webhook(&event);
    assert_eq!(status, 201);
    assert_eq!(log, event.render());
    assert_eq!(
        log,
        "\nreference_id: r\naccount_id: a\nmsa_id: m\nhandle: h\nprovider_id: p\n"
    );
}
