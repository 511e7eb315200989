use biyard_kit::rest_api::{
    authorization_value, error_notice_text, header_from, header_pairs, signature_header, signing_message,
    Signer, SlackMessage,
};

struct Fixed {
    address: String,
    fail: bool,
}

impl Signer for Fixed {
    fn sign(&self, msg: &str) -> Result<String, String> {
        if self.fail { Err("no key".to_string()) } else { Ok(format!("sig({msg})")) }
    }

    fn signer(&self) -> String {
        self.address.clone()
    }
}

#[test]
fn signed_message_and_header_value() {
    assert_eq!(signing_message("hello", 1700000000), "hello-1700000000");
    assert_eq!(signing_message("m", -5), "m--5");
    assert_eq!(authorization_value(42, "abc"), "UserSig 42:abc");
}

#[test]
fn signer_yields_the_user_sig_header() {
    let s = Fixed { address: "0xabc".to_string(), fail: false };
    assert_eq!(signature_header(&s, "msg", 7), Some("UserSig 7:sig(msg-7)".to_string()));
}

#[test]
fn no_header_without_address_or_signature() {
    let s = Fixed { address: String::new(), fail: false };
    assert_eq!(signature_header(&s, "msg", 7), None);
    let s = Fixed { address: "0xabc".to_string(), fail: true };
    assert_eq!(signature_header(&s, "msg", 7), None);
    assert_eq!(header_from("", &Ok("x".to_string()), 1), None);
}

#[test]
fn headers_pair_titles_with_values() {
    let t = vec!["a".to_string(), "b".to_string()];
    let v = vec!["1".to_string(), "2".to_string()];
    assert_eq!(header_pairs(&t, &v), vec![("a".to_string(), "1".to_string()), ("b".to_string(), "2".to_string())]);
    assert!(header_pairs(&t, &vec!["1".to_string()]).is_empty());
}

#[test]
fn error_notice_has_location() {
    assert_eq!(error_notice_text("src/main.rs", 12, "boom"), "[src/main.rs:12] boom");
    let m = SlackMessage { text: "hi" };
    assert_eq!(m.text, "hi");
}
