//! Request signing for the REST client: the message a signer signs, the
//! `Authorization` header it yields, and extra headers given as pairs.
use vstd::prelude::*;
use crate::text::{cat, decimal, decimal_string, owned, push_str};

verus! {

/// Something that signs request messages for a user: `signer` gives the
/// signing address (empty when nobody is signed in) and `sign` the
/// signature of a message, as text, or why it could not sign.
pub trait Signer {
    fn sign(&self, msg: &str) -> Result<String, String>;

    fn signer(&self) -> String;
}

/// An integer in decimal, with a `-` when negative.
pub open spec fn signed_decimal(i: int) -> Seq<char> {
    if i < 0 {
        "-"@ + decimal((-i) as nat)
    } else {
        decimal(i as nat)
    }
}

/// `t` in decimal, with a `-` when negative.
pub fn signed_decimal_string(t: i64) -> (r: String)
    ensures
        r@ == signed_decimal(t as int),
{
    if t < 0 {
        let u: u64 = (0i128 - (t as i128)) as u64;
        cat("-", decimal_string(u).as_str())
    } else {
        decimal_string(t as u64)
    }
}

/// The message signed for a request made at `timestamp`: `<message>-<timestamp>`.
pub fn signing_message(message: &str, timestamp: i64) -> (r: String)
    ensures
        r@ == message@ + "-"@ + signed_decimal(timestamp as int),
{
    let mut r = cat(message, "-");
    push_str(&mut r, signed_decimal_string(timestamp).as_str());
    r
}

/// The `Authorization` value of a signed request: `UserSig <timestamp>:<signature>`.
pub fn authorization_value(timestamp: i64, signature: &str) -> (r: String)
    ensures
        r@ == "UserSig "@ + signed_decimal(timestamp as int) + ":"@ + signature@,
{
    let mut r = cat("UserSig ", signed_decimal_string(timestamp).as_str());
    push_str(&mut r, ":");
    push_str(&mut r, signature);
    r
}

/// The header a request gets from a signer: none when the signer has no
/// address or could not sign, else the `UserSig` value.
pub fn header_from(address: &str, signed: &Result<String, String>, timestamp: i64) -> (r: Option<String>)
    ensures
        address@.len() == 0 ==> r is None,
        address@.len() > 0 ==> match signed {
            Ok(sig) => r matches Some(h) && h@ == "UserSig "@ + signed_decimal(timestamp as int) + ":"@ + sig@,
            Err(_) => r is None,
        },
{
    if crate::text::chars_of(address).len() == 0 {
        return None;
    }
    match signed {
        Ok(sig) => Some(authorization_value(timestamp, sig.as_str())),
        Err(_) => None,
    }
}

/// The `Authorization` header for a request made at `timestamp` by
/// `signer`, with `message` the message set for the session: the signer's
/// signature of `<message>-<timestamp>`, when it has an address and signs.
pub fn signature_header<S: Signer>(signer: &S, message: &str, timestamp: i64) -> (r: Option<String>)
    ensures
        r matches Some(h) ==> exists|sig: Seq<char>| h@ == "UserSig "@ + signed_decimal(timestamp as int) + ":"@ + sig,
{
    let address = signer.signer();
    if crate::text::chars_of(address.as_str()).len() == 0 {
        return None;
    }
    let msg = signing_message(message, timestamp);
    let signed = signer.sign(msg.as_str());
    let r = header_from(address.as_str(), &signed, timestamp);
    proof {
        if let Ok(sig) = signed {
            assert(r matches Some(h) && h@ == "UserSig "@ + signed_decimal(timestamp as int) + ":"@ + sig@);
        }
    }
    r
}

/// The extra headers of a request: the titles paired with the values in
/// order, or none at all when the two lists differ in length.
pub fn header_pairs(titles: &Vec<String>, values: &Vec<String>) -> (r: Vec<(String, String)>)
    ensures
        titles@.len() != values@.len() ==> r@.len() == 0,
        titles@.len() == values@.len() ==> r@.len() == titles@.len() && forall|i: int| 0 <= i < r@.len()
            ==> (#[trigger] r@[i]).0@ == titles@[i]@ && r@[i].1@ == values@[i]@,
{
    let mut r: Vec<(String, String)> = Vec::new();
    if titles.len() != values.len() {
        return r;
    }
    let mut i: usize = 0;
    while i < titles.len()
        invariant
            titles@.len() == values@.len(),
            i <= titles@.len(),
            r@.len() == i,
            forall|k: int| 0 <= k < i ==> (#[trigger] r@[k]).0@ == titles@[k]@ && r@[k].1@ == values@[k]@,
        decreases titles@.len() - i,
    {
        r.push((owned(titles[i].as_str()), owned(values[i].as_str())));
        i += 1;
    }
    r
}

/// A Slack webhook message.
pub struct SlackMessage<'a> {
    pub text: &'a str,
}

/// The text of an error notice: `[<file>:<line>] <message>`.
pub fn error_notice_text(file: &str, line: u32, message: &str) -> (r: String)
    ensures
        r@ == "["@ + file@ + ":"@ + decimal(line as nat) + "] "@ + message@,
{
    let mut r = cat("[", file);
    push_str(&mut r, ":");
    push_str(&mut r, decimal_string(line as u64).as_str());
    push_str(&mut r, "] ");
    push_str(&mut r, message);
    r
}

} // verus!
