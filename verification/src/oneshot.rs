//! Re-dispatching an MCP tool call through the app router: the request it
//! sends and how the reply is judged.
use vstd::prelude::*;
use crate::text::{chars_of, owned, push_char, push_str, decimal, decimal_string};

verus! {

/// Why a re-dispatched request failed.
#[derive(Debug)]
pub enum McpOneshotError {
    /// The request could not be built, routed, read or parsed.
    RoutingFailed,
    /// The app answered with a non-success status and this body.
    Status(u16, String),
}

/// The text of an error.
pub open spec fn oneshot_error_text(e: McpOneshotError) -> Seq<char> {
    match e {
        McpOneshotError::RoutingFailed => "mcp oneshot routing failed"@,
        McpOneshotError::Status(s, m) => "mcp oneshot status "@ + decimal(s as nat) + ": "@ + m@,
    }
}

impl McpOneshotError {
    /// The error's text, as `Display` writes it.
    pub fn message(&self) -> (r: String)
        ensures
            r@ == oneshot_error_text(*self),
    {
        match self {
            McpOneshotError::RoutingFailed => owned("mcp oneshot routing failed"),
            McpOneshotError::Status(s, m) => {
                let mut r = owned("mcp oneshot status ");
                push_str(&mut r, decimal_string(*s as u64).as_str());
                push_str(&mut r, ": ");
                push_str(&mut r, m.as_str());
                r
            },
        }
    }
}

/// `path` with every `#` percent-encoded as `%23`.
pub open spec fn encode_hashes(path: Seq<char>) -> Seq<char>
    decreases path.len(),
{
    if path.len() == 0 {
        Seq::empty()
    } else {
        encode_hashes(path.drop_last()) + if path.last() == '#' { "%23"@ } else { seq![path.last()] }
    }
}

/// The URI a tool call is sent to: `http://localhost` and the path, whose
/// `#`s (legal in ids) are percent-encoded.
pub fn oneshot_uri(path: &str) -> (r: String)
    ensures
        r@ == "http://localhost"@ + encode_hashes(path@),
{
    let v = chars_of(path);
    let mut r = owned("http://localhost");
    let ghost base = "http://localhost"@;
    let mut i: usize = 0;
    while i < v.len()
        invariant
            v@ == path@,
            i <= v@.len(),
            base == "http://localhost"@,
            r@ == base + encode_hashes(v@.take(i as int)),
        decreases v@.len() - i,
    {
        if v[i] == '#' {
            push_str(&mut r, "%23");
        } else {
            push_char(&mut r, v[i]);
        }
        proof {
            let t = v@.take(i as int + 1);
            assert(t.drop_last() =~= v@.take(i as int));
        }
        i += 1;
    }
    assert(v@.take(v@.len() as int) =~= v@);
    r
}

/// The `authorization` header value that carries the MCP secret.
pub fn oneshot_authorization(mcp_secret: &str) -> (r: String)
    ensures
        r@ == "McpSecret "@ + mcp_secret@,
{
    let mut r = owned("McpSecret ");
    push_str(&mut r, mcp_secret);
    r
}

/// The headers of a re-dispatched request, in order: the secret, then a
/// JSON content type when there is a body.
pub fn oneshot_headers(mcp_secret: &str, has_body: bool) -> (r: Vec<(String, String)>)
    ensures
        r@.len() == if has_body { 2nat } else { 1nat },
        r@[0].0@ == "authorization"@,
        r@[0].1@ == "McpSecret "@ + mcp_secret@,
        has_body ==> r@[1].0@ == "content-type"@ && r@[1].1@ == "application/json"@,
{
    let mut r: Vec<(String, String)> = Vec::new();
    r.push((owned("authorization"), oneshot_authorization(mcp_secret)));
    if has_body {
        r.push((owned("content-type"), owned("application/json")));
    }
    r
}

/// The path of a re-dispatched request carries no raw `#`.
pub proof fn law_encoded_path_has_no_hash(path: Seq<char>)
    ensures
        !encode_hashes(path).contains('#'),
    decreases path.len(),
{
    if path.len() > 0 {
        law_encoded_path_has_no_hash(path.drop_last());
        let prev = encode_hashes(path.drop_last());
        let piece = if path.last() == '#' { "%23"@ } else { seq![path.last()] };
        reveal_strlit("%23");
        assert forall|i: int| 0 <= i < (prev + piece).len() implies (prev + piece)[i] != '#' by {
            if i < prev.len() {
                assert((prev + piece)[i] == prev[i]);
            } else {
                assert((prev + piece)[i] == piece[i - prev.len()]);
            }
        }
    }
}

/// A path without `#` is sent as it is.
pub proof fn law_plain_path_unchanged(path: Seq<char>)
    requires
        !path.contains('#'),
    ensures
        encode_hashes(path) == path,
    decreases path.len(),
{
    if path.len() > 0 {
        let d = path.drop_last();
        assert(!d.contains('#')) by {
            if d.contains('#') {
                let i = choose|i: int| 0 <= i < d.len() && d[i] == '#';
                assert(path[i] == '#');
            }
        }
        law_plain_path_unchanged(d);
        assert(path.last() != '#') by {
            assert(path[path.len() - 1] == path.last());
        }
        assert(d + seq![path.last()] =~= path);
    }
}

/// `bytes` read as UTF-8, with each invalid sequence replaced by U+FFFD, as
/// `String::from_utf8_lossy` does.
pub uninterp spec fn utf8_lossy(bytes: Seq<u8>) -> Seq<char>;

/// std `String::from_utf8_lossy`; its result is named by `utf8_lossy`.
#[verifier::external_body]
pub(crate) fn from_utf8_lossy(bytes: &[u8]) -> (r: String)
    ensures
        r@ == utf8_lossy(bytes@),
{
    String::from_utf8_lossy(bytes).to_string()
}

/// A status in `200..=299` is a success.
pub open spec fn is_success(status: u16) -> bool {
    200 <= status <= 299
}

/// How the app's reply is judged: a success hands its body on for parsing;
/// any other status is an error carrying the status and the body as text.
pub fn oneshot_outcome(status: u16, body: Vec<u8>) -> (r: Result<Vec<u8>, McpOneshotError>)
    ensures
        is_success(status) ==> r == Ok::<Vec<u8>, McpOneshotError>(body),
        !is_success(status) ==> (r matches Err(McpOneshotError::Status(s, m)) && s == status && m@ == utf8_lossy(body@)),
{
    if 200 <= status && status <= 299 {
        Ok(body)
    } else {
        let text = from_utf8_lossy(body.as_slice());
        Err(McpOneshotError::Status(status, text))
    }
}

} // verus!
