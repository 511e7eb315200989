//! Where generated code is written, and how the axum adapter of a typed
//! handler forwards its arguments.
use vstd::prelude::*;
use crate::case::{case_converted, to_case, CaseKind};
use crate::text::{cat, chars_of, decimal, decimal_string, owned, push_str, trim, trim_range};

verus! {

/// The TypeScript package directory, from the value of
/// `TS_SERVER_FN_PACKAGE_DIR`: generation is on when it is set to something
/// other than white space.
pub fn package_dir_from(value: Option<&str>) -> (r: Option<String>)
    ensures
        match value {
            Some(v) => if trim(v@).len() > 0 { r matches Some(d) && d@ == v@ } else { r is None },
            None => r is None,
        },
{
    match value {
        Some(v) => {
            let cs = chars_of(v);
            let (a, b) = trim_range(&cs, 0, cs.len());
            assert(cs@.subrange(0, cs@.len() as int) =~= cs@);
            if a < b {
                Some(owned(v))
            } else {
                None
            }
        },
        None => None,
    }
}

/// The directory of a feature's handlers: `<dir>/src/handlers`, then
/// `/<feature>` unless the feature is empty.
pub fn handlers_dir(dir: &str, feature: &str) -> (r: String)
    ensures
        r@ == dir@ + "/src/handlers"@ + if feature@.len() == 0 { Seq::<char>::empty() } else { "/"@ + feature@ },
{
    let mut r = cat(dir, "/src/handlers");
    if chars_of(feature).len() > 0 {
        push_str(&mut r, "/");
        push_str(&mut r, feature);
    } else {
        assert(r@ + Seq::<char>::empty() =~= r@);
    }
    r
}

/// The file of one handler: `<sub>/<fnNameCamel>.ts`.
pub fn handler_file(sub: &str, fn_name_camel: &str) -> (r: String)
    ensures
        r@ == sub@ + "/"@ + fn_name_camel@ + ".ts"@,
{
    let mut r = cat(sub, "/");
    push_str(&mut r, fn_name_camel);
    push_str(&mut r, ".ts");
    r
}

/// The directory generated code of kind `key` goes to: under the configured
/// artifact directory when there is one, else under `<cwd>/.build`.
pub fn artifact_dir(configured: Option<&str>, cwd: &str, key: &str) -> (r: String)
    ensures
        r@ == match configured {
            Some(d) => d@ + "/"@ + key@,
            None => cwd@ + "/.build/"@ + key@,
        },
{
    match configured {
        Some(d) => {
            let mut r = cat(d, "/");
            push_str(&mut r, key);
            r
        },
        None => {
            let mut r = cat(cwd, "/.build/");
            push_str(&mut r, key);
            r
        },
    }
}

/// The file generated code for a model goes to: `<dir>/<model in snake_case>.rs`.
pub fn artifact_file(dir: &str, model_name: &str) -> (r: String)
    ensures
        r@ == dir@ + "/"@ + case_converted(model_name@, CaseKind::Snake) + ".rs"@,
{
    let mut r = cat(dir, "/");
    push_str(&mut r, to_case(model_name, CaseKind::Snake).as_str());
    push_str(&mut r, ".rs");
    r
}

/// How the axum adapter of a typed handler calls the renamed handler.
pub struct AdapterPlan {
    /// The renamed handler: `__<fn>_impl`.
    pub impl_name: String,
    /// For each typed parameter, its position and its forwarding name `__a<position>`.
    pub params: Vec<(usize, String)>,
    /// Whether the call is awaited (the handler is `async`).
    pub awaits: bool,
    /// The axum routing function: the method in lowercase.
    pub route_fn: String,
}

/// The forwarding name of the parameter at position `i`.
pub open spec fn forward_name(i: nat) -> Seq<char> {
    "__a"@ + decimal(i)
}

/// The routing function of a method.
pub open spec fn route_fn_of(method: Seq<char>) -> Seq<char> {
    if method == "GET"@ {
        "get"@
    } else if method == "POST"@ {
        "post"@
    } else if method == "PUT"@ {
        "put"@
    } else if method == "PATCH"@ {
        "patch"@
    } else {
        "delete"@
    }
}

/// The typed parameters among `typed`, with their forwarding names.
pub open spec fn forwarded(typed: Seq<bool>) -> Seq<(int, Seq<char>)>
    decreases typed.len(),
{
    if typed.len() == 0 {
        Seq::empty()
    } else {
        forwarded(typed.drop_last()) + if typed.last() {
            seq![((typed.len() - 1) as int, forward_name((typed.len() - 1) as nat))]
        } else {
            Seq::empty()
        }
    }
}

/// Plans the adapter of handler `fn_name` for `method` (`GET`, `POST`,
/// `PUT`, `PATCH` or `DELETE`); `typed` says which parameters are typed
/// (the others are receivers).
pub fn plan_axum_adapter(method: &str, fn_name: &str, typed: &Vec<bool>, is_async: bool) -> (r: AdapterPlan)
    ensures
        r.impl_name@ == "__"@ + fn_name@ + "_impl"@,
        r.params@.map_values(|p: (usize, String)| (p.0 as int, p.1@)) == forwarded(typed@),
        r.awaits == is_async,
        r.route_fn@ == route_fn_of(method@),
{
    let mut impl_name = cat("__", fn_name);
    push_str(&mut impl_name, "_impl");
    let mut params: Vec<(usize, String)> = Vec::new();
    let mut i: usize = 0;
    assert(typed@.take(0) =~= Seq::<bool>::empty());
    assert(params@.map_values(|p: (usize, String)| (p.0 as int, p.1@)) =~= Seq::<(int, Seq<char>)>::empty());
    while i < typed.len()
        invariant
            i <= typed@.len(),
            params@.map_values(|p: (usize, String)| (p.0 as int, p.1@)) == forwarded(typed@.take(i as int)),
        decreases typed@.len() - i,
    {
        let ghost t = typed@.take(i as int + 1);
        assert(t.drop_last() =~= typed@.take(i as int));
        let ghost before = params@.map_values(|p: (usize, String)| (p.0 as int, p.1@));
        if typed[i] {
            let name = cat("__a", decimal_string(i as u64).as_str());
            params.push((i, name));
            assert(params@.map_values(|p: (usize, String)| (p.0 as int, p.1@)) =~= before.push((i as int, forward_name(i as nat))));
        } else {
            assert(params@.map_values(|p: (usize, String)| (p.0 as int, p.1@)) =~= before);
        }
        i += 1;
    }
    assert(typed@.take(typed@.len() as int) =~= typed@);
    let route_fn = if crate::text::str_eq(method, "GET") {
        owned("get")
    } else if crate::text::str_eq(method, "POST") {
        owned("post")
    } else if crate::text::str_eq(method, "PUT") {
        owned("put")
    } else if crate::text::str_eq(method, "PATCH") {
        owned("patch")
    } else {
        owned("delete")
    };
    AdapterPlan { impl_name, params, awaits: is_async, route_fn }
}

} // verus!
