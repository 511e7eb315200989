//! The client stub that `#[get("..")]`, `#[post("..")]` and their siblings
//! emit for the tauri-web build: which handler arguments it keeps, which
//! fill the path, the query string and the JSON body, and which request
//! function it calls.
use vstd::prelude::*;
use crate::route::{parse_path, path_names, path_template, query_names};
use crate::rust_type::{RType, RustType, lemma_types_view};
use crate::mcp_tool::{is_option_rtype, is_option_type, opt_view};
use crate::text::{owned, str_eq, views};

verus! {

/// A handler argument: its binding name when the pattern is a plain
/// identifier (`None` for a receiver or any other pattern), and its type.
pub struct StubArg {
    pub name: Option<String>,
    pub ty: RustType,
}

pub struct StubArgView {
    pub name: Option<Seq<char>>,
    pub ty: RType,
}

impl View for StubArg {
    type V = StubArgView;

    open spec fn view(&self) -> StubArgView {
        StubArgView { name: opt_view(self.name), ty: self.ty@ }
    }
}

pub open spec fn stub_arg_views(v: Seq<StubArg>) -> Seq<StubArgView> {
    v.map_values(|a: StubArg| a@)
}

/// The input of the route macro: its method, the path literal, the names of
/// the server-side extractors listed after it, and the handler's arguments.
pub struct StubInput {
    pub method: String,
    pub path: String,
    pub extractors: Vec<String>,
    pub args: Vec<StubArg>,
}

/// The HTTP methods the route macros exist for.
pub open spec fn known_method(m: Seq<char>) -> bool {
    m == "GET"@ || m == "DELETE"@ || m == "POST"@ || m == "PUT"@ || m == "PATCH"@
}

/// A `Form<T>` type's `T`.
pub open spec fn form_inner(t: RType) -> Option<RType> {
    match t {
        RType::Path(id, args) => if id == "Form"@ && args.len() > 0 {
            Some(args[0])
        } else {
            None
        },
        _ => None,
    }
}

/// If `ty` is `Form<T>` (by its last path segment), its `T`.
pub fn unwrap_form_type(ty: &RustType) -> (r: Option<RustType>)
    ensures
        match (r, form_inner(ty@)) {
            (Some(a), Some(b)) => a@ == b,
            (None, None) => true,
            _ => false,
        },
{
    match ty {
        RustType::Path { ident, args } => {
            proof {
                lemma_types_view(args@);
            }
            if str_eq(ident.as_str(), "Form") && args.len() > 0 {
                Some(args[0].deep_clone())
            } else {
                None
            }
        },
        _ => None,
    }
}

/// An argument the client stub keeps: a named one that is no extractor.
pub open spec fn is_client(a: StubArgView, ex: Seq<Seq<char>>) -> bool {
    a.name is Some && !ex.contains(a.name->0)
}

/// The positions of the client arguments, in order.
pub open spec fn client_positions(args: Seq<StubArgView>, ex: Seq<Seq<char>>) -> Seq<int>
    decreases args.len(),
{
    if args.len() == 0 {
        Seq::empty()
    } else {
        client_positions(args.drop_last(), ex) + if is_client(args.last(), ex) {
            seq![args.len() - 1]
        } else {
            Seq::empty()
        }
    }
}

/// The client stub never takes a server-side extractor: every argument it
/// keeps is named, and by a name the route does not list as an extractor.
pub proof fn law_stub_drops_extractors(args: Seq<StubArgView>, ex: Seq<Seq<char>>)
    ensures
        forall|x: int| #[trigger] client_positions(args, ex).contains(x) ==> 0 <= x < args.len()
            && args[x].name is Some && !ex.contains(args[x].name->0),
    decreases args.len(),
{
    if args.len() > 0 {
        let d = args.drop_last();
        law_stub_drops_extractors(d, ex);
        let prev = client_positions(d, ex);
        let all = client_positions(args, ex);
        assert forall|x: int| #[trigger] all.contains(x) implies 0 <= x < args.len()
            && args[x].name is Some && !ex.contains(args[x].name->0) by {
            let j = choose|j: int| 0 <= j < all.len() && all[j] == x;
            if j < prev.len() {
                assert(prev[j] == x);
                assert(prev.contains(x));
                assert(args[x] == d[x]);
            }
        }
    }
}

/// The first client argument named `n`.
pub open spec fn first_client_named(args: Seq<StubArgView>, ex: Seq<Seq<char>>, n: Seq<char>) -> Option<int>
    decreases args.len(),
{
    if args.len() == 0 {
        None
    } else {
        match first_client_named(args.drop_last(), ex, n) {
            Some(i) => Some(i),
            None => if is_client(args.last(), ex) && args.last().name->0 == n {
                Some(args.len() - 1)
            } else {
                None
            },
        }
    }
}

/// For each name in order, the first client argument of that name; names
/// without one are passed over.
pub open spec fn named_positions(args: Seq<StubArgView>, ex: Seq<Seq<char>>, names: Seq<Seq<char>>) -> Seq<int>
    decreases names.len(),
{
    if names.len() == 0 {
        Seq::empty()
    } else {
        named_positions(args, ex, names.drop_last()) + match first_client_named(args, ex, names.last()) {
            Some(i) => seq![i],
            None => Seq::empty(),
        }
    }
}

/// The client arguments that fill neither the path nor the query.
pub open spec fn body_positions(args: Seq<StubArgView>, ex: Seq<Seq<char>>, pn: Seq<Seq<char>>, qn: Seq<Seq<char>>) -> Seq<int>
    decreases args.len(),
{
    if args.len() == 0 {
        Seq::empty()
    } else {
        body_positions(args.drop_last(), ex, pn, qn) + if is_client(args.last(), ex)
            && !pn.contains(args.last().name->0) && !qn.contains(args.last().name->0) {
            seq![args.len() - 1]
        } else {
            Seq::empty()
        }
    }
}

/// What is left of the client arguments after the path and the query is
/// the body: an argument is a body argument exactly when the stub keeps it
/// and neither the path nor the query names it.
pub proof fn law_body_is_the_rest(args: Seq<StubArgView>, ex: Seq<Seq<char>>, pn: Seq<Seq<char>>, qn: Seq<Seq<char>>, i: int)
    requires
        0 <= i < args.len(),
    ensures
        body_positions(args, ex, pn, qn).contains(i) <==> (is_client(args[i], ex) && !pn.contains(args[i].name->0)
            && !qn.contains(args[i].name->0)),
    decreases args.len(),
{
    let d = args.drop_last();
    let prev = body_positions(d, ex, pn, qn);
    let all = body_positions(args, ex, pn, qn);
    lemma_body_positions_below(d, ex, pn, qn);
    if i < args.len() - 1 {
        law_body_is_the_rest(d, ex, pn, qn, i);
        assert(d[i] == args[i]);
        if prev.contains(i) {
            let j = choose|j: int| 0 <= j < prev.len() && prev[j] == i;
            assert(all[j] == i);
        }
        if all.contains(i) {
            let j = choose|j: int| 0 <= j < all.len() && all[j] == i;
            if j >= prev.len() {
                assert(all[j] == args.len() - 1);
            }
            assert(prev[j] == i);
        }
    } else {
        if all.contains(i) {
            let j = choose|j: int| 0 <= j < all.len() && all[j] == i;
            if j < prev.len() {
                assert(prev[j] < d.len());
            }
        }
        if is_client(args[i], ex) && !pn.contains(args[i].name->0) && !qn.contains(args[i].name->0) {
            assert(all[all.len() - 1] == i);
        }
    }
}

proof fn lemma_body_positions_below(args: Seq<StubArgView>, ex: Seq<Seq<char>>, pn: Seq<Seq<char>>, qn: Seq<Seq<char>>)
    ensures
        forall|j: int| 0 <= j < body_positions(args, ex, pn, qn).len() ==> 0 <= #[trigger] body_positions(args, ex, pn, qn)[j] < args.len(),
    decreases args.len(),
{
    if args.len() > 0 {
        let d = args.drop_last();
        lemma_body_positions_below(d, ex, pn, qn);
        let prev = body_positions(d, ex, pn, qn);
        let all = body_positions(args, ex, pn, qn);
        assert forall|j: int| 0 <= j < all.len() implies 0 <= #[trigger] all[j] < args.len() by {
            if j < prev.len() {
                assert(all[j] == prev[j]);
            }
        }
    }
}

/// One argument of the stub's signature: where it comes from, its name and
/// its type, `Form<T>` unwrapped to `T`.
pub struct StubParam {
    pub arg: usize,
    pub name: String,
    pub ty: RustType,
}

pub struct StubParamView {
    pub arg: int,
    pub name: Seq<char>,
    pub ty: RType,
}

impl View for StubParam {
    type V = StubParamView;

    open spec fn view(&self) -> StubParamView {
        StubParamView { arg: self.arg as int, name: self.name@, ty: self.ty@ }
    }
}

pub open spec fn stub_param_views(v: Seq<StubParam>) -> Seq<StubParamView> {
    v.map_values(|p: StubParam| p@)
}

/// The stub parameter for the argument at `i`.
pub open spec fn stub_param(args: Seq<StubArgView>, i: int) -> StubParamView {
    StubParamView {
        arg: i,
        name: args[i].name->0,
        ty: match form_inner(args[i].ty) {
            Some(t) => t,
            None => args[i].ty,
        },
    }
}

/// One query-string key: the argument it is read from and whether an
/// absent (`None`) value is left out.
pub struct QueryKey {
    pub arg: usize,
    pub optional: bool,
}

pub open spec fn query_key_views(v: Seq<QueryKey>) -> Seq<(int, bool)> {
    v.map_values(|q: QueryKey| (q.arg as int, q.optional))
}

/// The stub to emit.
pub struct StubPlan {
    /// The `format!` template of the path.
    pub path_template: String,
    pub params: Vec<StubParam>,
    /// The arguments substituted into the path, in template order.
    pub path_args: Vec<usize>,
    pub query: Vec<QueryKey>,
    pub body_args: Vec<usize>,
    /// The request function called: `get`, `delete`, `post`, `put` or `patch`.
    pub send_fn: String,
    /// For `post`, `put` and `patch`, the argument sent as `{"name": value}`.
    pub body_arg: Option<usize>,
}

/// The request function of a method.
pub open spec fn send_fn_of(m: Seq<char>) -> Seq<char> {
    if m == "GET"@ {
        "get"@
    } else if m == "DELETE"@ {
        "delete"@
    } else if m == "POST"@ {
        "post"@
    } else if m == "PUT"@ {
        "put"@
    } else {
        "patch"@
    }
}

/// The stub planned for `input`.
pub open spec fn stub_plan_ok(input: StubInput, p: StubPlan) -> bool {
    let args = stub_arg_views(input.args@);
    let ex = views(input.extractors@);
    let pn = path_names(input.path@);
    let qn = query_names(input.path@);
    let body = body_positions(args, ex, pn, qn);
    &&& p.path_template@ == path_template(input.path@)
    &&& stub_param_views(p.params@) == client_positions(args, ex).map_values(|i: int| stub_param(args, i))
    &&& p.path_args@.map_values(|i: usize| i as int) == named_positions(args, ex, pn)
    &&& query_key_views(p.query@) == named_positions(args, ex, qn).map_values(|i: int| (i, is_option_rtype(args[i].ty)))
    &&& p.body_args@.map_values(|i: usize| i as int) == body
    &&& p.send_fn@ == send_fn_of(input.method@)
    &&& p.body_arg == (if (input.method@ == "GET"@ || input.method@ == "DELETE"@) || body.len() == 0 {
        None
    } else {
        Some(body[0] as usize)
    })
}

fn contains_name(v: &Vec<String>, s: &str) -> (r: bool)
    ensures
        r == views(v@).contains(s@),
{
    let mut i: usize = 0;
    while i < v.len()
        invariant
            i <= v@.len(),
            forall|k: int| 0 <= k < i ==> v@[k]@ != s@,
        decreases v@.len() - i,
    {
        if str_eq(v[i].as_str(), s) {
            assert(views(v@)[i as int] == s@);
            return true;
        }
        i += 1;
    }
    assert forall|k: int| 0 <= k < views(v@).len() implies views(v@)[k] != s@ by {
        assert(views(v@)[k] == v@[k]@);
    }
    false
}

fn client_at(args: &Vec<StubArg>, ex: &Vec<String>, i: usize) -> (r: bool)
    requires
        i < args@.len(),
    ensures
        r == is_client(args@[i as int]@, views(ex@)),
{
    match &args[i].name {
        Some(n) => !contains_name(ex, n.as_str()),
        None => false,
    }
}

fn find_client(args: &Vec<StubArg>, ex: &Vec<String>, n: &str) -> (r: Option<usize>)
    ensures
        r matches Some(i) ==> i < args@.len(),
        match (r, first_client_named(stub_arg_views(args@), views(ex@), n@)) {
            (Some(i), Some(j)) => i as int == j,
            (None, None) => true,
            _ => false,
        },
{
    let ghost av = stub_arg_views(args@);
    let mut i: usize = 0;
    while i < args.len()
        invariant
            av == stub_arg_views(args@),
            i <= args@.len(),
            first_client_named(av.take(i as int), views(ex@), n@) is None,
        decreases args@.len() - i,
    {
        let ghost t = av.take(i as int + 1);
        assert(t.drop_last() =~= av.take(i as int));
        assert(t.last() == args@[i as int]@);
        if client_at(args, ex, i) {
            match &args[i].name {
                Some(m) => {
                    if str_eq(m.as_str(), n) {
                        proof {
                            lemma_first_client_prefix(av, views(ex@), n@, i as int + 1);
                        }
                        return Some(i);
                    }
                },
                None => {},
            }
        }
        i += 1;
    }
    assert(av.take(args@.len() as int) =~= av);
    None
}

proof fn lemma_first_client_prefix(args: Seq<StubArgView>, ex: Seq<Seq<char>>, n: Seq<char>, k: int)
    requires
        0 <= k <= args.len(),
        first_client_named(args.take(k), ex, n) is Some,
    ensures
        first_client_named(args, ex, n) == first_client_named(args.take(k), ex, n),
    decreases args.len() - k,
{
    if k < args.len() {
        assert(args.take(k + 1).drop_last() =~= args.take(k));
        lemma_first_client_prefix(args, ex, n, k + 1);
    } else {
        assert(args.take(k) =~= args);
    }
}

fn positions_for(args: &Vec<StubArg>, ex: &Vec<String>, names: &Vec<String>) -> (r: Vec<usize>)
    ensures
        forall|j: int| 0 <= j < r@.len() ==> r@[j] < args@.len(),
        r@.map_values(|i: usize| i as int) == named_positions(stub_arg_views(args@), views(ex@), views(names@)),
{
    let ghost av = stub_arg_views(args@);
    let mut out: Vec<usize> = Vec::new();
    let mut k: usize = 0;
    while k < names.len()
        invariant
            av == stub_arg_views(args@),
            k <= names@.len(),
            out@.map_values(|i: usize| i as int) == named_positions(av, views(ex@), views(names@).take(k as int)),
            forall|j: int| 0 <= j < out@.len() ==> out@[j] < args@.len(),
        decreases names@.len() - k,
    {
        let ghost t = views(names@).take(k as int + 1);
        assert(t.drop_last() =~= views(names@).take(k as int));
        assert(t.last() == names@[k as int]@);
        let ghost before = out@;
        match find_client(args, ex, names[k].as_str()) {
            Some(i) => {
                out.push(i);
                assert(out@.map_values(|i: usize| i as int) =~= before.map_values(|i: usize| i as int).push(i as int));
            },
            None => {
                assert(out@ =~= before);
            },
        }
        k += 1;
    }
    assert(views(names@).take(names@.len() as int) =~= views(names@));
    out
}

/// Plans the tauri-web client stub of a route handler.
pub fn plan_server_stub(input: &StubInput) -> (r: StubPlan)
    requires
        known_method(input.method@),
    ensures
        stub_plan_ok(*input, r),
{
    let (path_template, path_names, query_names) = parse_path(input.path.as_str());
    let ghost av = stub_arg_views(input.args@);
    let ghost ex = views(input.extractors@);
    let ghost pn = views(path_names@);
    let ghost qn = views(query_names@);
    let mut params: Vec<StubParam> = Vec::new();
    let mut body_args: Vec<usize> = Vec::new();
    let mut i: usize = 0;
    while i < input.args.len()
        invariant
            av == stub_arg_views(input.args@),
            ex == views(input.extractors@),
            pn == views(path_names@),
            qn == views(query_names@),
            i <= input.args@.len(),
            stub_param_views(params@) == client_positions(av.take(i as int), ex).map_values(|j: int| stub_param(av, j)),
            body_args@.map_values(|j: usize| j as int) == body_positions(av.take(i as int), ex, pn, qn),
        decreases input.args@.len() - i,
    {
        let ghost t = av.take(i as int + 1);
        assert(t.drop_last() =~= av.take(i as int));
        assert(t.last() == input.args@[i as int]@);
        assert(av[i as int] == input.args@[i as int]@);
        let ghost before_p = stub_param_views(params@);
        let ghost before_b = body_args@;
        let a = &input.args[i];
        if client_at(&input.args, &input.extractors, i) {
            let name = match &a.name {
                Some(n) => owned(n.as_str()),
                None => owned(""),
            };
            let ty = match unwrap_form_type(&a.ty) {
                Some(inner) => inner,
                None => a.ty.deep_clone(),
            };
            let in_path = contains_name(&path_names, name.as_str());
            let in_query = contains_name(&query_names, name.as_str());
            params.push(StubParam { arg: i, name, ty });
            assert(stub_param_views(params@) =~= before_p.push(stub_param(av, i as int)));
            if !in_path && !in_query {
                body_args.push(i);
                assert(body_args@.map_values(|j: usize| j as int) =~= before_b.map_values(|j: usize| j as int).push(i as int));
            } else {
                assert(body_args@ =~= before_b);
            }
        }
        i += 1;
    }
    assert(av.take(input.args@.len() as int) =~= av);
    let path_args = positions_for(&input.args, &input.extractors, &path_names);
    let qpos = positions_for(&input.args, &input.extractors, &query_names);
    let mut query: Vec<QueryKey> = Vec::new();
    let mut k: usize = 0;
    while k < qpos.len()
        invariant
            av == stub_arg_views(input.args@),
            k <= qpos@.len(),
            forall|j: int| 0 <= j < qpos@.len() ==> qpos@[j] < input.args@.len(),
            query_key_views(query@) == qpos@.take(k as int).map_values(|j: usize| (j as int, is_option_rtype(av[j as int].ty))),
        decreases qpos@.len() - k,
    {
        let ghost before = query_key_views(query@);
        let j = qpos[k];
        let optional = is_option_type(&input.args[j].ty);
        query.push(QueryKey { arg: j, optional });
        proof {
            assert(qpos@.take(k as int + 1) =~= qpos@.take(k as int).push(j));
            assert(query_key_views(query@) =~= before.push((j as int, is_option_rtype(av[j as int].ty))));
        }
        k += 1;
    }
    assert(qpos@.take(qpos@.len() as int) =~= qpos@);
    assert(query_key_views(query@) =~= named_positions(av, ex, qn).map_values(|i: int| (i, is_option_rtype(av[i].ty))));
    let send_fn = if str_eq(input.method.as_str(), "GET") {
        owned("get")
    } else if str_eq(input.method.as_str(), "DELETE") {
        owned("delete")
    } else if str_eq(input.method.as_str(), "POST") {
        owned("post")
    } else if str_eq(input.method.as_str(), "PUT") {
        owned("put")
    } else {
        owned("patch")
    };
    let get_like = str_eq(input.method.as_str(), "GET") || str_eq(input.method.as_str(), "DELETE");
    let body_arg = if get_like || body_args.len() == 0 {
        None
    } else {
        Some(body_args[0])
    };
    StubPlan { path_template, params, path_args, query, body_args, send_fn, body_arg }
}

} // verus!
