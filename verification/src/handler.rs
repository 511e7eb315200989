//! Classification of an axum handler signature against its route, from the
//! extractor wrapper types (`Path`, `Query`, `Json`/`Form`) alone.
use vstd::prelude::*;
use crate::rust_type::{lemma_types_view, types_view, type_view, RType, RustType};
use crate::route::{parse_path, path_names, path_template};
use crate::text::{decimal, decimal_string, ends_with, owned, push_str, str_ends_with, str_eq, views};

verus! {

/// Which extractor wrapper an argument type is, by its last path identifier.
#[derive(PartialEq, Eq, Structural, Clone, Copy, Debug)]
pub enum Wrapper {
    Path,
    Query,
    /// `Json` or `Form`.
    Body,
    /// Any other type: a server-side extractor.
    Extractor,
}

/// The last identifier of a path type.
pub open spec fn last_ident_of(t: RType) -> Option<Seq<char>> {
    match t {
        RType::Path(id, _) => Some(id),
        _ => None,
    }
}

/// The first type argument of a path type (`Wrapper<T>` gives `T`).
pub open spec fn first_generic_of(t: RType) -> Option<RType> {
    match t {
        RType::Path(_, args) => if args.len() > 0 { Some(args[0]) } else { None },
        _ => None,
    }
}

/// The second type argument of a path type (`Wrapper<A, B>` gives `B`).
pub open spec fn second_generic_of(t: RType) -> Option<RType> {
    match t {
        RType::Path(_, args) => if args.len() > 1 { Some(args[1]) } else { None },
        _ => None,
    }
}

/// The extractor wrapper of a type.
pub open spec fn wrapper_spec(t: RType) -> Wrapper {
    match last_ident_of(t) {
        Some(id) => if id == "Path"@ {
            Wrapper::Path
        } else if id == "Query"@ {
            Wrapper::Query
        } else if id == "Json"@ || id == "Form"@ {
            Wrapper::Body
        } else {
            Wrapper::Extractor
        },
        None => Wrapper::Extractor,
    }
}

/// `Result` itself or an alias whose name ends in `Result`.
pub open spec fn is_result_name(id: Seq<char>) -> bool {
    id == "Result"@ || ends_with(id, "Result"@)
}

/// Whether a type is `Result<..>` or a `*Result<..>` alias.
pub open spec fn result_like(t: RType) -> bool {
    match last_ident_of(t) {
        Some(id) => is_result_name(id),
        None => false,
    }
}

/// `Result<T, E>` gives `(T, Some(E))`; an alias `FooResult<T, ..>` gives
/// `(T, None)`, since the alias hides its error type; anything else is its
/// own success type.
pub open spec fn unwrap_result_spec(t: RType) -> (RType, Option<RType>) {
    if result_like(t) && first_generic_of(t) is Some {
        let err = if last_ident_of(t) == Some("Result"@) { second_generic_of(t) } else { None };
        (first_generic_of(t)->0, err)
    } else {
        (t, None)
    }
}

/// The empty tuple `()`.
pub open spec fn is_unit_spec(t: RType) -> bool {
    match t {
        RType::Tuple(es) => es.len() == 0,
        _ => false,
    }
}

fn last_ident_is(ty: &RustType, name: &str) -> (r: bool)
    ensures
        r == (last_ident_of(ty@) == Some(name@)),
{
    match ty {
        RustType::Path { ident, .. } => str_eq(ident.as_str(), name),
        _ => false,
    }
}

/// The first type argument of a path type, copied.
pub fn first_generic(ty: &RustType) -> (r: Option<RustType>)
    ensures
        match r {
            Some(x) => first_generic_of(ty@) == Some(x@),
            None => first_generic_of(ty@) is None,
        },
{
    match ty {
        RustType::Path { args, .. } => {
            proof {
                lemma_types_view(args@);
            }
            if args.len() > 0 {
                Some(args[0].deep_clone())
            } else {
                None
            }
        },
        _ => None,
    }
}

fn second_generic(ty: &RustType) -> (r: Option<RustType>)
    ensures
        match r {
            Some(x) => second_generic_of(ty@) == Some(x@),
            None => second_generic_of(ty@) is None,
        },
{
    match ty {
        RustType::Path { args, .. } => {
            proof {
                lemma_types_view(args@);
            }
            if args.len() > 1 {
                Some(args[1].deep_clone())
            } else {
                None
            }
        },
        _ => None,
    }
}

/// Which extractor wrapper an argument type is.
pub fn wrapper_of(ty: &RustType) -> (r: Wrapper)
    ensures
        r == wrapper_spec(ty@),
{
    if last_ident_is(ty, "Path") {
        Wrapper::Path
    } else if last_ident_is(ty, "Query") {
        Wrapper::Query
    } else if last_ident_is(ty, "Json") || last_ident_is(ty, "Form") {
        Wrapper::Body
    } else {
        Wrapper::Extractor
    }
}

/// Whether a return type is `Result<..>` or any `*Result<..>` alias.
pub fn is_result_like(ty: &RustType) -> (r: bool)
    ensures
        r == result_like(ty@),
{
    match ty {
        RustType::Path { ident, .. } => str_eq(ident.as_str(), "Result") || str_ends_with(ident.as_str(), "Result"),
        _ => false,
    }
}

/// `Result<T, E>` (or any `*Result<T, ..>` alias such as `CollabResult<T>`)
/// gives `(T, E)`; aliases hide `E`, so it comes back `None`.
pub fn unwrap_result(ty: &RustType) -> (r: (RustType, Option<RustType>))
    ensures
        (r.0@, match r.1 { Some(e) => Some(e@), None => None }) == unwrap_result_spec(ty@),
{
    if is_result_like(ty) {
        if let Some(ok) = first_generic(ty) {
            let err = if last_ident_is(ty, "Result") { second_generic(ty) } else { None };
            return (ok, err);
        }
    }
    (ty.deep_clone(), None)
}

/// Whether a type is `()`.
pub fn is_unit(ty: &RustType) -> (r: bool)
    ensures
        r == is_unit_spec(ty@),
{
    match ty {
        RustType::Tuple(es) => {
            proof {
                lemma_types_view(es@);
            }
            es.len() == 0
        },
        _ => false,
    }
}

/// The binding pattern of a handler argument, as far as names are bound.
pub enum ArgPattern {
    /// `Path(inner)`, `Query(inner)`, `Json(inner)`, ...
    TupleStruct(Vec<ArgPattern>),
    /// `(a, b)`
    Tuple(Vec<ArgPattern>),
    /// A plain binding.
    Ident(String),
    /// Any other pattern.
    Other,
}

/// The names a pattern binds, in order.
pub open spec fn pat_names(p: ArgPattern) -> Seq<Seq<char>>
    decreases p, 1nat,
{
    match p {
        ArgPattern::TupleStruct(ps) => pats_names(ps@),
        ArgPattern::Tuple(ps) => pats_names(ps@),
        ArgPattern::Ident(n) => seq![n@],
        ArgPattern::Other => Seq::empty(),
    }
}

/// The names a list of patterns binds, in order.
pub open spec fn pats_names(ps: Seq<ArgPattern>) -> Seq<Seq<char>>
    decreases ps, 0nat,
{
    if ps.len() == 0 {
        Seq::empty()
    } else {
        pat_names(ps[0]) + pats_names(ps.drop_first())
    }
}

#[verifier::loop_isolation(false)]
fn pats_binding_names(ps: &Vec<ArgPattern>) -> (r: Vec<String>)
    ensures
        views(r@) == pats_names(ps@),
    decreases ps, 0nat,
{
    let n = ps.len();
    let mut out: Vec<String> = Vec::new();
    let mut i = n;
    assert(ps@.skip(n as int) =~= Seq::<ArgPattern>::empty());
    while i > 0
        invariant
            i <= n,
            n == ps@.len(),
            views(out@) == pats_names(ps@.skip(i as int)),
        decreases i,
    {
        proof {
            assert(decreases_to!(ps => ps@));
            assert(decreases_to!(ps@ => ps@[i - 1]));
        }
        let mut head = binding_names(&ps[i - 1]);
        let ghost h = views(head@);
        let ghost o = views(out@);
        head.append(&mut out);
        out = head;
        proof {
            let s1 = ps@.skip(i - 1);
            assert(s1[0] == ps@[i - 1]);
            assert(s1.drop_first() =~= ps@.skip(i as int));
            assert(views(out@) =~= h + o);
        }
        i -= 1;
    }
    assert(ps@.skip(0) =~= ps@);
    out
}

/// Names bound by an extractor pattern: `Path(a)` gives `[a]`,
/// `Path((a, b))` gives `[a, b]`, a plain `path` gives `[path]`.
pub fn binding_names(pat: &ArgPattern) -> (r: Vec<String>)
    ensures
        views(r@) == pat_names(*pat),
    decreases pat, 1nat,
{
    match pat {
        ArgPattern::TupleStruct(ps) => {
            proof {
                assert(decreases_to!(pat => ps));
            }
            pats_binding_names(ps)
        },
        ArgPattern::Tuple(ps) => {
            proof {
                assert(decreases_to!(pat => ps));
            }
            pats_binding_names(ps)
        },
        ArgPattern::Ident(n) => {
            let mut v: Vec<String> = Vec::new();
            v.push(n.clone());
            assert(views(v@) =~= seq![n@]);
            v
        },
        ArgPattern::Other => {
            let v: Vec<String> = Vec::new();
            assert(views(v@) =~= Seq::<Seq<char>>::empty());
            v
        },
    }
}

/// How a client argument reaches the server.
#[derive(PartialEq, Eq, Structural, Clone, Copy, Debug)]
pub enum ArgKind {
    Path,
    Query,
    Body,
}

/// An argument of the generated client function.
pub struct ClientArg {
    pub name: String,
    pub ty: RustType,
    pub kind: ArgKind,
}

/// The mathematical value of a [`ClientArg`].
pub struct ClientArgView {
    pub name: Seq<char>,
    pub ty: RType,
    pub kind: ArgKind,
}

impl View for ClientArg {
    type V = ClientArgView;

    open spec fn view(&self) -> ClientArgView {
        ClientArgView { name: self.name@, ty: self.ty@, kind: self.kind }
    }
}

/// The views of a list of client arguments.
pub open spec fn client_views(v: Seq<ClientArg>) -> Seq<ClientArgView> {
    v.map_values(|a: ClientArg| a@)
}

/// A handler argument: a receiver, or a typed binding.
pub enum HandlerArg {
    Receiver,
    Typed { pat: ArgPattern, ty: RustType },
}

/// The element types a `Path<T>` extractor binds: the elements of a tuple
/// `T`, or `T` itself.
pub open spec fn path_elems(t: RType) -> Seq<RType> {
    match first_generic_of(t) {
        Some(RType::Tuple(es)) => es,
        Some(x) => seq![x],
        None => Seq::empty(),
    }
}

/// The type of the `i`-th name bound by a `Path` extractor: the matching
/// element, else the first element, else `String`.
pub open spec fn path_arg_type(elems: Seq<RType>, i: int) -> RType {
    if i < elems.len() {
        elems[i]
    } else if elems.len() > 0 {
        elems[0]
    } else {
        RType::Path("String"@, Seq::empty())
    }
}

/// The client arguments a `Path` extractor contributes: one per bound name.
pub open spec fn path_client_args(names: Seq<Seq<char>>, t: RType) -> Seq<ClientArgView> {
    Seq::new(names.len(), |i: int| ClientArgView {
        name: names[i],
        ty: path_arg_type(path_elems(t), i),
        kind: ArgKind::Path,
    })
}

/// The single client argument a `Query` or body extractor contributes: its
/// first bound name (or `default`), typed by the wrapper's argument (or the
/// whole type).
pub open spec fn single_client_arg(names: Seq<Seq<char>>, t: RType, default: Seq<char>, kind: ArgKind) -> ClientArgView {
    ClientArgView {
        name: if names.len() > 0 { names[0] } else { default },
        ty: match first_generic_of(t) { Some(x) => x, None => t },
        kind,
    }
}

/// Path, query and body arguments after one more handler argument.
pub open spec fn classify_step(
    acc: (Seq<ClientArgView>, Seq<ClientArgView>, Seq<ClientArgView>),
    a: HandlerArg,
) -> (Seq<ClientArgView>, Seq<ClientArgView>, Seq<ClientArgView>) {
    match a {
        HandlerArg::Receiver => acc,
        HandlerArg::Typed { pat, ty } => match wrapper_spec(ty@) {
            Wrapper::Path => (acc.0 + path_client_args(pat_names(pat), ty@), acc.1, acc.2),
            Wrapper::Query => (acc.0, acc.1.push(single_client_arg(pat_names(pat), ty@, "query"@, ArgKind::Query)), acc.2),
            Wrapper::Body => (acc.0, acc.1, acc.2.push(single_client_arg(pat_names(pat), ty@, "body"@, ArgKind::Body))),
            Wrapper::Extractor => acc,
        },
    }
}

/// Path, query and body arguments of a handler signature, in signature order.
pub open spec fn classify_args(inputs: Seq<HandlerArg>) -> (Seq<ClientArgView>, Seq<ClientArgView>, Seq<ClientArgView>)
    decreases inputs.len(),
{
    if inputs.len() == 0 {
        (Seq::empty(), Seq::empty(), Seq::empty())
    } else {
        classify_step(classify_args(inputs.drop_last()), inputs.last())
    }
}

/// A handler argument whose type's last identifier is `Json` or `Form` is
/// the request body: it adds exactly one body argument to the client, typed
/// by the wrapper's type argument, and leaves the path and query arguments
/// as they were.
pub proof fn law_json_and_form_are_bodies(inputs: Seq<HandlerArg>, pat: ArgPattern, ty: RustType)
    requires
        ty@ matches RType::Path(id, _) && (id == seq!['J', 's', 'o', 'n'] || id == seq!['F', 'o', 'r', 'm']),
    ensures
        ({
            let before = classify_args(inputs);
            let after = classify_args(inputs.push(HandlerArg::Typed { pat, ty }));
            &&& after.0 == before.0
            &&& after.1 == before.1
            &&& after.2.len() == before.2.len() + 1
            &&& after.2.drop_last() == before.2
            &&& after.2.last().kind == ArgKind::Body
            &&& after.2.last().ty == match first_generic_of(ty@) {
                Some(x) => x,
                None => ty@,
            }
        }),
{
    reveal_strlit("Json");
    reveal_strlit("Form");
    reveal_strlit("Path");
    reveal_strlit("Query");
    let full = inputs.push(HandlerArg::Typed { pat, ty });
    assert(full.drop_last() =~= inputs);
    assert(full.last() == HandlerArg::Typed { pat, ty });
    let id = last_ident_of(ty@)->0;
    assert(id != "Path"@) by {
        assert(id[0] != "Path"@[0]);
    }
    assert(id != "Query"@) by {
        assert(id.len() != "Query"@.len());
    }
    assert(id == "Json"@ || id == "Form"@);
    assert(wrapper_spec(ty@) == Wrapper::Body);
    let before = classify_args(inputs);
    assert(before.2.push(single_client_arg(pat_names(pat), ty@, "body"@, ArgKind::Body)).drop_last() =~= before.2);
}

/// A `Query` argument adds exactly one query argument to the client, typed
/// by its type argument; an argument whose type's last identifier is none of
/// `Path`, `Query`, `Json`, `Form` (a server-side extractor such as `User`)
/// adds nothing; a `self` receiver adds nothing.
pub proof fn law_query_and_extractor_args(inputs: Seq<HandlerArg>, pat: ArgPattern, ty: RustType)
    ensures
        ty@ matches RType::Path(id, _) && id == seq!['Q', 'u', 'e', 'r', 'y'] ==> ({
            let before = classify_args(inputs);
            let after = classify_args(inputs.push(HandlerArg::Typed { pat, ty }));
            &&& after.0 == before.0
            &&& after.2 == before.2
            &&& after.1.len() == before.1.len() + 1
            &&& after.1.drop_last() == before.1
            &&& after.1.last().kind == ArgKind::Query
            &&& after.1.last().ty == match first_generic_of(ty@) {
                Some(x) => x,
                None => ty@,
            }
        }),
        (ty@ matches RType::Path(id, _) ==> id != seq!['P', 'a', 't', 'h'] && id != seq!['Q', 'u', 'e', 'r', 'y'] && id
            != seq!['J', 's', 'o', 'n'] && id != seq!['F', 'o', 'r', 'm']) ==> classify_args(
            inputs.push(HandlerArg::Typed { pat, ty }),
        ) == classify_args(inputs),
        classify_args(inputs.push(HandlerArg::Receiver)) == classify_args(inputs),
{
    reveal_strlit("Json");
    reveal_strlit("Form");
    reveal_strlit("Path");
    reveal_strlit("Query");
    assert("Json"@ =~= seq!['J', 's', 'o', 'n']);
    assert("Form"@ =~= seq!['F', 'o', 'r', 'm']);
    assert("Path"@ =~= seq!['P', 'a', 't', 'h']);
    assert("Query"@ =~= seq!['Q', 'u', 'e', 'r', 'y']);
    let full = inputs.push(HandlerArg::Typed { pat, ty });
    assert(full.drop_last() =~= inputs);
    let recv = inputs.push(HandlerArg::Receiver);
    assert(recv.drop_last() =~= inputs);
    if ty@ matches RType::Path(id, _) && id == seq!['Q', 'u', 'e', 'r', 'y'] {
        assert(wrapper_spec(ty@) == Wrapper::Query);
        let before = classify_args(inputs);
        assert(before.1.push(single_client_arg(pat_names(pat), ty@, "query"@, ArgKind::Query)).drop_last() =~= before.1);
    }
}

/// A `Path` argument adds one path argument per name its pattern binds, in
/// order, each of kind `Path`, and leaves the query and body arguments as
/// they were; `Path((a, b)): Path<(A, B)>` types `a` as `A` and `b` as `B`.
pub proof fn law_path_args_follow_the_pattern(inputs: Seq<HandlerArg>, pat: ArgPattern, ty: RustType)
    requires
        ty@ matches RType::Path(id, _) && id == seq!['P', 'a', 't', 'h'],
    ensures
        ({
            let before = classify_args(inputs);
            let after = classify_args(inputs.push(HandlerArg::Typed { pat, ty }));
            &&& after.1 == before.1
            &&& after.2 == before.2
            &&& after.0.len() == before.0.len() + pat_names(pat).len()
            &&& after.0.take(before.0.len() as int) == before.0
            &&& forall|i: int|
                0 <= i < pat_names(pat).len() ==> {
                    let a = #[trigger] after.0[before.0.len() + i];
                    &&& a.name == pat_names(pat)[i]
                    &&& a.kind == ArgKind::Path
                    &&& (first_generic_of(ty@) matches Some(RType::Tuple(es)) ==> (i < es.len() ==> a.ty == es[i]))
                }
        }),
{
    reveal_strlit("Path");
    assert("Path"@ =~= seq!['P', 'a', 't', 'h']);
    let full = inputs.push(HandlerArg::Typed { pat, ty });
    assert(full.drop_last() =~= inputs);
    assert(wrapper_spec(ty@) == Wrapper::Path);
    let before = classify_args(inputs);
    let added = path_client_args(pat_names(pat), ty@);
    assert((before.0 + added).take(before.0.len() as int) =~= before.0);
    assert forall|i: int| 0 <= i < pat_names(pat).len() implies (before.0 + added)[before.0.len() + i] == added[i] by {}
}

/// The element types bound by a `Path<T>` extractor, copied.
fn path_elem_types(ty: &RustType) -> (r: Vec<RustType>)
    ensures
        types_view(r@) == path_elems(ty@),
{
    match first_generic(ty) {
        Some(RustType::Tuple(es)) => es,
        Some(t) => {
            let mut v: Vec<RustType> = Vec::new();
            let ghost tv = t@;
            v.push(t);
            proof {
                lemma_types_view(v@);
                assert(types_view(v@) =~= seq![tv]);
            }
            v
        },
        None => {
            let v: Vec<RustType> = Vec::new();
            proof {
                lemma_types_view(v@);
                assert(types_view(v@) =~= Seq::<RType>::empty());
            }
            v
        },
    }
}

fn path_args_of(pat: &ArgPattern, ty: &RustType) -> (r: Vec<ClientArg>)
    ensures
        client_views(r@) == path_client_args(pat_names(*pat), ty@),
{
    let names = binding_names(pat);
    let elems = path_elem_types(ty);
    proof {
        lemma_types_view(elems@);
    }
    let mut out: Vec<ClientArg> = Vec::new();
    let mut i: usize = 0;
    while i < names.len()
        invariant
            i <= names@.len(),
            views(names@) == pat_names(*pat),
            types_view(elems@) == path_elems(ty@),
            types_view(elems@).len() == elems@.len(),
            forall|k: int| 0 <= k < elems@.len() ==> #[trigger] types_view(elems@)[k] == type_view(elems@[k]),
            client_views(out@) == path_client_args(pat_names(*pat), ty@).take(i as int),
        decreases names@.len() - i,
    {
        let t = if i < elems.len() {
            elems[i].deep_clone()
        } else if elems.len() > 0 {
            elems[0].deep_clone()
        } else {
            RustType::simple("String")
        };
        let ghost old_out = client_views(out@);
        out.push(ClientArg { name: names[i].clone(), ty: t, kind: ArgKind::Path });
        proof {
            let want = path_client_args(pat_names(*pat), ty@);
            assert(client_views(out@) =~= old_out.push(want[i as int]));
            assert(want.take(i + 1) =~= want.take(i as int).push(want[i as int]));
        }
        i += 1;
    }
    proof {
        let want = path_client_args(pat_names(*pat), ty@);
        assert(want.take(names@.len() as int) =~= want);
    }
    out
}

fn single_arg_of(pat: &ArgPattern, ty: &RustType, default: &str, kind: ArgKind) -> (r: ClientArg)
    ensures
        r@ == single_client_arg(pat_names(*pat), ty@, default@, kind),
{
    let names = binding_names(pat);
    let name = if names.len() > 0 { names[0].clone() } else { owned(default) };
    let t = match first_generic(ty) {
        Some(x) => x,
        None => ty.deep_clone(),
    };
    ClientArg { name, ty: t, kind }
}

/// A route attribute: `#[get("/path")]` or `#[get("/path", raw)]`.
pub struct RouteAttr {
    pub path: String,
    /// Skip the `Result`-to-`Json` response adapter.
    pub raw: bool,
}

/// Why a handler signature does not fit its route.
#[derive(PartialEq, Eq, Structural, Clone, Copy, Debug)]
pub enum ClassifyError {
    /// A `GET` or `DELETE` handler with a `Json`/`Form` body; the flag tells
    /// which of the two methods it was.
    BodyNotAllowed { on_delete: bool },
    /// More than one `Json`/`Form` body extractor.
    MultipleBodies,
    /// The route's placeholders and the handler's `Path` bindings differ in number.
    PathCountMismatch { placeholders: usize, bound: usize },
}

/// The message of a classification error.
pub open spec fn classify_error_message(e: ClassifyError) -> Seq<char> {
    match e {
        ClassifyError::BodyNotAllowed { on_delete } => if on_delete {
            "DELETE handler cannot take a `Json`/`Form` body"@
        } else {
            "GET handler cannot take a `Json`/`Form` body"@
        },
        ClassifyError::MultipleBodies => "handler has more than one `Json`/`Form` body extractor"@,
        ClassifyError::PathCountMismatch { placeholders, bound } => "route has "@ + decimal(placeholders as nat)
            + " path placeholder(s) but the handler binds "@ + decimal(bound as nat)
            + " `Path` arg(s) — they must match (use `Path((a, b))` for multiple)"@,
    }
}

impl ClassifyError {
    /// The compile-error message for this error.
    pub fn message(&self) -> (r: String)
        ensures
            r@ == classify_error_message(*self),
    {
        match self {
            ClassifyError::BodyNotAllowed { on_delete } => if *on_delete {
                owned("DELETE handler cannot take a `Json`/`Form` body")
            } else {
                owned("GET handler cannot take a `Json`/`Form` body")
            },
            ClassifyError::MultipleBodies => owned("handler has more than one `Json`/`Form` body extractor"),
            ClassifyError::PathCountMismatch { placeholders, bound } => {
                let mut r = owned("route has ");
                push_str(&mut r, decimal_string(*placeholders as u64).as_str());
                push_str(&mut r, " path placeholder(s) but the handler binds ");
                push_str(&mut r, decimal_string(*bound as u64).as_str());
                push_str(&mut r, " `Path` arg(s) — they must match (use `Path((a, b))` for multiple)");
                r
            },
        }
    }
}

/// What a classified handler exposes to its TypeScript client.
pub struct HandlerMeta {
    pub fn_name: String,
    /// `"/api/posts/{}/comments"`: one `{}` per path arg, in template order.
    pub path_template: String,
    /// Path arg names in template order.
    pub path_names: Vec<String>,
    pub client_args: Vec<ClientArg>,
    /// Success type with `Result`/alias stripped; `None` for unit (`void`).
    pub ret_ty: Option<RustType>,
    /// Error type when the return is a concrete `Result<T, E>`.
    pub err_ty: Option<RustType>,
}

/// The mathematical value of a [`HandlerMeta`].
pub struct HandlerMetaView {
    pub fn_name: Seq<char>,
    pub path_template: Seq<char>,
    pub path_names: Seq<Seq<char>>,
    pub client_args: Seq<ClientArgView>,
    pub ret_ty: Option<RType>,
    pub err_ty: Option<RType>,
}

/// The view of an optional type.
pub open spec fn opt_type_view(t: Option<RustType>) -> Option<RType> {
    match t {
        Some(x) => Some(x@),
        None => None,
    }
}

impl View for HandlerMeta {
    type V = HandlerMetaView;

    open spec fn view(&self) -> HandlerMetaView {
        HandlerMetaView {
            fn_name: self.fn_name@,
            path_template: self.path_template@,
            path_names: views(self.path_names@),
            client_args: client_views(self.client_args@),
            ret_ty: opt_type_view(self.ret_ty),
            err_ty: opt_type_view(self.err_ty),
        }
    }
}

/// The success and error types of a handler's return type (`None` for no
/// return type); `()` success is `None` (TypeScript `void`).
pub open spec fn return_split(output: Option<RType>) -> (Option<RType>, Option<RType>) {
    match output {
        Some(t) => {
            let (ok, err) = unwrap_result_spec(t);
            if is_unit_spec(ok) { (None, err) } else { (Some(ok), err) }
        },
        None => (None, None),
    }
}

/// What classifying a handler gives: an error for a body on `GET` or `DELETE`, for more
/// than one body, or for a path-binding count that differs from the route's
/// placeholder count (checked in that order); otherwise the client view of
/// the handler, its arguments ordered path, query, body.
pub open spec fn classify_spec(
    method: Seq<char>,
    route: Seq<char>,
    fn_name: Seq<char>,
    inputs: Seq<HandlerArg>,
    output: Option<RType>,
) -> Result<HandlerMetaView, ClassifyError> {
    let (p, q, b) = classify_args(inputs);
    if (method == "GET"@ || method == "DELETE"@) && b.len() > 0 {
        Err(ClassifyError::BodyNotAllowed { on_delete: method == "DELETE"@ })
    } else if b.len() > 1 {
        Err(ClassifyError::MultipleBodies)
    } else if p.len() != path_names(route).len() {
        Err(ClassifyError::PathCountMismatch { placeholders: path_names(route).len() as usize, bound: p.len() as usize })
    } else {
        Ok(HandlerMetaView {
            fn_name,
            path_template: path_template(route),
            path_names: p.map_values(|a: ClientArgView| a.name),
            client_args: p + q + b,
            ret_ty: return_split(output).0,
            err_ty: return_split(output).1,
        })
    }
}

/// A `GET` or `DELETE` handler with a body is refused; so is a handler with
/// two or more bodies; an accepted handler has at most one body, exactly as
/// many `Path` bindings as its route has placeholders, and its client
/// arguments are its path, query and body arguments in that order.
pub proof fn law_classify_refuses_misuse(
    method: Seq<char>,
    route: Seq<char>,
    fn_name: Seq<char>,
    inputs: Seq<HandlerArg>,
    output: Option<RType>,
)
    ensures
        ({
            let (p, q, b) = classify_args(inputs);
            let r = classify_spec(method, route, fn_name, inputs, output);
            &&& (method == seq!['G', 'E', 'T'] && b.len() > 0) ==> r == Err::<HandlerMetaView, ClassifyError>(
                ClassifyError::BodyNotAllowed { on_delete: false },
            )
            &&& (method == seq!['D', 'E', 'L', 'E', 'T', 'E'] && b.len() > 0) ==> r == Err::<
                HandlerMetaView,
                ClassifyError,
            >(ClassifyError::BodyNotAllowed { on_delete: true })
            &&& b.len() > 1 ==> r is Err
            &&& r matches Ok(v) ==> {
                &&& b.len() <= 1
                &&& p.len() == path_names(route).len()
                &&& v.client_args == p + q + b
                &&& v.fn_name == fn_name
                &&& (b.len() == 1 ==> method != seq!['G', 'E', 'T'] && method != seq!['D', 'E', 'L', 'E', 'T', 'E'])
            }
        }),
{
    reveal_strlit("GET");
    reveal_strlit("DELETE");
    assert("GET"@ =~= seq!['G', 'E', 'T']);
    assert("DELETE"@ =~= seq!['D', 'E', 'L', 'E', 'T', 'E']);
}

/// Classifies a handler signature against its route, type-first, rejecting
/// misuse: a body on `GET` or `DELETE`, several bodies, or a mismatch between route
/// placeholders and `Path` bindings.
pub fn classify(
    method: &str,
    route: &RouteAttr,
    fn_name: &str,
    inputs: &Vec<HandlerArg>,
    output: &Option<RustType>,
) -> (r: Result<HandlerMeta, ClassifyError>)
    ensures
        match r {
            Ok(m) => classify_spec(method@, route.path@, fn_name@, inputs@, opt_type_view(*output)) == Ok::<
                HandlerMetaView,
                ClassifyError,
            >(m@),
            Err(e) => classify_spec(method@, route.path@, fn_name@, inputs@, opt_type_view(*output)) == Err::<
                HandlerMetaView,
                ClassifyError,
            >(e),
        },
{
    let (path_template, route_names, _query) = parse_path(route.path.as_str());
    let mut path_args: Vec<ClientArg> = Vec::new();
    let mut query_args: Vec<ClientArg> = Vec::new();
    let mut body_args: Vec<ClientArg> = Vec::new();
    let mut i: usize = 0;
    while i < inputs.len()
        invariant
            i <= inputs@.len(),
            classify_args(inputs@.take(i as int)) == (
                client_views(path_args@),
                client_views(query_args@),
                client_views(body_args@),
            ),
        decreases inputs@.len() - i,
    {
        proof {
            assert(inputs@.take(i + 1).drop_last() =~= inputs@.take(i as int));
            assert(inputs@.take(i + 1).last() == inputs@[i as int]);
        }
        match &inputs[i] {
            HandlerArg::Receiver => {},
            HandlerArg::Typed { pat, ty } => {
                match wrapper_of(ty) {
                    Wrapper::Path => {
                        let mut more = path_args_of(pat, ty);
                        let ghost a = client_views(path_args@);
                        let ghost m = client_views(more@);
                        path_args.append(&mut more);
                        assert(client_views(path_args@) =~= a + m);
                    },
                    Wrapper::Query => {
                        let arg = single_arg_of(pat, ty, "query", ArgKind::Query);
                        let ghost a = client_views(query_args@);
                        let ghost x = arg@;
                        query_args.push(arg);
                        assert(client_views(query_args@) =~= a.push(x));
                    },
                    Wrapper::Body => {
                        let arg = single_arg_of(pat, ty, "body", ArgKind::Body);
                        let ghost a = client_views(body_args@);
                        let ghost x = arg@;
                        body_args.push(arg);
                        assert(client_views(body_args@) =~= a.push(x));
                    },
                    Wrapper::Extractor => {},
                }
            },
        }
        i += 1;
    }
    assert(inputs@.take(inputs@.len() as int) =~= inputs@);
    if body_args.len() > 0 {
        let is_get = str_eq(method, "GET");
        let is_delete = str_eq(method, "DELETE");
        if is_get || is_delete {
            return Err(ClassifyError::BodyNotAllowed { on_delete: is_delete });
        }
    }
    if body_args.len() > 1 {
        return Err(ClassifyError::MultipleBodies);
    }
    if path_args.len() != route_names.len() {
        return Err(ClassifyError::PathCountMismatch { placeholders: route_names.len(), bound: path_args.len() });
    }
    let mut names: Vec<String> = Vec::new();
    let mut k: usize = 0;
    while k < path_args.len()
        invariant
            k <= path_args@.len(),
            views(names@) == client_views(path_args@).map_values(|a: ClientArgView| a.name).take(k as int),
        decreases path_args@.len() - k,
    {
        let ghost old_names = views(names@);
        let nm = path_args[k].name.clone();
        assert(nm@ == client_views(path_args@)[k as int].name);
        names.push(nm);
        assert(views(names@) =~= old_names.push(nm@));
        assert(views(names@) =~= client_views(path_args@).map_values(|a: ClientArgView| a.name).take(k + 1));
        k += 1;
    }
    assert(client_views(path_args@).map_values(|a: ClientArgView| a.name).take(path_args@.len() as int)
        =~= client_views(path_args@).map_values(|a: ClientArgView| a.name));
    let ghost pv = client_views(path_args@);
    let ghost qv = client_views(query_args@);
    let ghost bv = client_views(body_args@);
    let mut client_args = path_args;
    client_args.append(&mut query_args);
    client_args.append(&mut body_args);
    assert(client_views(client_args@) =~= pv + qv + bv);
    let (ret_ty, err_ty) = match output {
        Some(ty) => {
            let (ok, err) = unwrap_result(ty);
            if is_unit(&ok) {
                (None, err)
            } else {
                (Some(ok), err)
            }
        },
        None => (None, None),
    };
    Ok(HandlerMeta {
        fn_name: owned(fn_name),
        path_template,
        path_names: names,
        client_args,
        ret_ty,
        err_ty,
    })
}

} // verus!
