//! What `#[mcp_tool(name = "..", description = "..")]` decides about a
//! route handler: its arguments, its route, which handler parameters feed
//! the path, the query and the JSON body of the re-dispatched request, and
//! the names of the items it generates.
use vstd::prelude::*;
use crate::case::{case_converted, to_case, to_uppercase, upper_case, CaseKind};
use crate::route::{build_format_path, extract_route_params, format_path, route_path_params, route_query_params};
use crate::rust_type::{RType, RustType};
use crate::text::{cat, owned, str_eq, views};

verus! {

/// One `key = value` item of an attribute list: the key when it is a single
/// identifier, and the value's text when it is a string literal.
pub struct NameValue {
    pub key: Option<String>,
    pub value: Option<String>,
}

pub struct NameValueView {
    pub key: Option<Seq<char>>,
    pub value: Option<Seq<char>>,
}

pub open spec fn opt_view(o: Option<String>) -> Option<Seq<char>> {
    match o {
        Some(s) => Some(s@),
        None => None,
    }
}

impl View for NameValue {
    type V = NameValueView;

    open spec fn view(&self) -> NameValueView {
        NameValueView { key: opt_view(self.key), value: opt_view(self.value) }
    }
}

pub open spec fn pair_views(v: Seq<NameValue>) -> Seq<NameValueView> {
    v.map_values(|p: NameValue| p@)
}

fn opt_clone(o: &Option<String>) -> (r: Option<String>)
    ensures
        opt_view(r) == opt_view(*o),
{
    match o {
        Some(s) => Some(owned(s.as_str())),
        None => None,
    }
}

fn key_is(key: &Option<String>, name: &str) -> (r: bool)
    ensures
        r == (opt_view(*key) == Some(name@)),
{
    match key {
        Some(k) => str_eq(k.as_str(), name),
        None => false,
    }
}

/// The tool's name and description.
pub struct McpToolArgs {
    pub name: String,
    pub description: String,
}

/// Why the `#[mcp_tool(..)]` arguments are refused.
pub enum ToolArgsError {
    /// A key that is not a single identifier.
    ExpectedIdentifier,
    /// A value that is not a string literal.
    ExpectedStringLiteral,
    /// A key other than `name` and `description`.
    UnknownAttribute(String),
    MissingName,
    MissingDescription,
}

pub enum ToolArgsErrorView {
    ExpectedIdentifier,
    ExpectedStringLiteral,
    UnknownAttribute(Seq<char>),
    MissingName,
    MissingDescription,
}

impl View for ToolArgsError {
    type V = ToolArgsErrorView;

    open spec fn view(&self) -> ToolArgsErrorView {
        match self {
            ToolArgsError::ExpectedIdentifier => ToolArgsErrorView::ExpectedIdentifier,
            ToolArgsError::ExpectedStringLiteral => ToolArgsErrorView::ExpectedStringLiteral,
            ToolArgsError::UnknownAttribute(k) => ToolArgsErrorView::UnknownAttribute(k@),
            ToolArgsError::MissingName => ToolArgsErrorView::MissingName,
            ToolArgsError::MissingDescription => ToolArgsErrorView::MissingDescription,
        }
    }
}

/// The compile-error message of an argument error.
pub open spec fn tool_args_error_message(e: ToolArgsErrorView) -> Seq<char> {
    match e {
        ToolArgsErrorView::ExpectedIdentifier => "expected identifier"@,
        ToolArgsErrorView::ExpectedStringLiteral => "expected string literal"@,
        ToolArgsErrorView::UnknownAttribute(k) => "unknown attribute: "@ + k,
        ToolArgsErrorView::MissingName => "missing `name` attribute"@,
        ToolArgsErrorView::MissingDescription => "missing `description` attribute"@,
    }
}

impl ToolArgsError {
    /// The compile-error message for this error.
    pub fn message(&self) -> (r: String)
        ensures
            r@ == tool_args_error_message(self@),
    {
        match self {
            ToolArgsError::ExpectedIdentifier => owned("expected identifier"),
            ToolArgsError::ExpectedStringLiteral => owned("expected string literal"),
            ToolArgsError::UnknownAttribute(k) => cat("unknown attribute: ", k.as_str()),
            ToolArgsError::MissingName => owned("missing `name` attribute"),
            ToolArgsError::MissingDescription => owned("missing `description` attribute"),
        }
    }
}

/// The arguments read in order: each item must have an identifier key and a
/// string value, and be `name` or `description`; the last of each wins.
pub open spec fn scan_tool_args(
    pairs: Seq<NameValueView>,
    name: Option<Seq<char>>,
    description: Option<Seq<char>>,
) -> Result<(Option<Seq<char>>, Option<Seq<char>>), ToolArgsErrorView>
    decreases pairs.len(),
{
    if pairs.len() == 0 {
        Ok((name, description))
    } else {
        let p = pairs[0];
        match p.key {
            None => Err(ToolArgsErrorView::ExpectedIdentifier),
            Some(k) => match p.value {
                None => Err(ToolArgsErrorView::ExpectedStringLiteral),
                Some(v) => if k == "name"@ {
                    scan_tool_args(pairs.drop_first(), Some(v), description)
                } else if k == "description"@ {
                    scan_tool_args(pairs.drop_first(), name, Some(v))
                } else {
                    Err(ToolArgsErrorView::UnknownAttribute(k))
                },
            },
        }
    }
}

/// The tool's `(name, description)`, or the first error.
pub open spec fn tool_args_spec(pairs: Seq<NameValueView>) -> Result<(Seq<char>, Seq<char>), ToolArgsErrorView> {
    match scan_tool_args(pairs, None, None) {
        Err(e) => Err(e),
        Ok((None, _)) => Err(ToolArgsErrorView::MissingName),
        Ok((Some(_), None)) => Err(ToolArgsErrorView::MissingDescription),
        Ok((Some(n), Some(d))) => Ok((n, d)),
    }
}

impl McpToolArgs {
    /// Reads the `key = "value"` items of `#[mcp_tool(..)]`.
    pub fn parse(pairs: &Vec<NameValue>) -> (r: Result<McpToolArgs, ToolArgsError>)
        ensures
            match (r, tool_args_spec(pair_views(pairs@))) {
                (Ok(a), Ok((n, d))) => a.name@ == n && a.description@ == d,
                (Err(e), Err(f)) => e@ == f,
                _ => false,
            },
    {
        let ghost all = pair_views(pairs@);
        let mut name: Option<String> = None;
        let mut description: Option<String> = None;
        let mut i: usize = 0;
        assert(all.subrange(0, all.len() as int) =~= all);
        while i < pairs.len()
            invariant
                all == pair_views(pairs@),
                i <= pairs@.len(),
                scan_tool_args(all, None, None) == scan_tool_args(all.subrange(i as int, all.len() as int), opt_view(name), opt_view(description)),
            decreases pairs@.len() - i,
        {
            let ghost rest = all.subrange(i as int, all.len() as int);
            assert(rest[0] == pairs@[i as int]@);
            assert(rest.drop_first() =~= all.subrange(i as int + 1, all.len() as int));
            let p = &pairs[i];
            match &p.key {
                None => {
                    return Err(ToolArgsError::ExpectedIdentifier);
                },
                Some(k) => match &p.value {
                    None => {
                        return Err(ToolArgsError::ExpectedStringLiteral);
                    },
                    Some(v) => {
                        if str_eq(k.as_str(), "name") {
                            name = Some(owned(v.as_str()));
                        } else if str_eq(k.as_str(), "description") {
                            description = Some(owned(v.as_str()));
                        } else {
                            return Err(ToolArgsError::UnknownAttribute(owned(k.as_str())));
                        }
                    },
                },
            }
            i += 1;
        }
        assert(all.subrange(i as int, all.len() as int).len() == 0);
        match name {
            None => Err(ToolArgsError::MissingName),
            Some(n) => match description {
                None => Err(ToolArgsError::MissingDescription),
                Some(d) => Ok(McpToolArgs { name: n, description: d }),
            },
        }
    }
}

/// What follows a route attribute's name.
pub enum RouteList {
    /// Not a `name(..)` list.
    NotList,
    /// A list whose first token is this string literal.
    Literal(String),
    /// A list that does not begin with a string literal.
    Unparsable,
}

/// A handler attribute: its name when that is a single identifier, and its list.
pub struct RouteAttrInput {
    pub name: Option<String>,
    pub list: RouteList,
}

/// The route read from `#[get("..")]` and its siblings.
pub struct RouteAttrInfo {
    pub method: String,
    pub path: String,
    pub path_params: Vec<String>,
    pub query_params: Vec<String>,
}

/// The HTTP method of a route attribute name.
pub open spec fn route_method(name: Seq<char>) -> Option<Seq<char>> {
    if name == "post"@ {
        Some("POST"@)
    } else if name == "get"@ {
        Some("GET"@)
    } else if name == "put"@ {
        Some("PUT"@)
    } else if name == "patch"@ {
        Some("PATCH"@)
    } else if name == "delete"@ {
        Some("DELETE"@)
    } else {
        None
    }
}

/// `c` in ASCII upper case.
pub open spec fn ascii_upper_char(c: char) -> char {
    if 'a' <= c && c <= 'z' {
        ((c as int) - 32) as char
    } else {
        c
    }
}

/// `s` in ASCII upper case.
pub open spec fn ascii_upper(s: Seq<char>) -> Seq<char> {
    s.map_values(|c: char| ascii_upper_char(c))
}

/// A route attribute named `post`, `get`, `put`, `patch` or `delete` gives
/// the HTTP method written as its name in ASCII upper case; any other name
/// gives no method.
pub proof fn law_route_method_is_upper_name(name: Seq<char>)
    ensures
        route_method(name) is Some <==> (name == seq!['p', 'o', 's', 't'] || name == seq!['g', 'e', 't'] || name
            == seq!['p', 'u', 't'] || name == seq!['p', 'a', 't', 'c', 'h'] || name == seq!['d', 'e', 'l', 'e', 't', 'e']),
        route_method(name) matches Some(m) ==> m == ascii_upper(name),
{
    reveal_strlit("post");
    reveal_strlit("get");
    reveal_strlit("put");
    reveal_strlit("patch");
    reveal_strlit("delete");
    reveal_strlit("POST");
    reveal_strlit("GET");
    reveal_strlit("PUT");
    reveal_strlit("PATCH");
    reveal_strlit("DELETE");
    assert("post"@ =~= seq!['p', 'o', 's', 't']);
    assert("get"@ =~= seq!['g', 'e', 't']);
    assert("put"@ =~= seq!['p', 'u', 't']);
    assert("patch"@ =~= seq!['p', 'a', 't', 'c', 'h']);
    assert("delete"@ =~= seq!['d', 'e', 'l', 'e', 't', 'e']);
    assert(ascii_upper("post"@) =~= "POST"@);
    assert(ascii_upper("get"@) =~= "GET"@);
    assert(ascii_upper("put"@) =~= "PUT"@);
    assert(ascii_upper("patch"@) =~= "PATCH"@);
    assert(ascii_upper("delete"@) =~= "DELETE"@);
}

/// The route attribute's method, when it is one.
pub open spec fn attr_method(a: RouteAttrInput) -> Option<Seq<char>> {
    match a.name {
        Some(n) => route_method(n@),
        None => None,
    }
}

/// A route attribute whose list cannot be read: expansion stops there.
pub open spec fn route_attr_fails(a: RouteAttrInput) -> bool {
    attr_method(a) is Some && a.list is Unparsable
}

/// The `(method, path)` of a route attribute, when it is one.
pub open spec fn route_attr_spec(a: RouteAttrInput) -> Option<(Seq<char>, Seq<char>)> {
    match (attr_method(a), a.list) {
        (Some(m), RouteList::Literal(p)) => Some((m, p@)),
        _ => None,
    }
}

fn method_of(name: &str) -> (r: Option<String>)
    ensures
        opt_view(r) == route_method(name@),
{
    if str_eq(name, "post") {
        Some(owned("POST"))
    } else if str_eq(name, "get") {
        Some(owned("GET"))
    } else if str_eq(name, "put") {
        Some(owned("PUT"))
    } else if str_eq(name, "patch") {
        Some(owned("PATCH"))
    } else if str_eq(name, "delete") {
        Some(owned("DELETE"))
    } else {
        None
    }
}

/// Reads a route attribute: its method, path and the path's parameters.
pub fn parse_route_attr(attr: &RouteAttrInput) -> (r: Option<RouteAttrInfo>)
    requires
        !route_attr_fails(*attr),
    ensures
        match (r, route_attr_spec(*attr)) {
            (Some(info), Some((m, p))) => info.method@ == m && info.path@ == p
                && views(info.path_params@) == route_path_params(p)
                && views(info.query_params@) == route_query_params(p),
            (None, None) => true,
            _ => false,
        },
{
    let method = match &attr.name {
        Some(n) => method_of(n.as_str()),
        None => None,
    };
    match method {
        None => None,
        Some(m) => match &attr.list {
            RouteList::Literal(p) => {
                let (path_params, query_params) = extract_route_params(p.as_str());
                Some(RouteAttrInfo { method: m, path: owned(p.as_str()), path_params, query_params })
            },
            _ => None,
        },
    }
}

/// The first route among a handler's attributes.
pub open spec fn first_route(attrs: Seq<RouteAttrInput>) -> Option<(Seq<char>, Seq<char>)>
    decreases attrs.len(),
{
    if attrs.len() == 0 {
        None
    } else {
        match route_attr_spec(attrs[0]) {
            Some(r) => Some(r),
            None => first_route(attrs.drop_first()),
        }
    }
}

/// The attributes can be searched for a route: one is found, and none
/// before it stops the search.
pub open spec fn has_readable_route(attrs: Seq<RouteAttrInput>) -> bool
    decreases attrs.len(),
{
    attrs.len() > 0 && !route_attr_fails(attrs[0]) && (route_attr_spec(attrs[0]) is Some
        || has_readable_route(attrs.drop_first()))
}

fn find_route(attrs: &Vec<RouteAttrInput>) -> (r: RouteAttrInfo)
    requires
        has_readable_route(attrs@),
    ensures
        first_route(attrs@) == Some((r.method@, r.path@)),
        views(r.path_params@) == route_path_params(r.path@),
        views(r.query_params@) == route_query_params(r.path@),
{
    let mut i: usize = 0;
    let n = attrs.len();
    assert(attrs@.subrange(0, attrs@.len() as int) =~= attrs@);
    loop
        invariant
            n == attrs@.len(),
            i <= attrs@.len(),
            has_readable_route(attrs@.subrange(i as int, attrs@.len() as int)),
            first_route(attrs@) == first_route(attrs@.subrange(i as int, attrs@.len() as int)),
        decreases attrs@.len() - i,
    {
        let ghost rest = attrs@.subrange(i as int, attrs@.len() as int);
        assert(rest.len() > 0);
        assert(rest[0] == attrs@[i as int]);
        assert(rest.drop_first() =~= attrs@.subrange(i as int + 1, attrs@.len() as int));
        match parse_route_attr(&attrs[i]) {
            Some(info) => {
                return info;
            },
            None => {},
        }
        i += 1;
    }
}

/// An attribute on a handler parameter: its name when that is a single
/// identifier, and its `key = value` items when it is a list of them.
pub struct ParamAttr {
    pub name: Option<String>,
    pub pairs: Option<Vec<NameValue>>,
}

pub struct ParamAttrView {
    pub name: Option<Seq<char>>,
    pub pairs: Option<Seq<NameValueView>>,
}

impl View for ParamAttr {
    type V = ParamAttrView;

    open spec fn view(&self) -> ParamAttrView {
        ParamAttrView {
            name: opt_view(self.name),
            pairs: match self.pairs {
                Some(ps) => Some(pair_views(ps@)),
                None => None,
            },
        }
    }
}

pub open spec fn attr_views(v: Seq<ParamAttr>) -> Seq<ParamAttrView> {
    v.map_values(|a: ParamAttr| a@)
}

/// The first `description = "text"` item of a list.
pub open spec fn first_description(pairs: Seq<NameValueView>) -> Option<Seq<char>>
    decreases pairs.len(),
{
    if pairs.len() == 0 {
        None
    } else if pairs[0].key == Some("description"@) && pairs[0].value is Some {
        pairs[0].value
    } else {
        first_description(pairs.drop_first())
    }
}

/// The description of the first `#[mcp(..)]` attribute that gives one.
pub open spec fn mcp_description(attrs: Seq<ParamAttrView>) -> Option<Seq<char>>
    decreases attrs.len(),
{
    if attrs.len() == 0 {
        None
    } else {
        let a = attrs[0];
        let found = if a.name == Some("mcp"@) {
            match a.pairs {
                Some(ps) => first_description(ps),
                None => None,
            }
        } else {
            None
        };
        if found is Some {
            found
        } else {
            mcp_description(attrs.drop_first())
        }
    }
}

fn description_in(pairs: &Vec<NameValue>) -> (r: Option<String>)
    ensures
        opt_view(r) == first_description(pair_views(pairs@)),
{
    let ghost all = pair_views(pairs@);
    let mut i: usize = 0;
    assert(all.subrange(0, all.len() as int) =~= all);
    while i < pairs.len()
        invariant
            all == pair_views(pairs@),
            i <= pairs@.len(),
            first_description(all) == first_description(all.subrange(i as int, all.len() as int)),
        decreases pairs@.len() - i,
    {
        let ghost rest = all.subrange(i as int, all.len() as int);
        assert(rest[0] == pairs@[i as int]@);
        assert(rest.drop_first() =~= all.subrange(i as int + 1, all.len() as int));
        let p = &pairs[i];
        if key_is(&p.key, "description") {
            match &p.value {
                Some(v) => {
                    return Some(owned(v.as_str()));
                },
                None => {},
            }
        }
        i += 1;
    }
    None
}

/// The `description = ".."` of a parameter's `#[mcp(..)]` attributes.
pub fn extract_mcp_description(attrs: &Vec<ParamAttr>) -> (r: Option<String>)
    ensures
        opt_view(r) == mcp_description(attr_views(attrs@)),
{
    let ghost all = attr_views(attrs@);
    let mut i: usize = 0;
    assert(all.subrange(0, all.len() as int) =~= all);
    while i < attrs.len()
        invariant
            all == attr_views(attrs@),
            i <= attrs@.len(),
            mcp_description(all) == mcp_description(all.subrange(i as int, all.len() as int)),
        decreases attrs@.len() - i,
    {
        let ghost rest = all.subrange(i as int, all.len() as int);
        assert(rest[0] == attrs@[i as int]@);
        assert(rest.drop_first() =~= all.subrange(i as int + 1, all.len() as int));
        let a = &attrs[i];
        if key_is(&a.name, "mcp") {
            match &a.pairs {
                Some(ps) => {
                    let d = description_in(ps);
                    if d.is_some() {
                        return d;
                    }
                },
                None => {},
            }
        }
        i += 1;
    }
    None
}

/// Whether a type is written `Option<..>` (by its last path segment).
pub open spec fn is_option_rtype(t: RType) -> bool {
    match t {
        RType::Path(id, _) => id == "Option"@,
        _ => false,
    }
}

/// Whether a type is written `Option<..>` (by its last path segment).
pub fn is_option_type(ty: &RustType) -> (r: bool)
    ensures
        r == is_option_rtype(ty@),
{
    match ty {
        RustType::Path { ident, .. } => str_eq(ident.as_str(), "Option"),
        _ => false,
    }
}

/// A typed handler parameter: its binding name when the pattern is a plain
/// identifier, its type, and its attributes.
pub struct ToolParam {
    pub name: Option<String>,
    pub ty: RustType,
    pub attrs: Vec<ParamAttr>,
}

/// A handler parameter.
pub enum ToolArg {
    Receiver,
    Typed(ToolParam),
}

/// What the plan reads of a parameter.
pub struct ToolArgView {
    pub typed: bool,
    pub name: Option<Seq<char>>,
    pub optional: bool,
    pub description: Option<Seq<char>>,
}

impl View for ToolArg {
    type V = ToolArgView;

    open spec fn view(&self) -> ToolArgView {
        match self {
            ToolArg::Receiver => ToolArgView { typed: false, name: None, optional: false, description: None },
            ToolArg::Typed(p) => ToolArgView {
                typed: true,
                name: opt_view(p.name),
                optional: is_option_rtype(p.ty@),
                description: mcp_description(attr_views(p.attrs@)),
            },
        }
    }
}

pub open spec fn arg_views(v: Seq<ToolArg>) -> Seq<ToolArgView> {
    v.map_values(|a: ToolArg| a@)
}

/// Every typed parameter binds a plain identifier.
pub open spec fn params_named(args: Seq<ToolArgView>) -> bool {
    forall|i: int| 0 <= i < args.len() && (#[trigger] args[i]).typed ==> args[i].name is Some
}

/// Where a parameter goes in the re-dispatched request.
#[derive(PartialEq, Eq, Structural, Clone, Copy, Debug)]
pub enum FieldKind {
    Path,
    Query,
    Body,
}

/// The kind of a parameter named `n`: a path parameter of the route, else
/// a query key of it, else part of the body.
pub open spec fn field_kind(n: Seq<char>, pp: Seq<Seq<char>>, qp: Seq<Seq<char>>) -> FieldKind {
    if pp.contains(n) {
        FieldKind::Path
    } else if qp.contains(n) {
        FieldKind::Query
    } else {
        FieldKind::Body
    }
}

/// The positions of the typed parameters whose name is `n`.
pub open spec fn args_named(args: Seq<ToolArgView>, n: Seq<char>) -> Seq<int>
    decreases args.len(),
{
    if args.len() == 0 {
        Seq::empty()
    } else {
        args_named(args.drop_last(), n) + if args.last().typed && args.last().name == Some(n) {
            seq![args.len() - 1]
        } else {
            Seq::empty()
        }
    }
}

/// The path fields: for each path parameter of the route, in route order,
/// the parameters of that name.
pub open spec fn path_fields(args: Seq<ToolArgView>, pp: Seq<Seq<char>>) -> Seq<int>
    decreases pp.len(),
{
    if pp.len() == 0 {
        Seq::empty()
    } else {
        path_fields(args, pp.drop_last()) + args_named(args, pp.last())
    }
}

/// The positions of the typed parameters of kind `k`, in order.
pub open spec fn args_of_kind(args: Seq<ToolArgView>, pp: Seq<Seq<char>>, qp: Seq<Seq<char>>, k: FieldKind) -> Seq<int>
    decreases args.len(),
{
    if args.len() == 0 {
        Seq::empty()
    } else {
        args_of_kind(args.drop_last(), pp, qp, k) + if args.last().typed && args.last().name is Some
            && field_kind(args.last().name->0, pp, qp) == k {
            seq![args.len() - 1]
        } else {
            Seq::empty()
        }
    }
}

proof fn lemma_args_of_kind(args: Seq<ToolArgView>, pp: Seq<Seq<char>>, qp: Seq<Seq<char>>, k: FieldKind)
    ensures
        forall|x: int| #[trigger] args_of_kind(args, pp, qp, k).contains(x) ==> 0 <= x < args.len() && args[x].typed
            && args[x].name is Some && field_kind(args[x].name->0, pp, qp) == k,
        forall|i: int| 0 <= i < args.len() && args[i].typed && args[i].name is Some
            && field_kind(args[i].name->0, pp, qp) == k ==> #[trigger] args_of_kind(args, pp, qp, k).contains(i),
    decreases args.len(),
{
    if args.len() > 0 {
        let d = args.drop_last();
        lemma_args_of_kind(d, pp, qp, k);
        let prev = args_of_kind(d, pp, qp, k);
        let all = args_of_kind(args, pp, qp, k);
        assert forall|x: int| #[trigger] all.contains(x) implies 0 <= x < args.len() && args[x].typed
            && args[x].name is Some && field_kind(args[x].name->0, pp, qp) == k by {
            let j = choose|j: int| 0 <= j < all.len() && all[j] == x;
            if j < prev.len() {
                assert(prev[j] == x);
                assert(prev.contains(x));
                assert(args[x] == d[x]);
            }
        }
        assert forall|i: int| 0 <= i < args.len() && args[i].typed && args[i].name is Some
            && field_kind(args[i].name->0, pp, qp) == k implies #[trigger] all.contains(i) by {
            if i < args.len() - 1 {
                assert(d[i] == args[i]);
                assert(prev.contains(i));
                let j = choose|j: int| 0 <= j < prev.len() && prev[j] == i;
                assert(all[j] == i);
            } else {
                assert(all[all.len() - 1] == i);
            }
        }
    }
}

/// A handler parameter that does not fill a path placeholder becomes
/// exactly one of a query field and a body field.
pub proof fn law_query_or_body_not_both(args: Seq<ToolArgView>, pp: Seq<Seq<char>>, qp: Seq<Seq<char>>, i: int)
    requires
        0 <= i < args.len(),
        args[i].typed,
        args[i].name is Some,
        !pp.contains(args[i].name->0),
    ensures
        args_of_kind(args, pp, qp, FieldKind::Query).contains(i) != args_of_kind(args, pp, qp, FieldKind::Body).contains(i),
{
    lemma_args_of_kind(args, pp, qp, FieldKind::Query);
    lemma_args_of_kind(args, pp, qp, FieldKind::Body);
}

proof fn lemma_args_named(args: Seq<ToolArgView>, n: Seq<char>)
    ensures
        forall|x: int| #[trigger] args_named(args, n).contains(x) ==> 0 <= x < args.len() && args[x].name == Some(n),
    decreases args.len(),
{
    if args.len() > 0 {
        let d = args.drop_last();
        lemma_args_named(d, n);
        let prev = args_named(d, n);
        let all = args_named(args, n);
        assert forall|x: int| #[trigger] all.contains(x) implies 0 <= x < args.len() && args[x].name == Some(n) by {
            let j = choose|j: int| 0 <= j < all.len() && all[j] == x;
            if j < prev.len() {
                assert(prev[j] == x);
                assert(prev.contains(x));
                assert(args[x] == d[x]);
            }
        }
    }
}

proof fn lemma_path_fields(args: Seq<ToolArgView>, pp: Seq<Seq<char>>)
    ensures
        forall|x: int| #[trigger] path_fields(args, pp).contains(x) ==> 0 <= x < args.len() && args[x].name is Some
            && pp.contains(args[x].name->0),
    decreases pp.len(),
{
    if pp.len() > 0 {
        let d = pp.drop_last();
        lemma_path_fields(args, d);
        lemma_args_named(args, pp.last());
        let prev = path_fields(args, d);
        let more = args_named(args, pp.last());
        let all = path_fields(args, pp);
        assert forall|x: int| #[trigger] all.contains(x) implies 0 <= x < args.len() && args[x].name is Some
            && pp.contains(args[x].name->0) by {
            let j = choose|j: int| 0 <= j < all.len() && all[j] == x;
            if j < prev.len() {
                assert(prev[j] == x);
                assert(prev.contains(x));
                let n = args[x].name->0;
                let k = choose|k: int| 0 <= k < d.len() && d[k] == n;
                assert(pp[k] == n);
            } else {
                assert(more[j - prev.len()] == x);
                assert(more.contains(x));
                assert(pp[pp.len() - 1] == pp.last());
            }
        }
    }
}

/// Each field of a tool names a handler parameter of the same name; a field
/// goes in the path exactly when the route has a path placeholder of its
/// name; otherwise it goes in the query exactly when the route lists it as a
/// query key, and in the body when the route names it nowhere.
pub proof fn law_fields_follow_the_route(args: Seq<ToolArgView>, pp: Seq<Seq<char>>, qp: Seq<Seq<char>>)
    ensures
        forall|j: int|
            0 <= j < planned_fields(args, pp, qp).len() ==> {
                let f = #[trigger] planned_fields(args, pp, qp)[j];
                &&& 0 <= f.arg < args.len()
                &&& args[f.arg].name == Some(f.name)
                &&& (f.kind == FieldKind::Path <==> pp.contains(f.name))
                &&& (f.kind == FieldKind::Query <==> !pp.contains(f.name) && qp.contains(f.name))
                &&& (f.kind == FieldKind::Body <==> !pp.contains(f.name) && !qp.contains(f.name))
            },
{
    lemma_path_fields(args, pp);
    lemma_args_of_kind(args, pp, qp, FieldKind::Query);
    lemma_args_of_kind(args, pp, qp, FieldKind::Body);
    let a = path_fields(args, pp);
    let q = args_of_kind(args, pp, qp, FieldKind::Query);
    let b = args_of_kind(args, pp, qp, FieldKind::Body);
    let fa = a.map_values(|i: int| planned_field(args, i, FieldKind::Path));
    let fq = q.map_values(|i: int| planned_field(args, i, FieldKind::Query));
    let fb = b.map_values(|i: int| planned_field(args, i, FieldKind::Body));
    let all = planned_fields(args, pp, qp);
    assert(all == fa + fq + fb);
    assert forall|j: int| 0 <= j < all.len() implies {
        let f = #[trigger] all[j];
        &&& 0 <= f.arg < args.len()
        &&& args[f.arg].name == Some(f.name)
        &&& (f.kind == FieldKind::Path <==> pp.contains(f.name))
        &&& (f.kind == FieldKind::Query <==> !pp.contains(f.name) && qp.contains(f.name))
        &&& (f.kind == FieldKind::Body <==> !pp.contains(f.name) && !qp.contains(f.name))
    } by {
        if j < fa.len() {
            assert(all[j] == fa[j]);
            assert(a.contains(a[j]));
        } else if j < fa.len() + fq.len() {
            assert(all[j] == fq[j - fa.len()]);
            assert(q.contains(q[j - fa.len()]));
        } else {
            assert(all[j] == fb[j - fa.len() - fq.len()]);
            assert(b.contains(b[j - fa.len() - fq.len()]));
        }
    }
}

/// One field of the request struct and of the generated functions.
pub struct PlannedField {
    /// The parameter's position in the handler's arguments.
    pub arg: usize,
    pub name: String,
    pub kind: FieldKind,
    /// Whether its type is `Option<..>` (an absent query value is left out).
    pub optional: bool,
    pub description: Option<String>,
}

pub struct PlannedFieldView {
    pub arg: int,
    pub name: Seq<char>,
    pub kind: FieldKind,
    pub optional: bool,
    pub description: Option<Seq<char>>,
}

impl View for PlannedField {
    type V = PlannedFieldView;

    open spec fn view(&self) -> PlannedFieldView {
        PlannedFieldView {
            arg: self.arg as int,
            name: self.name@,
            kind: self.kind,
            optional: self.optional,
            description: opt_view(self.description),
        }
    }
}

pub open spec fn field_views(v: Seq<PlannedField>) -> Seq<PlannedFieldView> {
    v.map_values(|f: PlannedField| f@)
}

/// The field planned for the parameter at `i`.
pub open spec fn planned_field(args: Seq<ToolArgView>, i: int, k: FieldKind) -> PlannedFieldView {
    PlannedFieldView {
        arg: i,
        name: args[i].name->0,
        kind: k,
        optional: args[i].optional,
        description: args[i].description,
    }
}

/// The fields in order: path fields, then query fields, then body fields.
pub open spec fn planned_fields(args: Seq<ToolArgView>, pp: Seq<Seq<char>>, qp: Seq<Seq<char>>) -> Seq<PlannedFieldView> {
    path_fields(args, pp).map_values(|i: int| planned_field(args, i, FieldKind::Path))
        + args_of_kind(args, pp, qp, FieldKind::Query).map_values(|i: int| planned_field(args, i, FieldKind::Query))
        + args_of_kind(args, pp, qp, FieldKind::Body).map_values(|i: int| planned_field(args, i, FieldKind::Body))
}

/// The input of `#[mcp_tool]`: its argument items and the handler's name,
/// attributes and parameters.
pub struct McpToolInput {
    pub args: Vec<NameValue>,
    pub fn_name: String,
    pub attrs: Vec<RouteAttrInput>,
    pub params: Vec<ToolArg>,
}

/// What `#[mcp_tool]` emits beside the handler.
pub struct McpToolPlan {
    pub tool_name: String,
    pub tool_description: String,
    pub method: String,
    pub route: String,
    /// The `format!` string of the route's path.
    pub format_path: String,
    pub impl_fn_name: String,
    pub handler_fn_name: String,
    pub struct_name: String,
    pub module_name: String,
    pub meta_const_name: String,
    pub fields: Vec<PlannedField>,
}

fn contains_str(v: &Vec<String>, s: &str) -> (r: bool)
    ensures
        r == views(v@).contains(s@),
{
    let mut i: usize = 0;
    while i < v.len()
        invariant
            i <= v@.len(),
            forall|k: int| 0 <= k < i ==> v@[k]@ != s@,
        decreases v@.len() - i,
    {
        if str_eq(v[i].as_str(), s) {
            assert(views(v@)[i as int] == s@);
            return true;
        }
        i += 1;
    }
    assert forall|k: int| 0 <= k < views(v@).len() implies views(v@)[k] != s@ by {
        assert(views(v@)[k] == v@[k]@);
    }
    false
}

fn field_of(params: &Vec<ToolArg>, i: usize, kind: FieldKind) -> (r: PlannedField)
    requires
        i < params@.len(),
        params@[i as int]@.typed,
        params@[i as int]@.name is Some,
    ensures
        r@ == planned_field(arg_views(params@), i as int, kind),
{
    match &params[i] {
        ToolArg::Typed(p) => {
            let name = match &p.name {
                Some(n) => owned(n.as_str()),
                None => owned(""),
            };
            PlannedField {
                arg: i,
                name,
                kind,
                optional: is_option_type(&p.ty),
                description: extract_mcp_description(&p.attrs),
            }
        },
        ToolArg::Receiver => {
            assert(false);
            PlannedField { arg: i, name: owned(""), kind, optional: false, description: None }
        },
    }
}

fn name_matches(a: &ToolArg, n: &str) -> (r: bool)
    ensures
        r == (a@.typed && a@.name == Some(n@)),
{
    match a {
        ToolArg::Typed(p) => key_is(&p.name, n),
        ToolArg::Receiver => false,
    }
}

fn push_named(params: &Vec<ToolArg>, n: &str, out: &mut Vec<PlannedField>)
    requires
        params_named(arg_views(params@)),
    ensures
        field_views(final(out)@) == field_views(old(out)@)
            + args_named(arg_views(params@), n@).map_values(|i: int| planned_field(arg_views(params@), i, FieldKind::Path)),
{
    let ghost av = arg_views(params@);
    let ghost start = field_views(out@);
    let mut i: usize = 0;
    while i < params.len()
        invariant
            av == arg_views(params@),
            params_named(av),
            i <= params@.len(),
            field_views(out@) == start + args_named(av.take(i as int), n@).map_values(|j: int| planned_field(av, j, FieldKind::Path)),
        decreases params@.len() - i,
    {
        let ghost before = field_views(out@);
        let ghost t = av.take(i as int + 1);
        assert(t.drop_last() =~= av.take(i as int));
        assert(t.last() == av[i as int]);
        assert(av[i as int] == params@[i as int]@);
        if name_matches(&params[i], n) {
            let f = field_of(params, i, FieldKind::Path);
            out.push(f);
            proof {
                assert(args_named(t, n@) =~= args_named(av.take(i as int), n@).push(i as int));
                assert(field_views(out@) =~= before.push(f@));
            }
        } else {
            assert(args_named(t, n@) =~= args_named(av.take(i as int), n@));
        }
        i += 1;
    }
    assert(av.take(params@.len() as int) =~= av);
}

fn push_kind(params: &Vec<ToolArg>, pp: &Vec<String>, qp: &Vec<String>, kind: FieldKind, out: &mut Vec<PlannedField>)
    requires
        params_named(arg_views(params@)),
    ensures
        field_views(final(out)@) == field_views(old(out)@)
            + args_of_kind(arg_views(params@), views(pp@), views(qp@), kind).map_values(|i: int| planned_field(arg_views(params@), i, kind)),
{
    let ghost av = arg_views(params@);
    let ghost start = field_views(out@);
    let mut i: usize = 0;
    while i < params.len()
        invariant
            av == arg_views(params@),
            params_named(av),
            i <= params@.len(),
            field_views(out@) == start + args_of_kind(av.take(i as int), views(pp@), views(qp@), kind).map_values(|j: int| planned_field(av, j, kind)),
        decreases params@.len() - i,
    {
        let ghost before = field_views(out@);
        let ghost t = av.take(i as int + 1);
        assert(t.drop_last() =~= av.take(i as int));
        assert(t.last() == av[i as int]);
        assert(av[i as int] == params@[i as int]@);
        let hit = match &params[i] {
            ToolArg::Typed(p) => match &p.name {
                Some(n) => {
                    let k = if contains_str(pp, n.as_str()) {
                        FieldKind::Path
                    } else if contains_str(qp, n.as_str()) {
                        FieldKind::Query
                    } else {
                        FieldKind::Body
                    };
                    k == kind
                },
                None => false,
            },
            ToolArg::Receiver => false,
        };
        if hit {
            let f = field_of(params, i, kind);
            out.push(f);
            proof {
                assert(args_of_kind(t, views(pp@), views(qp@), kind) =~= args_of_kind(av.take(i as int), views(pp@), views(qp@), kind).push(i as int));
                assert(field_views(out@) =~= before.push(f@));
            }
        } else {
            assert(args_of_kind(t, views(pp@), views(qp@), kind) =~= args_of_kind(av.take(i as int), views(pp@), views(qp@), kind));
        }
        i += 1;
    }
    assert(av.take(params@.len() as int) =~= av);
}

/// Everything the expansion needs, with the route found among the handler's
/// attributes; `Err` for refused arguments.
pub open spec fn mcp_tool_plan_ok(input: McpToolInput, p: McpToolPlan) -> bool {
    let route = p.route@;
    let pp = route_path_params(route);
    let qp = route_query_params(route);
    let struct_name = case_converted(input.fn_name@, CaseKind::Pascal) + "McpRequest"@;
    &&& tool_args_spec(pair_views(input.args@)) == Ok::<(Seq<char>, Seq<char>), ToolArgsErrorView>((p.tool_name@, p.tool_description@))
    &&& first_route(input.attrs@) == Some((p.method@, route))
    &&& p.format_path@ == format_path(route)
    &&& p.impl_fn_name@ == input.fn_name@ + "_mcp_impl"@
    &&& p.handler_fn_name@ == input.fn_name@ + "_mcp_handler"@
    &&& p.struct_name@ == struct_name
    &&& p.module_name@ == "__mcp_req_"@ + case_converted(struct_name, CaseKind::Snake)
    &&& p.meta_const_name@ == "MCP_TOOL_META_"@ + upper_case(input.fn_name@)
    &&& field_views(p.fields@) == planned_fields(arg_views(input.params@), pp, qp)
}

/// Plans the expansion of `#[mcp_tool]` on a handler.
pub fn plan_mcp_tool(input: &McpToolInput) -> (r: Result<McpToolPlan, ToolArgsError>)
    requires
        has_readable_route(input.attrs@),
        params_named(arg_views(input.params@)),
    ensures
        match r {
            Ok(p) => mcp_tool_plan_ok(*input, p),
            Err(e) => tool_args_spec(pair_views(input.args@)) == Err::<(Seq<char>, Seq<char>), ToolArgsErrorView>(e@),
        },
{
    let args = match McpToolArgs::parse(&input.args) {
        Ok(a) => a,
        Err(e) => {
            return Err(e);
        },
    };
    let route = find_route(&input.attrs);
    let ghost av = arg_views(input.params@);
    let mut fields: Vec<PlannedField> = Vec::new();
    let mut k: usize = 0;
    assert(field_views(fields@) =~= path_fields(av, views(route.path_params@).take(0)).map_values(|i: int| planned_field(av, i, FieldKind::Path)));
    while k < route.path_params.len()
        invariant
            av == arg_views(input.params@),
            params_named(av),
            k <= route.path_params@.len(),
            field_views(fields@) == path_fields(av, views(route.path_params@).take(k as int)).map_values(|i: int| planned_field(av, i, FieldKind::Path)),
        decreases route.path_params@.len() - k,
    {
        let ghost before = field_views(fields@);
        push_named(&input.params, route.path_params[k].as_str(), &mut fields);
        proof {
            let pv = views(route.path_params@);
            let t = pv.take(k as int + 1);
            assert(t.drop_last() =~= pv.take(k as int));
            assert(t.last() == route.path_params@[k as int]@);
            let f = |i: int| planned_field(av, i, FieldKind::Path);
            assert(path_fields(av, t).map_values(f) =~= path_fields(av, pv.take(k as int)).map_values(f)
                + args_named(av, t.last()).map_values(f));
        }
        k += 1;
    }
    assert(views(route.path_params@).take(route.path_params@.len() as int) =~= views(route.path_params@));
    push_kind(&input.params, &route.path_params, &route.query_params, FieldKind::Query, &mut fields);
    push_kind(&input.params, &route.path_params, &route.query_params, FieldKind::Body, &mut fields);
    let struct_name = cat(to_case(input.fn_name.as_str(), CaseKind::Pascal).as_str(), "McpRequest");
    let module_name = cat("__mcp_req_", to_case(struct_name.as_str(), CaseKind::Snake).as_str());
    let meta_const_name = cat("MCP_TOOL_META_", to_uppercase(input.fn_name.as_str()).as_str());
    let format_path = build_format_path(route.path.as_str());
    Ok(McpToolPlan {
        tool_name: args.name,
        tool_description: args.description,
        method: route.method,
        route: route.path,
        format_path,
        impl_fn_name: cat(input.fn_name.as_str(), "_mcp_impl"),
        handler_fn_name: cat(input.fn_name.as_str(), "_mcp_handler"),
        struct_name,
        module_name,
        meta_const_name,
        fields,
    })
}

/// How `#[mcp_tool]` treats a handler parameter, by its outermost wrapper.
/// `Path`/`Query`/`Json`/`Form` carry data whose inner type is reflected in
/// the tool's input schema; anything else is an extractor and left out.
pub enum ParamKind {
    Path(RustType),
    Query(RustType),
    Json(RustType),
    Form(RustType),
    Extractor,
}

pub enum ParamKindView {
    Path(RType),
    Query(RType),
    Json(RType),
    Form(RType),
    Extractor,
}

impl View for ParamKind {
    type V = ParamKindView;

    open spec fn view(&self) -> ParamKindView {
        match self {
            ParamKind::Path(t) => ParamKindView::Path(t@),
            ParamKind::Query(t) => ParamKindView::Query(t@),
            ParamKind::Json(t) => ParamKindView::Json(t@),
            ParamKind::Form(t) => ParamKindView::Form(t@),
            ParamKind::Extractor => ParamKindView::Extractor,
        }
    }
}

/// The kind of a typed parameter of type `t`; a receiver is an extractor.
pub open spec fn param_kind_spec(arg: Option<RType>) -> ParamKindView {
    match arg {
        Some(RType::Path(id, args)) => if args.len() == 0 {
            ParamKindView::Extractor
        } else if id == "Path"@ {
            ParamKindView::Path(args[0])
        } else if id == "Query"@ {
            ParamKindView::Query(args[0])
        } else if id == "Json"@ {
            ParamKindView::Json(args[0])
        } else if id == "Form"@ {
            ParamKindView::Form(args[0])
        } else {
            ParamKindView::Extractor
        },
        _ => ParamKindView::Extractor,
    }
}

/// A handler parameter as the schema reflection sees it: a receiver, or a
/// typed parameter's type.
pub enum SchemaArg {
    Receiver,
    Typed(RustType),
}

pub open spec fn schema_arg_type(a: SchemaArg) -> Option<RType> {
    match a {
        SchemaArg::Receiver => None,
        SchemaArg::Typed(t) => Some(t@),
    }
}

/// Classifies a handler parameter by its outermost wrapper type.
pub fn classify(arg: &SchemaArg) -> (r: ParamKind)
    ensures
        r@ == param_kind_spec(schema_arg_type(*arg)),
{
    match arg {
        SchemaArg::Receiver => ParamKind::Extractor,
        SchemaArg::Typed(ty) => match ty {
            RustType::Path { ident, args } => {
                proof {
                    crate::rust_type::lemma_types_view(args@);
                }
                if args.len() == 0 {
                    return ParamKind::Extractor;
                }
                let inner = args[0].deep_clone();
                if str_eq(ident.as_str(), "Path") {
                    ParamKind::Path(inner)
                } else if str_eq(ident.as_str(), "Query") {
                    ParamKind::Query(inner)
                } else if str_eq(ident.as_str(), "Json") {
                    ParamKind::Json(inner)
                } else if str_eq(ident.as_str(), "Form") {
                    ParamKind::Form(inner)
                } else {
                    ParamKind::Extractor
                }
            },
            _ => ParamKind::Extractor,
        },
    }
}

} // verus!
