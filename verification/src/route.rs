//! Route-path templates: `{name}` / `:name` placeholders and `?a&b` query keys.
use vstd::prelude::*;
use crate::text::{
    split_all, trim, trim_range, chars_of,
    count_char, lemma_count_char_concat, split_on,
    find_char, push_range, find_char_in, index_of, lemma_index_of, push_char, string_of_range, views,
};

verus! {

/// The path part of a route: everything before the first `?`.
pub open spec fn path_part(path: Seq<char>) -> Seq<char> {
    path.take(index_of(path, '?') as int)
}

/// The query part of a route: everything after the first `?`, if there is one.
pub open spec fn query_part(path: Seq<char>) -> Option<Seq<char>> {
    if index_of(path, '?') < path.len() {
        Some(path.skip(index_of(path, '?') + 1int))
    } else {
        None
    }
}

/// Scans a path part, with `prev` the previously emitted character (`'\0'` at
/// the start). A `{name}` placeholder runs to the next `}` (or the end); a
/// `:name` placeholder may only start after `/` or at the start, and runs to
/// the next `/` (or the end). Each placeholder becomes `{}` in the template
/// and contributes its name; every other character is kept.
pub open spec fn scan_path(s: Seq<char>, prev: char) -> (Seq<char>, Seq<Seq<char>>)
    decreases s.len(),
{
    if s.len() == 0 {
        (Seq::empty(), Seq::empty())
    } else if s[0] == '{' {
        let body = s.drop_first();
        let k = index_of(body, '}');
        proof {
            lemma_index_of(body, '}');
        }
        let name = body.take(k as int);
        let rest = if k < body.len() { body.skip(k + 1int) } else { Seq::empty() };
        let (t, n) = scan_path(rest, '}');
        (seq!['{', '}'] + t, seq![name] + n)
    } else if s[0] == ':' && (prev == '\0' || prev == '/') {
        let body = s.drop_first();
        let k = index_of(body, '/');
        proof {
            lemma_index_of(body, '/');
        }
        let name = body.take(k as int);
        let rest = body.skip(k as int);
        let next_prev = if k == 0 { ':' } else { name.last() };
        let (t, n) = scan_path(rest, next_prev);
        (seq!['{', '}'] + t, seq![name] + n)
    } else {
        let (t, n) = scan_path(s.drop_first(), s[0]);
        (seq![s[0]] + t, n)
    }
}

/// The non-empty `&`-separated keys of the query part.
pub open spec fn query_names(path: Seq<char>) -> Seq<Seq<char>> {
    match query_part(path) {
        Some(q) => split_on(q, '&').filter(|x: Seq<char>| x.len() > 0),
        None => Seq::empty(),
    }
}

/// The template of a route path (placeholders replaced by `{}`).
pub open spec fn path_template(path: Seq<char>) -> Seq<char> {
    scan_path(path_part(path), '\0').0
}

/// The placeholder names of a route path, in template order.
pub open spec fn path_names(path: Seq<char>) -> Seq<Seq<char>> {
    scan_path(path_part(path), '\0').1
}

/// Splits `v[start..]` at `c` into owned pieces, keeping empty pieces out.
fn split_nonempty(v: &Vec<char>, start: usize, c: char) -> (out: Vec<String>)
    requires
        start <= v@.len(),
    ensures
        views(out@) == split_on(v@.skip(start as int), c).filter(|x: Seq<char>| x.len() > 0),
{
    let ghost whole = v@.skip(start as int);
    let mut out: Vec<String> = Vec::new();
    let mut i = start;
    loop
        invariant
            start <= i <= v@.len(),
            whole == v@.skip(start as int),
            split_on(whole, c).filter(|x: Seq<char>| x.len() > 0) == views(out@)
                + split_on(v@.skip(i as int), c).filter(|x: Seq<char>| x.len() > 0),
        decreases v@.len() - i,
    {
        let j = find_char(v, i, c);
        let ghost rest = v@.skip(i as int);
        proof {
            lemma_index_of(rest, c);
            reveal_with_fuel(Seq::filter, 2);
        }
        let piece = string_of_range(v, i, j);
        assert(piece@ =~= rest.take(j - i));
        if j < v.len() {
            assert(rest.skip(j - i + 1) =~= v@.skip(j + 1));
            let ghost old_out = views(out@);
            if i < j {
                out.push(piece);
            }
            proof {
                let pieces = split_on(rest, c);
                assert(pieces == seq![rest.take(j - i)] + split_on(v@.skip(j + 1), c));
                Seq::filter_distributes_over_add(
                    seq![rest.take(j - i)], split_on(v@.skip(j + 1), c), |x: Seq<char>| x.len() > 0);
                assert(views(out@) =~= old_out + seq![rest.take(j - i)].filter(|x: Seq<char>| x.len() > 0));
            }
            i = j + 1;
        } else {
            let ghost old_out = views(out@);
            if i < j {
                out.push(piece);
            }
            proof {
                assert(split_on(rest, c) == seq![rest]);
                assert(rest.take(j - i) =~= rest);
                assert(views(out@) =~= old_out + seq![rest].filter(|x: Seq<char>| x.len() > 0));
                assert(v@.skip(v@.len() as int) =~= Seq::<char>::empty());
                assert(split_on(Seq::<char>::empty(), c) == seq![Seq::<char>::empty()]);
                assert(seq![Seq::<char>::empty()].filter(|x: Seq<char>| x.len() > 0) =~= Seq::<Seq<char>>::empty());
                assert(views(out@) =~= views(out@) + Seq::<Seq<char>>::empty());
            }
            return out;
        }
    }
}

proof fn lemma_scan_counts(s: Seq<char>, prev: char)
    ensures
        count_char(scan_path(s, prev).0, '{') == scan_path(s, prev).1.len(),
    decreases s.len(),
{
    if s.len() > 0 {
        if s[0] == '{' {
            let body = s.drop_first();
            let k = index_of(body, '}');
            lemma_index_of(body, '}');
            let rest = if k < body.len() { body.skip(k + 1int) } else { Seq::empty() };
            lemma_scan_counts(rest, '}');
            lemma_count_char_concat(seq!['{', '}'], scan_path(rest, '}').0, '{');
            reveal_with_fuel(count_char, 3);
        } else if s[0] == ':' && (prev == '\0' || prev == '/') {
            let body = s.drop_first();
            let k = index_of(body, '/');
            lemma_index_of(body, '/');
            let name = body.take(k as int);
            let rest = body.skip(k as int);
            let next_prev = if k == 0 { ':' } else { name.last() };
            lemma_scan_counts(rest, next_prev);
            lemma_count_char_concat(seq!['{', '}'], scan_path(rest, next_prev).0, '{');
            reveal_with_fuel(count_char, 3);
        } else {
            lemma_scan_counts(s.drop_first(), s[0]);
            lemma_count_char_concat(seq![s[0]], scan_path(s.drop_first(), s[0]).0, '{');
            reveal_with_fuel(count_char, 2);
        }
    }
}

/// Every placeholder becomes exactly one `{}`: the template holds as many `{`
/// as the path has placeholder names.
pub proof fn law_template_holes_match_names(path: Seq<char>)
    ensures
        count_char(path_template(path), '{') == path_names(path).len(),
{
    lemma_scan_counts(path_part(path), '\0');
}

proof fn lemma_scan_plain(s: Seq<char>, prev: char)
    requires
        forall|i: int| 0 <= i < s.len() ==> s[i] != '{' && s[i] != ':',
    ensures
        scan_path(s, prev) == (s, Seq::<Seq<char>>::empty()),
    decreases s.len(),
{
    if s.len() > 0 {
        lemma_scan_plain(s.drop_first(), s[0]);
        assert(seq![s[0]] + s.drop_first() =~= s);
    }
}

/// A route without placeholders or query is its own template, with no
/// path or query names.
pub proof fn law_plain_route_is_its_own_template(path: Seq<char>)
    requires
        forall|i: int| 0 <= i < path.len() ==> path[i] != '{' && path[i] != ':' && path[i] != '?',
    ensures
        path_template(path) == path,
        path_names(path).len() == 0,
        query_names(path).len() == 0,
{
    lemma_index_of(path, '?');
    assert(path_part(path) =~= path);
    lemma_scan_plain(path, '\0');
}

proof fn lemma_split_pieces(s: Seq<char>, c: char)
    ensures
        forall|i: int, j: int| 0 <= i < split_on(s, c).len() && 0 <= j < split_on(s, c)[i].len()
            ==> split_on(s, c)[i][j] != c,
    decreases s.len(),
{
    let k = index_of(s, c);
    lemma_index_of(s, c);
    if k < s.len() {
        lemma_split_pieces(s.skip(k + 1int), c);
        let head = s.take(k as int);
        let tail = split_on(s.skip(k + 1int), c);
        assert forall|i: int, j: int| 0 <= i < split_on(s, c).len() && 0 <= j < split_on(s, c)[i].len()
            implies split_on(s, c)[i][j] != c by {
            if i > 0 {
                assert(split_on(s, c)[i] == tail[i - 1]);
            } else {
                assert(split_on(s, c)[0] == head);
            }
        }
    }
}

/// Query keys are never empty and never contain `&`.
pub proof fn law_query_names_nonempty_without_separator(path: Seq<char>)
    ensures
        forall|i: int| 0 <= i < query_names(path).len() ==> #[trigger] query_names(path)[i].len() > 0,
        forall|i: int, j: int| 0 <= i < query_names(path).len() && 0 <= j < query_names(path)[i].len()
            ==> query_names(path)[i][j] != '&',
{
    if let Some(q) = query_part(path) {
        let pred = |x: Seq<char>| x.len() > 0;
        let pieces = split_on(q, '&');
        lemma_split_pieces(q, '&');
        assert forall|i: int| 0 <= i < pieces.filter(pred).len() implies
            #[trigger] pieces.filter(pred)[i].len() > 0 by {
            pieces.lemma_filter_pred(pred, i);
        }
        assert forall|i: int, j: int| 0 <= i < query_names(path).len() && 0 <= j < query_names(path)[i].len()
            implies query_names(path)[i][j] != '&' by {
            let x = pieces.filter(pred)[i];
            assert(pieces.filter(pred).contains(x));
            pieces.lemma_filter_contains_rev(pred, x);
            let m = choose|m: int| 0 <= m < pieces.len() && pieces[m] == x;
            assert(pieces[m][j] != '&');
        }
    }
}

/// Parses `/api/x/{id}/y?a&b` into the template `"/api/x/{}/y"`, the path
/// placeholder names `["id"]` and the query keys `["a", "b"]`. Both `{name}`
/// and `:name` placeholder styles are accepted.
pub fn parse_path(path: &str) -> (res: (String, Vec<String>, Vec<String>))
    ensures
        res.0@ == path_template(path@),
        views(res.1@) == path_names(path@),
        views(res.2@) == query_names(path@),
{
    let v = chars_of(path);
    let q = find_char(&v, 0, '?');
    assert(v@.skip(0) =~= v@);
    let mut template = String::new();
    let mut names: Vec<String> = Vec::new();
    let mut i: usize = 0;
    let mut prev: char = '\0';
    assert(v@.subrange(0, q as int) =~= v@.take(q as int));
    while i < q
        invariant
            q <= v@.len(),
            i <= q,
            v@ == path@,
            q == index_of(path@, '?'),
            scan_path(v@.take(q as int), '\0') == (
                template@ + scan_path(v@.subrange(i as int, q as int), prev).0,
                views(names@) + scan_path(v@.subrange(i as int, q as int), prev).1,
            ),
        decreases q - i,
    {
        let ghost s = v@.subrange(i as int, q as int);
        let ghost old_t = template@;
        let ghost old_n = views(names@);
        let c = v[i];
        assert(s[0] == c);
        assert(s.drop_first() =~= v@.subrange(i + 1, q as int));
        if c == '{' {
            let j = find_char_in(&v, i + 1, q, '}');
            let name = string_of_range(&v, i + 1, j);
            proof {
                lemma_index_of(s.drop_first(), '}');
                assert(name@ =~= s.drop_first().take(j - (i + 1)));
            }
            push_char(&mut template, '{');
            push_char(&mut template, '}');
            names.push(name);
            if j < q {
                assert(s.drop_first().skip(j - (i + 1) + 1) =~= v@.subrange(j + 1, q as int));
                i = j + 1;
            } else {
                assert(v@.subrange(q as int, q as int) =~= Seq::<char>::empty());
                i = q;
            }
            prev = '}';
            proof {
                assert(views(names@) =~= old_n + seq![name@]);
                assert(template@ =~= old_t + seq!['{', '}']);
                assert(seq!['{', '}'] + scan_path(v@.subrange(i as int, q as int), prev).0
                    =~= seq!['{', '}'] + scan_path(v@.subrange(i as int, q as int), prev).0);
                assert(old_t + (seq!['{', '}'] + scan_path(v@.subrange(i as int, q as int), prev).0)
                    =~= template@ + scan_path(v@.subrange(i as int, q as int), prev).0);
                assert(old_n + (seq![name@] + scan_path(v@.subrange(i as int, q as int), prev).1)
                    =~= views(names@) + scan_path(v@.subrange(i as int, q as int), prev).1);
            }
        } else if c == ':' && (prev == '\0' || prev == '/') {
            let j = find_char_in(&v, i + 1, q, '/');
            let name = string_of_range(&v, i + 1, j);
            proof {
                lemma_index_of(s.drop_first(), '/');
                assert(name@ =~= s.drop_first().take(j - (i + 1)));
                assert(s.drop_first().skip(j - (i + 1)) =~= v@.subrange(j as int, q as int));
            }
            push_char(&mut template, '{');
            push_char(&mut template, '}');
            let new_prev = if j == i + 1 { ':' } else { v[j - 1] };
            proof {
                if j > i + 1 {
                    assert(name@.last() == v@[j - 1]);
                }
            }
            names.push(name);
            i = j;
            prev = new_prev;
            proof {
                assert(views(names@) =~= old_n + seq![name@]);
                assert(template@ =~= old_t + seq!['{', '}']);
                assert(old_t + (seq!['{', '}'] + scan_path(v@.subrange(i as int, q as int), prev).0)
                    =~= template@ + scan_path(v@.subrange(i as int, q as int), prev).0);
                assert(old_n + (seq![name@] + scan_path(v@.subrange(i as int, q as int), prev).1)
                    =~= views(names@) + scan_path(v@.subrange(i as int, q as int), prev).1);
            }
        } else {
            push_char(&mut template, c);
            i = i + 1;
            prev = c;
            proof {
                assert(old_t + (seq![c] + scan_path(v@.subrange(i as int, q as int), prev).0)
                    =~= template@ + scan_path(v@.subrange(i as int, q as int), prev).0);
            }
        }
    }
    proof {
        assert(v@.subrange(q as int, q as int) =~= Seq::<char>::empty());
        assert(template@ + Seq::<char>::empty() =~= template@);
        assert(views(names@) + Seq::<Seq<char>>::empty() =~= views(names@));
    }
    let query = if q < v.len() {
        let out = split_nonempty(&v, q + 1, '&');
        out
    } else {
        Vec::new()
    };
    proof {
        if q >= v@.len() {
            assert(views(query@) =~= Seq::<Seq<char>>::empty());
        }
    }
    (template, names, query)
}

/// A route segment that names a parameter: `{name}` or `:name`.
pub open spec fn is_param_segment(seg: Seq<char>) -> bool {
    seg.len() > 0 && ((seg[0] == '{' && seg.last() == '}') || seg[0] == ':')
}

/// The parameter name of a parameter segment.
pub open spec fn segment_param_name(seg: Seq<char>) -> Seq<char> {
    if seg[0] == '{' {
        seg.subrange(1, seg.len() - 1)
    } else {
        seg.drop_first()
    }
}

/// The parameter names among `segs`, in order.
pub open spec fn segment_params(segs: Seq<Seq<char>>) -> Seq<Seq<char>>
    decreases segs.len(),
{
    if segs.len() == 0 {
        Seq::empty()
    } else {
        (if is_param_segment(segs[0]) { seq![segment_param_name(segs[0])] } else { Seq::empty() })
            + segment_params(segs.drop_first())
    }
}

/// The `/`-separated segments of the path part of a route.
pub open spec fn route_segments(route: Seq<char>) -> Seq<Seq<char>> {
    split_on(path_part(route), '/')
}

/// The path parameters of a route, `{name}` and `:name` segments alike.
pub open spec fn route_path_params(route: Seq<char>) -> Seq<Seq<char>> {
    segment_params(route_segments(route))
}

/// The trimmed, non-empty `&`-separated keys of the query part.
pub open spec fn route_query_params(route: Seq<char>) -> Seq<Seq<char>> {
    match query_part(route) {
        Some(q) => split_on(q, '&').map_values(|x: Seq<char>| trim(x)).filter(|x: Seq<char>| x.len() > 0),
        None => Seq::empty(),
    }
}

/// A non-empty segment as it appears in a format path: parameters become `{}`.
pub open spec fn format_segment(seg: Seq<char>) -> Seq<char> {
    if is_param_segment(seg) { seq!['{', '}'] } else { seg }
}

/// The non-empty segments of a route, rendered for a format path.
pub open spec fn format_segments(segs: Seq<Seq<char>>) -> Seq<Seq<char>>
    decreases segs.len(),
{
    if segs.len() == 0 {
        Seq::empty()
    } else {
        (if segs[0].len() > 0 { seq![format_segment(segs[0])] } else { Seq::empty() })
            + format_segments(segs.drop_first())
    }
}

/// Each segment preceded by `/`, concatenated.
pub open spec fn join_with_slashes(segs: Seq<Seq<char>>) -> Seq<char>
    decreases segs.len(),
{
    if segs.len() == 0 {
        Seq::empty()
    } else {
        seq!['/'] + segs[0] + join_with_slashes(segs.drop_first())
    }
}

/// The format path of a route: `/a/{}/b` for `/a/{id}/b?x`.
pub open spec fn format_path(route: Seq<char>) -> Seq<char> {
    join_with_slashes(format_segments(route_segments(route)))
}

/// Number of segments that are exactly `{}`.
pub open spec fn count_holes(segs: Seq<Seq<char>>) -> nat
    decreases segs.len(),
{
    if segs.len() == 0 {
        0
    } else {
        (if segs[0] == seq!['{', '}'] { 1nat } else { 0nat }) + count_holes(segs.drop_first())
    }
}

proof fn lemma_count_holes_concat(a: Seq<Seq<char>>, b: Seq<Seq<char>>)
    ensures
        count_holes(a + b) == count_holes(a) + count_holes(b),
    decreases a.len(),
{
    if a.len() > 0 {
        assert((a + b).drop_first() =~= a.drop_first() + b);
        lemma_count_holes_concat(a.drop_first(), b);
    } else {
        assert(a + b =~= b);
    }
}

/// The format path has one `{}` segment per path parameter, so the
/// parameters can be interpolated into it positionally.
pub proof fn law_format_holes_match_params(segs: Seq<Seq<char>>)
    ensures
        count_holes(format_segments(segs)) == segment_params(segs).len(),
    decreases segs.len(),
{
    if segs.len() > 0 {
        let s0 = segs[0];
        law_format_holes_match_params(segs.drop_first());
        let head = if s0.len() > 0 { seq![format_segment(s0)] } else { Seq::<Seq<char>>::empty() };
        lemma_count_holes_concat(head, format_segments(segs.drop_first()));
        if s0 == seq!['{', '}'] {
            assert(is_param_segment(s0));
        }
        reveal_with_fuel(count_holes, 2);
    }
}

/// Path parameters (`{name}` and `:name` segments) and trimmed query keys of a route.
pub fn extract_route_params(route: &str) -> (res: (Vec<String>, Vec<String>))
    ensures
        views(res.0@) == route_path_params(route@),
        views(res.1@) == route_query_params(route@),
{
    let v = chars_of(route);
    let q = find_char(&v, 0, '?');
    assert(v@.skip(0) =~= v@);
    assert(v@.subrange(0, q as int) =~= path_part(route@));
    let segs = split_all(&v, 0, q, '/');
    let mut params: Vec<String> = Vec::new();
    let mut i: usize = 0;
    assert(views(segs@).skip(0) =~= views(segs@));
    assert(views(params@) + segment_params(views(segs@)) =~= segment_params(views(segs@)));
    while i < segs.len()
        invariant
            i <= segs@.len(),
            views(segs@) == route_segments(route@),
            segment_params(views(segs@)) == views(params@) + segment_params(views(segs@).skip(i as int)),
        decreases segs@.len() - i,
    {
        let seg = chars_of(segs[i].as_str());
        let ghost sv = views(segs@).skip(i as int);
        assert(sv.drop_first() =~= views(segs@).skip(i + 1));
        assert(sv[0] == seg@);
        let ghost old_p = views(params@);
        let n = seg.len();
        if n > 0 && seg[0] == '{' && seg[n - 1] == '}' {
            params.push(string_of_range(&seg, 1, n - 1));
        } else if n > 0 && seg[0] == ':' {
            params.push(string_of_range(&seg, 1, n));
            assert(seg@.subrange(1, n as int) =~= seg@.drop_first());
        }
        proof {
            if is_param_segment(seg@) {
                assert(views(params@) =~= old_p + seq![segment_param_name(seg@)]);
            } else {
                assert(views(params@) =~= old_p);
            }
            assert(views(params@) + segment_params(views(segs@).skip(i + 1))
                =~= old_p + segment_params(sv));
        }
        i += 1;
    }
    assert(views(segs@).skip(segs@.len() as int) =~= Seq::<Seq<char>>::empty());
    assert(views(params@) + Seq::<Seq<char>>::empty() =~= views(params@));
    let mut query: Vec<String> = Vec::new();
    if q < v.len() {
        let pieces = split_all(&v, q + 1, v.len(), '&');
        assert(v@.subrange(q + 1, v@.len() as int) =~= v@.skip(q + 1));
        let ghost trimmed = views(pieces@).map_values(|x: Seq<char>| trim(x));
        let mut k: usize = 0;
        while k < pieces.len()
            invariant
                k <= pieces@.len(),
                trimmed == views(pieces@).map_values(|x: Seq<char>| trim(x)),
                views(query@) == trimmed.take(k as int).filter(|x: Seq<char>| x.len() > 0),
            decreases pieces@.len() - k,
        {
            let pc = chars_of(pieces[k].as_str());
            let (a, b) = trim_range(&pc, 0, pc.len());
            assert(pc@.subrange(0, pc@.len() as int) =~= pc@);
            let ghost old_q = views(query@);
            if a < b {
                query.push(string_of_range(&pc, a, b));
            }
            proof {
                assert(trimmed[k as int] == trim(pc@));
                assert(trimmed.take(k + 1) =~= trimmed.take(k as int).push(trim(pc@)));
                Seq::filter_distributes_over_add(trimmed.take(k as int), seq![trim(pc@)], |x: Seq<char>| x.len() > 0);
                assert(trimmed.take(k as int) + seq![trim(pc@)] =~= trimmed.take(k as int).push(trim(pc@)));
                reveal_with_fuel(Seq::filter, 2);
                assert(views(query@) =~= old_q + seq![trim(pc@)].filter(|x: Seq<char>| x.len() > 0));
            }
            k += 1;
        }
        assert(trimmed.take(pieces@.len() as int) =~= trimmed);
    } else {
        assert(views(query@) =~= Seq::<Seq<char>>::empty());
    }
    (params, query)
}

/// The format string of a route's path: every non-empty segment preceded by
/// `/`, with `{name}` and `:name` segments replaced by `{}`.
pub fn build_format_path(route: &str) -> (res: String)
    ensures
        res@ == format_path(route@),
{
    let v = chars_of(route);
    let q = find_char(&v, 0, '?');
    assert(v@.skip(0) =~= v@);
    assert(v@.subrange(0, q as int) =~= path_part(route@));
    let segs = split_all(&v, 0, q, '/');
    let mut out = String::new();
    let mut i: usize = 0;
    assert(views(segs@).skip(0) =~= views(segs@));
    assert(out@ + format_path(route@) =~= format_path(route@));
    while i < segs.len()
        invariant
            i <= segs@.len(),
            views(segs@) == route_segments(route@),
            format_path(route@) == out@ + join_with_slashes(format_segments(views(segs@).skip(i as int))),
        decreases segs@.len() - i,
    {
        let seg = chars_of(segs[i].as_str());
        let ghost sv = views(segs@).skip(i as int);
        assert(sv.drop_first() =~= views(segs@).skip(i + 1));
        assert(sv[0] == seg@);
        let ghost old_o = out@;
        let n = seg.len();
        if n > 0 {
            push_char(&mut out, '/');
            if (seg[0] == '{' && seg[n - 1] == '}') || seg[0] == ':' {
                push_char(&mut out, '{');
                push_char(&mut out, '}');
                assert(out@ =~= old_o + (seq!['/'] + seq!['{', '}']));
            } else {
                push_range(&mut out, &seg, 0, n);
                assert(seg@.subrange(0, n as int) =~= seg@);
                assert(out@ =~= old_o + (seq!['/'] + seg@));
            }
            let ghost rest = format_segments(views(segs@).skip(i + 1));
            assert(format_segments(sv) =~= seq![format_segment(seg@)] + rest);
            assert((seq![format_segment(seg@)] + rest).drop_first() =~= rest);
            assert(out@ + join_with_slashes(rest) =~= old_o + join_with_slashes(format_segments(sv)));
        } else {
            assert(format_segments(sv) =~= format_segments(views(segs@).skip(i + 1)));
        }
        i += 1;
    }
    assert(views(segs@).skip(segs@.len() as int) =~= Seq::<Seq<char>>::empty());
    assert(out@ + Seq::<char>::empty() =~= out@);
    out
}

} // verus!
