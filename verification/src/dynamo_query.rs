//! The decisions of an index query: the filter on the base sort key, the
//! page loop, and the text of a bookmark (the last evaluated key of a page,
//! written as `key;;;value` pieces joined by `;;;`).
use vstd::prelude::*;
use crate::text::{chars_of, owned, push_str, string_of_range, views};
use crate::dynamo_fields::pair_views;

verus! {

/// The view of an optional string slice.
pub open spec fn opt_str_view(o: Option<&str>) -> Option<Seq<char>> {
    match o {
        Some(s) => Some(s@),
        None => None,
    }
}

/// The filter expression and its value for a query: an exact match on the
/// base sort key wins over a prefix match; with neither, no filter.
pub open spec fn index_filter_spec(sk_eq: Option<Seq<char>>, sk_prefix: Option<Seq<char>>) -> Option<(Seq<char>, Seq<char>)> {
    match sk_eq {
        Some(v) => Some(("#base_sk = :base_sk_value"@, v)),
        None => match sk_prefix {
            Some(p) => Some(("begins_with(#base_sk, :base_sk_value)"@, p)),
            None => None,
        },
    }
}

/// An exact sort-key filter wins over a prefix filter whatever the prefix:
/// it compares the base table's `sk` for equality with the given value; a
/// prefix alone filters with `begins_with` on `sk`; with neither there is no
/// filter. Either filter binds its value to `:base_sk_value`.
pub proof fn law_exact_filter_wins(v: Seq<char>, p: Option<Seq<char>>, q: Seq<char>)
    ensures
        index_filter_spec(Some(v), p) == Some(("#base_sk = :base_sk_value"@, v)),
        index_filter_spec(None, Some(q)) == Some(("begins_with(#base_sk, :base_sk_value)"@, q)),
        index_filter_spec(None, None) is None,
        index_filter_spec(Some(v), p) != index_filter_spec(None, Some(v)),
{
    reveal_strlit("#base_sk = :base_sk_value");
    reveal_strlit("begins_with(#base_sk, :base_sk_value)");
    assert("#base_sk = :base_sk_value"@ != "begins_with(#base_sk, :base_sk_value)"@) by {
        assert("#base_sk = :base_sk_value"@[0] != "begins_with(#base_sk, :base_sk_value)"@[0]);
    }
}

/// The filter expression and value an index query sends, if any.
pub fn index_filter(sk_eq: Option<&str>, sk_prefix: Option<&str>) -> (r: Option<(String, String)>)
    ensures
        match r {
            Some((e, v)) => index_filter_spec(opt_str_view(sk_eq), opt_str_view(sk_prefix)) == Some((e@, v@)),
            None => index_filter_spec(opt_str_view(sk_eq), opt_str_view(sk_prefix)) is None,
        },
{
    match sk_eq {
        Some(v) => Some((owned("#base_sk = :base_sk_value"), owned(v))),
        None => match sk_prefix {
            Some(p) => Some((owned("begins_with(#base_sk, :base_sk_value)"), owned(p))),
            None => None,
        },
    }
}

/// The separator inside and between the pieces of a bookmark.
pub open spec fn bookmark_sep() -> Seq<char> {
    seq![';', ';', ';']
}

/// One piece of a bookmark: `key;;;value`.
pub open spec fn bookmark_piece(p: (Seq<char>, Seq<char>)) -> Seq<char> {
    p.0 + bookmark_sep() + p.1
}

/// The pieces joined by the separator.
pub open spec fn join_pieces(ps: Seq<Seq<char>>) -> Seq<char>
    decreases ps.len(),
{
    if ps.len() == 0 {
        Seq::empty()
    } else if ps.len() == 1 {
        ps[0]
    } else {
        join_pieces(ps.drop_last()) + bookmark_sep() + ps.last()
    }
}

/// The text of a bookmark for the given key/value pairs, in their order.
pub open spec fn encode_bookmark_spec(l: Seq<(Seq<char>, Seq<char>)>) -> Seq<char> {
    join_pieces(l.map_values(|p: (Seq<char>, Seq<char>)| bookmark_piece(p)))
}

/// `s` split on `;;;`, matches taken left to right without overlap (as
/// `str::split` does); `cur` is the part read so far.
pub open spec fn split_acc(s: Seq<char>, cur: Seq<char>) -> Seq<Seq<char>>
    decreases s.len(),
{
    if s.len() == 0 {
        seq![cur]
    } else if s.len() >= 3 && s[0] == ';' && s[1] == ';' && s[2] == ';' {
        seq![cur] + split_acc(s.skip(3), Seq::empty())
    } else {
        split_acc(s.drop_first(), cur.push(s[0]))
    }
}

/// The parts of `s` between the separators.
pub open spec fn split_bookmark(s: Seq<char>) -> Seq<Seq<char>> {
    split_acc(s, Seq::empty())
}

/// Consecutive parts taken two by two as key and value.
pub open spec fn pair_up(parts: Seq<Seq<char>>) -> Seq<(Seq<char>, Seq<char>)> {
    Seq::new(parts.len() / 2, |i: int| (parts[2 * i], parts[2 * i + 1]))
}

/// Why a bookmark could not be read.
#[derive(PartialEq, Eq, Structural, Clone, Copy, Debug)]
pub enum BookmarkError {
    /// The text splits into an odd number of parts.
    InvalidBookmark,
}

/// The pairs a bookmark text stands for, or why there are none.
pub open spec fn decode_bookmark_spec(s: Seq<char>) -> Result<Seq<(Seq<char>, Seq<char>)>, BookmarkError> {
    let parts = split_bookmark(s);
    if parts.len() % 2 != 0 {
        Err(BookmarkError::InvalidBookmark)
    } else {
        Ok(pair_up(parts))
    }
}

/// The text of a bookmark for `pairs`.
pub fn encode_bookmark(pairs: &Vec<(String, String)>) -> (r: String)
    ensures
        r@ == encode_bookmark_spec(pair_views(pairs@)),
{
    let ghost pieces = pair_views(pairs@).map_values(|p: (Seq<char>, Seq<char>)| bookmark_piece(p));
    let mut r = String::new();
    let mut i: usize = 0;
    while i < pairs.len()
        invariant
            i <= pairs@.len(),
            pieces == pair_views(pairs@).map_values(|p: (Seq<char>, Seq<char>)| bookmark_piece(p)),
            r@ == join_pieces(pieces.take(i as int)),
        decreases pairs@.len() - i,
    {
        let ghost before = r@;
        assert(pieces.take(i + 1).drop_last() =~= pieces.take(i as int));
        assert(pieces[i as int] == pairs@[i as int].0@ + bookmark_sep() + pairs@[i as int].1@);
        if i > 0 {
            push_str(&mut r, ";;;");
        }
        push_str(&mut r, pairs[i].0.as_str());
        push_str(&mut r, ";;;");
        push_str(&mut r, pairs[i].1.as_str());
        proof {
            reveal_strlit(";;;");
            if i == 0 {
                assert(r@ =~= pieces[0]);
            } else {
                assert(r@ =~= before + bookmark_sep() + pieces[i as int]);
            }
        }
        i += 1;
    }
    assert(pieces.take(pairs@.len() as int) =~= pieces);
    r
}

/// The parts of `s` between the `;;;` separators.
fn split_parts(s: &str) -> (parts: Vec<String>)
    ensures
        views(parts@) == split_bookmark(s@),
{
    let v = chars_of(s);
    let mut parts: Vec<String> = Vec::new();
    let mut start: usize = 0;
    let mut i: usize = 0;
    assert(v@.skip(0) =~= v@);
    assert(v@.subrange(0, 0) =~= Seq::<char>::empty());
    assert(views(parts@) + split_bookmark(s@) =~= split_bookmark(s@));
    while i < v.len()
        invariant
            start <= i <= v@.len(),
            v@ == s@,
            split_bookmark(s@) == views(parts@) + split_acc(v@.skip(i as int), v@.subrange(start as int, i as int)),
        decreases v@.len() - i,
    {
        let ghost rest = v@.skip(i as int);
        let ghost cur = v@.subrange(start as int, i as int);
        if v.len() - i >= 3 && v[i] == ';' && v[i + 1] == ';' && v[i + 2] == ';' {
            let part = string_of_range(&v, start, i);
            let ghost before = views(parts@);
            parts.push(part);
            assert(views(parts@) =~= before.push(cur));
            assert(rest.skip(3) =~= v@.skip(i + 3));
            assert(split_acc(rest, cur) == seq![cur] + split_acc(v@.skip(i + 3), Seq::empty()));
            assert(before + (seq![cur] + split_acc(v@.skip(i + 3), Seq::empty())) =~= before.push(cur) + split_acc(
                v@.skip(i + 3),
                Seq::empty(),
            ));
            i += 3;
            start = i;
            assert(v@.subrange(start as int, i as int) =~= Seq::<char>::empty());
        } else {
            assert(rest.drop_first() =~= v@.skip(i + 1));
            assert(cur.push(v@[i as int]) =~= v@.subrange(start as int, i + 1));
            assert(split_acc(rest, cur) == split_acc(v@.skip(i + 1), v@.subrange(start as int, i + 1)));
            i += 1;
        }
    }
    assert(split_acc(v@.skip(i as int), v@.subrange(start as int, i as int)) == seq![v@.subrange(start as int, i as int)]);
    let last = string_of_range(&v, start, v.len());
    let ghost before = views(parts@);
    parts.push(last);
    assert(views(parts@) =~= before.push(v@.subrange(start as int, v@.len() as int)));
    parts
}

/// The pairs a bookmark text stands for: its `;;;`-separated parts taken two
/// by two as key and value; an odd number of parts is an invalid bookmark.
pub fn decode_bookmark(s: &str) -> (r: Result<Vec<(String, String)>, BookmarkError>)
    ensures
        match r {
            Ok(v) => decode_bookmark_spec(s@) == Ok::<Seq<(Seq<char>, Seq<char>)>, BookmarkError>(pair_views(v@)),
            Err(e) => decode_bookmark_spec(s@) == Err::<Seq<(Seq<char>, Seq<char>)>, BookmarkError>(e),
        },
{
    let parts = split_parts(s);
    if parts.len() % 2 != 0 {
        return Err(BookmarkError::InvalidBookmark);
    }
    let ghost want = pair_up(views(parts@));
    let len = parts.len();
    let n = len / 2;
    let mut out: Vec<(String, String)> = Vec::new();
    let mut i: usize = 0;
    let mut j: usize = 0;
    while i < n
        invariant
            j == 2 * i,
            len == parts@.len(),
            n == parts@.len() / 2,
            parts@.len() % 2 == 0,
            i <= n,
            want == pair_up(views(parts@)),
            pair_views(out@) == want.take(i as int),
        decreases n - i,
    {
        assert(j + 1 < parts@.len());
        let k = parts[j].clone();
        let v = parts[j + 1].clone();
        let ghost before = pair_views(out@);
        out.push((k, v));
        assert(pair_views(out@) =~= before.push((k@, v@)));
        assert(want.take(i + 1) =~= want.take(i as int).push(want[i as int]));
        i += 1;
        j += 2;
    }
    assert(want.take(n as int) =~= want);
    Ok(out)
}

/// What an index query does after a page: query again from the page's last
/// evaluated key, or stop.
pub enum PageAction<K> {
    /// Query the next page, starting after this key.
    Fetch(K),
    /// The pages are done; the key whose bookmark is handed back, if any.
    Done(Option<K>),
}

/// The step after a page came back with `last_key`: when all pages are
/// wanted, the next page is fetched while there is a last evaluated key and
/// nothing is left for a bookmark; otherwise the query stops and the last
/// evaluated key, if any, becomes the bookmark.
pub open spec fn next_page_spec<K>(all: bool, last_key: Option<K>) -> PageAction<K> {
    if all {
        match last_key {
            Some(k) => PageAction::Fetch(k),
            None => PageAction::Done(None),
        }
    } else {
        PageAction::Done(last_key)
    }
}

/// The step after a page of an index query.
pub fn next_page<K>(all: bool, last_key: Option<K>) -> (r: PageAction<K>)
    ensures
        r == next_page_spec(all, last_key),
{
    if all {
        match last_key {
            Some(k) => PageAction::Fetch(k),
            None => PageAction::Done(None),
        }
    } else {
        PageAction::Done(last_key)
    }
}

/// A bookmark writes each key and its value separated by `;;;`, and the
/// pieces of consecutive pairs separated by `;;;` as well.
pub proof fn law_bookmark_text_layout(k: Seq<char>, v: Seq<char>, l: Seq<(Seq<char>, Seq<char>)>)
    ensures
        encode_bookmark_spec(seq![(k, v)]) == k + seq![';', ';', ';'] + v,
        l.len() > 0 ==> encode_bookmark_spec(l.push((k, v))) == encode_bookmark_spec(l) + seq![';', ';', ';'] + k + seq![
            ';',
            ';',
            ';',
        ] + v,
        encode_bookmark_spec(Seq::empty()) == Seq::<char>::empty(),
{
    let one = seq![(k, v)];
    assert(one.map_values(|p: (Seq<char>, Seq<char>)| bookmark_piece(p)) =~= seq![bookmark_piece((k, v))]);
    let ps = l.push((k, v)).map_values(|p: (Seq<char>, Seq<char>)| bookmark_piece(p));
    assert(ps.drop_last() =~= l.map_values(|p: (Seq<char>, Seq<char>)| bookmark_piece(p)));
    assert(Seq::<(Seq<char>, Seq<char>)>::empty().map_values(|p: (Seq<char>, Seq<char>)| bookmark_piece(p)) =~= Seq::<
        Seq<char>,
    >::empty());
    if l.len() > 0 {
        assert(encode_bookmark_spec(l) + bookmark_sep() + bookmark_piece((k, v)) =~= encode_bookmark_spec(l) + seq![
            ';',
            ';',
            ';',
        ] + k + seq![';', ';', ';'] + v);
    }
}

/// With all pages wanted, a page that ends early (with a last evaluated key)
/// is always followed by a query from that key, and the loop stops only on
/// the last page, with no bookmark; otherwise the query stops after one page
/// and hands back the key it stopped at, if any.
pub proof fn law_page_loop<K>(all: bool, last_key: Option<K>)
    ensures
        all && last_key is Some ==> next_page_spec(all, last_key) == PageAction::Fetch(last_key->0),
        all && last_key is None ==> next_page_spec(all, last_key) == PageAction::<K>::Done(None),
        !all ==> next_page_spec(all, last_key) == PageAction::Done(last_key),
        !(next_page_spec(all, last_key) matches PageAction::Done(Some(_)) && all),
{
}

/// `;` does not occur in `s`.
pub open spec fn no_semicolon(s: Seq<char>) -> bool {
    forall|i: int| 0 <= i < s.len() ==> s[i] != ';'
}

/// The keys and values of `l`, in order: key, value, key, value, ...
pub open spec fn flatten_pairs(l: Seq<(Seq<char>, Seq<char>)>) -> Seq<Seq<char>>
    decreases l.len(),
{
    if l.len() == 0 {
        Seq::empty()
    } else {
        seq![l[0].0, l[0].1] + flatten_pairs(l.drop_first())
    }
}

proof fn lemma_flatten_index(l: Seq<(Seq<char>, Seq<char>)>)
    ensures
        flatten_pairs(l).len() == 2 * l.len(),
        forall|i: int| 0 <= i < l.len() ==> flatten_pairs(l)[2 * i] == l[i].0 && flatten_pairs(l)[2 * i + 1] == l[i].1,
    decreases l.len(),
{
    if l.len() > 0 {
        lemma_flatten_index(l.drop_first());
        assert forall|i: int| 0 <= i < l.len() implies flatten_pairs(l)[2 * i] == l[i].0 && flatten_pairs(l)[2 * i + 1] == l[i].1 by {
            if i > 0 {
                assert(l.drop_first()[i - 1] == l[i]);
                assert(2 * i == 2 * (i - 1) + 2);
            }
        }
    }
}

proof fn lemma_split_plain(a: Seq<char>, t: Seq<char>, cur: Seq<char>)
    requires
        no_semicolon(a),
    ensures
        split_acc(a + t, cur) == split_acc(t, cur + a),
    decreases a.len(),
{
    if a.len() == 0 {
        assert(a + t =~= t);
        assert(cur + a =~= cur);
    } else {
        let s = a + t;
        assert(s[0] == a[0]);
        assert(s.drop_first() =~= a.drop_first() + t);
        lemma_split_plain(a.drop_first(), t, cur.push(a[0]));
        assert(cur.push(a[0]) + a.drop_first() =~= cur + a);
    }
}

proof fn lemma_split_sep(t: Seq<char>, cur: Seq<char>)
    ensures
        split_acc(bookmark_sep() + t, cur) == seq![cur] + split_acc(t, Seq::empty()),
{
    let s = bookmark_sep() + t;
    assert(s.skip(3) =~= t);
}

proof fn lemma_join_front(ps: Seq<Seq<char>>)
    requires
        ps.len() >= 2,
    ensures
        join_pieces(ps) == ps[0] + bookmark_sep() + join_pieces(ps.drop_first()),
    decreases ps.len(),
{
    if ps.len() == 2 {
        assert(ps.drop_last().len() == 1);
        assert(ps.drop_first().len() == 1);
        assert(join_pieces(ps.drop_last()) == ps[0]);
        assert(join_pieces(ps.drop_first()) == ps[1]);
    } else {
        lemma_join_front(ps.drop_last());
        assert(ps.drop_last()[0] == ps[0]);
        assert(join_pieces(ps.drop_first()) == join_pieces(ps.drop_first().drop_last()) + bookmark_sep() + ps.drop_first().last());
        assert(ps.drop_last().drop_first() =~= ps.drop_first().drop_last());
        assert(ps.drop_first().last() == ps.last());
        assert(ps[0] + bookmark_sep() + join_pieces(ps.drop_first().drop_last()) + bookmark_sep() + ps.last()
            =~= ps[0] + bookmark_sep() + (join_pieces(ps.drop_first().drop_last()) + bookmark_sep() + ps.last()));
    }
}

proof fn lemma_split_encode(l: Seq<(Seq<char>, Seq<char>)>)
    requires
        l.len() > 0,
        forall|i: int| 0 <= i < l.len() ==> no_semicolon(#[trigger] l[i].0) && no_semicolon(l[i].1),
    ensures
        split_bookmark(encode_bookmark_spec(l)) == flatten_pairs(l),
    decreases l.len(),
{
    let e = Seq::<char>::empty();
    let k = l[0].0;
    let v = l[0].1;
    let ps = l.map_values(|p: (Seq<char>, Seq<char>)| bookmark_piece(p));
    assert(no_semicolon(l[0].0) && no_semicolon(l[0].1));
    assert(e + k =~= k);
    assert(flatten_pairs(l.drop_first()).len() == 0 ==> flatten_pairs(l) =~= seq![k, v]);
    if l.len() == 1 {
        assert(encode_bookmark_spec(l) == ps[0]);
        assert(k + bookmark_sep() + v =~= k + (bookmark_sep() + v));
        lemma_split_plain(k, bookmark_sep() + v, e);
        lemma_split_sep(v, k);
        assert(v + e =~= v);
        lemma_split_plain(v, e, e);
        assert(e + v =~= v);
        assert(flatten_pairs(l.drop_first()) =~= Seq::<Seq<char>>::empty());
        assert(split_acc(e, v) == seq![v]);
        assert(seq![k] + seq![v] =~= seq![k, v]);
    } else {
        let rest = l.drop_first();
        lemma_join_front(ps);
        assert(ps.drop_first() =~= rest.map_values(|p: (Seq<char>, Seq<char>)| bookmark_piece(p)));
        let big = encode_bookmark_spec(rest);
        assert(encode_bookmark_spec(l) =~= k + (bookmark_sep() + (v + (bookmark_sep() + big))));
        lemma_split_plain(k, bookmark_sep() + (v + (bookmark_sep() + big)), e);
        lemma_split_sep(v + (bookmark_sep() + big), k);
        lemma_split_plain(v, bookmark_sep() + big, e);
        assert(e + v =~= v);
        lemma_split_sep(big, v);
        assert forall|i: int| 0 <= i < rest.len() implies no_semicolon(#[trigger] rest[i].0) && no_semicolon(rest[i].1) by {
            assert(rest[i] == l[i + 1]);
        }
        lemma_split_encode(rest);
        assert(seq![k] + (seq![v] + flatten_pairs(rest)) =~= seq![k, v] + flatten_pairs(rest));
    }
}

/// Reading back the text of a bookmark gives the pairs it was written from,
/// in their order, whenever there is at least one pair and no key or value
/// holds a `;`.
pub proof fn law_bookmark_round_trip(l: Seq<(Seq<char>, Seq<char>)>)
    requires
        l.len() > 0,
        forall|i: int| 0 <= i < l.len() ==> no_semicolon(#[trigger] l[i].0) && no_semicolon(l[i].1),
    ensures
        decode_bookmark_spec(encode_bookmark_spec(l)) == Ok::<Seq<(Seq<char>, Seq<char>)>, BookmarkError>(l),
{
    lemma_split_encode(l);
    lemma_flatten_index(l);
    let parts = flatten_pairs(l);
    assert((2 * l.len()) % 2 == 0) by (nonlinear_arith);
    assert((2 * l.len()) / 2 == l.len()) by (nonlinear_arith);
    assert(pair_up(parts) =~= l);
}

} // verus!
