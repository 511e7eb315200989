//! What `#[derive(RestError)]` decides: each variant's HTTP status and
//! numeric error code, read from its `#[rest_error(status = .., code = ..)]`
//! attributes.
use vstd::prelude::*;
use crate::mcp_tool::opt_view;
use crate::text::{owned, str_eq};

verus! {

/// The value after one key of a `#[rest_error(..)]` list.
pub enum RestValue {
    /// A bare key.
    Absent,
    /// An integer literal, with its value when that fits in a `u64`.
    Int(Option<u64>),
    /// Anything else.
    Other,
}

/// One item of a `#[rest_error(..)]` list.
pub struct RestItem {
    pub key: Option<String>,
    pub value: RestValue,
}

pub struct RestItemView {
    pub key: Option<Seq<char>>,
    pub value: RestValue,
}

impl View for RestItem {
    type V = RestItemView;

    open spec fn view(&self) -> RestItemView {
        RestItemView {
            key: opt_view(self.key),
            value: match self.value {
                RestValue::Absent => RestValue::Absent,
                RestValue::Int(v) => RestValue::Int(v),
                RestValue::Other => RestValue::Other,
            },
        }
    }
}

/// How a variant carries data, which decides the pattern that ignores it.
#[derive(PartialEq, Eq, Structural, Clone, Copy, Debug)]
pub enum VariantShape {
    Unit,
    Tuple,
    Struct,
}

/// One enum variant with the item lists of its `#[rest_error(..)]` attributes.
pub struct RestVariant {
    pub name: String,
    pub shape: VariantShape,
    pub attrs: Vec<Vec<RestItem>>,
}

pub open spec fn rest_attr_lists(v: RestVariant) -> Seq<Seq<RestItemView>> {
    v.attrs@.map_values(|a: Vec<RestItem>| a@.map_values(|x: RestItem| x@))
}

/// The items of one attribute read in order; the first one that is not a
/// `status` fitting a `u16` or a `code` fitting a `u64` stops the reading of
/// that attribute (the error is dropped, what was read before it stays).
pub open spec fn rest_items(status: u16, code: u64, items: Seq<RestItemView>) -> (u16, u64)
    decreases items.len(),
{
    if items.len() == 0 {
        (status, code)
    } else {
        let it = items[0];
        if it.key == Some("status"@) {
            match it.value {
                RestValue::Int(Some(v)) => if v <= u16::MAX {
                    rest_items(v as u16, code, items.drop_first())
                } else {
                    (status, code)
                },
                _ => (status, code),
            }
        } else if it.key == Some("code"@) {
            match it.value {
                RestValue::Int(Some(v)) => rest_items(status, v, items.drop_first()),
                _ => (status, code),
            }
        } else {
            (status, code)
        }
    }
}

/// A variant's attributes read in order.
pub open spec fn rest_attrs(status: u16, code: u64, attrs: Seq<Seq<RestItemView>>) -> (u16, u64)
    decreases attrs.len(),
{
    if attrs.len() == 0 {
        (status, code)
    } else {
        let (s, c) = rest_attrs(status, code, attrs.drop_last());
        rest_items(s, c, attrs.last())
    }
}

/// The `(status, code)` of each variant in order: status 400 unless given,
/// and code one past the previous variant's (the first's previous being 0)
/// unless given; `None` where that default would pass `u64::MAX`.
pub open spec fn rest_codes(variants: Seq<RestVariant>) -> Option<Seq<(u16, u64)>>
    decreases variants.len(),
{
    if variants.len() == 0 {
        Some(Seq::empty())
    } else {
        match rest_codes(variants.drop_last()) {
            None => None,
            Some(prev) => {
                let last_code: u64 = if prev.len() == 0 { 0 } else { prev.last().1 };
                if last_code == u64::MAX {
                    None
                } else {
                    Some(prev.push(rest_attrs(400u16, (last_code + 1) as u64, rest_attr_lists(variants.last()))))
                }
            },
        }
    }
}

/// One variant's arms of `status()` and `code()`.
pub struct RestArm {
    pub variant: String,
    pub shape: VariantShape,
    pub status: u16,
    pub code: u64,
}

/// Why the derive fails.
#[derive(PartialEq, Eq, Structural, Clone, Copy, Debug)]
pub enum RestErrorError {
    /// The type is not an enum.
    NotAnEnum,
    /// A default code would pass `u64::MAX`: the expansion panics.
    CodeOverflow,
}

/// The compile-error message for a type that is not an enum.
pub open spec fn rest_error_message() -> Seq<char> {
    "RestError can only be derived for enums"@
}

/// The message for a type that is not an enum.
pub fn not_an_enum_message() -> (r: String)
    ensures
        r@ == rest_error_message(),
{
    owned("RestError can only be derived for enums")
}

fn read_items(status: u16, code: u64, items: &Vec<RestItem>) -> (r: (u16, u64))
    ensures
        r == rest_items(status, code, items@.map_values(|x: RestItem| x@)),
{
    let ghost all = items@.map_values(|x: RestItem| x@);
    let mut s = status;
    let mut c = code;
    let mut i: usize = 0;
    assert(all.subrange(0, all.len() as int) =~= all);
    while i < items.len()
        invariant_except_break
            rest_items(status, code, all) == rest_items(s, c, all.subrange(i as int, all.len() as int)),
        invariant
            all == items@.map_values(|x: RestItem| x@),
            i <= items@.len(),
        ensures
            rest_items(status, code, all) == (s, c),
        decreases items@.len() - i,
    {
        let ghost rest = all.subrange(i as int, all.len() as int);
        assert(rest[0] == items@[i as int]@);
        assert(rest.drop_first() =~= all.subrange(i as int + 1, all.len() as int));
        let it = &items[i];
        let is_status = match &it.key {
            Some(k) => str_eq(k.as_str(), "status"),
            None => false,
        };
        let is_code = match &it.key {
            Some(k) => str_eq(k.as_str(), "code"),
            None => false,
        };
        if is_status {
            match &it.value {
                RestValue::Int(Some(v)) => {
                    if *v <= 65535 {
                        s = *v as u16;
                    } else {
                        break;
                    }
                },
                _ => {
                    break;
                },
            }
        } else if is_code {
            match &it.value {
                RestValue::Int(Some(v)) => {
                    c = *v;
                },
                _ => {
                    break;
                },
            }
        } else {
            break;
        }
        i += 1;
        if i == items.len() {
            assert(all.subrange(i as int, all.len() as int).len() == 0);
        }
    }
    (s, c)
}

/// The arm is the variant's: same name, same shape.
pub open spec fn arm_of(a: RestArm, v: RestVariant) -> bool {
    a.variant@ == v.name@ && a.shape == v.shape
}

/// Reads every variant's status and code.
pub fn rest_error_arms(variants: &Vec<RestVariant>) -> (r: Result<Vec<RestArm>, RestErrorError>)
    ensures
        match r {
            Ok(arms) => rest_codes(variants@) == Some(arms@.map_values(|a: RestArm| (a.status, a.code)))
                && arms@.len() == variants@.len()
                && forall|i: int| 0 <= i < arms@.len() ==> arm_of(#[trigger] arms@[i], variants@[i]),
            Err(e) => e == RestErrorError::CodeOverflow && rest_codes(variants@) is None,
        },
{
    let mut arms: Vec<RestArm> = Vec::new();
    let mut last: u64 = 0;
    let mut i: usize = 0;
    assert(variants@.take(0) =~= Seq::<RestVariant>::empty());
    assert(arms@.map_values(|a: RestArm| (a.status, a.code)) =~= Seq::<(u16, u64)>::empty());
    while i < variants.len()
        invariant
            i <= variants@.len(),
            arms@.len() == i,
            rest_codes(variants@.take(i as int)) == Some(arms@.map_values(|a: RestArm| (a.status, a.code))),
            last == if i == 0 { 0u64 } else { arms@[i - 1].code },
            forall|t: int| 0 <= t < i ==> arm_of(#[trigger] arms@[t], variants@[t]),
        decreases variants@.len() - i,
    {
        let v = &variants[i];
        let ghost tk = variants@.take(i as int + 1);
        assert(tk.drop_last() =~= variants@.take(i as int));
        assert(tk.last() == *v);
        if last == u64::MAX {
            proof {
                lemma_rest_codes_none(variants@, i as int + 1);
            }
            return Err(RestErrorError::CodeOverflow);
        }
        let mut s: u16 = 400;
        let mut c: u64 = last + 1;
        let ghost lists = rest_attr_lists(*v);
        let mut a: usize = 0;
        assert(lists.take(0) =~= Seq::<Seq<RestItemView>>::empty());
        while a < v.attrs.len()
            invariant
                a <= v.attrs@.len(),
                lists == rest_attr_lists(*v),
                last < u64::MAX,
                (s, c) == rest_attrs(400u16, (last + 1) as u64, lists.take(a as int)),
            decreases v.attrs@.len() - a,
        {
            let ghost t = lists.take(a as int + 1);
            assert(t.drop_last() =~= lists.take(a as int));
            assert(t.last() == v.attrs@[a as int]@.map_values(|x: RestItem| x@));
            let r = read_items(s, c, &v.attrs[a]);
            s = r.0;
            c = r.1;
            a += 1;
        }
        assert(lists.take(v.attrs@.len() as int) =~= lists);
        let ghost before = arms@.map_values(|a: RestArm| (a.status, a.code));
        let ghost old_arms = arms@;
        let arm = RestArm { variant: owned(v.name.as_str()), shape: v.shape, status: s, code: c };
        assert(arm.variant@ == variants@[i as int].name@ && arm.shape == variants@[i as int].shape);
        let ghost av = arm;
        arms.push(arm);
        assert(arms@.map_values(|a: RestArm| (a.status, a.code)) =~= before.push((s, c)));
        assert forall|t: int| 0 <= t < i + 1 implies arm_of(#[trigger] arms@[t], variants@[t]) by {
            if t < i {
                assert(arms@[t] == old_arms[t]);
                assert(old_arms[t].variant@ == variants@[t].name@);
                assert(old_arms[t].shape == variants@[t].shape);
            } else {
                assert(arms@[t] == av);
                assert(av.variant@ == variants@[t].name@);
                assert(av.shape == variants@[t].shape);
            }
        }
        last = c;
        i += 1;
    }
    assert(variants@.take(variants@.len() as int) =~= variants@);
    Ok(arms)
}

proof fn lemma_rest_codes_none(variants: Seq<RestVariant>, k: int)
    requires
        0 <= k <= variants.len(),
        rest_codes(variants.take(k)) is None,
    ensures
        rest_codes(variants) is None,
    decreases variants.len() - k,
{
    if k < variants.len() {
        let t = variants.take(k + 1);
        assert(t.drop_last() =~= variants.take(k));
        lemma_rest_codes_none(variants, k + 1);
    } else {
        assert(variants.take(k) =~= variants);
    }
}

/// A variant without a `code` gets the code one past the previous variant's.
pub proof fn law_codes_count_up(variants: Seq<RestVariant>, i: int)
    requires
        0 < i < variants.len(),
        rest_codes(variants) is Some,
        rest_attr_lists(variants[i]).len() == 0,
    ensures
        rest_codes(variants)->0[i] == (400u16, (rest_codes(variants)->0[i - 1].1 + 1) as u64),
    decreases variants.len(),
{
    let d = variants.drop_last();
    lemma_rest_codes_len(d);
    lemma_rest_codes_len(variants);
    let prev = rest_codes(d)->0;
    let last_code: u64 = if prev.len() == 0 { 0 } else { prev.last().1 };
    assert(rest_codes(variants) == Some(prev.push(rest_attrs(400u16, (last_code + 1) as u64, rest_attr_lists(variants.last())))));
    if i < variants.len() - 1 {
        assert(d[i] == variants[i]);
        law_codes_count_up(d, i);
    } else {
        assert(rest_attr_lists(variants.last()) =~= Seq::<Seq<RestItemView>>::empty());
    }
}

proof fn lemma_rest_codes_len(variants: Seq<RestVariant>)
    ensures
        rest_codes(variants) matches Some(v) ==> v.len() == variants.len(),
    decreases variants.len(),
{
    if variants.len() > 0 {
        lemma_rest_codes_len(variants.drop_last());
    }
}

} // verus!
