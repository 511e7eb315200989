//! What `#[derive(GtagEvent)]` decides: the event name (given, or the
//! struct's name in snake_case) and which fields become params under which
//! keys, or why the derive is refused.
use vstd::prelude::*;
use crate::text::{chars_of, owned, push_char, push_str, str_eq};

verus! {

/// Whether `c` has the Unicode `Uppercase` property, as `char::is_uppercase` decides.
pub uninterp spec fn is_upper(c: char) -> bool;

/// The lowercase mapping of `c`, as `char::to_lowercase` yields it.
pub uninterp spec fn lowercase_of(c: char) -> Seq<char>;

/// std `char::is_uppercase`; its result is named by `is_upper`.
#[verifier::external_body]
pub(crate) fn char_is_uppercase(c: char) -> (b: bool)
    ensures
        b == is_upper(c),
{
    c.is_uppercase()
}

/// std `char::to_lowercase`, its characters collected into a `String`; the
/// result is named by `lowercase_of`.
#[verifier::external_body]
pub(crate) fn char_lowercase(c: char) -> (r: String)
    ensures
        r@ == lowercase_of(c),
{
    c.to_lowercase().collect()
}

/// What one character of a name becomes in snake_case: an uppercase
/// character is lowered, with a `_` before it unless it comes first.
pub open spec fn snake_piece(c: char, first: bool) -> Seq<char> {
    if is_upper(c) {
        (if first { Seq::<char>::empty() } else { seq!['_'] }) + lowercase_of(c)
    } else {
        seq![c]
    }
}

/// `name` in snake_case, piece by piece.
pub open spec fn snake_case_of(name: Seq<char>) -> Seq<char>
    decreases name.len(),
{
    if name.len() == 0 {
        Seq::empty()
    } else {
        snake_case_of(name.drop_last()) + snake_piece(name.last(), name.len() == 1)
    }
}

/// A name without uppercase characters is its own snake_case.
pub proof fn law_snake_case_keeps_lowercase(name: Seq<char>)
    requires
        forall|i: int| 0 <= i < name.len() ==> !is_upper(#[trigger] name[i]),
    ensures
        snake_case_of(name) == name,
    decreases name.len(),
{
    if name.len() > 0 {
        let d = name.drop_last();
        assert forall|i: int| 0 <= i < d.len() implies !is_upper(#[trigger] d[i]) by {
            assert(d[i] == name[i]);
        }
        law_snake_case_keeps_lowercase(d);
        assert(!is_upper(name[name.len() - 1]));
        assert(d + seq![name.last()] =~= name);
    }
}

/// `QuizSubmitted` → `quiz_submitted`: each uppercase character after the
/// first gets a `_` before it, and every uppercase character is lowered.
pub fn to_snake_case(name: &str) -> (r: String)
    ensures
        r@ == snake_case_of(name@),
{
    let v = chars_of(name);
    let mut out = String::new();
    let mut i: usize = 0;
    while i < v.len()
        invariant
            v@ == name@,
            i <= v@.len(),
            out@ == snake_case_of(v@.take(i as int)),
        decreases v@.len() - i,
    {
        let c = v[i];
        if char_is_uppercase(c) {
            if i > 0 {
                push_char(&mut out, '_');
            }
            let low = char_lowercase(c);
            push_str(&mut out, low.as_str());
        } else {
            push_char(&mut out, c);
        }
        proof {
            let t = v@.take(i as int + 1);
            assert(t.drop_last() =~= v@.take(i as int));
            assert(t.last() == c);
        }
        i += 1;
    }
    assert(v@.take(v@.len() as int) =~= v@);
    out
}

/// The value written after one item of a `#[gtag(..)]` list.
pub enum AttrValue {
    /// `key = "text"`.
    Str(String),
    /// `key = <anything but a string literal>`.
    Other,
    /// `key(..)`: a list in place of a value.
    List,
    /// A bare `key`.
    Absent,
}

/// One item of a `#[gtag(..)]` list: its key when that is a single
/// identifier, and its value.
pub struct GtagItem {
    pub key: Option<String>,
    pub value: AttrValue,
}

/// One named field with the items of its `#[gtag(..)]` attributes, in order.
pub struct GtagField {
    pub name: String,
    pub items: Vec<GtagItem>,
}

/// The shape of the type the derive is applied to.
pub enum GtagData {
    Named(Vec<GtagField>),
    Unit,
    Tuple,
    NotStruct,
}

/// The input of the derive: the type's name, the items of its own
/// `#[gtag(..)]` attributes in order, and its shape.
pub struct GtagDeriveInput {
    pub name: String,
    pub items: Vec<GtagItem>,
    pub data: GtagData,
}

#[derive(PartialEq, Eq, Structural, Clone, Copy, Debug)]
pub enum GtagDeriveError {
    /// A type-level item other than `name`.
    UnsupportedEventAttr,
    /// A field-level item other than `rename` or `skip`.
    UnsupportedFieldAttr,
    /// `name` or `rename` without `= ..`.
    ExpectedEquals,
    /// `name` or `rename` with a value that is not a string literal.
    ExpectedStringLiteral,
    /// `skip` followed by a value.
    ExpectedComma,
    /// A tuple struct.
    FieldsNotNamed,
    /// An enum or a union.
    NotAStruct,
}

/// The compile-error message of a derive error.
pub open spec fn gtag_error_message(e: GtagDeriveError) -> Seq<char> {
    match e {
        GtagDeriveError::UnsupportedEventAttr => "unsupported gtag attribute; expected `name`"@,
        GtagDeriveError::UnsupportedFieldAttr => "unsupported gtag attribute; expected `rename` or `skip`"@,
        GtagDeriveError::ExpectedEquals => "expected `=`"@,
        GtagDeriveError::ExpectedStringLiteral => "expected string literal"@,
        GtagDeriveError::ExpectedComma => "expected `,`"@,
        GtagDeriveError::FieldsNotNamed => "GtagEvent requires named fields or a unit struct"@,
        GtagDeriveError::NotAStruct => "GtagEvent can only be derived for structs"@,
    }
}

impl GtagDeriveError {
    /// The compile-error message for this error.
    pub fn message(&self) -> (r: String)
        ensures
            r@ == gtag_error_message(*self),
    {
        match self {
            GtagDeriveError::UnsupportedEventAttr => owned("unsupported gtag attribute; expected `name`"),
            GtagDeriveError::UnsupportedFieldAttr => owned("unsupported gtag attribute; expected `rename` or `skip`"),
            GtagDeriveError::ExpectedEquals => owned("expected `=`"),
            GtagDeriveError::ExpectedStringLiteral => owned("expected string literal"),
            GtagDeriveError::ExpectedComma => owned("expected `,`"),
            GtagDeriveError::FieldsNotNamed => owned("GtagEvent requires named fields or a unit struct"),
            GtagDeriveError::NotAStruct => owned("GtagEvent can only be derived for structs"),
        }
    }
}

pub enum AttrValueView {
    Str(Seq<char>),
    Other,
    List,
    Absent,
}

pub struct GtagItemView {
    pub key: Option<Seq<char>>,
    pub value: AttrValueView,
}

impl View for GtagItem {
    type V = GtagItemView;

    open spec fn view(&self) -> GtagItemView {
        GtagItemView {
            key: match self.key {
                Some(k) => Some(k@),
                None => None,
            },
            value: match self.value {
                AttrValue::Str(s) => AttrValueView::Str(s@),
                AttrValue::Other => AttrValueView::Other,
                AttrValue::List => AttrValueView::List,
                AttrValue::Absent => AttrValueView::Absent,
            },
        }
    }
}

/// The views of a list of items.
pub open spec fn item_views(v: Seq<GtagItem>) -> Seq<GtagItemView> {
    v.map_values(|x: GtagItem| x@)
}

/// The key `k` is the identifier `name`.
pub open spec fn key_is(k: Option<Seq<char>>, name: Seq<char>) -> bool {
    k == Some(name)
}

/// The string of a `key = "text"` item, or why there is none.
pub open spec fn string_value(v: AttrValueView) -> Result<Seq<char>, GtagDeriveError> {
    match v {
        AttrValueView::Str(s) => Ok(s),
        AttrValueView::Other => Err(GtagDeriveError::ExpectedStringLiteral),
        AttrValueView::List => Err(GtagDeriveError::ExpectedEquals),
        AttrValueView::Absent => Err(GtagDeriveError::ExpectedEquals),
    }
}

/// The event name set by the type-level items, read in order; the last
/// `name` wins, and the first bad item stops the reading.
pub open spec fn scan_event_name(items: Seq<GtagItemView>, cur: Option<Seq<char>>) -> Result<Option<Seq<char>>, GtagDeriveError>
    decreases items.len(),
{
    if items.len() == 0 {
        Ok(cur)
    } else if key_is(items[0].key, "name"@) {
        match string_value(items[0].value) {
            Ok(s) => scan_event_name(items.drop_first(), Some(s)),
            Err(e) => Err(e),
        }
    } else {
        Err(GtagDeriveError::UnsupportedEventAttr)
    }
}

/// The param key and skip flag set by a field's items, read in order.
pub open spec fn scan_field(items: Seq<GtagItemView>, key: Seq<char>, skip: bool) -> Result<(Seq<char>, bool), GtagDeriveError>
    decreases items.len(),
{
    if items.len() == 0 {
        Ok((key, skip))
    } else if key_is(items[0].key, "rename"@) {
        match string_value(items[0].value) {
            Ok(s) => scan_field(items.drop_first(), s, skip),
            Err(e) => Err(e),
        }
    } else if key_is(items[0].key, "skip"@) {
        match items[0].value {
            AttrValueView::Absent => scan_field(items.drop_first(), key, true),
            _ => Err(GtagDeriveError::ExpectedComma),
        }
    } else {
        Err(GtagDeriveError::UnsupportedFieldAttr)
    }
}

pub struct GtagFieldView {
    pub name: Seq<char>,
    pub items: Seq<GtagItemView>,
}

/// The views of a list of fields.
pub open spec fn field_views(v: Seq<GtagField>) -> Seq<GtagFieldView> {
    v.map_values(|f: GtagField| GtagFieldView { name: f.name@, items: item_views(f.items@) })
}

/// The `(param key, field name)` pairs of the fields that are not skipped,
/// in field order, or the first field's error.
pub open spec fn field_params(fields: Seq<GtagFieldView>) -> Result<Seq<(Seq<char>, Seq<char>)>, GtagDeriveError>
    decreases fields.len(),
{
    if fields.len() == 0 {
        Ok(Seq::empty())
    } else {
        match scan_field(fields[0].items, fields[0].name, false) {
            Err(e) => Err(e),
            Ok((k, skip)) => match field_params(fields.drop_first()) {
                Err(e) => Err(e),
                Ok(rest) => Ok(if skip { rest } else { seq![(k, fields[0].name)] + rest }),
            },
        }
    }
}

/// What the derive produces: the event name and the `(key, field)` params.
pub open spec fn gtag_event_spec(
    name: Seq<char>,
    items: Seq<GtagItemView>,
    data: GtagData,
) -> Result<(Seq<char>, Seq<(Seq<char>, Seq<char>)>), GtagDeriveError> {
    match scan_event_name(items, None) {
        Err(e) => Err(e),
        Ok(given) => {
            let event = match given {
                Some(s) => s,
                None => snake_case_of(name),
            };
            match data {
                GtagData::Unit => Ok((event, Seq::empty())),
                GtagData::Named(fs) => match field_params(field_views(fs@)) {
                    Err(e) => Err(e),
                    Ok(ps) => Ok((event, ps)),
                },
                GtagData::Tuple => Err(GtagDeriveError::FieldsNotNamed),
                GtagData::NotStruct => Err(GtagDeriveError::NotAStruct),
            }
        },
    }
}

/// One event param: its JSON key and the field it is read from.
pub struct GtagParam {
    pub key: String,
    pub field: String,
}

/// The `GtagEvent` impl to emit.
pub struct GtagEventPlan {
    pub event_name: String,
    pub params: Vec<GtagParam>,
}

/// The views of a list of params.
pub open spec fn param_views(v: Seq<GtagParam>) -> Seq<(Seq<char>, Seq<char>)> {
    v.map_values(|p: GtagParam| (p.key@, p.field@))
}

fn item_key_is(item: &GtagItem, name: &str) -> (r: bool)
    ensures
        r == key_is(item@.key, name@),
{
    match &item.key {
        Some(k) => str_eq(k.as_str(), name),
        None => false,
    }
}

fn item_string(item: &GtagItem) -> (r: Result<String, GtagDeriveError>)
    ensures
        match (r, string_value(item@.value)) {
            (Ok(s), Ok(t)) => s@ == t,
            (Err(e), Err(f)) => e == f,
            _ => false,
        },
{
    match &item.value {
        AttrValue::Str(s) => Ok(owned(s.as_str())),
        AttrValue::Other => Err(GtagDeriveError::ExpectedStringLiteral),
        AttrValue::List => Err(GtagDeriveError::ExpectedEquals),
        AttrValue::Absent => Err(GtagDeriveError::ExpectedEquals),
    }
}

fn event_name_of(items: &Vec<GtagItem>) -> (r: Result<Option<String>, GtagDeriveError>)
    ensures
        match (r, scan_event_name(item_views(items@), None)) {
            (Ok(Some(s)), Ok(Some(t))) => s@ == t,
            (Ok(None), Ok(None)) => true,
            (Err(e), Err(f)) => e == f,
            _ => false,
        },
{
    let ghost all = item_views(items@);
    let mut cur: Option<String> = None;
    let mut i: usize = 0;
    assert(all.subrange(0, all.len() as int) =~= all);
    while i < items.len()
        invariant
            all == item_views(items@),
            i <= items@.len(),
            scan_event_name(all, None) == scan_event_name(all.subrange(i as int, all.len() as int), match cur {
                Some(s) => Some(s@),
                None => None,
            }),
        decreases items@.len() - i,
    {
        let ghost rest = all.subrange(i as int, all.len() as int);
        assert(rest[0] == items@[i as int]@);
        assert(rest.drop_first() =~= all.subrange(i as int + 1, all.len() as int));
        if item_key_is(&items[i], "name") {
            match item_string(&items[i]) {
                Ok(s) => {
                    cur = Some(s);
                },
                Err(e) => {
                    return Err(e);
                },
            }
        } else {
            return Err(GtagDeriveError::UnsupportedEventAttr);
        }
        i += 1;
    }
    assert(all.subrange(i as int, all.len() as int).len() == 0);
    Ok(cur)
}

fn field_param(field: &GtagField) -> (r: Result<(String, bool), GtagDeriveError>)
    ensures
        match (r, scan_field(item_views(field.items@), field.name@, false)) {
            (Ok((k, skip)), Ok((k2, skip2))) => k@ == k2 && skip == skip2,
            (Err(e), Err(f)) => e == f,
            _ => false,
        },
{
    let ghost all = item_views(field.items@);
    let mut key = owned(field.name.as_str());
    let mut skip = false;
    let mut i: usize = 0;
    assert(all.subrange(0, all.len() as int) =~= all);
    while i < field.items.len()
        invariant
            all == item_views(field.items@),
            i <= field.items@.len(),
            scan_field(all, field.name@, false) == scan_field(all.subrange(i as int, all.len() as int), key@, skip),
        decreases field.items@.len() - i,
    {
        let ghost rest = all.subrange(i as int, all.len() as int);
        assert(rest[0] == field.items@[i as int]@);
        assert(rest.drop_first() =~= all.subrange(i as int + 1, all.len() as int));
        let item = &field.items[i];
        if item_key_is(item, "rename") {
            match item_string(item) {
                Ok(s) => {
                    key = s;
                },
                Err(e) => {
                    return Err(e);
                },
            }
        } else if item_key_is(item, "skip") {
            match &item.value {
                AttrValue::Absent => {
                    skip = true;
                },
                _ => {
                    return Err(GtagDeriveError::ExpectedComma);
                },
            }
        } else {
            return Err(GtagDeriveError::UnsupportedFieldAttr);
        }
        i += 1;
    }
    assert(all.subrange(i as int, all.len() as int).len() == 0);
    Ok((key, skip))
}

fn params_of(fields: &Vec<GtagField>) -> (r: Result<Vec<GtagParam>, GtagDeriveError>)
    ensures
        match (r, field_params(field_views(fields@))) {
            (Ok(ps), Ok(qs)) => param_views(ps@) == qs,
            (Err(e), Err(f)) => e == f,
            _ => false,
        },
{
    let ghost all = field_views(fields@);
    let mut out: Vec<GtagParam> = Vec::new();
    let mut i: usize = 0;
    assert(all.subrange(0, all.len() as int) =~= all);
    assert forall|tail: Seq<(Seq<char>, Seq<char>)>| #[trigger] (param_views(out@) + tail) == tail by {
        assert(param_views(out@) + tail =~= tail);
    }
    while i < fields.len()
        invariant
            all == field_views(fields@),
            i <= fields@.len(),
            field_params(all) == match field_params(all.subrange(i as int, all.len() as int)) {
                Ok(rest) => Ok(param_views(out@) + rest),
                Err(e) => Err(e),
            },
        decreases fields@.len() - i,
    {
        let ghost rest = all.subrange(i as int, all.len() as int);
        assert(rest[0] == all[i as int]);
        assert(rest.drop_first() =~= all.subrange(i as int + 1, all.len() as int));
        let f = &fields[i];
        match field_param(f) {
            Err(e) => {
                return Err(e);
            },
            Ok((key, skip)) => {
                if !skip {
                    let ghost before = out@;
                    out.push(GtagParam { key, field: owned(f.name.as_str()) });
                    proof {
                        assert(param_views(out@) =~= param_views(before).push((key@, f.name@)));
                        assert forall|tail: Seq<(Seq<char>, Seq<char>)>| param_views(before) + (seq![(key@, f.name@)] + tail)
                            =~= #[trigger] (param_views(out@) + tail) by {}
                    }
                } else {
                    proof {
                        assert forall|tail: Seq<(Seq<char>, Seq<char>)>| #[trigger] (param_views(out@) + tail)
                            == param_views(out@) + tail by {}
                    }
                }
            },
        }
        i += 1;
    }
    assert(all.subrange(i as int, all.len() as int).len() == 0);
    assert(param_views(out@) + Seq::<(Seq<char>, Seq<char>)>::empty() =~= param_views(out@));
    Ok(out)
}

/// Plans the `GtagEvent` impl for a type, or says why the derive fails.
pub fn plan_gtag_event(input: &GtagDeriveInput) -> (r: Result<GtagEventPlan, GtagDeriveError>)
    ensures
        match (r, gtag_event_spec(input.name@, item_views(input.items@), input.data)) {
            (Ok(p), Ok((ev, ps))) => p.event_name@ == ev && param_views(p.params@) == ps,
            (Err(e), Err(f)) => e == f,
            _ => false,
        },
{
    let given = match event_name_of(&input.items) {
        Ok(g) => g,
        Err(e) => {
            return Err(e);
        },
    };
    let event_name = match given {
        Some(s) => s,
        None => to_snake_case(input.name.as_str()),
    };
    match &input.data {
        GtagData::Unit => {
            let params: Vec<GtagParam> = Vec::new();
            assert(param_views(params@) =~= Seq::empty());
            Ok(GtagEventPlan { event_name, params })
        },
        GtagData::Named(fields) => match params_of(fields) {
            Ok(params) => Ok(GtagEventPlan { event_name, params }),
            Err(e) => Err(e),
        },
        GtagData::Tuple => Err(GtagDeriveError::FieldsNotNamed),
        GtagData::NotStruct => Err(GtagDeriveError::NotAStruct),
    }
}

} // verus!
