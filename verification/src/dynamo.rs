//! What `#[derive(DynamoEntity)]` decides: the table configuration read from
//! the type's `#[dynamo(..)]` attributes, the secondary indexes and key
//! fields read from its fields, and the names and expressions of the
//! generated accessors, updater and index queries.
use vstd::prelude::*;
use crate::mcp_tool::opt_view;
use crate::text::{cat, chars_of, owned, push_str, str_eq};

verus! {

/// The value written after one key of a `#[dynamo(..)]` list.
pub enum DynValue {
    /// A bare `key`.
    Absent,
    /// `key =` with nothing after it.
    Empty,
    /// `key = "text"`.
    Str(String),
    /// `key = 12`, with the literal's value when it fits in an `i32`.
    Int(Option<i32>),
    /// `key = ident`.
    Ident(String),
    /// Any other value.
    Other,
}

/// One item of a `#[dynamo(..)]` list: its key when that is a single
/// identifier, and its value.
pub struct DynItem {
    pub key: Option<String>,
    pub value: DynValue,
}

pub enum DynValueView {
    Absent,
    Empty,
    Str(Seq<char>),
    Int(Option<i32>),
    Ident(Seq<char>),
    Other,
}

pub struct DynItemView {
    pub key: Option<Seq<char>>,
    pub value: DynValueView,
}

impl View for DynItem {
    type V = DynItemView;

    open spec fn view(&self) -> DynItemView {
        DynItemView {
            key: opt_view(self.key),
            value: match self.value {
                DynValue::Absent => DynValueView::Absent,
                DynValue::Empty => DynValueView::Empty,
                DynValue::Str(s) => DynValueView::Str(s@),
                DynValue::Int(v) => DynValueView::Int(v),
                DynValue::Ident(s) => DynValueView::Ident(s@),
                DynValue::Other => DynValueView::Other,
            },
        }
    }
}

pub open spec fn dyn_item_views(v: Seq<DynItem>) -> Seq<DynItemView> {
    v.map_values(|x: DynItem| x@)
}

/// One secondary index declared on the type (used by enums).
pub struct IndexCfg {
    pub pk_prefix: Option<String>,
    pub sk_prefix: Option<String>,
    pub index: String,
    pub name: String,
    pub enable_sk: bool,
}

pub struct IndexCfgView {
    pub pk_prefix: Option<Seq<char>>,
    pub sk_prefix: Option<Seq<char>>,
    pub index: Seq<char>,
    pub name: Seq<char>,
    pub enable_sk: bool,
}

impl View for IndexCfg {
    type V = IndexCfgView;

    open spec fn view(&self) -> IndexCfgView {
        IndexCfgView {
            pk_prefix: opt_view(self.pk_prefix),
            sk_prefix: opt_view(self.sk_prefix),
            index: self.index@,
            name: self.name@,
            enable_sk: self.enable_sk,
        }
    }
}

/// The table configuration of an entity.
pub struct StructCfg {
    pub table: String,
    pub table_prefix: String,
    pub result_ty: String,
    pub error_ctor: String,
    pub pk_name: String,
    pub sk_name: Option<String>,
    pub indice: Vec<IndexCfg>,
}

pub struct StructCfgView {
    pub table: Seq<char>,
    pub table_prefix: Seq<char>,
    pub result_ty: Seq<char>,
    pub error_ctor: Seq<char>,
    pub pk_name: Seq<char>,
    pub sk_name: Option<Seq<char>>,
    pub indice: Seq<IndexCfgView>,
}

impl View for StructCfg {
    type V = StructCfgView;

    open spec fn view(&self) -> StructCfgView {
        StructCfgView {
            table: self.table@,
            table_prefix: self.table_prefix@,
            result_ty: self.result_ty@,
            error_ctor: self.error_ctor@,
            pk_name: self.pk_name@,
            sk_name: opt_view(self.sk_name),
            indice: self.indice@.map_values(|c: IndexCfg| c@),
        }
    }
}

/// The configuration before any attribute is read.
pub open spec fn default_cfg(table_prefix: Seq<char>) -> StructCfgView {
    StructCfgView {
        table: "main"@,
        table_prefix,
        result_ty: "std::result::Result"@,
        error_ctor: "crate::Error"@,
        pk_name: "pk"@,
        sk_name: Some("sk"@),
        indice: Seq::empty(),
    }
}

/// An index configuration before any item is read.
pub open spec fn empty_index_cfg() -> IndexCfgView {
    IndexCfgView { pk_prefix: None, sk_prefix: None, index: Seq::empty(), name: Seq::empty(), enable_sk: false }
}

/// After a `key = value` item, reading goes on only when the value was
/// taken whole; a bare key is always taken.
pub open spec fn taken_if_str(v: DynValueView) -> bool {
    v is Absent || v is Empty || v is Str
}

/// `None` or `none`, with or without quotes, written as the last item.
pub open spec fn is_none_word(s: Seq<char>) -> bool {
    s == "None"@ || s == "none"@
}

/// One type-level item applied to the configuration and the index being
/// declared; the flag says whether reading goes on.
pub open spec fn cfg_item(c: StructCfgView, ic: IndexCfgView, item: DynItemView, last: bool) -> (StructCfgView, IndexCfgView, bool) {
    let k = item.key;
    let v = item.value;
    let s = match v {
        DynValueView::Str(s) => Some(s),
        _ => None,
    };
    if k == Some("table"@) {
        (if s is Some { StructCfgView { table: s->0, ..c } } else { c }, ic, taken_if_str(v))
    } else if k == Some("result"@) {
        (if s is Some { StructCfgView { result_ty: s->0, ..c } } else { c }, ic, taken_if_str(v))
    } else if k == Some("error_ctor"@) {
        (if s is Some { StructCfgView { error_ctor: s->0, ..c } } else { c }, ic, taken_if_str(v))
    } else if k == Some("pk_name"@) {
        (if s is Some { StructCfgView { pk_name: s->0, ..c } } else { c }, ic, taken_if_str(v))
    } else if k == Some("sk_name"@) {
        match v {
            DynValueView::Absent => (c, ic, true),
            DynValueView::Empty => (StructCfgView { sk_name: None, ..c }, ic, true),
            DynValueView::Str(t) => if last && is_none_word(t) {
                (StructCfgView { sk_name: None, ..c }, ic, false)
            } else {
                (StructCfgView { sk_name: Some(t), ..c }, ic, true)
            },
            DynValueView::Ident(t) => if last && is_none_word(t) {
                (StructCfgView { sk_name: None, ..c }, ic, false)
            } else {
                (c, ic, false)
            },
            _ => (c, ic, false),
        }
    } else if k == Some("pk_prefix"@) {
        (c, if s is Some { IndexCfgView { pk_prefix: s, ..ic } } else { ic }, taken_if_str(v))
    } else if k == Some("sk_prefix"@) {
        (c, if s is Some { IndexCfgView { sk_prefix: s, ..ic } } else { ic }, taken_if_str(v))
    } else if k == Some("index"@) {
        (c, if s is Some {
            IndexCfgView {
                index: s->0,
                name: if ic.name.len() == 0 { "find_by_"@ + s->0 } else { ic.name },
                ..ic
            }
        } else {
            ic
        }, taken_if_str(v))
    } else if k == Some("name"@) {
        (c, if s is Some { IndexCfgView { name: s->0, ..ic } } else { ic }, taken_if_str(v))
    } else if k == Some("enable_sk"@) {
        (c, IndexCfgView { enable_sk: true, ..ic }, v is Absent)
    } else {
        (c, ic, v is Absent)
    }
}

/// The items of one `#[dynamo(..)]` attribute read in order, until one is
/// not taken whole: the rest of that attribute is then passed over.
pub open spec fn cfg_items(c: StructCfgView, ic: IndexCfgView, items: Seq<DynItemView>) -> (StructCfgView, IndexCfgView)
    decreases items.len(),
{
    if items.len() == 0 {
        (c, ic)
    } else {
        let (c2, ic2, go) = cfg_item(c, ic, items[0], items.len() == 1);
        if go {
            cfg_items(c2, ic2, items.drop_first())
        } else {
            (c2, ic2)
        }
    }
}

/// One attribute applied: its items, then the index it declares, if any.
pub open spec fn cfg_attr(c: StructCfgView, items: Seq<DynItemView>) -> StructCfgView {
    let (c2, ic) = cfg_items(c, empty_index_cfg(), items);
    if ic.index.len() > 0 {
        StructCfgView { indice: c2.indice.push(ic), ..c2 }
    } else {
        c2
    }
}

/// The configuration read from the type's `#[dynamo(..)]` attributes, in order.
pub open spec fn struct_cfg_spec(table_prefix: Seq<char>, attrs: Seq<Seq<DynItemView>>) -> StructCfgView
    decreases attrs.len(),
{
    if attrs.len() == 0 {
        default_cfg(table_prefix)
    } else {
        cfg_attr(struct_cfg_spec(table_prefix, attrs.drop_last()), attrs.last())
    }
}

proof fn lemma_cfg_items_keep_prefix(c: StructCfgView, ic: IndexCfgView, items: Seq<DynItemView>)
    ensures
        cfg_items(c, ic, items).0.table_prefix == c.table_prefix,
    decreases items.len(),
{
    if items.len() > 0 {
        let (c2, ic2, go) = cfg_item(c, ic, items[0], items.len() == 1);
        assert(c2.table_prefix == c.table_prefix);
        if go {
            lemma_cfg_items_keep_prefix(c2, ic2, items.drop_first());
        }
    }
}

/// Without attributes the entity lives in table `main` under the build's
/// prefix, keyed by `pk` and `sk`, with `std::result::Result` and
/// `crate::Error`; the attributes never change the prefix; a lone
/// `table = "t"`, `pk_name = "p"` or `sk_name = "s"` item sets just that.
pub proof fn law_struct_cfg_defaults_and_overrides(prefix: Seq<char>, attrs: Seq<Seq<DynItemView>>, v: Seq<char>)
    ensures
        struct_cfg_spec(prefix, Seq::empty()).table == "main"@,
        struct_cfg_spec(prefix, Seq::empty()).pk_name == "pk"@,
        struct_cfg_spec(prefix, Seq::empty()).sk_name == Some("sk"@),
        struct_cfg_spec(prefix, Seq::empty()).result_ty == "std::result::Result"@,
        struct_cfg_spec(prefix, Seq::empty()).error_ctor == "crate::Error"@,
        struct_cfg_spec(prefix, Seq::empty()).indice.len() == 0,
        struct_cfg_spec(prefix, attrs).table_prefix == prefix,
        struct_cfg_spec(prefix, seq![seq![DynItemView { key: Some("table"@), value: DynValueView::Str(v) }]]).table == v,
        struct_cfg_spec(prefix, seq![seq![DynItemView { key: Some("pk_name"@), value: DynValueView::Str(v) }]]).pk_name == v,
        !is_none_word(v) ==> struct_cfg_spec(prefix, seq![seq![DynItemView { key: Some("sk_name"@), value: DynValueView::Str(v) }]]).sk_name
            == Some(v),
    decreases attrs.len(),
{
    reveal_strlit("table");
    reveal_strlit("result");
    reveal_strlit("error_ctor");
    reveal_strlit("pk_name");
    reveal_strlit("sk_name");
    let e = Seq::<Seq<DynItemView>>::empty();
    let one = |k: Seq<char>| seq![seq![DynItemView { key: Some(k), value: DynValueView::Str(v) }]];
    assert(one("table"@).drop_last() =~= e);
    assert(one("pk_name"@).drop_last() =~= e);
    assert(one("sk_name"@).drop_last() =~= e);
    let d = default_cfg(prefix);
    let ti = seq![DynItemView { key: Some("table"@), value: DynValueView::Str(v) }];
    assert(ti.drop_first() =~= Seq::<DynItemView>::empty());
    assert(cfg_items(StructCfgView { table: v, ..d }, empty_index_cfg(), ti.drop_first()).0 == StructCfgView { table: v, ..d });
    assert(cfg_items(d, empty_index_cfg(), ti).0.table == v);
    assert(one("table"@).last() == ti);
    let pi = seq![DynItemView { key: Some("pk_name"@), value: DynValueView::Str(v) }];
    assert(pi.drop_first() =~= Seq::<DynItemView>::empty());
    assert(cfg_items(StructCfgView { pk_name: v, ..d }, empty_index_cfg(), pi.drop_first()).0 == StructCfgView { pk_name: v, ..d });
    assert(one("pk_name"@).last() == pi);
    assert("pk_name"@ != "table"@) by {
        assert("pk_name"@[0] != "table"@[0]);
    }
    assert("pk_name"@ != "result"@ && "pk_name"@ != "error_ctor"@) by {
        assert("pk_name"@[0] != "result"@[0] && "pk_name"@[0] != "error_ctor"@[0]);
    }
    assert("sk_name"@ != "table"@ && "sk_name"@ != "result"@ && "sk_name"@ != "error_ctor"@ && "sk_name"@ != "pk_name"@) by {
        assert("sk_name"@[0] != "table"@[0] && "sk_name"@[0] != "result"@[0] && "sk_name"@[0] != "error_ctor"@[0]
            && "sk_name"@[0] != "pk_name"@[0]);
    }
    assert(cfg_items(d, empty_index_cfg(), pi).0.pk_name == v);
    let si = seq![DynItemView { key: Some("sk_name"@), value: DynValueView::Str(v) }];
    assert(si.drop_first() =~= Seq::<DynItemView>::empty());
    assert(one("sk_name"@).last() == si);
    if !is_none_word(v) {
        assert(cfg_items(StructCfgView { sk_name: Some(v), ..d }, empty_index_cfg(), si.drop_first()).0 == StructCfgView {
            sk_name: Some(v),
            ..d
        });
        assert(cfg_items(d, empty_index_cfg(), si).0.sk_name == Some(v));
    }
    if attrs.len() > 0 {
        law_struct_cfg_defaults_and_overrides(prefix, attrs.drop_last(), v);
        let prev = struct_cfg_spec(prefix, attrs.drop_last());
        lemma_cfg_items_keep_prefix(prev, empty_index_cfg(), attrs.last());
    }
}

pub open spec fn attr_lists(attrs: Seq<Vec<DynItem>>) -> Seq<Seq<DynItemView>> {
    attrs.map_values(|a: Vec<DynItem>| dyn_item_views(a@))
}

fn clone_opt(o: &Option<String>) -> (r: Option<String>)
    ensures
        opt_view(r) == opt_view(*o),
{
    match o {
        Some(s) => Some(owned(s.as_str())),
        None => None,
    }
}

fn key_is(k: &Option<String>, name: &str) -> (r: bool)
    ensures
        r == (opt_view(*k) == Some(name@)),
{
    match k {
        Some(s) => str_eq(s.as_str(), name),
        None => false,
    }
}

fn value_str(v: &DynValue) -> (r: Option<String>)
    ensures
        opt_view(r) == match v@ {
            DynValueView::Str(s) => Some(s),
            _ => None::<Seq<char>>,
        },
        r is Some <==> *v is Str,
{
    match v {
        DynValue::Str(s) => Some(owned(s.as_str())),
        _ => None,
    }
}

impl DynValue {
    pub open spec fn view(&self) -> DynValueView {
        match *self {
            DynValue::Absent => DynValueView::Absent,
            DynValue::Empty => DynValueView::Empty,
            DynValue::Str(s) => DynValueView::Str(s@),
            DynValue::Int(v) => DynValueView::Int(v),
            DynValue::Ident(s) => DynValueView::Ident(s@),
            DynValue::Other => DynValueView::Other,
        }
    }
}

fn taken(v: &DynValue) -> (r: bool)
    ensures
        r == taken_if_str(v@),
{
    match v {
        DynValue::Absent => true,
        DynValue::Empty => true,
        DynValue::Str(_) => true,
        _ => false,
    }
}

fn none_word(s: &str) -> (r: bool)
    ensures
        r == is_none_word(s@),
{
    str_eq(s, "None") || str_eq(s, "none")
}

fn apply_cfg_item(c: &mut StructCfg, ic: &mut IndexCfg, item: &DynItem, last: bool) -> (go: bool)
    ensures
        (final(c)@, final(ic)@, go) == cfg_item(old(c)@, old(ic)@, item@, last),
{
    let s = value_str(&item.value);
    let k = &item.key;
    if key_is(k, "table") {
        if let Some(t) = s {
            c.table = t;
        }
        taken(&item.value)
    } else if key_is(k, "result") {
        if let Some(t) = s {
            c.result_ty = t;
        }
        taken(&item.value)
    } else if key_is(k, "error_ctor") {
        if let Some(t) = s {
            c.error_ctor = t;
        }
        taken(&item.value)
    } else if key_is(k, "pk_name") {
        if let Some(t) = s {
            c.pk_name = t;
        }
        taken(&item.value)
    } else if key_is(k, "sk_name") {
        match &item.value {
            DynValue::Absent => true,
            DynValue::Empty => {
                c.sk_name = None;
                true
            },
            DynValue::Str(t) => {
                if last && none_word(t.as_str()) {
                    c.sk_name = None;
                    false
                } else {
                    c.sk_name = Some(owned(t.as_str()));
                    true
                }
            },
            DynValue::Ident(t) => {
                if last && none_word(t.as_str()) {
                    c.sk_name = None;
                }
                false
            },
            _ => false,
        }
    } else if key_is(k, "pk_prefix") {
        if s.is_some() {
            ic.pk_prefix = s;
        }
        taken(&item.value)
    } else if key_is(k, "sk_prefix") {
        if s.is_some() {
            ic.sk_prefix = s;
        }
        taken(&item.value)
    } else if key_is(k, "index") {
        if let Some(t) = s {
            if chars_of(ic.name.as_str()).len() == 0 {
                ic.name = cat("find_by_", t.as_str());
            }
            ic.index = t;
        }
        taken(&item.value)
    } else if key_is(k, "name") {
        if let Some(t) = s {
            ic.name = t;
        }
        taken(&item.value)
    } else if key_is(k, "enable_sk") {
        ic.enable_sk = true;
        match &item.value {
            DynValue::Absent => true,
            _ => false,
        }
    } else {
        match &item.value {
            DynValue::Absent => true,
            _ => false,
        }
    }
}

/// Reads the type's `#[dynamo(..)]` attributes (the item lists of each, in
/// order) into the table configuration; `table_prefix` is the build's
/// `DYNAMO_TABLE_PREFIX`, empty when unset.
pub fn parse_struct_cfg(table_prefix: &str, attrs: &Vec<Vec<DynItem>>) -> (r: StructCfg)
    ensures
        r@ == struct_cfg_spec(table_prefix@, attr_lists(attrs@)),
{
    let mut c = StructCfg {
        table: owned("main"),
        table_prefix: owned(table_prefix),
        result_ty: owned("std::result::Result"),
        error_ctor: owned("crate::Error"),
        pk_name: owned("pk"),
        sk_name: Some(owned("sk")),
        indice: Vec::new(),
    };
    assert(c@.indice =~= Seq::<IndexCfgView>::empty());
    let mut a: usize = 0;
    while a < attrs.len()
        invariant
            a <= attrs@.len(),
            c@ == struct_cfg_spec(table_prefix@, attr_lists(attrs@).take(a as int)),
        decreases attrs@.len() - a,
    {
        let items = &attrs[a];
        let ghost all = dyn_item_views(items@);
        let ghost c0 = c@;
        let mut ic = IndexCfg { pk_prefix: None, sk_prefix: None, index: String::new(), name: String::new(), enable_sk: false };
        assert(ic@ == empty_index_cfg());
        let mut i: usize = 0;
        assert(all.subrange(0, all.len() as int) =~= all);
        while i < items.len()
            invariant_except_break
                cfg_items(c0, empty_index_cfg(), all) == cfg_items(c@, ic@, all.subrange(i as int, all.len() as int)),
            invariant
                all == dyn_item_views(items@),
                i <= items@.len(),
            ensures
                cfg_items(c0, empty_index_cfg(), all) == (c@, ic@),
            decreases items@.len() - i,
        {
            let ghost rest = all.subrange(i as int, all.len() as int);
            assert(rest[0] == items@[i as int]@);
            assert(rest.drop_first() =~= all.subrange(i as int + 1, all.len() as int));
            let last = i + 1 == items.len();
            let go = apply_cfg_item(&mut c, &mut ic, &items[i], last);
            if !go {
                break;
            }
            i += 1;
            if i == items.len() {
                assert(all.subrange(i as int, all.len() as int).len() == 0);
            }
        }
        let ghost before = c@;
        if chars_of(ic.index.as_str()).len() > 0 {
            c.indice.push(ic);
            assert(c@.indice =~= before.indice.push(ic@));
        }
        proof {
            let t = attr_lists(attrs@).take(a as int + 1);
            assert(t.drop_last() =~= attr_lists(attrs@).take(a as int));
            assert(t.last() == all);
        }
        a += 1;
    }
    assert(attr_lists(attrs@).take(attrs@.len() as int) =~= attr_lists(attrs@));
    c
}

/// The table name: the build's prefix, `-`, the configured table.
pub fn table_name(cfg: &StructCfg) -> (r: String)
    ensures
        r@ == cfg.table_prefix@ + "-"@ + cfg.table@,
{
    let mut r = cat(cfg.table_prefix.as_str(), "-");
    push_str(&mut r, cfg.table.as_str());
    r
}

} // verus!
