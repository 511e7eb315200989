//! The fields of a `DynamoEntity` struct: which are the table keys, which
//! feed secondary indexes, the index query names, and each index's key
//! fields in their declared order.
use vstd::prelude::*;
use crate::case::{case_converted, to_case, CaseKind};
use crate::dynamo::{DynItem, DynItemView, DynValue, DynValueView, StructCfg, dyn_item_views, taken_if_str};
use crate::mcp_tool::opt_view;
use crate::rust_type::RustType;
use crate::text::{cat, owned, str_eq};

verus! {

/// What one field-level `#[dynamo(..)]` attribute declares.
pub struct FieldAttrView {
    pub fn_name: Option<Seq<char>>,
    pub idx_name: Option<Seq<char>>,
    pub pk: bool,
    pub sk: bool,
    pub prefix: Option<Seq<char>>,
    pub order: Option<i32>,
}

pub open spec fn empty_field_attr() -> FieldAttrView {
    FieldAttrView { fn_name: None, idx_name: None, pk: false, sk: false, prefix: None, order: None }
}

/// One field-level item applied; the flag says whether reading goes on.
pub open spec fn field_item(a: FieldAttrView, item: DynItemView) -> (FieldAttrView, bool) {
    let k = item.key;
    let v = item.value;
    let s = match v {
        DynValueView::Str(s) => Some(s),
        _ => None,
    };
    if k == Some("pk"@) {
        (FieldAttrView { pk: true, ..a }, v is Absent)
    } else if k == Some("sk"@) {
        (FieldAttrView { sk: true, ..a }, v is Absent)
    } else if k == Some("index"@) {
        (if s is Some { FieldAttrView { idx_name: s, ..a } } else { a }, taken_if_str(v))
    } else if k == Some("prefix"@) {
        (if s is Some { FieldAttrView { prefix: s, ..a } } else { a }, taken_if_str(v))
    } else if k == Some("name"@) {
        (if s is Some { FieldAttrView { fn_name: s, ..a } } else { a }, taken_if_str(v))
    } else if k == Some("order"@) {
        match v {
            DynValueView::Int(o) => (FieldAttrView { order: o, ..a }, true),
            DynValueView::Absent => (a, true),
            DynValueView::Empty => (a, true),
            _ => (a, false),
        }
    } else {
        (a, v is Absent)
    }
}

/// A field attribute's items read in order, until one is not taken whole.
pub open spec fn field_items(a: FieldAttrView, items: Seq<DynItemView>) -> FieldAttrView
    decreases items.len(),
{
    if items.len() == 0 {
        a
    } else {
        let (a2, go) = field_item(a, items[0]);
        if go {
            field_items(a2, items.drop_first())
        } else {
            a2
        }
    }
}

/// The first position of `k` among `keys`, or `keys.len()`.
pub open spec fn key_pos(keys: Seq<Seq<char>>, k: Seq<char>) -> int
    decreases keys.len(),
{
    if keys.len() == 0 {
        0
    } else {
        let p = key_pos(keys.drop_last(), k);
        if p < keys.len() - 1 {
            p
        } else if keys.last() == k {
            keys.len() - 1
        } else {
            keys.len() as int
        }
    }
}

pub proof fn lemma_key_pos(keys: Seq<Seq<char>>, k: Seq<char>)
    ensures
        0 <= key_pos(keys, k) <= keys.len(),
        key_pos(keys, k) < keys.len() ==> keys[key_pos(keys, k)] == k,
        forall|t: int| 0 <= t < key_pos(keys, k) ==> keys[t] != k,
    decreases keys.len(),
{
    if keys.len() > 0 {
        let d = keys.drop_last();
        lemma_key_pos(d, k);
        assert forall|t: int| 0 <= t < keys.len() - 1 implies d[t] == keys[t] by {}
    }
}

pub proof fn lemma_key_pos_at(keys: Seq<Seq<char>>, k: Seq<char>, i: int)
    requires
        0 <= i <= keys.len(),
        i < keys.len() ==> keys[i] == k,
        forall|t: int| 0 <= t < i ==> keys[t] != k,
    ensures
        key_pos(keys, k) == i,
{
    lemma_key_pos(keys, k);
    let p = key_pos(keys, k);
    if p < i {
        assert(keys[p] == k);
    }
    if i < p {
        assert(keys[i] != k);
    }
}

/// A key field of an index: the struct field's position and its order.
pub struct KeyField {
    pub field: usize,
    pub order: i32,
}

/// A partition or sort key of a secondary index.
pub struct IndexKey {
    pub prefix: Option<String>,
    pub fields: Vec<KeyField>,
}

pub struct IndexKeyView {
    pub prefix: Option<Seq<char>>,
    pub fields: Seq<(int, i32)>,
}

pub open spec fn key_field_views(v: Seq<KeyField>) -> Seq<(int, i32)> {
    v.map_values(|f: KeyField| (f.field as int, f.order))
}

impl View for IndexKey {
    type V = IndexKeyView;

    open spec fn view(&self) -> IndexKeyView {
        IndexKeyView { prefix: opt_view(self.prefix), fields: key_field_views(self.fields@) }
    }
}

/// A secondary index as the fields declare it.
pub struct IndexPlan {
    /// The query function's name: `query_on_<index>`, or the given `name`.
    pub name: String,
    pub base: String,
    pub pk: IndexKey,
    pub sk: Option<IndexKey>,
}

pub struct IndexPlanView {
    pub name: Seq<char>,
    pub base: Seq<char>,
    pub pk: IndexKeyView,
    pub sk: Option<IndexKeyView>,
}

impl View for IndexPlan {
    type V = IndexPlanView;

    open spec fn view(&self) -> IndexPlanView {
        IndexPlanView {
            name: self.name@,
            base: self.base@,
            pk: self.pk@,
            sk: match self.sk {
                Some(k) => Some(k@),
                None => None,
            },
        }
    }
}

pub open spec fn index_plan_views(v: Seq<IndexPlan>) -> Seq<IndexPlanView> {
    v.map_values(|p: IndexPlan| p@)
}

/// `e` placed after every field whose order is not larger: in a list kept
/// sorted by order, what a stable sort of the list with `e` appended gives.
pub open spec fn insert_by_order(s: Seq<(int, i32)>, e: (int, i32)) -> Seq<(int, i32)>
    decreases s.len(),
{
    if s.len() == 0 {
        seq![e]
    } else if s.last().1 <= e.1 {
        s.push(e)
    } else {
        insert_by_order(s.drop_last(), e).push(s.last())
    }
}

/// Key fields in order: no field's order is larger than the next one's.
pub open spec fn sorted_by_order(s: Seq<(int, i32)>) -> bool {
    forall|a: int, b: int| 0 <= a < b < s.len() ==> s[a].1 <= s[b].1
}

/// Adding a key field keeps an index key's fields sorted by order, loses
/// none and adds just the new one.
pub proof fn law_key_fields_stay_sorted(s: Seq<(int, i32)>, e: (int, i32))
    requires
        sorted_by_order(s),
    ensures
        sorted_by_order(insert_by_order(s, e)),
        insert_by_order(s, e).to_multiset() == s.to_multiset().insert(e),
    decreases s.len(),
{
    broadcast use vstd::seq_lib::group_to_multiset_ensures;
    if s.len() == 0 {
        assert(seq![e] =~= Seq::<(int, i32)>::empty().push(e));
    } else if s.last().1 <= e.1 {
    } else {
        let d = s.drop_last();
        assert(sorted_by_order(d));
        law_key_fields_stay_sorted(d, e);
        let r = insert_by_order(d, e);
        assert forall|a: int, b: int| 0 <= a < b < r.push(s.last()).len() implies r.push(s.last())[a].1 <= r.push(s.last())[b].1 by {
            if b == r.len() {
                let x = r[a];
                assert(r.to_multiset().count(x) > 0);
                assert(d.push(e).to_multiset() == d.to_multiset().insert(e));
                if x != e {
                    assert(d.to_multiset().count(x) > 0);
                    let t = choose|t: int| 0 <= t < d.len() && d[t] == x;
                    assert(d[t] == s[t]);
                }
            }
        }
        assert(s =~= d.push(s.last()));
    }
}

/// The order a key field gets: the one given, else one past the last (the
/// largest) order so far, else 0; `None` when that would overflow.
pub open spec fn next_order(given: Option<i32>, fields: Seq<(int, i32)>) -> Option<i32> {
    match given {
        Some(o) => Some(o),
        None => if fields.len() == 0 {
            Some(0i32)
        } else if fields.last().1 < i32::MAX {
            Some((fields.last().1 + 1) as i32)
        } else {
            None
        },
    }
}

/// A key with one more field, its prefix replaced when one is given.
pub open spec fn key_with(k: IndexKeyView, field: int, a: FieldAttrView) -> Option<IndexKeyView> {
    match next_order(a.order, k.fields) {
        None => None,
        Some(o) => Some(IndexKeyView {
            prefix: match a.prefix {
                Some(p) => Some(case_converted(p, CaseKind::UpperSnake)),
                None => k.prefix,
            },
            fields: insert_by_order(k.fields, (field, o)),
        }),
    }
}

/// An index updated by one field attribute that declares a key of it.
pub open spec fn index_with(ix: IndexPlanView, field: int, a: FieldAttrView) -> Option<IndexPlanView> {
    let named = IndexPlanView { name: match a.fn_name { Some(n) => n, None => ix.name }, ..ix };
    if a.pk {
        match key_with(named.pk, field, a) {
            None => None,
            Some(k) => Some(IndexPlanView { pk: k, ..named }),
        }
    } else {
        let sk0 = match named.sk {
            Some(k) => k,
            None => IndexKeyView { prefix: None, fields: Seq::empty() },
        };
        match key_with(sk0, field, a) {
            None => None,
            Some(k) => Some(IndexPlanView { sk: Some(k), ..named }),
        }
    }
}

/// A new index, before any field is added to it.
pub open spec fn fresh_index(base: Seq<char>) -> IndexPlanView {
    IndexPlanView {
        name: "query_on_"@ + base,
        base,
        pk: IndexKeyView { prefix: None, fields: Seq::empty() },
        sk: None,
    }
}

/// One index of a field: the index, the query name given with it, whether
/// the field is in its partition key (else in its sort key), and the prefix.
pub struct IndexInfo {
    pub fn_name: Option<String>,
    pub base: String,
    pub pk: bool,
    pub sk: bool,
    pub prefix: Option<String>,
}

pub struct IndexInfoView {
    pub fn_name: Option<Seq<char>>,
    pub base: Seq<char>,
    pub pk: bool,
    pub sk: bool,
    pub prefix: Option<Seq<char>>,
}

impl View for IndexInfo {
    type V = IndexInfoView;

    open spec fn view(&self) -> IndexInfoView {
        IndexInfoView { fn_name: opt_view(self.fn_name), base: self.base@, pk: self.pk, sk: self.sk, prefix: opt_view(self.prefix) }
    }
}

pub open spec fn index_info_views(v: Seq<IndexInfo>) -> Seq<IndexInfoView> {
    v.map_values(|x: IndexInfo| x@)
}

/// What has been read so far: the current field's indexes, the query names
/// given per index (a later one replaces an earlier one), and the indexes.
pub struct FieldsState {
    pub infos: Seq<IndexInfoView>,
    pub fn_map: Seq<(Seq<char>, Seq<char>)>,
    pub indexes: Seq<IndexPlanView>,
}

/// `m` with `k` mapped to `v`, in place when `k` is there already.
pub open spec fn map_put(m: Seq<(Seq<char>, Seq<char>)>, k: Seq<char>, v: Seq<char>) -> Seq<(Seq<char>, Seq<char>)> {
    let p = key_pos(pair_keys(m), k);
    if p < m.len() {
        m.update(p, (k, v))
    } else {
        m.push((k, v))
    }
}

/// The keys of a list of pairs.
pub open spec fn pair_keys(m: Seq<(Seq<char>, Seq<char>)>) -> Seq<Seq<char>> {
    m.map_values(|e: (Seq<char>, Seq<char>)| e.0)
}

pub open spec fn index_keys(v: Seq<IndexPlanView>) -> Seq<Seq<char>> {
    v.map_values(|p: IndexPlanView| p.base)
}

/// One field attribute applied; `None` where the expansion panics: a query
/// `name` without an `index`, or an order past `i32::MAX`.
pub open spec fn attr_effect(st: FieldsState, field: int, a: FieldAttrView) -> Option<FieldsState> {
    if a.fn_name is Some && a.idx_name is None {
        None
    } else {
        let fn_map = match a.fn_name {
            Some(n) => map_put(st.fn_map, a.idx_name->0, n),
            None => st.fn_map,
        };
        if a.idx_name is Some && (a.pk || a.sk) {
            let base = a.idx_name->0;
            let info = IndexInfoView { fn_name: a.fn_name, base, pk: a.pk, sk: a.sk, prefix: a.prefix };
            let p = key_pos(index_keys(st.indexes), base);
            let indexes = if p < st.indexes.len() { st.indexes } else { st.indexes.push(fresh_index(base)) };
            match index_with(indexes[p], field, a) {
                None => None,
                Some(ix) => Some(FieldsState { infos: st.infos.push(info), fn_map, indexes: indexes.update(p, ix) }),
            }
        } else {
            Some(FieldsState { fn_map, ..st })
        }
    }
}

/// A field's attributes applied in order.
pub open spec fn attrs_effect(st: FieldsState, field: int, attrs: Seq<Seq<DynItemView>>) -> Option<FieldsState>
    decreases attrs.len(),
{
    if attrs.len() == 0 {
        Some(st)
    } else {
        match attrs_effect(st, field, attrs.drop_last()) {
            None => None,
            Some(s2) => attr_effect(s2, field, field_items(empty_field_attr(), attrs.last())),
        }
    }
}

/// A struct field: its name, type, type as written, and the item lists of
/// its `#[dynamo(..)]` attributes.
pub struct FieldInput {
    pub name: String,
    pub ty: RustType,
    pub ty_text: String,
    pub attrs: Vec<Vec<DynItem>>,
}

pub open spec fn field_attr_lists(f: FieldInput) -> Seq<Seq<DynItemView>> {
    f.attrs@.map_values(|a: Vec<DynItem>| dyn_item_views(a@))
}

/// What the expansion keeps of a field.
pub struct FieldPlan {
    pub name: String,
    pub is_pk: bool,
    pub is_sk: bool,
    pub indice: Vec<IndexInfo>,
}

pub struct FieldPlanView {
    pub name: Seq<char>,
    pub is_pk: bool,
    pub is_sk: bool,
    pub indice: Seq<IndexInfoView>,
}

impl View for FieldPlan {
    type V = FieldPlanView;

    open spec fn view(&self) -> FieldPlanView {
        FieldPlanView { name: self.name@, is_pk: self.is_pk, is_sk: self.is_sk, indice: index_info_views(self.indice@) }
    }
}

pub open spec fn field_plan_views(v: Seq<FieldPlan>) -> Seq<FieldPlanView> {
    v.map_values(|f: FieldPlan| f@)
}

/// The fields, the query names per index and the indexes read from the
/// struct's fields in order; `None` where the expansion panics.
pub open spec fn fields_spec(pk_name: Seq<char>, sk_name: Option<Seq<char>>, fields: Seq<FieldInput>)
    -> Option<(Seq<FieldPlanView>, Seq<(Seq<char>, Seq<char>)>, Seq<IndexPlanView>)>
    decreases fields.len(),
{
    if fields.len() == 0 {
        Some((Seq::empty(), Seq::empty(), Seq::empty()))
    } else {
        match fields_spec(pk_name, sk_name, fields.drop_last()) {
            None => None,
            Some((fs, m, ix)) => {
                let f = fields.last();
                let st = FieldsState { infos: Seq::empty(), fn_map: m, indexes: ix };
                match attrs_effect(st, fields.len() - 1, field_attr_lists(f)) {
                    None => None,
                    Some(st2) => Some((
                        fs.push(FieldPlanView {
                            name: f.name@,
                            is_pk: f.name@ == pk_name,
                            is_sk: f.name@ == match sk_name { Some(s) => s, None => Seq::<char>::empty() },
                            indice: st2.infos,
                        }),
                        st2.fn_map,
                        st2.indexes,
                    )),
                }
            },
        }
    }
}

/// The struct's fields read for the expansion.
pub struct FieldsPlan {
    pub fields: Vec<FieldPlan>,
    /// The query name given for each index, by index.
    pub index_fns: Vec<(String, String)>,
    pub indexes: Vec<IndexPlan>,
}

pub open spec fn pair_views(v: Seq<(String, String)>) -> Seq<(Seq<char>, Seq<char>)> {
    v.map_values(|p: (String, String)| (p.0@, p.1@))
}

fn key_is(k: &Option<String>, name: &str) -> (r: bool)
    ensures
        r == (opt_view(*k) == Some(name@)),
{
    match k {
        Some(s) => str_eq(s.as_str(), name),
        None => false,
    }
}

fn clone_opt(o: &Option<String>) -> (r: Option<String>)
    ensures
        opt_view(r) == opt_view(*o),
{
    match o {
        Some(s) => Some(owned(s.as_str())),
        None => None,
    }
}

/// The field attribute in exec form.
struct FieldAttr {
    fn_name: Option<String>,
    idx_name: Option<String>,
    pk: bool,
    sk: bool,
    prefix: Option<String>,
    order: Option<i32>,
}

impl FieldAttr {
    spec fn view(&self) -> FieldAttrView {
        FieldAttrView {
            fn_name: opt_view(self.fn_name),
            idx_name: opt_view(self.idx_name),
            pk: self.pk,
            sk: self.sk,
            prefix: opt_view(self.prefix),
            order: self.order,
        }
    }
}

fn read_field_attr(items: &Vec<DynItem>) -> (r: FieldAttr)
    ensures
        r.view() == field_items(empty_field_attr(), dyn_item_views(items@)),
{
    let ghost all = dyn_item_views(items@);
    let mut a = FieldAttr { fn_name: None, idx_name: None, pk: false, sk: false, prefix: None, order: None };
    let mut i: usize = 0;
    assert(all.subrange(0, all.len() as int) =~= all);
    while i < items.len()
        invariant_except_break
            field_items(empty_field_attr(), all) == field_items(a.view(), all.subrange(i as int, all.len() as int)),
        invariant
            all == dyn_item_views(items@),
            i <= items@.len(),
        ensures
            field_items(empty_field_attr(), all) == a.view(),
        decreases items@.len() - i,
    {
        let ghost rest = all.subrange(i as int, all.len() as int);
        assert(rest[0] == items@[i as int]@);
        assert(rest.drop_first() =~= all.subrange(i as int + 1, all.len() as int));
        let item = &items[i];
        let k = &item.key;
        let s = match &item.value {
            DynValue::Str(t) => Some(owned(t.as_str())),
            _ => None,
        };
        let absent = match &item.value {
            DynValue::Absent => true,
            _ => false,
        };
        let whole = match &item.value {
            DynValue::Absent => true,
            DynValue::Empty => true,
            DynValue::Str(_) => true,
            _ => false,
        };
        let go = if key_is(k, "pk") {
            a.pk = true;
            absent
        } else if key_is(k, "sk") {
            a.sk = true;
            absent
        } else if key_is(k, "index") {
            if s.is_some() {
                a.idx_name = s;
            }
            whole
        } else if key_is(k, "prefix") {
            if s.is_some() {
                a.prefix = s;
            }
            whole
        } else if key_is(k, "name") {
            if s.is_some() {
                a.fn_name = s;
            }
            whole
        } else if key_is(k, "order") {
            match &item.value {
                DynValue::Int(o) => {
                    a.order = *o;
                    true
                },
                DynValue::Absent => true,
                DynValue::Empty => true,
                _ => false,
            }
        } else {
            absent
        };
        if !go {
            break;
        }
        i += 1;
        if i == items.len() {
            assert(all.subrange(i as int, all.len() as int).len() == 0);
        }
    }
    a
}

/// The first position of `k` among the keys of `m`, or `m.len()`.
fn find_key(m: &Vec<(String, String)>, k: &str) -> (r: usize)
    ensures
        r <= m@.len(),
        r as int == key_pos(pair_keys(pair_views(m@)), k@),
{
    let ghost keys = pair_keys(pair_views(m@));
    let mut i: usize = 0;
    while i < m.len()
        invariant
            keys == pair_keys(pair_views(m@)),
            i <= m@.len(),
            forall|t: int| 0 <= t < i ==> keys[t] != k@,
        decreases m@.len() - i,
    {
        assert(keys[i as int] == m@[i as int].0@);
        if str_eq(m[i].0.as_str(), k) {
            proof {
                lemma_key_pos_at(keys, k@, i as int);
            }
            return i;
        }
        i += 1;
    }
    proof {
        lemma_key_pos_at(keys, k@, i as int);
    }
    i
}

fn find_index(v: &Vec<IndexPlan>, k: &str) -> (r: usize)
    ensures
        r <= v@.len(),
        r as int == key_pos(index_keys(index_plan_views(v@)), k@),
{
    let ghost keys = index_keys(index_plan_views(v@));
    let mut i: usize = 0;
    while i < v.len()
        invariant
            keys == index_keys(index_plan_views(v@)),
            i <= v@.len(),
            forall|t: int| 0 <= t < i ==> keys[t] != k@,
        decreases v@.len() - i,
    {
        assert(keys[i as int] == v@[i as int].base@);
        if str_eq(v[i].base.as_str(), k) {
            proof {
                lemma_key_pos_at(keys, k@, i as int);
            }
            return i;
        }
        i += 1;
    }
    proof {
        lemma_key_pos_at(keys, k@, i as int);
    }
    i
}

proof fn lemma_insert_at(s: Seq<(int, i32)>, e: (int, i32), j: int)
    requires
        0 <= j <= s.len(),
        j == 0 || s[j - 1].1 <= e.1,
        forall|t: int| j <= t < s.len() ==> s[t].1 > e.1,
    ensures
        insert_by_order(s, e) == s.take(j).push(e) + s.skip(j),
    decreases s.len(),
{
    if s.len() == 0 {
        assert(s.take(j).push(e) + s.skip(j) =~= seq![e]);
    } else if j == s.len() {
        assert(s.take(j).push(e) + s.skip(j) =~= s.push(e));
    } else {
        let d = s.drop_last();
        lemma_insert_at(d, e, j);
        assert(insert_by_order(s, e) == insert_by_order(d, e).push(s.last()));
        assert(d.take(j).push(e) + d.skip(j) + seq![s.last()] =~= s.take(j).push(e) + s.skip(j));
    }
}

fn insert_key_field(v: &mut Vec<KeyField>, f: KeyField)
    ensures
        key_field_views(final(v)@) == insert_by_order(key_field_views(old(v)@), (f.field as int, f.order)),
{
    let ghost s = key_field_views(v@);
    let ghost e = (f.field as int, f.order);
    let mut j: usize = v.len();
    while j > 0 && v[j - 1].order > f.order
        invariant
            j <= v@.len(),
            s == key_field_views(v@),
            e == (f.field as int, f.order),
            forall|t: int| j <= t < s.len() ==> s[t].1 > e.1,
        decreases j,
    {
        assert(s[j as int - 1].1 == v@[j as int - 1].order);
        j -= 1;
    }
    proof {
        lemma_insert_at(s, e, j as int);
    }
    v.insert(j, f);
    assert(key_field_views(v@) =~= s.take(j as int).push(e) + s.skip(j as int));
}

fn next_order_of(given: Option<i32>, fields: &Vec<KeyField>) -> (r: Option<i32>)
    ensures
        r == next_order(given, key_field_views(fields@)),
{
    match given {
        Some(o) => Some(o),
        None => {
            if fields.len() == 0 {
                Some(0)
            } else {
                let last = fields[fields.len() - 1].order;
                if last < i32::MAX {
                    Some(last + 1)
                } else {
                    None
                }
            }
        },
    }
}

fn clone_key_fields(v: &Vec<KeyField>) -> (r: Vec<KeyField>)
    ensures
        key_field_views(r@) == key_field_views(v@),
{
    let mut out: Vec<KeyField> = Vec::new();
    let mut i: usize = 0;
    while i < v.len()
        invariant
            i <= v@.len(),
            key_field_views(out@) == key_field_views(v@).take(i as int),
        decreases v@.len() - i,
    {
        let ghost before = key_field_views(out@);
        out.push(KeyField { field: v[i].field, order: v[i].order });
        assert(key_field_views(v@)[i as int] == (v@[i as int].field as int, v@[i as int].order));
        assert(key_field_views(out@) =~= before.push((v@[i as int].field as int, v@[i as int].order)));
        assert(key_field_views(v@).take(i as int + 1) =~= key_field_views(v@).take(i as int).push(key_field_views(v@)[i as int]));
        i += 1;
    }
    assert(key_field_views(v@).take(v@.len() as int) =~= key_field_views(v@));
    out
}

/// `k` with one more field; `None` when its order would overflow.
fn add_key_field(k: IndexKey, field: usize, a: &FieldAttr) -> (r: Option<IndexKey>)
    ensures
        match (r, key_with(k@, field as int, a.view())) {
            (Some(x), Some(y)) => x@ == y,
            (None, None) => true,
            _ => false,
        },
{
    let IndexKey { prefix, fields } = k;
    let mut fields = fields;
    match next_order_of(a.order, &fields) {
        None => None,
        Some(o) => {
            let prefix = match &a.prefix {
                Some(p) => Some(to_case(p.as_str(), CaseKind::UpperSnake)),
                None => prefix,
            };
            insert_key_field(&mut fields, KeyField { field, order: o });
            Some(IndexKey { prefix, fields })
        },
    }
}

fn update_index(ix: IndexPlan, field: usize, a: &FieldAttr) -> (r: Option<IndexPlan>)
    ensures
        match (r, index_with(ix@, field as int, a.view())) {
            (Some(x), Some(y)) => x@ == y,
            (None, None) => true,
            _ => false,
        },
{
    let IndexPlan { name, base, pk, sk } = ix;
    let name = match &a.fn_name {
        Some(n) => owned(n.as_str()),
        None => name,
    };
    if a.pk {
        match add_key_field(pk, field, a) {
            None => None,
            Some(k) => Some(IndexPlan { name, base, pk: k, sk }),
        }
    } else {
        let sk0 = match sk {
            Some(k) => k,
            None => {
                let empty: Vec<KeyField> = Vec::new();
                assert(key_field_views(empty@) =~= Seq::<(int, i32)>::empty());
                IndexKey { prefix: None, fields: empty }
            },
        };
        match add_key_field(sk0, field, a) {
            None => None,
            Some(k) => Some(IndexPlan { name, base, pk, sk: Some(k) }),
        }
    }
}

/// Every field attribute that gives a query `name` also gives an `index`
/// (the expansion panics with "`name` must be paired with `index`" otherwise).
pub open spec fn names_paired(fields: Seq<FieldInput>) -> bool {
    forall|i: int, j: int|
        0 <= i < fields.len() && 0 <= j < field_attr_lists(fields[i]).len() ==> (#[trigger] field_items(
            empty_field_attr(),
            field_attr_lists(fields[i])[j],
        )).fn_name is Some ==> field_items(empty_field_attr(), field_attr_lists(fields[i])[j]).idx_name is Some
}

/// The fields can be read: with names paired with indexes, this says that no
/// index key's next automatic order passes `i32::MAX` (the expansion's
/// `+ 1` overflows there).
pub open spec fn orders_fit(pk_name: Seq<char>, sk_name: Option<Seq<char>>, fields: Seq<FieldInput>) -> bool {
    fields_spec(pk_name, sk_name, fields) is Some
}

/// Why the fields cannot be read.
#[derive(PartialEq, Eq, Structural, Clone, Copy, Debug)]
pub enum FieldsError {
    /// A field attribute gives a query `name` without an `index`.
    NameWithoutIndex,
    /// An index key's next automatic order would pass `i32::MAX`.
    OrderOverflow,
}

/// Whether every attribute that names a query names its index.
pub fn check_names_paired(fields: &Vec<FieldInput>) -> (r: bool)
    ensures
        r == names_paired(fields@),
{
    let mut i: usize = 0;
    while i < fields.len()
        invariant
            i <= fields@.len(),
            forall|i2: int, j: int|
                0 <= i2 < i && 0 <= j < field_attr_lists(fields@[i2]).len() ==> (#[trigger] field_items(
                    empty_field_attr(),
                    field_attr_lists(fields@[i2])[j],
                )).fn_name is Some ==> field_items(empty_field_attr(), field_attr_lists(fields@[i2])[j]).idx_name is Some,
        decreases fields@.len() - i,
    {
        let f = &fields[i];
        let mut j: usize = 0;
        while j < f.attrs.len()
            invariant
                i < fields@.len(),
                *f == fields@[i as int],
                j <= f.attrs@.len(),
                forall|i2: int, j2: int|
                    0 <= i2 < i && 0 <= j2 < field_attr_lists(fields@[i2]).len() ==> (#[trigger] field_items(
                        empty_field_attr(),
                        field_attr_lists(fields@[i2])[j2],
                    )).fn_name is Some ==> field_items(empty_field_attr(), field_attr_lists(fields@[i2])[j2]).idx_name is Some,
                forall|j2: int|
                    0 <= j2 < j ==> (#[trigger] field_items(empty_field_attr(), field_attr_lists(fields@[i as int])[j2])).fn_name is Some
                        ==> field_items(empty_field_attr(), field_attr_lists(fields@[i as int])[j2]).idx_name is Some,
            decreases f.attrs@.len() - j,
        {
            let a = read_field_attr(&f.attrs[j]);
            assert(field_attr_lists(*f)[j as int] == dyn_item_views(f.attrs@[j as int]@));
            if a.fn_name.is_some() && a.idx_name.is_none() {
                return false;
            }
            j += 1;
        }
        i += 1;
    }
    true
}

/// Whether the fields can be read, and if not, why: a `name` without an
/// `index` is reported first.
pub fn check_fields(cfg: &StructCfg, fields: &Vec<FieldInput>) -> (r: Result<(), FieldsError>)
    ensures
        r == Err::<(), FieldsError>(FieldsError::NameWithoutIndex) <==> !names_paired(fields@),
        r == Err::<(), FieldsError>(FieldsError::OrderOverflow) <==> names_paired(fields@) && !orders_fit(
            cfg.pk_name@,
            opt_view(cfg.sk_name),
            fields@,
        ),
        r is Ok <==> names_paired(fields@) && orders_fit(cfg.pk_name@, opt_view(cfg.sk_name), fields@),
{
    if !check_names_paired(fields) {
        return Err(FieldsError::NameWithoutIndex);
    }
    match read_fields(cfg, fields) {
        Some(_) => Ok(()),
        None => Err(FieldsError::OrderOverflow),
    }
}

/// Reads the struct's fields: keys, indexes and query names. The expansion
/// panics where a field gives a query `name` without an `index`, or where an
/// index key's next order would pass `i32::MAX`; `check_fields` tells these
/// inputs apart, and they are left out here.
pub fn parse_fields(cfg: &StructCfg, fields: &Vec<FieldInput>) -> (r: FieldsPlan)
    requires
        names_paired(fields@),
        orders_fit(cfg.pk_name@, opt_view(cfg.sk_name), fields@),
    ensures
        fields_spec(cfg.pk_name@, opt_view(cfg.sk_name), fields@) == Some((
            field_plan_views(r.fields@),
            pair_views(r.index_fns@),
            index_plan_views(r.indexes@),
        )),
{
    match read_fields(cfg, fields) {
        Some(p) => p,
        None => {
            let empty = FieldsPlan { fields: Vec::new(), index_fns: Vec::new(), indexes: Vec::new() };
            empty
        },
    }
}

/// The fields read, or `None` where the expansion panics.
fn read_fields(cfg: &StructCfg, fields: &Vec<FieldInput>) -> (r: Option<FieldsPlan>)
    ensures
        match r {
            Some(p) => fields_spec(cfg.pk_name@, opt_view(cfg.sk_name), fields@) == Some((
                field_plan_views(p.fields@),
                pair_views(p.index_fns@),
                index_plan_views(p.indexes@),
            )),
            None => fields_spec(cfg.pk_name@, opt_view(cfg.sk_name), fields@) is None,
        },
{
    let ghost pkn = cfg.pk_name@;
    let ghost skn = opt_view(cfg.sk_name);
    let sk_text = match &cfg.sk_name {
        Some(s) => owned(s.as_str()),
        None => String::new(),
    };
    let mut out: Vec<FieldPlan> = Vec::new();
    let mut fn_map: Vec<(String, String)> = Vec::new();
    let mut indexes: Vec<IndexPlan> = Vec::new();
    let mut fi: usize = 0;
    assert(fields@.take(0) =~= Seq::<FieldInput>::empty());
    assert(field_plan_views(out@) =~= Seq::<FieldPlanView>::empty());
    assert(pair_views(fn_map@) =~= Seq::<(Seq<char>, Seq<char>)>::empty());
    assert(index_plan_views(indexes@) =~= Seq::<IndexPlanView>::empty());
    while fi < fields.len()
        invariant
            fi <= fields@.len(),
            pkn == cfg.pk_name@,
            skn == opt_view(cfg.sk_name),
            sk_text@ == match skn { Some(s) => s, None => Seq::<char>::empty() },
            fields_spec(pkn, skn, fields@.take(fi as int)) == Some((
                field_plan_views(out@),
                pair_views(fn_map@),
                index_plan_views(indexes@),
            )),
        decreases fields@.len() - fi,
    {
        let f = &fields[fi];
        let ghost tk = fields@.take(fi as int + 1);
        assert(tk.drop_last() =~= fields@.take(fi as int));
        assert(tk.last() == *f);
        let ghost lists = field_attr_lists(*f);
        let ghost st0 = FieldsState { infos: Seq::empty(), fn_map: pair_views(fn_map@), indexes: index_plan_views(indexes@) };
        let mut infos: Vec<IndexInfo> = Vec::new();
        let mut ai: usize = 0;
        assert(lists.take(0) =~= Seq::<Seq<DynItemView>>::empty());
        assert(index_info_views(infos@) =~= Seq::<IndexInfoView>::empty());
        while ai < f.attrs.len()
            invariant
                ai <= f.attrs@.len(),
                lists == field_attr_lists(*f),
                st0.infos == Seq::<IndexInfoView>::empty(),
                fi < fields@.len(),
                pkn == cfg.pk_name@,
                skn == opt_view(cfg.sk_name),
                fields_spec(pkn, skn, fields@.take(fi as int)) == Some((
                    field_plan_views(out@),
                    st0.fn_map,
                    st0.indexes,
                )),
                fields@.take(fi as int + 1).drop_last() == fields@.take(fi as int),
                fields@.take(fi as int + 1).last() == *f,
                attrs_effect(st0, fi as int, lists.take(ai as int)) == Some(FieldsState {
                    infos: index_info_views(infos@),
                    fn_map: pair_views(fn_map@),
                    indexes: index_plan_views(indexes@),
                }),
            decreases f.attrs@.len() - ai,
        {
            let ghost ta = lists.take(ai as int + 1);
            assert(ta.drop_last() =~= lists.take(ai as int));
            assert(ta.last() == dyn_item_views(f.attrs@[ai as int]@));
            let a = read_field_attr(&f.attrs[ai]);
            let ghost st = FieldsState { infos: index_info_views(infos@), fn_map: pair_views(fn_map@), indexes: index_plan_views(indexes@) };
            let ghost want = attr_effect(st, fi as int, a.view());
            assert(attrs_effect(st0, fi as int, ta) == want);
            if a.fn_name.is_some() && a.idx_name.is_none() {
                proof {
                    lemma_fields_fail(pkn, skn, fields@, st0, fi as int, lists, ai as int + 1);
                }
                return None;
            }
            match &a.fn_name {
                Some(n) => {
                    let idx = match &a.idx_name {
                        Some(x) => owned(x.as_str()),
                        None => owned(""),
                    };
                    let p = find_key(&fn_map, idx.as_str());
                    let ghost before = pair_views(fn_map@);
                    if p < fn_map.len() {
                        fn_map.set(p, (idx, owned(n.as_str())));
                    } else {
                        fn_map.push((idx, owned(n.as_str())));
                    }
                    assert(pair_views(fn_map@) =~= map_put(before, a.view().idx_name->0, n@));
                },
                None => {},
            }
            let has_idx = a.idx_name.is_some();
            if has_idx && (a.pk || a.sk) {
                let base = match &a.idx_name {
                    Some(x) => owned(x.as_str()),
                    None => owned(""),
                };
                let p = find_index(&indexes, base.as_str());
                if p == indexes.len() {
                    let empty: Vec<KeyField> = Vec::new();
                    assert(key_field_views(empty@) =~= Seq::<(int, i32)>::empty());
                    let fresh = IndexPlan {
                        name: cat("query_on_", base.as_str()),
                        base: owned(base.as_str()),
                        pk: IndexKey { prefix: None, fields: empty },
                        sk: None,
                    };
                    let ghost before = index_plan_views(indexes@);
                    indexes.push(fresh);
                    assert(index_plan_views(indexes@) =~= before.push(fresh_index(base@)));
                }
                let ghost mid = index_plan_views(indexes@);
                let old_ix = indexes.remove(p);
                let ghost removed = index_plan_views(indexes@);
                assert(removed =~= mid.remove(p as int));
                match update_index(old_ix, fi, &a) {
                    Some(ix) => {
                        let ghost ixv = ix@;
                        indexes.insert(p, ix);
                        assert(index_plan_views(indexes@) =~= mid.update(p as int, ixv));
                        let ghost before_i = index_info_views(infos@);
                        infos.push(IndexInfo {
                            fn_name: clone_opt(&a.fn_name),
                            base,
                            pk: a.pk,
                            sk: a.sk,
                            prefix: clone_opt(&a.prefix),
                        });
                        assert(index_info_views(infos@) =~= before_i.push(IndexInfoView {
                            fn_name: a.view().fn_name,
                            base: a.view().idx_name->0,
                            pk: a.pk,
                            sk: a.sk,
                            prefix: a.view().prefix,
                        }));
                    },
                    None => {
                        proof {
                            lemma_fields_fail(pkn, skn, fields@, st0, fi as int, lists, ai as int + 1);
                        }
                        return None;
                    },
                }
            }
            ai += 1;
        }
        assert(lists.take(f.attrs@.len() as int) =~= lists);
        let ghost before_o = field_plan_views(out@);
        let is_pk = str_eq(f.name.as_str(), cfg.pk_name.as_str());
        let is_sk = str_eq(f.name.as_str(), sk_text.as_str());
        let fp = FieldPlan { name: owned(f.name.as_str()), is_pk, is_sk, indice: infos };
        let ghost fpv = fp@;
        out.push(fp);
        assert(field_plan_views(out@) =~= before_o.push(fpv));
        fi += 1;
    }
    assert(fields@.take(fields@.len() as int) =~= fields@);
    Some(FieldsPlan { fields: out, index_fns: fn_map, indexes })
}

/// A field attribute the expansion panics on makes the whole reading fail.
proof fn lemma_fields_fail(
    pkn: Seq<char>,
    skn: Option<Seq<char>>,
    fields: Seq<FieldInput>,
    st0: FieldsState,
    fi: int,
    lists: Seq<Seq<DynItemView>>,
    k: int,
)
    requires
        0 <= fi < fields.len(),
        0 <= k <= lists.len(),
        lists == field_attr_lists(fields[fi]),
        fields_spec(pkn, skn, fields.take(fi)) matches Some((_, m, ix)) && st0 == (FieldsState { infos: Seq::empty(), fn_map: m, indexes: ix }),
        attrs_effect(st0, fi, lists.take(k)) is None,
    ensures
        fields_spec(pkn, skn, fields) is None,
{
    if fields_spec(pkn, skn, fields) is Some {
        lemma_fields_prefix(pkn, skn, fields, fi + 1);
        let t = fields.take(fi + 1);
        assert(t.drop_last() =~= fields.take(fi));
        assert(t.last() == fields[fi]);
        assert(attrs_effect(st0, fi, lists) is Some);
        lemma_attrs_prefix(st0, fi, lists, k);
    }
}

/// The fields read are as many as the fields given.
pub proof fn lemma_fields_len(pkn: Seq<char>, skn: Option<Seq<char>>, fields: Seq<FieldInput>)
    ensures
        fields_spec(pkn, skn, fields) matches Some((fs, _, _)) ==> fs.len() == fields.len(),
    decreases fields.len(),
{
    if fields.len() > 0 {
        lemma_fields_len(pkn, skn, fields.drop_last());
    }
}

proof fn lemma_fields_prefix(pkn: Seq<char>, skn: Option<Seq<char>>, fields: Seq<FieldInput>, k: int)
    requires
        0 <= k <= fields.len(),
        fields_spec(pkn, skn, fields) is Some,
    ensures
        fields_spec(pkn, skn, fields.take(k)) is Some,
    decreases fields.len() - k,
{
    if k < fields.len() {
        lemma_fields_prefix(pkn, skn, fields, k + 1);
        assert(fields.take(k + 1).drop_last() =~= fields.take(k));
    } else {
        assert(fields.take(k) =~= fields);
    }
}

proof fn lemma_attrs_prefix(st: FieldsState, field: int, attrs: Seq<Seq<DynItemView>>, k: int)
    requires
        0 <= k <= attrs.len(),
        attrs_effect(st, field, attrs) is Some,
    ensures
        attrs_effect(st, field, attrs.take(k)) is Some,
    decreases attrs.len() - k,
{
    if k < attrs.len() {
        lemma_attrs_prefix(st, field, attrs, k + 1);
        assert(attrs.take(k + 1).drop_last() =~= attrs.take(k));
    } else {
        assert(attrs.take(k) =~= attrs);
    }
}

} // verus!
