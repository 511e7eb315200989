//! What `#[derive(QdrantEntity)]` decides: the collection, the field that
//! holds the point id, and the fields that become payload.
use vstd::prelude::*;
use crate::mcp_tool::opt_view;
use crate::text::{owned, str_eq, views};

verus! {

/// The value after one key of a `#[qdrant(..)]` list.
pub enum QdrantValue {
    Absent,
    Str(String),
    Other,
}

/// One item of a `#[qdrant(..)]` list.
pub struct QdrantItem {
    pub key: Option<String>,
    pub value: QdrantValue,
}

pub enum QdrantValueView {
    Absent,
    Str(Seq<char>),
    Other,
}

pub struct QdrantItemView {
    pub key: Option<Seq<char>>,
    pub value: QdrantValueView,
}

impl View for QdrantItem {
    type V = QdrantItemView;

    open spec fn view(&self) -> QdrantItemView {
        QdrantItemView {
            key: opt_view(self.key),
            value: match self.value {
                QdrantValue::Absent => QdrantValueView::Absent,
                QdrantValue::Str(s) => QdrantValueView::Str(s@),
                QdrantValue::Other => QdrantValueView::Other,
            },
        }
    }
}

pub open spec fn qdrant_lists(v: Seq<Vec<QdrantItem>>) -> Seq<Seq<QdrantItemView>> {
    v.map_values(|a: Vec<QdrantItem>| a@.map_values(|x: QdrantItem| x@))
}

/// A named field with the item lists of its `#[qdrant(..)]` attributes.
pub struct QdrantField {
    pub name: String,
    pub attrs: Vec<Vec<QdrantItem>>,
}

/// The shape of the type the derive is applied to.
pub enum QdrantData {
    Named(Vec<QdrantField>),
    NotNamed,
    NotStruct,
}

/// The items of a type-level attribute read in order: `collection_name =
/// "text"` sets the collection; a bad `collection_name` ends the attribute,
/// and so does any other key written with a value.
pub open spec fn collection_items(cur: Option<Seq<char>>, items: Seq<QdrantItemView>) -> Option<Seq<char>>
    decreases items.len(),
{
    if items.len() == 0 {
        cur
    } else if items[0].key == Some("collection_name"@) {
        match items[0].value {
            QdrantValueView::Str(s) => collection_items(Some(s), items.drop_first()),
            _ => cur,
        }
    } else if items[0].value is Absent {
        collection_items(cur, items.drop_first())
    } else {
        cur
    }
}

/// The collection set by the type's attributes, in order.
pub open spec fn collection_of(attrs: Seq<Seq<QdrantItemView>>) -> Option<Seq<char>>
    decreases attrs.len(),
{
    if attrs.len() == 0 {
        None
    } else {
        collection_items(collection_of(attrs.drop_last()), attrs.last())
    }
}

/// Whether a field attribute marks the id: reading stops after the first
/// item written with a value.
pub open spec fn id_in_items(items: Seq<QdrantItemView>) -> bool
    decreases items.len(),
{
    if items.len() == 0 {
        false
    } else if items[0].key == Some("id"@) {
        true
    } else if items[0].value is Absent {
        id_in_items(items.drop_first())
    } else {
        false
    }
}

/// Whether any of a field's attributes marks it as the id.
pub open spec fn is_id_field(attrs: Seq<Seq<QdrantItemView>>) -> bool {
    exists|i: int| 0 <= i < attrs.len() && id_in_items(#[trigger] attrs[i])
}

/// The last field marked as the id.
pub open spec fn id_field_of(fields: Seq<QdrantField>) -> Option<int>
    decreases fields.len(),
{
    if fields.len() == 0 {
        None
    } else if is_id_field(qdrant_lists(fields.last().attrs@)) {
        Some(fields.len() - 1)
    } else {
        id_field_of(fields.drop_last())
    }
}

/// Why the derive fails.
#[derive(PartialEq, Eq, Structural, Clone, Copy, Debug)]
pub enum QdrantError {
    NotAStruct,
    FieldsNotNamed,
    NoIdField,
}

/// The compile-error message of a derive error.
pub open spec fn qdrant_error_message(e: QdrantError) -> Seq<char> {
    match e {
        QdrantError::NotAStruct => "QdrantEntity can only be derived for structs"@,
        QdrantError::FieldsNotNamed => "QdrantEntity requires named fields"@,
        QdrantError::NoIdField => "QdrantEntity requires one field with #[qdrant(id)]"@,
    }
}

impl QdrantError {
    /// The compile-error message for this error.
    pub fn message(&self) -> (r: String)
        ensures
            r@ == qdrant_error_message(*self),
    {
        match self {
            QdrantError::NotAStruct => owned("QdrantEntity can only be derived for structs"),
            QdrantError::FieldsNotNamed => owned("QdrantEntity requires named fields"),
            QdrantError::NoIdField => owned("QdrantEntity requires one field with #[qdrant(id)]"),
        }
    }
}

/// The impl to emit.
pub struct QdrantPlan {
    /// `main` unless the type names one.
    pub collection_name: String,
    pub id_field: String,
    /// Every field, in order.
    pub payload_fields: Vec<String>,
}

fn collection_in(cur: Option<String>, items: &Vec<QdrantItem>) -> (r: Option<String>)
    ensures
        opt_view(r) == collection_items(opt_view(cur), items@.map_values(|x: QdrantItem| x@)),
{
    let ghost all = items@.map_values(|x: QdrantItem| x@);
    let ghost c0 = opt_view(cur);
    let mut cur = cur;
    let mut i: usize = 0;
    assert(all.subrange(0, all.len() as int) =~= all);
    while i < items.len()
        invariant_except_break
            collection_items(c0, all) == collection_items(opt_view(cur), all.subrange(i as int, all.len() as int)),
        invariant
            all == items@.map_values(|x: QdrantItem| x@),
            i <= items@.len(),
        ensures
            collection_items(c0, all) == opt_view(cur),
        decreases items@.len() - i,
    {
        let ghost rest = all.subrange(i as int, all.len() as int);
        assert(rest[0] == items@[i as int]@);
        assert(rest.drop_first() =~= all.subrange(i as int + 1, all.len() as int));
        let it = &items[i];
        let is_coll = match &it.key {
            Some(k) => str_eq(k.as_str(), "collection_name"),
            None => false,
        };
        if is_coll {
            match &it.value {
                QdrantValue::Str(s) => {
                    cur = Some(owned(s.as_str()));
                },
                _ => {
                    break;
                },
            }
        } else {
            match &it.value {
                QdrantValue::Absent => {},
                _ => {
                    break;
                },
            }
        }
        i += 1;
        if i == items.len() {
            assert(all.subrange(i as int, all.len() as int).len() == 0);
        }
    }
    cur
}

fn id_in(items: &Vec<QdrantItem>) -> (r: bool)
    ensures
        r == id_in_items(items@.map_values(|x: QdrantItem| x@)),
{
    let ghost all = items@.map_values(|x: QdrantItem| x@);
    let mut i: usize = 0;
    assert(all.subrange(0, all.len() as int) =~= all);
    while i < items.len()
        invariant
            all == items@.map_values(|x: QdrantItem| x@),
            i <= items@.len(),
            id_in_items(all) == id_in_items(all.subrange(i as int, all.len() as int)),
        decreases items@.len() - i,
    {
        let ghost rest = all.subrange(i as int, all.len() as int);
        assert(rest[0] == items@[i as int]@);
        assert(rest.drop_first() =~= all.subrange(i as int + 1, all.len() as int));
        let it = &items[i];
        let is_id = match &it.key {
            Some(k) => str_eq(k.as_str(), "id"),
            None => false,
        };
        if is_id {
            return true;
        }
        match &it.value {
            QdrantValue::Absent => {},
            _ => {
                return false;
            },
        }
        i += 1;
    }
    false
}

fn field_is_id(f: &QdrantField) -> (r: bool)
    ensures
        r == is_id_field(qdrant_lists(f.attrs@)),
{
    let ghost lists = qdrant_lists(f.attrs@);
    let mut i: usize = 0;
    while i < f.attrs.len()
        invariant
            lists == qdrant_lists(f.attrs@),
            i <= f.attrs@.len(),
            forall|t: int| 0 <= t < i ==> !id_in_items(#[trigger] lists[t]),
        decreases f.attrs@.len() - i,
    {
        assert(lists[i as int] == f.attrs@[i as int]@.map_values(|x: QdrantItem| x@));
        if id_in(&f.attrs[i]) {
            return true;
        }
        i += 1;
    }
    false
}

/// Plans the `QdrantEntity` impl of a type from its attributes and shape.
pub fn plan_qdrant_entity(attrs: &Vec<Vec<QdrantItem>>, data: &QdrantData) -> (r: Result<QdrantPlan, QdrantError>)
    ensures
        match (r, data) {
            (Ok(p), QdrantData::Named(fs)) => {
                &&& p.collection_name@ == match collection_of(qdrant_lists(attrs@)) {
                    Some(c) => c,
                    None => "main"@,
                }
                &&& id_field_of(fs@) matches Some(i) && p.id_field@ == fs@[i].name@
                &&& views(p.payload_fields@) == fs@.map_values(|f: QdrantField| f.name@)
            },
            (Err(QdrantError::NoIdField), QdrantData::Named(fs)) => id_field_of(fs@) is None,
            (Err(QdrantError::FieldsNotNamed), QdrantData::NotNamed) => true,
            (Err(QdrantError::NotAStruct), QdrantData::NotStruct) => true,
            _ => false,
        },
        r is Ok <==> (data matches QdrantData::Named(fs) && id_field_of(fs@) is Some),
{
    let ghost lists = qdrant_lists(attrs@);
    let mut coll: Option<String> = None;
    let mut a: usize = 0;
    assert(lists.take(0) =~= Seq::<Seq<QdrantItemView>>::empty());
    while a < attrs.len()
        invariant
            lists == qdrant_lists(attrs@),
            a <= attrs@.len(),
            opt_view(coll) == collection_of(lists.take(a as int)),
        decreases attrs@.len() - a,
    {
        let ghost t = lists.take(a as int + 1);
        assert(t.drop_last() =~= lists.take(a as int));
        assert(t.last() == attrs@[a as int]@.map_values(|x: QdrantItem| x@));
        coll = collection_in(coll, &attrs[a]);
        a += 1;
    }
    assert(lists.take(attrs@.len() as int) =~= lists);
    let collection_name = match coll {
        Some(c) => c,
        None => owned("main"),
    };
    let fields = match data {
        QdrantData::Named(fs) => fs,
        QdrantData::NotNamed => {
            return Err(QdrantError::FieldsNotNamed);
        },
        QdrantData::NotStruct => {
            return Err(QdrantError::NotAStruct);
        },
    };
    let mut id: Option<usize> = None;
    let mut payload: Vec<String> = Vec::new();
    let mut i: usize = 0;
    assert(fields@.take(0) =~= Seq::<QdrantField>::empty());
    while i < fields.len()
        invariant
            i <= fields@.len(),
            match id {
                Some(j) => id_field_of(fields@.take(i as int)) == Some(j as int) && j < i,
                None => id_field_of(fields@.take(i as int)) is None,
            },
            views(payload@) == fields@.take(i as int).map_values(|f: QdrantField| f.name@),
        decreases fields@.len() - i,
    {
        let ghost t = fields@.take(i as int + 1);
        assert(t.drop_last() =~= fields@.take(i as int));
        assert(t.last() == fields@[i as int]);
        if field_is_id(&fields[i]) {
            id = Some(i);
        }
        let ghost before = views(payload@);
        payload.push(owned(fields[i].name.as_str()));
        assert(views(payload@) =~= before.push(fields@[i as int].name@));
        assert(t.map_values(|f: QdrantField| f.name@) =~= fields@.take(i as int).map_values(|f: QdrantField| f.name@).push(fields@[i as int].name@));
        i += 1;
    }
    assert(fields@.take(fields@.len() as int) =~= fields@);
    match id {
        Some(j) => Ok(QdrantPlan { collection_name, id_field: owned(fields[j].name.as_str()), payload_fields: payload }),
        None => Err(QdrantError::NoIdField),
    }
}

} // verus!
