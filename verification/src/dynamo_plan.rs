//! The items `#[derive(DynamoEntity)]` generates, as names and expressions:
//! key composers, the updater's setters and update expressions, the index
//! query functions, the key conditions, and the enum index queries.
use vstd::prelude::*;
use crate::case::{case_converted, to_case, CaseKind};
use crate::dynamo::{DynItem, IndexCfgView, StructCfg, StructCfgView, attr_lists, parse_struct_cfg, struct_cfg_spec, table_name};
use crate::dynamo_fields::{
    FieldInput, FieldPlan, FieldPlanView, FieldsPlan, IndexInfo, IndexInfoView, field_plan_views, fields_spec,
    index_info_views, key_pos, pair_keys, pair_views, parse_fields, check_fields, names_paired, FieldsError,
};
use crate::mcp_tool::{is_option_rtype, is_option_type, opt_view};
use crate::rust_type::{RType, RustType};
use crate::text::{cat, owned, push_str, starts_with, str_eq, str_starts_with, views};

verus! {

/// `pk` or `sk`.
pub open spec fn key_word(pk: bool) -> Seq<char> {
    if pk { "pk"@ } else { "sk"@ }
}

fn key_word_of(pk: bool) -> (r: &'static str)
    ensures
        r@ == key_word(pk),
{
    if pk { "pk" } else { "sk" }
}

/// Every field's indexes, in field order.
pub open spec fn all_infos(fields: Seq<FieldPlanView>) -> Seq<IndexInfoView>
    decreases fields.len(),
{
    if fields.len() == 0 {
        Seq::empty()
    } else {
        all_infos(fields.drop_last()) + fields.last().indice
    }
}

/// A key composer: `compose_<index>_<pk|sk>`, prefixing keys with
/// `<PREFIX>#` when the index key has a prefix.
pub struct Composer {
    pub name: String,
    pub prefix: Option<String>,
}

pub struct ComposerView {
    pub name: Seq<char>,
    pub prefix: Option<Seq<char>>,
}

impl View for Composer {
    type V = ComposerView;

    open spec fn view(&self) -> ComposerView {
        ComposerView { name: self.name@, prefix: opt_view(self.prefix) }
    }
}

pub open spec fn composer_views(v: Seq<Composer>) -> Seq<ComposerView> {
    v.map_values(|c: Composer| c@)
}

pub open spec fn composer_name(base: Seq<char>, pk: bool) -> Seq<char> {
    "compose_"@ + base + "_"@ + key_word(pk)
}

/// The composers, one per name, the first index info of each name deciding.
pub open spec fn key_composers(infos: Seq<IndexInfoView>) -> Seq<ComposerView>
    decreases infos.len(),
{
    if infos.len() == 0 {
        Seq::empty()
    } else {
        let prev = key_composers(infos.drop_last());
        let n = composer_name(infos.last().base, infos.last().pk);
        if prev.map_values(|c: ComposerView| c.name).contains(n) {
            prev
        } else {
            prev.push(ComposerView { name: n, prefix: infos.last().prefix })
        }
    }
}

fn clone_opt(o: &Option<String>) -> (r: Option<String>)
    ensures
        opt_view(r) == opt_view(*o),
{
    match o {
        Some(s) => Some(owned(s.as_str())),
        None => None,
    }
}

fn has_composer(v: &Vec<Composer>, n: &str) -> (r: bool)
    ensures
        r == composer_views(v@).map_values(|c: ComposerView| c.name).contains(n@),
{
    let ghost names = composer_views(v@).map_values(|c: ComposerView| c.name);
    let mut i: usize = 0;
    while i < v.len()
        invariant
            names == composer_views(v@).map_values(|c: ComposerView| c.name),
            i <= v@.len(),
            forall|t: int| 0 <= t < i ==> names[t] != n@,
        decreases v@.len() - i,
    {
        assert(names[i as int] == v@[i as int].name@);
        if str_eq(v[i].name.as_str(), n) {
            return true;
        }
        i += 1;
    }
    false
}

/// The key composers of the struct's indexed fields.
pub fn generate_key_composers(fields: &Vec<FieldPlan>) -> (r: Vec<Composer>)
    ensures
        composer_views(r@) == key_composers(all_infos(field_plan_views(fields@))),
{
    let ghost fv = field_plan_views(fields@);
    let mut out: Vec<Composer> = Vec::new();
    let mut fi: usize = 0;
    assert(fv.take(0) =~= Seq::<FieldPlanView>::empty());
    assert(composer_views(out@) =~= Seq::<ComposerView>::empty());
    while fi < fields.len()
        invariant
            fv == field_plan_views(fields@),
            fi <= fields@.len(),
            composer_views(out@) == key_composers(all_infos(fv.take(fi as int))),
        decreases fields@.len() - fi,
    {
        let f = &fields[fi];
        let ghost base_infos = all_infos(fv.take(fi as int));
        let ghost iv = index_info_views(f.indice@);
        let mut j: usize = 0;
        assert(base_infos + iv.take(0) =~= base_infos);
        while j < f.indice.len()
            invariant
                iv == index_info_views(f.indice@),
                j <= f.indice@.len(),
                composer_views(out@) == key_composers(base_infos + iv.take(j as int)),
            decreases f.indice@.len() - j,
        {
            let info = &f.indice[j];
            let ghost flat = base_infos + iv.take(j as int + 1);
            assert(flat.drop_last() =~= base_infos + iv.take(j as int));
            assert(flat.last() == info@);
            let mut name = cat("compose_", info.base.as_str());
            push_str(&mut name, "_");
            push_str(&mut name, key_word_of(info.pk));
            if !has_composer(&out, name.as_str()) {
                let c = Composer { name, prefix: clone_opt(&info.prefix) };
                let ghost before = composer_views(out@);
                let ghost cv = c@;
                out.push(c);
                assert(composer_views(out@) =~= before.push(cv));
            }
            j += 1;
        }
        proof {
            let t = fv.take(fi as int + 1);
            assert(t.drop_last() =~= fv.take(fi as int));
            assert(t.last() == f@);
            assert(iv.take(f.indice@.len() as int) =~= iv);
        }
        fi += 1;
    }
    assert(fv.take(fields@.len() as int) =~= fv);
    out
}

/// A type that `is_number_type` accepts, by its tokens.
pub open spec fn is_number_text(t: Seq<char>) -> bool {
    t == "i8"@ || t == "i16"@ || t == "i32"@ || t == "i64"@ || t == "i128"@ || t == "u8"@ || t == "u16"@
        || t == "u32"@ || t == "u64"@ || t == "u128"@ || t == "f32"@ || t == "f64"@
}

/// Whether a field's type, written as tokens, is one of Rust's numeric primitives.
pub fn is_number_type(ty_text: &str) -> (r: bool)
    ensures
        r == is_number_text(ty_text@),
{
    str_eq(ty_text, "i8") || str_eq(ty_text, "i16") || str_eq(ty_text, "i32") || str_eq(ty_text, "i64")
        || str_eq(ty_text, "i128") || str_eq(ty_text, "u8") || str_eq(ty_text, "u16") || str_eq(ty_text, "u32")
        || str_eq(ty_text, "u64") || str_eq(ty_text, "u128") || str_eq(ty_text, "f32") || str_eq(ty_text, "f64")
}

/// The GSI attribute an index info of a field keeps up to date.
pub struct GsiKey {
    /// The method that computes the attribute: `get_<pk|sk>_for_<index>`.
    pub getter: String,
    /// The attribute: `<index>_<pk|sk>`.
    pub key: String,
    /// `#<key> = :<key>`.
    pub set_expr: String,
}

pub struct GsiKeyView {
    pub getter: Seq<char>,
    pub key: Seq<char>,
    pub set_expr: Seq<char>,
}

impl View for GsiKey {
    type V = GsiKeyView;

    open spec fn view(&self) -> GsiKeyView {
        GsiKeyView { getter: self.getter@, key: self.key@, set_expr: self.set_expr@ }
    }
}

pub open spec fn gsi_key_spec(i: IndexInfoView) -> GsiKeyView {
    let key = i.base + "_"@ + key_word(i.pk);
    GsiKeyView {
        getter: "get_"@ + key_word(i.pk) + "_for_"@ + i.base,
        key,
        set_expr: "#"@ + key + " = :"@ + key,
    }
}

/// The updater methods of one non-key field.
pub struct UpdaterField {
    pub field: usize,
    /// `with_<snake name>`.
    pub setter: String,
    /// `remove_<snake name>`.
    pub remover: String,
    /// For numeric fields, `increase_<snake name>` and `decrease_<snake name>`.
    pub counters: Option<(String, String)>,
    /// Whether the setter wraps the value in `Some`.
    pub optional: bool,
    /// `#<name> = :<name>`.
    pub set_expr: String,
    /// `#<name>`.
    pub remove_expr: String,
    /// `#<name> = if_not_exists(#<name>, :z) + :<name>`.
    pub add_expr: String,
    pub gsi: Vec<GsiKey>,
}

pub struct UpdaterFieldView {
    pub field: int,
    pub setter: Seq<char>,
    pub remover: Seq<char>,
    pub counters: Option<(Seq<char>, Seq<char>)>,
    pub optional: bool,
    pub set_expr: Seq<char>,
    pub remove_expr: Seq<char>,
    pub add_expr: Seq<char>,
    pub gsi: Seq<GsiKeyView>,
}

impl View for UpdaterField {
    type V = UpdaterFieldView;

    open spec fn view(&self) -> UpdaterFieldView {
        UpdaterFieldView {
            field: self.field as int,
            setter: self.setter@,
            remover: self.remover@,
            counters: match self.counters {
                Some((a, b)) => Some((a@, b@)),
                None => None,
            },
            optional: self.optional,
            set_expr: self.set_expr@,
            remove_expr: self.remove_expr@,
            add_expr: self.add_expr@,
            gsi: self.gsi@.map_values(|g: GsiKey| g@),
        }
    }
}

pub open spec fn updater_field_views(v: Seq<UpdaterField>) -> Seq<UpdaterFieldView> {
    v.map_values(|u: UpdaterField| u@)
}

/// The updater methods planned for field `i`.
pub open spec fn updater_field_spec(i: int, f: FieldPlanView, input: FieldInput) -> UpdaterFieldView {
    let n = f.name;
    let snake = case_converted(n, CaseKind::Snake);
    UpdaterFieldView {
        field: i,
        setter: "with_"@ + snake,
        remover: "remove_"@ + snake,
        counters: if is_number_text(input.ty_text@) {
            Some(("increase_"@ + snake, "decrease_"@ + snake))
        } else {
            None
        },
        optional: is_option_rtype(input.ty@),
        set_expr: "#"@ + n + " = :"@ + n,
        remove_expr: "#"@ + n,
        add_expr: "#"@ + n + " = if_not_exists(#"@ + n + ", :z) + :"@ + n,
        gsi: f.indice.map_values(|x: IndexInfoView| gsi_key_spec(x)),
    }
}

/// The updater's fields: every field but the table keys, in order.
pub open spec fn updater_fields(fs: Seq<FieldPlanView>, inputs: Seq<FieldInput>) -> Seq<UpdaterFieldView>
    decreases fs.len(),
{
    if fs.len() == 0 {
        Seq::empty()
    } else {
        let prev = updater_fields(fs.drop_last(), inputs);
        let f = fs.last();
        if f.is_pk || f.is_sk {
            prev
        } else {
            prev.push(updater_field_spec(fs.len() - 1, f, inputs[fs.len() - 1]))
        }
    }
}

fn gsi_key(info: &IndexInfo) -> (r: GsiKey)
    ensures
        r@ == gsi_key_spec(info@),
{
    let mut key = cat(info.base.as_str(), "_");
    push_str(&mut key, key_word_of(info.pk));
    let mut getter = cat("get_", key_word_of(info.pk));
    push_str(&mut getter, "_for_");
    push_str(&mut getter, info.base.as_str());
    let mut set_expr = cat("#", key.as_str());
    push_str(&mut set_expr, " = :");
    push_str(&mut set_expr, key.as_str());
    GsiKey { getter, key, set_expr }
}

fn updater_field(i: usize, f: &FieldPlan, input: &FieldInput) -> (r: UpdaterField)
    ensures
        r@ == updater_field_spec(i as int, f@, *input),
{
    let n = f.name.as_str();
    let snake = to_case(n, CaseKind::Snake);
    let counters = if is_number_type(input.ty_text.as_str()) {
        Some((cat("increase_", snake.as_str()), cat("decrease_", snake.as_str())))
    } else {
        None
    };
    let mut set_expr = cat("#", n);
    push_str(&mut set_expr, " = :");
    push_str(&mut set_expr, n);
    let mut add_expr = cat("#", n);
    push_str(&mut add_expr, " = if_not_exists(#");
    push_str(&mut add_expr, n);
    push_str(&mut add_expr, ", :z) + :");
    push_str(&mut add_expr, n);
    let mut gsi: Vec<GsiKey> = Vec::new();
    let mut j: usize = 0;
    while j < f.indice.len()
        invariant
            j <= f.indice@.len(),
            gsi@.map_values(|g: GsiKey| g@) == index_info_views(f.indice@).take(j as int).map_values(|x: IndexInfoView| gsi_key_spec(x)),
        decreases f.indice@.len() - j,
    {
        let g = gsi_key(&f.indice[j]);
        let ghost before = gsi@.map_values(|g: GsiKey| g@);
        let ghost gv = g@;
        gsi.push(g);
        proof {
            assert(gsi@.map_values(|g: GsiKey| g@) =~= before.push(gv));
            let iv = index_info_views(f.indice@);
            assert(iv.take(j as int + 1) =~= iv.take(j as int).push(iv[j as int]));
            assert(iv.take(j as int + 1).map_values(|x: IndexInfoView| gsi_key_spec(x))
                =~= iv.take(j as int).map_values(|x: IndexInfoView| gsi_key_spec(x)).push(gsi_key_spec(iv[j as int])));
        }
        j += 1;
    }
    assert(index_info_views(f.indice@).take(f.indice@.len() as int) =~= index_info_views(f.indice@));
    UpdaterField {
        field: i,
        setter: cat("with_", snake.as_str()),
        remover: cat("remove_", snake.as_str()),
        counters,
        optional: is_option_type(&input.ty),
        set_expr,
        remove_expr: cat("#", n),
        add_expr,
        gsi,
    }
}

/// The updater's methods, for the fields that are not table keys.
pub fn generate_updater_fields(fields: &Vec<FieldPlan>, inputs: &Vec<FieldInput>) -> (r: Vec<UpdaterField>)
    requires
        fields@.len() == inputs@.len(),
    ensures
        updater_field_views(r@) == updater_fields(field_plan_views(fields@), inputs@),
{
    let ghost fv = field_plan_views(fields@);
    let mut out: Vec<UpdaterField> = Vec::new();
    let mut i: usize = 0;
    assert(updater_field_views(out@) =~= Seq::<UpdaterFieldView>::empty());
    assert(fv.take(0) =~= Seq::<FieldPlanView>::empty());
    while i < fields.len()
        invariant
            fv == field_plan_views(fields@),
            fields@.len() == inputs@.len(),
            i <= fields@.len(),
            updater_field_views(out@) == updater_fields(fv.take(i as int), inputs@),
        decreases fields@.len() - i,
    {
        let f = &fields[i];
        let ghost t = fv.take(i as int + 1);
        assert(t.drop_last() =~= fv.take(i as int));
        assert(t.last() == f@);
        if !f.is_pk && !f.is_sk {
            let u = updater_field(i, f, &inputs[i]);
            let ghost before = updater_field_views(out@);
            let ghost uv = u@;
            out.push(u);
            assert(updater_field_views(out@) =~= before.push(uv));
        }
        i += 1;
    }
    assert(fv.take(fields@.len() as int) =~= fv);
    out
}

/// The condition of a create: neither key exists yet.
pub open spec fn create_condition_spec(pk: Seq<char>, sk: Option<Seq<char>>) -> Seq<char> {
    match sk {
        Some(s) => "attribute_not_exists("@ + pk + ") AND attribute_not_exists("@ + s + ")"@,
        None => "attribute_not_exists("@ + pk + ")"@,
    }
}

/// The condition of an update or delete: the keys exist.
pub open spec fn update_condition_spec(pk: Seq<char>, sk: Option<Seq<char>>) -> Seq<char> {
    match sk {
        Some(s) => "attribute_exists("@ + pk + ") AND attribute_exists("@ + s + ")"@,
        None => "attribute_exists("@ + pk + ")"@,
    }
}

/// The condition expression of `create`.
pub fn create_condition(cfg: &StructCfg) -> (r: String)
    ensures
        r@ == create_condition_spec(cfg.pk_name@, opt_view(cfg.sk_name)),
{
    let mut r = cat("attribute_not_exists(", cfg.pk_name.as_str());
    match &cfg.sk_name {
        Some(s) => {
            push_str(&mut r, ") AND attribute_not_exists(");
            push_str(&mut r, s.as_str());
            push_str(&mut r, ")");
        },
        None => {
            push_str(&mut r, ")");
        },
    }
    r
}

/// The condition expression of updates and deletes.
pub fn update_condition(cfg: &StructCfg) -> (r: String)
    ensures
        r@ == update_condition_spec(cfg.pk_name@, opt_view(cfg.sk_name)),
{
    let mut r = cat("attribute_exists(", cfg.pk_name.as_str());
    match &cfg.sk_name {
        Some(s) => {
            push_str(&mut r, ") AND attribute_exists(");
            push_str(&mut r, s.as_str());
            push_str(&mut r, ")");
        },
        None => {
            push_str(&mut r, ")");
        },
    }
    r
}

/// The update expression an updater sends: `SET <sets> <removes>`, where
/// `<removes>` is `REMOVE <removes>` or empty; without sets, just the
/// removes part.
pub open spec fn update_expression_spec(sets: Seq<Seq<char>>, removes: Seq<Seq<char>>) -> Seq<char> {
    let rm = if removes.len() == 0 { Seq::<char>::empty() } else { "REMOVE "@ + join_comma(removes) };
    if sets.len() == 0 {
        rm
    } else {
        "SET "@ + join_comma(sets) + " "@ + rm
    }
}

/// The parts joined with `, `.
pub open spec fn join_comma(parts: Seq<Seq<char>>) -> Seq<char>
    decreases parts.len(),
{
    if parts.len() == 0 {
        Seq::empty()
    } else if parts.len() == 1 {
        parts[0]
    } else {
        join_comma(parts.drop_last()) + ", "@ + parts.last()
    }
}

fn join_with_comma(parts: &Vec<String>) -> (r: String)
    ensures
        r@ == join_comma(views(parts@)),
{
    let mut r = String::new();
    let mut i: usize = 0;
    while i < parts.len()
        invariant
            i <= parts@.len(),
            r@ == join_comma(views(parts@).take(i as int)),
        decreases parts@.len() - i,
    {
        let ghost t = views(parts@).take(i as int + 1);
        assert(t.drop_last() =~= views(parts@).take(i as int));
        if i > 0 {
            push_str(&mut r, ", ");
        } else {
            assert(r@ =~= Seq::<char>::empty());
            assert(Seq::<char>::empty() + parts@[0]@ =~= parts@[0]@);
        }
        push_str(&mut r, parts[i].as_str());
        i += 1;
    }
    assert(views(parts@).take(parts@.len() as int) =~= views(parts@));
    r
}

/// The update expression of an updater's write, from its `SET` and
/// `REMOVE` clauses in the order they were added.
pub fn update_expression(sets: &Vec<String>, removes: &Vec<String>) -> (r: String)
    ensures
        r@ == update_expression_spec(views(sets@), views(removes@)),
{
    let mut rm = String::new();
    if removes.len() > 0 {
        rm = cat("REMOVE ", join_with_comma(removes).as_str());
    }
    if sets.len() == 0 {
        rm
    } else {
        let mut r = cat("SET ", join_with_comma(sets).as_str());
        push_str(&mut r, " ");
        push_str(&mut r, rm.as_str());
        r
    }
}

/// The indexes the fields name, in order of first appearance.
pub open spec fn index_bases(infos: Seq<IndexInfoView>) -> Seq<Seq<char>>
    decreases infos.len(),
{
    if infos.len() == 0 {
        Seq::empty()
    } else {
        let prev = index_bases(infos.drop_last());
        if prev.contains(infos.last().base) {
            prev
        } else {
            prev.push(infos.last().base)
        }
    }
}

/// A query function over a secondary index.
pub struct IndexFn {
    /// The function's name, given with the index.
    pub fn_name: String,
    pub base: String,
    /// `<index>-index`.
    pub index_name: String,
    /// `<index>_pk` and `<index>_sk`.
    pub pk_var: String,
    pub sk_var: String,
    /// `compose_<index>_pk` and `compose_<index>_sk`.
    pub pk_composer: String,
    pub sk_composer: String,
}

pub struct IndexFnView {
    pub fn_name: Seq<char>,
    pub base: Seq<char>,
    pub index_name: Seq<char>,
    pub pk_var: Seq<char>,
    pub sk_var: Seq<char>,
    pub pk_composer: Seq<char>,
    pub sk_composer: Seq<char>,
}

impl View for IndexFn {
    type V = IndexFnView;

    open spec fn view(&self) -> IndexFnView {
        IndexFnView {
            fn_name: self.fn_name@,
            base: self.base@,
            index_name: self.index_name@,
            pk_var: self.pk_var@,
            sk_var: self.sk_var@,
            pk_composer: self.pk_composer@,
            sk_composer: self.sk_composer@,
        }
    }
}

pub open spec fn index_fn_views(v: Seq<IndexFn>) -> Seq<IndexFnView> {
    v.map_values(|x: IndexFn| x@)
}

/// The query function over index `b`, named as the fields' `name` gives.
pub open spec fn index_fn_spec(b: Seq<char>, fn_map: Seq<(Seq<char>, Seq<char>)>) -> IndexFnView {
    IndexFnView {
        fn_name: fn_map[key_pos(pair_keys(fn_map), b)].1,
        base: b,
        index_name: b + "-index"@,
        pk_var: b + "_pk"@,
        sk_var: b + "_sk"@,
        pk_composer: "compose_"@ + b + "_pk"@,
        sk_composer: "compose_"@ + b + "_sk"@,
    }
}

/// The index query over index `b` binds its partition key to the attribute
/// `<b>_pk` and its sort key to `<b>_sk`: the very attributes the updater
/// writes for the partition and the sort key of that index.
pub proof fn law_index_query_keys(b: Seq<char>, fn_map: Seq<(Seq<char>, Seq<char>)>, info: IndexInfoView)
    requires
        info.base == b,
    ensures
        index_fn_spec(b, fn_map).pk_var == b + seq!['_', 'p', 'k'],
        index_fn_spec(b, fn_map).sk_var == b + seq!['_', 's', 'k'],
        index_fn_spec(b, fn_map).index_name == b + seq!['-', 'i', 'n', 'd', 'e', 'x'],
        info.pk ==> gsi_key_spec(info).key == index_fn_spec(b, fn_map).pk_var,
        !info.pk ==> gsi_key_spec(info).key == index_fn_spec(b, fn_map).sk_var,
{
    reveal_strlit("_pk");
    reveal_strlit("_sk");
    reveal_strlit("-index");
    reveal_strlit("_");
    reveal_strlit("pk");
    reveal_strlit("sk");
    assert(b + "_"@ + "pk"@ =~= b + "_pk"@);
    assert(b + "_"@ + "sk"@ =~= b + "_sk"@);
    assert("_pk"@ =~= seq!['_', 'p', 'k']);
    assert("_sk"@ =~= seq!['_', 's', 'k']);
    assert("-index"@ =~= seq!['-', 'i', 'n', 'd', 'e', 'x']);
}

/// In a struct plan, every index query function reads `<base>_pk` as its
/// partition key and `<base>_sk` as its sort key, from `<base>-index`.
pub proof fn law_plan_index_queries_read_index_keys(name: Seq<char>, cfg: StructCfgView, inputs: Seq<FieldInput>, p: StructPlan)
    requires
        struct_plan_ok(name, cfg, inputs, p),
    ensures
        forall|i: int|
            0 <= i < p.index_fns@.len() ==> {
                let f = #[trigger] p.index_fns@[i]@;
                &&& f.pk_var == f.base + seq!['_', 'p', 'k']
                &&& f.sk_var == f.base + seq!['_', 's', 'k']
                &&& f.index_name == f.base + seq!['-', 'i', 'n', 'd', 'e', 'x']
            },
{
    let fs = field_plan_views(p.fields.fields@);
    let m = pair_views(p.fields.index_fns@);
    assert forall|i: int| 0 <= i < p.index_fns@.len() implies {
        let f = #[trigger] p.index_fns@[i]@;
        &&& f.pk_var == f.base + seq!['_', 'p', 'k']
        &&& f.sk_var == f.base + seq!['_', 's', 'k']
        &&& f.index_name == f.base + seq!['-', 'i', 'n', 'd', 'e', 'x']
    } by {
        assert(index_fn_views(p.index_fns@)[i] == p.index_fns@[i]@);
        let bases = index_bases(all_infos(fs));
        assert(index_fn_views(p.index_fns@) == bases.map_values(|b: Seq<char>| index_fn_spec(b, m)));
        assert(bases.map_values(|b: Seq<char>| index_fn_spec(b, m)).len() == bases.len());
        assert(0 <= i < bases.len());
        let b = bases[i];
        assert(bases.map_values(|b: Seq<char>| index_fn_spec(b, m))[i] == index_fn_spec(b, m));
        assert(p.index_fns@[i]@ == index_fn_spec(b, m));
        law_index_query_keys(b, m, IndexInfoView { fn_name: None, base: b, pk: true, sk: false, prefix: None });
    }
}

/// The index query over `b` composes its keys with the composers the fields
/// of that index get: `compose_<b>_pk` for the partition key and
/// `compose_<b>_sk` for the sort key.
pub proof fn law_index_query_uses_the_index_composers(b: Seq<char>, fn_map: Seq<(Seq<char>, Seq<char>)>)
    ensures
        index_fn_spec(b, fn_map).pk_composer == composer_name(b, true),
        index_fn_spec(b, fn_map).sk_composer == composer_name(b, false),
        composer_name(b, true) == seq!['c', 'o', 'm', 'p', 'o', 's', 'e', '_'] + b + seq!['_', 'p', 'k'],
        composer_name(b, false) == seq!['c', 'o', 'm', 'p', 'o', 's', 'e', '_'] + b + seq!['_', 's', 'k'],
{
    reveal_strlit("compose_");
    reveal_strlit("_pk");
    reveal_strlit("_sk");
    reveal_strlit("_");
    reveal_strlit("pk");
    reveal_strlit("sk");
    assert("compose_"@ + b + "_"@ + "pk"@ =~= "compose_"@ + b + "_pk"@);
    assert("compose_"@ + b + "_"@ + "sk"@ =~= "compose_"@ + b + "_sk"@);
    assert("compose_"@ + b + "_pk"@ =~= seq!['c', 'o', 'm', 'p', 'o', 's', 'e', '_'] + b + seq!['_', 'p', 'k']);
    assert("compose_"@ + b + "_sk"@ =~= seq!['c', 'o', 'm', 'p', 'o', 's', 'e', '_'] + b + seq!['_', 's', 'k']);
}

/// A create succeeds only where no item has the keys yet, and an update or
/// delete only where one has: the conditions name the partition key, and the
/// sort key when the table has one.
pub proof fn law_write_conditions(pk: Seq<char>, sk: Option<Seq<char>>)
    ensures
        create_condition_spec(pk, sk) == match sk {
            Some(s) => "attribute_not_exists("@ + pk + ")"@ + " AND "@ + "attribute_not_exists("@ + s + ")"@,
            None => "attribute_not_exists("@ + pk + ")"@,
        },
        update_condition_spec(pk, sk) == match sk {
            Some(s) => "attribute_exists("@ + pk + ")"@ + " AND "@ + "attribute_exists("@ + s + ")"@,
            None => "attribute_exists("@ + pk + ")"@,
        },
{
    reveal_strlit("attribute_not_exists(");
    reveal_strlit(") AND attribute_not_exists(");
    reveal_strlit("attribute_exists(");
    reveal_strlit(") AND attribute_exists(");
    reveal_strlit(")");
    reveal_strlit(" AND ");
    if let Some(s) = sk {
        assert("attribute_not_exists("@ + pk + ") AND attribute_not_exists("@ + s + ")"@ =~= "attribute_not_exists("@
            + pk + ")"@ + " AND "@ + "attribute_not_exists("@ + s + ")"@);
        assert("attribute_exists("@ + pk + ") AND attribute_exists("@ + s + ")"@ =~= "attribute_exists("@ + pk
            + ")"@ + " AND "@ + "attribute_exists("@ + s + ")"@);
    }
}

/// Every index the fields use has a query `name` given somewhere; else the
/// expansion panics.
pub open spec fn indexes_named(fields: Seq<FieldPlanView>, fn_map: Seq<(Seq<char>, Seq<char>)>) -> bool {
    forall|i: int| 0 <= i < index_bases(all_infos(fields)).len()
        ==> pair_keys(fn_map).contains(#[trigger] index_bases(all_infos(fields))[i])
}

fn contains_text(v: &Vec<String>, s: &str) -> (r: bool)
    ensures
        r == views(v@).contains(s@),
{
    let mut i: usize = 0;
    while i < v.len()
        invariant
            i <= v@.len(),
            forall|k: int| 0 <= k < i ==> v@[k]@ != s@,
        decreases v@.len() - i,
    {
        if str_eq(v[i].as_str(), s) {
            assert(views(v@)[i as int] == s@);
            return true;
        }
        i += 1;
    }
    assert forall|k: int| 0 <= k < views(v@).len() implies views(v@)[k] != s@ by {
        assert(views(v@)[k] == v@[k]@);
    }
    false
}

proof fn lemma_key_pos_found(keys: Seq<Seq<char>>, k: Seq<char>)
    requires
        keys.contains(k),
    ensures
        0 <= key_pos(keys, k) < keys.len(),
        keys[key_pos(keys, k)] == k,
{
    crate::dynamo_fields::lemma_key_pos(keys, k);
    let i = choose|i: int| 0 <= i < keys.len() && keys[i] == k;
    if key_pos(keys, k) == keys.len() {
        assert(keys[i] != k);
    }
}

fn lookup_fn_name(fn_map: &Vec<(String, String)>, b: &str) -> (r: String)
    requires
        pair_keys(pair_views(fn_map@)).contains(b@),
    ensures
        r@ == pair_views(fn_map@)[key_pos(pair_keys(pair_views(fn_map@)), b@)].1,
{
    let ghost keys = pair_keys(pair_views(fn_map@));
    proof {
        lemma_key_pos_found(keys, b@);
    }
    let mut i: usize = 0;
    while i < fn_map.len()
        invariant
            keys == pair_keys(pair_views(fn_map@)),
            i <= fn_map@.len(),
            0 <= key_pos(keys, b@) < keys.len(),
            keys[key_pos(keys, b@)] == b@,
            forall|t: int| 0 <= t < i ==> keys[t] != b@,
        decreases fn_map@.len() - i,
    {
        assert(keys[i as int] == fn_map@[i as int].0@);
        if str_eq(fn_map[i].0.as_str(), b) {
            proof {
                crate::dynamo_fields::lemma_key_pos_at(keys, b@, i as int);
            }
            return owned(fn_map[i].1.as_str());
        }
        i += 1;
    }
    proof {
        let p = key_pos(keys, b@);
        assert(keys[p] != b@);
    }
    String::new()
}

/// The query functions over the secondary indexes the fields use, in order
/// of first use.
pub fn generate_index_fns(fields: &Vec<FieldPlan>, fn_map: &Vec<(String, String)>) -> (r: Option<Vec<IndexFn>>)
    ensures
        match r {
            Some(v) => indexes_named(field_plan_views(fields@), pair_views(fn_map@))
                && index_fn_views(v@) == index_bases(all_infos(field_plan_views(fields@))).map_values(
                |b: Seq<char>| index_fn_spec(b, pair_views(fn_map@))),
            None => !indexes_named(field_plan_views(fields@), pair_views(fn_map@)),
        },
{
    let ghost fv = field_plan_views(fields@);
    let ghost fm = pair_views(fn_map@);
    let mut bases: Vec<String> = Vec::new();
    let mut fi: usize = 0;
    assert(fv.take(0) =~= Seq::<FieldPlanView>::empty());
    assert(views(bases@) =~= Seq::<Seq<char>>::empty());
    while fi < fields.len()
        invariant
            fv == field_plan_views(fields@),
            fi <= fields@.len(),
            views(bases@) == index_bases(all_infos(fv.take(fi as int))),
        decreases fields@.len() - fi,
    {
        let f = &fields[fi];
        let ghost base_infos = all_infos(fv.take(fi as int));
        let ghost iv = index_info_views(f.indice@);
        let mut j: usize = 0;
        assert(base_infos + iv.take(0) =~= base_infos);
        while j < f.indice.len()
            invariant
                iv == index_info_views(f.indice@),
                j <= f.indice@.len(),
                views(bases@) == index_bases(base_infos + iv.take(j as int)),
            decreases f.indice@.len() - j,
        {
            let info = &f.indice[j];
            let ghost flat = base_infos + iv.take(j as int + 1);
            assert(flat.drop_last() =~= base_infos + iv.take(j as int));
            assert(flat.last() == info@);
            if !contains_text(&bases, info.base.as_str()) {
                let ghost before = views(bases@);
                bases.push(owned(info.base.as_str()));
                assert(views(bases@) =~= before.push(info.base@));
            }
            j += 1;
        }
        proof {
            let t = fv.take(fi as int + 1);
            assert(t.drop_last() =~= fv.take(fi as int));
            assert(t.last() == f@);
            assert(iv.take(f.indice@.len() as int) =~= iv);
        }
        fi += 1;
    }
    assert(fv.take(fields@.len() as int) =~= fv);
    let ghost all = views(bases@);
    let mut out: Vec<IndexFn> = Vec::new();
    let mut k: usize = 0;
    while k < bases.len()
        invariant
            all == views(bases@),
            all == index_bases(all_infos(fv)),
            fv == field_plan_views(fields@),
            fm == pair_views(fn_map@),
            k <= bases@.len(),
            forall|t: int| 0 <= t < k ==> pair_keys(fm).contains(#[trigger] all[t]),
            index_fn_views(out@) == all.take(k as int).map_values(|b: Seq<char>| index_fn_spec(b, fm)),
        decreases bases@.len() - k,
    {
        let b = bases[k].as_str();
        assert(all[k as int] == b@);
        if !has_key(fn_map, b) {
            assert(index_bases(all_infos(fv))[k as int] == b@);
            assert(!pair_keys(fm).contains(index_bases(all_infos(fv))[k as int]));
            return None;
        }
        let fn_name = lookup_fn_name(fn_map, b);
        let x = IndexFn {
            fn_name,
            base: owned(b),
            index_name: cat(b, "-index"),
            pk_var: cat(b, "_pk"),
            sk_var: cat(b, "_sk"),
            pk_composer: {
                let mut s = cat("compose_", b);
                push_str(&mut s, "_pk");
                s
            },
            sk_composer: {
                let mut s = cat("compose_", b);
                push_str(&mut s, "_sk");
                s
            },
        };
        let ghost before = index_fn_views(out@);
        let ghost xv = x@;
        out.push(x);
        proof {
            assert(index_fn_views(out@) =~= before.push(xv));
            assert(all.take(k as int + 1) =~= all.take(k as int).push(all[k as int]));
            assert(all.take(k as int + 1).map_values(|b: Seq<char>| index_fn_spec(b, fm))
                =~= all.take(k as int).map_values(|b: Seq<char>| index_fn_spec(b, fm)).push(index_fn_spec(all[k as int], fm)));
        }
        k += 1;
    }
    assert(all.take(bases@.len() as int) =~= all);
    assert forall|i: int| 0 <= i < index_bases(all_infos(fv)).len()
        implies pair_keys(fm).contains(#[trigger] index_bases(all_infos(fv))[i]) by {
        assert(all[i] == index_bases(all_infos(fv))[i]);
    }
    Some(out)
}

fn has_key(m: &Vec<(String, String)>, k: &str) -> (r: bool)
    ensures
        r == pair_keys(pair_views(m@)).contains(k@),
{
    let ghost keys = pair_keys(pair_views(m@));
    let mut i: usize = 0;
    while i < m.len()
        invariant
            keys == pair_keys(pair_views(m@)),
            i <= m@.len(),
            forall|t: int| 0 <= t < i ==> keys[t] != k@,
        decreases m@.len() - i,
    {
        assert(keys[i as int] == m@[i as int].0@);
        if str_eq(m[i].0.as_str(), k) {
            return true;
        }
        i += 1;
    }
    false
}

/// How an enum index query narrows by sort key.
pub enum SkFilter {
    /// No sort key argument.
    NoSk,
    /// `begins_with(#sk, :sk)` with `<prefix>#<sk>`.
    Prefixed(String),
    /// `begins_with(#sk, :sk)` with the sort key as given.
    Plain,
}

/// A query function of an enum entity over one declared index.
pub struct EnumIndexFn {
    /// The declared `name`, in snake_case.
    pub fn_name: String,
    pub index_name: String,
    pub pk_field: String,
    pub sk_field: String,
    /// The partition key is written `<prefix>#<pk>` when there is one.
    pub pk_prefix: Option<String>,
    pub sk: SkFilter,
}

pub enum SkFilterView {
    NoSk,
    Prefixed(Seq<char>),
    Plain,
}

pub struct EnumIndexFnView {
    pub fn_name: Seq<char>,
    pub index_name: Seq<char>,
    pub pk_field: Seq<char>,
    pub sk_field: Seq<char>,
    pub pk_prefix: Option<Seq<char>>,
    pub sk: SkFilterView,
}

impl View for EnumIndexFn {
    type V = EnumIndexFnView;

    open spec fn view(&self) -> EnumIndexFnView {
        EnumIndexFnView {
            fn_name: self.fn_name@,
            index_name: self.index_name@,
            pk_field: self.pk_field@,
            sk_field: self.sk_field@,
            pk_prefix: opt_view(self.pk_prefix),
            sk: match self.sk {
                SkFilter::NoSk => SkFilterView::NoSk,
                SkFilter::Prefixed(p) => SkFilterView::Prefixed(p@),
                SkFilter::Plain => SkFilterView::Plain,
            },
        }
    }
}

pub open spec fn enum_index_fn_spec(c: IndexCfgView) -> EnumIndexFnView {
    EnumIndexFnView {
        fn_name: case_converted(c.name, CaseKind::Snake),
        index_name: c.index + "-index"@,
        pk_field: c.index + "_pk"@,
        sk_field: c.index + "_sk"@,
        pk_prefix: c.pk_prefix,
        sk: match c.sk_prefix {
            Some(p) => SkFilterView::Prefixed(p),
            None => if c.enable_sk { SkFilterView::Plain } else { SkFilterView::NoSk },
        },
    }
}

/// The index queries of an enum entity, one per declared index.
pub fn generate_enum_index_fns(cfg: &StructCfg) -> (r: Vec<EnumIndexFn>)
    ensures
        r@.map_values(|x: EnumIndexFn| x@) == cfg@.indice.map_values(|c: IndexCfgView| enum_index_fn_spec(c)),
{
    let ghost cv = cfg@.indice;
    let mut out: Vec<EnumIndexFn> = Vec::new();
    let mut i: usize = 0;
    while i < cfg.indice.len()
        invariant
            cv == cfg@.indice,
            i <= cfg.indice@.len(),
            out@.map_values(|x: EnumIndexFn| x@) == cv.take(i as int).map_values(|c: IndexCfgView| enum_index_fn_spec(c)),
        decreases cfg.indice@.len() - i,
    {
        let c = &cfg.indice[i];
        assert(cv[i as int] == c@);
        let sk = match &c.sk_prefix {
            Some(p) => SkFilter::Prefixed(owned(p.as_str())),
            None => if c.enable_sk { SkFilter::Plain } else { SkFilter::NoSk },
        };
        let x = EnumIndexFn {
            fn_name: to_case(c.name.as_str(), CaseKind::Snake),
            index_name: cat(c.index.as_str(), "-index"),
            pk_field: cat(c.index.as_str(), "_pk"),
            sk_field: cat(c.index.as_str(), "_sk"),
            pk_prefix: clone_opt(&c.pk_prefix),
            sk,
        };
        let ghost before = out@.map_values(|x: EnumIndexFn| x@);
        let ghost xv = x@;
        out.push(x);
        proof {
            assert(out@.map_values(|x: EnumIndexFn| x@) =~= before.push(xv));
            assert(cv.take(i as int + 1) =~= cv.take(i as int).push(cv[i as int]));
            assert(cv.take(i as int + 1).map_values(|c: IndexCfgView| enum_index_fn_spec(c))
                =~= cv.take(i as int).map_values(|c: IndexCfgView| enum_index_fn_spec(c)).push(enum_index_fn_spec(cv[i as int])));
        }
        i += 1;
    }
    assert(cv.take(cfg.indice@.len() as int) =~= cv);
    out
}

/// A builder setter: `with_<snake name>`, and whether it wraps the value in `Some`.
pub open spec fn builder_setter_spec(input: FieldInput) -> (Seq<char>, bool) {
    ("with_"@ + case_converted(input.name@, CaseKind::Snake), is_option_rtype(input.ty@))
}

/// The builder's setters, one per field, in order.
pub fn generate_builder_setters(inputs: &Vec<FieldInput>) -> (r: Vec<(String, bool)>)
    ensures
        r@.map_values(|x: (String, bool)| (x.0@, x.1)) == inputs@.map_values(|f: FieldInput| builder_setter_spec(f)),
{
    let mut out: Vec<(String, bool)> = Vec::new();
    let mut i: usize = 0;
    while i < inputs.len()
        invariant
            i <= inputs@.len(),
            out@.map_values(|x: (String, bool)| (x.0@, x.1)) == inputs@.take(i as int).map_values(|f: FieldInput| builder_setter_spec(f)),
        decreases inputs@.len() - i,
    {
        let f = &inputs[i];
        let name = cat("with_", to_case(f.name.as_str(), CaseKind::Snake).as_str());
        let opt = is_option_type(&f.ty);
        let ghost before = out@.map_values(|x: (String, bool)| (x.0@, x.1));
        out.push((name, opt));
        proof {
            assert(out@.map_values(|x: (String, bool)| (x.0@, x.1)) =~= before.push(builder_setter_spec(*f)));
            assert(inputs@.take(i as int + 1) =~= inputs@.take(i as int).push(*f));
            assert(inputs@.take(i as int + 1).map_values(|f: FieldInput| builder_setter_spec(f))
                =~= inputs@.take(i as int).map_values(|f: FieldInput| builder_setter_spec(f)).push(builder_setter_spec(*f)));
        }
        i += 1;
    }
    assert(inputs@.take(inputs@.len() as int) =~= inputs@);
    out
}

/// The type a setter takes: `A` for `Option<A>`, else the type itself.
pub open spec fn option_inner_spec(t: RType) -> RType {
    match t {
        RType::Path(id, args) => if id == "Option"@ && args.len() > 0 { args[0] } else { t },
        _ => t,
    }
}

/// The type a setter takes: `A` for `Option<A>`, else the field's type.
pub fn inner_type(ty: &RustType) -> (r: RustType)
    ensures
        r@ == option_inner_spec(ty@),
{
    match ty {
        RustType::Path { ident, args } => {
            proof {
                crate::rust_type::lemma_types_view(args@);
            }
            if str_eq(ident.as_str(), "Option") && args.len() > 0 {
                args[0].deep_clone()
            } else {
                ty.deep_clone()
            }
        },
        _ => ty.deep_clone(),
    }
}

/// The shape of the type the derive is applied to.
pub enum DynamoData {
    Struct(Vec<FieldInput>),
    Enum,
    Other,
}

/// What the derive generates for a struct.
pub struct StructPlan {
    pub fields: FieldsPlan,
    pub composers: Vec<Composer>,
    pub updater_fields: Vec<UpdaterField>,
    pub index_fns: Vec<IndexFn>,
    /// `<Pascal name>Updater`.
    pub updater_name: String,
    /// `<Pascal name>QueryOption`.
    pub query_option_name: String,
    pub create_condition: String,
    pub update_condition: String,
    /// The limits and order of the generated query option and of `get`.
    pub query_defaults: QueryDefaults,
}

/// The limits and order of the generated queries: a default query option,
/// the option of `opt_one`, the option of `opt_all` (which also asks for
/// every page), and the single item `get` reads.
#[derive(PartialEq, Eq, Structural, Clone, Copy, Debug)]
pub struct QueryDefaults {
    pub limit: i32,
    pub scan_index_forward: bool,
    pub all: bool,
    pub one_limit: i32,
    pub all_limit: i32,
    pub get_limit: i32,
}

/// Newest first, ten items, one page; `opt_one` one item; `opt_all` up to a
/// million items per page over every page; `get` one item.
pub open spec fn query_defaults_spec() -> QueryDefaults {
    QueryDefaults { limit: 10, scan_index_forward: false, all: false, one_limit: 1, all_limit: 1_000_000, get_limit: 1 }
}

/// The limits and order of the generated queries.
pub fn query_defaults() -> (r: QueryDefaults)
    ensures
        r == query_defaults_spec(),
{
    QueryDefaults { limit: 10, scan_index_forward: false, all: false, one_limit: 1, all_limit: 1_000_000, get_limit: 1 }
}

/// The key condition of `get`: an exact match on the partition key, and on
/// the sort key when one is given (never a prefix match).
pub open spec fn get_key_condition_spec(with_sk: bool) -> Seq<char> {
    if with_sk {
        "#pk = :pk AND #sk = :sk"@
    } else {
        "#pk = :pk"@
    }
}

/// The key condition `get` sends.
pub fn get_key_condition(with_sk: bool) -> (r: &'static str)
    ensures
        r@ == get_key_condition_spec(with_sk),
{
    if with_sk {
        "#pk = :pk AND #sk = :sk"
    } else {
        "#pk = :pk"
    }
}

/// The separator between a key's prefix and the key.
pub open spec fn hash_sep() -> Seq<char> {
    seq!['#']
}

/// A composed key: `key` itself when it already starts with `prefix#`,
/// otherwise `prefix#key`.
pub open spec fn compose_key_spec(prefix: Seq<char>, key: Seq<char>) -> Seq<char> {
    if starts_with(key, prefix + hash_sep()) {
        key
    } else {
        prefix + hash_sep() + key
    }
}

/// The key a generated composer gives for `key` under `prefix`.
pub fn compose_key(prefix: &str, key: &str) -> (r: String)
    ensures
        r@ == compose_key_spec(prefix@, key@),
{
    let p = cat(prefix, "#");
    proof {
        reveal_strlit("#");
        assert("#"@ =~= hash_sep());
    }
    if str_starts_with(key, p.as_str()) {
        owned(key)
    } else {
        cat(p.as_str(), key)
    }
}

/// Composing a key that is already composed changes nothing.
pub proof fn law_compose_key_idempotent(prefix: Seq<char>, key: Seq<char>)
    ensures
        compose_key_spec(prefix, compose_key_spec(prefix, key)) == compose_key_spec(prefix, key),
{
    let p = prefix + hash_sep();
    if !starts_with(key, p) {
        let c = p + key;
        assert(c.take(p.len() as int) =~= p);
    }
}

/// What the derive generates.
pub enum EntityPlan {
    Struct(StructPlan),
    Enum(Vec<EnumIndexFn>),
}

/// The derive's plan: the configuration, the table name, and what it
/// generates for the type.
pub struct DynamoPlan {
    pub cfg: StructCfg,
    pub table_name: String,
    pub entity: EntityPlan,
}

/// Why the derive fails.
#[derive(PartialEq, Eq, Structural, Clone, Copy, Debug)]
pub enum DynamoError {
    /// The type is a union.
    Unsupported,
    /// A field gives a query `name` without an `index`: the expansion panics.
    NameWithoutIndex,
    /// An index key's next automatic order would pass `i32::MAX`: the
    /// expansion's `+ 1` overflows.
    OrderOverflow,
    /// An index the fields use has no query `name`: the expansion panics.
    UnnamedIndex,
}

/// The compile-error message of a union.
pub open spec fn dynamo_error_message() -> Seq<char> {
    "#[derive(DynamoEntity)] only supports structs and enum"@
}

/// The message for a union.
pub fn unsupported_message() -> (r: String)
    ensures
        r@ == dynamo_error_message(),
{
    owned("#[derive(DynamoEntity)] only supports structs and enum")
}

/// The plan for a struct entity.
pub open spec fn struct_plan_ok(name: Seq<char>, cfg: StructCfgView, inputs: Seq<FieldInput>, p: StructPlan) -> bool {
    let fs = field_plan_views(p.fields.fields@);
    let m = pair_views(p.fields.index_fns@);
    &&& fields_spec(cfg.pk_name, cfg.sk_name, inputs) == Some((fs, m, crate::dynamo_fields::index_plan_views(p.fields.indexes@)))
    &&& indexes_named(fs, m)
    &&& composer_views(p.composers@) == key_composers(all_infos(fs))
    &&& updater_field_views(p.updater_fields@) == updater_fields(fs, inputs)
    &&& index_fn_views(p.index_fns@) == index_bases(all_infos(fs)).map_values(|b: Seq<char>| index_fn_spec(b, m))
    &&& p.updater_name@ == case_converted(name, CaseKind::Pascal) + "Updater"@
    &&& p.query_option_name@ == case_converted(name, CaseKind::Pascal) + "QueryOption"@
    &&& p.create_condition@ == create_condition_spec(cfg.pk_name, cfg.sk_name)
    &&& p.update_condition@ == update_condition_spec(cfg.pk_name, cfg.sk_name)
    &&& p.query_defaults == query_defaults_spec()
}

/// Plans `#[derive(DynamoEntity)]` for a type named `name` with the item
/// lists of its `#[dynamo(..)]` attributes; `table_prefix` is the build's
/// `DYNAMO_TABLE_PREFIX`.
pub fn plan_dynamo_entity(table_prefix: &str, name: &str, attrs: &Vec<Vec<DynItem>>, data: &DynamoData) -> (r: Result<DynamoPlan, DynamoError>)
    ensures
        match r {
            Ok(p) => p.cfg@ == struct_cfg_spec(table_prefix@, attr_lists(attrs@))
                && p.table_name@ == p.cfg.table_prefix@ + "-"@ + p.cfg.table@
                && match (data, p.entity) {
                    (DynamoData::Struct(fs), EntityPlan::Struct(sp)) => struct_plan_ok(name@, p.cfg@, fs@, sp),
                    (DynamoData::Enum, EntityPlan::Enum(v)) => v@.map_values(|x: EnumIndexFn| x@)
                        == p.cfg@.indice.map_values(|c: IndexCfgView| enum_index_fn_spec(c)),
                    _ => false,
                },
            Err(DynamoError::Unsupported) => data is Other,
            Err(DynamoError::NameWithoutIndex) => data matches DynamoData::Struct(fs) && !names_paired(fs@),
            Err(DynamoError::OrderOverflow) => data matches DynamoData::Struct(fs) && {
                let c = struct_cfg_spec(table_prefix@, attr_lists(attrs@));
                names_paired(fs@) && fields_spec(c.pk_name, c.sk_name, fs@) is None
            },
            Err(DynamoError::UnnamedIndex) => data matches DynamoData::Struct(fs) && {
                let c = struct_cfg_spec(table_prefix@, attr_lists(attrs@));
                fields_spec(c.pk_name, c.sk_name, fs@) matches Some((v, m, _)) && !indexes_named(v, m)
            },
        },
{
    let cfg = parse_struct_cfg(table_prefix, attrs);
    let tn = table_name(&cfg);
    match data {
        DynamoData::Struct(inputs) => {
            match check_fields(&cfg, inputs) {
                Ok(()) => {},
                Err(FieldsError::NameWithoutIndex) => {
                    return Err(DynamoError::NameWithoutIndex);
                },
                Err(FieldsError::OrderOverflow) => {
                    return Err(DynamoError::OrderOverflow);
                },
            }
            let fp = parse_fields(&cfg, inputs);
            let index_fns = match generate_index_fns(&fp.fields, &fp.index_fns) {
                Some(v) => v,
                None => {
                    return Err(DynamoError::UnnamedIndex);
                },
            };
            let composers = generate_key_composers(&fp.fields);
            proof {
                crate::dynamo_fields::lemma_fields_len(cfg.pk_name@, opt_view(cfg.sk_name), inputs@);
            }
            let updater_fields = generate_updater_fields(&fp.fields, inputs);
            let pascal = to_case(name, CaseKind::Pascal);
            let sp = StructPlan {
                updater_name: cat(pascal.as_str(), "Updater"),
                query_option_name: cat(pascal.as_str(), "QueryOption"),
                create_condition: create_condition(&cfg),
                update_condition: update_condition(&cfg),
                query_defaults: query_defaults(),
                fields: fp,
                composers,
                updater_fields,
                index_fns,
            };
            Ok(DynamoPlan { cfg, table_name: tn, entity: EntityPlan::Struct(sp) })
        },
        DynamoData::Enum => {
            let fns = generate_enum_index_fns(&cfg);
            Ok(DynamoPlan { cfg, table_name: tn, entity: EntityPlan::Enum(fns) })
        },
        DynamoData::Other => Err(DynamoError::Unsupported),
    }
}

} // verus!
