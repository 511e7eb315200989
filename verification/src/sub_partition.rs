//! What `#[derive(SubPartition)]` decides: for each unit variant and each
//! single-field tuple variant of a partition enum, a key struct and the
//! prefix its values carry.
use vstd::prelude::*;
use crate::case::{case_converted, to_case, CaseKind};
use crate::text::{cat, chars_of, owned, push_str, push_char, str_starts_with, starts_with};

verus! {

/// How a variant carries data.
#[derive(PartialEq, Eq, Structural, Clone, Copy, Debug)]
pub enum PartitionShape {
    Unit,
    /// A tuple variant with exactly one field.
    Single,
    /// Anything else; no struct is generated for it.
    Other,
}

/// One variant of the partition enum.
pub struct PartitionVariant {
    pub name: String,
    pub shape: PartitionShape,
}

/// A generated key struct.
pub struct PartitionStruct {
    pub variant: String,
    /// `<Variant><Enum>`.
    pub struct_name: String,
    /// `VARIANT_NAME` for a unit variant, `VARIANT_NAME#` for a tuple variant.
    pub prefix: String,
    /// Whether the struct wraps a `String`.
    pub tuple: bool,
}

pub struct PartitionStructView {
    pub variant: Seq<char>,
    pub struct_name: Seq<char>,
    pub prefix: Seq<char>,
    pub tuple: bool,
}

impl View for PartitionStruct {
    type V = PartitionStructView;

    open spec fn view(&self) -> PartitionStructView {
        PartitionStructView { variant: self.variant@, struct_name: self.struct_name@, prefix: self.prefix@, tuple: self.tuple }
    }
}

/// The key structs of the variants, in order.
pub open spec fn partition_structs(enum_name: Seq<char>, vs: Seq<PartitionVariant>) -> Seq<PartitionStructView>
    decreases vs.len(),
{
    if vs.len() == 0 {
        Seq::empty()
    } else {
        let prev = partition_structs(enum_name, vs.drop_last());
        let v = vs.last();
        let upper = case_converted(v.name@, CaseKind::UpperSnake);
        match v.shape {
            PartitionShape::Unit => prev.push(PartitionStructView {
                variant: v.name@,
                struct_name: v.name@ + enum_name,
                prefix: upper,
                tuple: false,
            }),
            PartitionShape::Single => prev.push(PartitionStructView {
                variant: v.name@,
                struct_name: v.name@ + enum_name,
                prefix: upper + "#"@,
                tuple: true,
            }),
            PartitionShape::Other => prev,
        }
    }
}

/// The compile-error message for a type that is not an enum.
pub open spec fn sub_partition_error() -> Seq<char> {
    "#[derive(SubPartition)] only supports enum"@
}

/// The message for a type that is not an enum.
pub fn not_an_enum_message() -> (r: String)
    ensures
        r@ == sub_partition_error(),
{
    owned("#[derive(SubPartition)] only supports enum")
}

/// Plans the key structs of a partition enum named `enum_name`.
pub fn plan_sub_partition(enum_name: &str, variants: &Vec<PartitionVariant>) -> (r: Vec<PartitionStruct>)
    ensures
        r@.map_values(|p: PartitionStruct| p@) == partition_structs(enum_name@, variants@),
{
    let mut out: Vec<PartitionStruct> = Vec::new();
    let mut i: usize = 0;
    assert(variants@.take(0) =~= Seq::<PartitionVariant>::empty());
    assert(out@.map_values(|p: PartitionStruct| p@) =~= Seq::<PartitionStructView>::empty());
    while i < variants.len()
        invariant
            i <= variants@.len(),
            out@.map_values(|p: PartitionStruct| p@) == partition_structs(enum_name@, variants@.take(i as int)),
        decreases variants@.len() - i,
    {
        let v = &variants[i];
        let ghost t = variants@.take(i as int + 1);
        assert(t.drop_last() =~= variants@.take(i as int));
        assert(t.last() == *v);
        let ghost before = out@.map_values(|p: PartitionStruct| p@);
        match v.shape {
            PartitionShape::Unit => {
                let p = PartitionStruct {
                    variant: owned(v.name.as_str()),
                    struct_name: cat(v.name.as_str(), enum_name),
                    prefix: to_case(v.name.as_str(), CaseKind::UpperSnake),
                    tuple: false,
                };
                let ghost pv = p@;
                out.push(p);
                assert(out@.map_values(|p: PartitionStruct| p@) =~= before.push(pv));
            },
            PartitionShape::Single => {
                let mut prefix = to_case(v.name.as_str(), CaseKind::UpperSnake);
                push_str(&mut prefix, "#");
                let p = PartitionStruct {
                    variant: owned(v.name.as_str()),
                    struct_name: cat(v.name.as_str(), enum_name),
                    prefix,
                    tuple: true,
                };
                let ghost pv = p@;
                out.push(p);
                assert(out@.map_values(|p: PartitionStruct| p@) =~= before.push(pv));
            },
            PartitionShape::Other => {},
        }
        i += 1;
    }
    assert(variants@.take(variants@.len() as int) =~= variants@);
    out
}

/// `s` with each occurrence of the non-empty `pat`, found left to right
/// without overlap, replaced by `to` (what `str::replace` gives). With an
/// empty `pat` it is `s` itself, which is what `str::replace` gives when `to`
/// is empty too.
pub open spec fn replace_spec(s: Seq<char>, pat: Seq<char>, to: Seq<char>) -> Seq<char>
    decreases s.len(),
{
    if s.len() == 0 {
        Seq::empty()
    } else if 0 < pat.len() <= s.len() && s.subrange(0, pat.len() as int) == pat {
        to + replace_spec(s.skip(pat.len() as int), pat, to)
    } else {
        seq![s[0]] + replace_spec(s.drop_first(), pat, to)
    }
}

/// `v[i..]` starts with `pat`.
fn matches_at(v: &Vec<char>, i: usize, pat: &Vec<char>) -> (r: bool)
    requires
        i <= v@.len(),
    ensures
        r == (pat@.len() <= v@.len() - i && v@.skip(i as int).subrange(0, pat@.len() as int) == pat@),
{
    if pat.len() > v.len() - i {
        return false;
    }
    let vl = v.len();
    let mut k: usize = 0;
    while k < pat.len()
        invariant
            vl == v@.len(),
            i <= v@.len(),
            pat@.len() <= v@.len() - i,
            k <= pat@.len(),
            forall|j: int| 0 <= j < k ==> v@[i + j] == pat@[j],
        decreases pat@.len() - k,
    {
        if v[i + k] != pat[k] {
            assert(v@.skip(i as int).subrange(0, pat@.len() as int)[k as int] != pat@[k as int]);
            return false;
        }
        k += 1;
    }
    assert(v@.skip(i as int).subrange(0, pat@.len() as int) =~= pat@);
    true
}

/// `s` with each occurrence of `pat` replaced by `to`.
pub fn replace_all(s: &str, pat: &str, to: &str) -> (r: String)
    requires
        pat@.len() > 0,
    ensures
        r@ == replace_spec(s@, pat@, to@),
{
    let v = chars_of(s);
    let p = chars_of(pat);
    let mut out = String::new();
    let mut i: usize = 0;
    assert(v@.skip(0) =~= v@);
    assert(Seq::<char>::empty() + replace_spec(s@, pat@, to@) =~= replace_spec(s@, pat@, to@));
    while i < v.len()
        invariant
            i <= v@.len(),
            v@ == s@,
            p@ == pat@,
            p@.len() > 0,
            replace_spec(s@, pat@, to@) == out@ + replace_spec(v@.skip(i as int), pat@, to@),
        decreases v@.len() - i,
    {
        let ghost rest = v@.skip(i as int);
        let ghost before = out@;
        if matches_at(&v, i, &p) {
            push_str(&mut out, to);
            assert(rest.skip(p@.len() as int) =~= v@.skip(i + p@.len()));
            assert(before + (to@ + replace_spec(v@.skip(i + p@.len()), pat@, to@)) =~= out@ + replace_spec(
                v@.skip(i + p@.len()),
                pat@,
                to@,
            ));
            i = i + p.len();
        } else {
            push_char(&mut out, v[i]);
            assert(rest[0] == v@[i as int]);
            assert(rest.drop_first() =~= v@.skip(i + 1));
            assert(before + (seq![v@[i as int]] + replace_spec(v@.skip(i + 1), pat@, to@)) =~= out@ + replace_spec(
                v@.skip(i + 1),
                pat@,
                to@,
            ));
            i += 1;
        }
    }
    assert(out@ + replace_spec(v@.skip(i as int), pat@, to@) =~= out@);
    out
}

/// The id a tuple key struct keeps for the text `s`: `%23` read as `#`,
/// then, when the text starts with the prefix, every occurrence of the
/// prefix taken out.
pub open spec fn partition_id_spec(s: Seq<char>, prefix: Seq<char>) -> Seq<char> {
    let t = replace_spec(s, "%23"@, "#"@);
    if starts_with(t, prefix) {
        replace_spec(t, prefix, Seq::empty())
    } else {
        t
    }
}

/// With an empty pattern the text stays as it is.
proof fn lemma_replace_empty_pattern(s: Seq<char>, pat: Seq<char>, to: Seq<char>)
    requires
        pat.len() == 0,
    ensures
        replace_spec(s, pat, to) == s,
    decreases s.len(),
{
    if s.len() > 0 {
        lemma_replace_empty_pattern(s.drop_first(), pat, to);
        assert(seq![s[0]] + s.drop_first() =~= s);
    }
}

/// The id a tuple key struct keeps when it is read from `s`.
pub fn partition_id(s: &str, prefix: &str) -> (r: String)
    ensures
        r@ == partition_id_spec(s@, prefix@),
{
    proof {
        reveal_strlit("%23");
        reveal_strlit("");
    }
    let t = replace_all(s, "%23", "#");
    if chars_of(prefix).len() == 0 {
        proof {
            lemma_replace_empty_pattern(t@, prefix@, Seq::empty());
            assert(t@.take(0) =~= prefix@);
        }
        return t;
    }
    if str_starts_with(t.as_str(), prefix) {
        let r = replace_all(t.as_str(), prefix, "");
        assert(""@ =~= Seq::<char>::empty());
        r
    } else {
        t
    }
}

/// The message of a unit key struct read from a text other than its prefix.
pub fn partition_key_error(struct_name: &str, prefix: &str) -> (r: String)
    ensures
        r@ == struct_name@ + " must be "@ + prefix@,
{
    let mut r = owned(struct_name);
    push_str(&mut r, " must be ");
    push_str(&mut r, prefix);
    r
}

/// `c` does not occur in `s`.
pub open spec fn lacks(s: Seq<char>, c: char) -> bool {
    forall|i: int| 0 <= i < s.len() ==> s[i] != c
}

proof fn lemma_replace_skips_plain(a: Seq<char>, t: Seq<char>, pat: Seq<char>, to: Seq<char>)
    requires
        pat.len() > 0,
        lacks(a, pat[0]),
    ensures
        replace_spec(a + t, pat, to) == a + replace_spec(t, pat, to),
    decreases a.len(),
{
    if a.len() == 0 {
        assert(a + t =~= t);
        assert(a + replace_spec(t, pat, to) =~= replace_spec(t, pat, to));
    } else {
        let s = a + t;
        assert(s[0] == a[0]);
        if pat.len() <= s.len() {
            assert(s.subrange(0, pat.len() as int)[0] != pat[0]);
        }
        assert(s.drop_first() =~= a.drop_first() + t);
        lemma_replace_skips_plain(a.drop_first(), t, pat, to);
        assert(seq![a[0]] + (a.drop_first() + replace_spec(t, pat, to)) =~= a + replace_spec(t, pat, to));
    }
}

proof fn lemma_replace_head(pat: Seq<char>, t: Seq<char>, to: Seq<char>)
    requires
        pat.len() > 0,
    ensures
        replace_spec(pat + t, pat, to) == to + replace_spec(t, pat, to),
{
    let s = pat + t;
    assert(s.subrange(0, pat.len() as int) =~= pat);
    assert(s.skip(pat.len() as int) =~= t);
}

proof fn lemma_replace_absent(s: Seq<char>, pat: Seq<char>, to: Seq<char>, q: int)
    requires
        0 <= q < pat.len(),
        lacks(s, pat[q]),
    ensures
        replace_spec(s, pat, to) == s,
    decreases s.len(),
{
    if s.len() > 0 {
        if pat.len() <= s.len() {
            assert(s.subrange(0, pat.len() as int)[q] != pat[q]);
        }
        lemma_replace_absent(s.drop_first(), pat, to, q);
        assert(seq![s[0]] + s.drop_first() =~= s);
    }
}

/// A key read from `NAME#id`, or from the URL-encoded `NAME%23id`, keeps
/// just `id`, and one read from a bare `id` keeps it as it is, whenever
/// neither `NAME` nor `id` holds a `%` or a `#`.
pub proof fn law_partition_id_strips_prefix(name: Seq<char>, id: Seq<char>)
    requires
        lacks(name, '%'),
        lacks(name, '#'),
        lacks(id, '%'),
        lacks(id, '#'),
    ensures
        partition_id_spec(name + "#"@ + id, name + "#"@) == id,
        partition_id_spec(name + "%23"@ + id, name + "#"@) == id,
        partition_id_spec(id, name + "#"@) == id,
{
    reveal_strlit("#");
    reveal_strlit("%23");
    let enc = "%23"@;
    let hash = "#"@;
    let prefix = name + hash;
    let e = Seq::<char>::empty();
    let q = name.len() as int;
    assert(prefix[q] == '#');
    // the bare id
    lemma_replace_absent(id, enc, hash, 0);
    if starts_with(id, prefix) {
        assert(id.take(prefix.len() as int)[q] == '#');
    }
    // NAME#id
    assert(lacks(prefix + id, '%'));
    lemma_replace_absent(prefix + id, enc, hash, 0);
    assert((prefix + id).take(prefix.len() as int) =~= prefix);
    lemma_replace_head(prefix, id, e);
    lemma_replace_absent(id, prefix, e, q);
    assert(e + id =~= id);
    // NAME%23id
    assert(name + enc + id =~= name + (enc + id));
    lemma_replace_skips_plain(name, enc + id, enc, hash);
    lemma_replace_head(enc, id, hash);
    assert(name + (hash + id) =~= prefix + id);
}


/// Each unit variant gets the struct `<Variant><Enum>` keyed by the variant's
/// name in upper snake case; each single-field tuple variant gets
/// `<Variant><Enum>` with that name followed by `#` as its prefix; other
/// variants get no struct.
pub proof fn law_partition_struct_per_variant(enum_name: Seq<char>, vs: Seq<PartitionVariant>, v: PartitionVariant)
    ensures
        v.shape == PartitionShape::Unit ==> partition_structs(enum_name, vs.push(v)) == partition_structs(enum_name, vs).push(
            PartitionStructView {
                variant: v.name@,
                struct_name: v.name@ + enum_name,
                prefix: case_converted(v.name@, CaseKind::UpperSnake),
                tuple: false,
            },
        ),
        v.shape == PartitionShape::Single ==> partition_structs(enum_name, vs.push(v)) == partition_structs(enum_name, vs).push(
            PartitionStructView {
                variant: v.name@,
                struct_name: v.name@ + enum_name,
                prefix: case_converted(v.name@, CaseKind::UpperSnake) + seq!['#'],
                tuple: true,
            },
        ),
        v.shape == PartitionShape::Other ==> partition_structs(enum_name, vs.push(v)) == partition_structs(enum_name, vs),
{
    reveal_strlit("#");
    assert(vs.push(v).drop_last() =~= vs);
    assert("#"@ =~= seq!['#']);
}
} // verus!
