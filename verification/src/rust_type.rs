//! A model of Rust type syntax, as far as handler classification and
//! TypeScript rendering read it, with the TypeScript mapping itself.
use vstd::prelude::*;
use crate::text::{lemma_index_of, 
    cat, char_is_alphabetic, chars_of, find_char, index_of, insert_sorted, is_alphabetic,
    owned, push_str, str_eq, strictly_sorted, views,
};

verus! {

/// The mathematical value of a [`RustType`].
pub enum RType {
    Path(Seq<char>, Seq<RType>),
    Reference(Box<RType>),
    Slice(Box<RType>),
    Array(Box<RType>),
    Tuple(Seq<RType>),
    Paren(Box<RType>),
    Group(Box<RType>),
    Other,
}

/// A Rust type as written in a signature. A path type keeps its last
/// segment: the identifier and the type arguments in angle brackets.
#[derive(Debug, PartialEq, Eq)]
pub enum RustType {
    Path { ident: String, args: Vec<RustType> },
    Reference(Box<RustType>),
    Slice(Box<RustType>),
    Array(Box<RustType>),
    Tuple(Vec<RustType>),
    Paren(Box<RustType>),
    Group(Box<RustType>),
    Other,
}

impl View for RustType {
    type V = RType;

    open spec fn view(&self) -> RType {
        type_view(*self)
    }
}

pub open spec fn type_view(t: RustType) -> RType
    decreases t, 1nat,
{
    match t {
        RustType::Path { ident, args } => RType::Path(ident@, types_view(args@)),
        RustType::Reference(e) => RType::Reference(Box::new(type_view(*e))),
        RustType::Slice(e) => RType::Slice(Box::new(type_view(*e))),
        RustType::Array(e) => RType::Array(Box::new(type_view(*e))),
        RustType::Tuple(es) => RType::Tuple(types_view(es@)),
        RustType::Paren(e) => RType::Paren(Box::new(type_view(*e))),
        RustType::Group(e) => RType::Group(Box::new(type_view(*e))),
        RustType::Other => RType::Other,
    }
}

pub open spec fn types_view(v: Seq<RustType>) -> Seq<RType>
    decreases v, 0nat,
{
    if v.len() == 0 {
        Seq::empty()
    } else {
        seq![type_view(v[0])] + types_view(v.drop_first())
    }
}

pub proof fn lemma_types_view(v: Seq<RustType>)
    ensures
        types_view(v).len() == v.len(),
        forall|i: int| 0 <= i < v.len() ==> #[trigger] types_view(v)[i] == type_view(v[i]),
    decreases v.len(),
{
    if v.len() > 0 {
        lemma_types_view(v.drop_first());
        assert forall|i: int| 0 <= i < v.len() implies #[trigger] types_view(v)[i] == type_view(v[i]) by {
            if i > 0 {
                assert(v.drop_first()[i - 1] == v[i]);
            }
        }
    }
}

pub proof fn lemma_types_view_eq(a: Seq<RustType>, b: Seq<RType>)
    requires
        a.len() == b.len(),
        forall|i: int| 0 <= i < a.len() ==> type_view(#[trigger] a[i]) == b[i],
    ensures
        types_view(a) == b,
{
    lemma_types_view(a);
    assert(types_view(a) =~= b);
}

/// Copies a list of types, element by element.
#[verifier::loop_isolation(false)]
fn clone_types(v: &Vec<RustType>) -> (r: Vec<RustType>)
    ensures
        types_view(r@) == types_view(v@),
    decreases v, 0nat,
{
    let mut out: Vec<RustType> = Vec::new();
    let mut i: usize = 0;
    while i < v.len()
        invariant
            i <= v@.len(),
            out@.len() == i,
            forall|k: int| 0 <= k < i ==> type_view(#[trigger] out@[k]) == type_view(v@[k]),
        decreases v@.len() - i,
    {
        proof {
            assert(decreases_to!(v => v@));
            assert(decreases_to!(v@ => v@[i as int]));
        }
        out.push(v[i].deep_clone());
        i += 1;
    }
    proof {
        lemma_types_view(v@);
        lemma_types_view_eq(out@, types_view(v@));
    }
    out
}

impl RustType {
    /// A copy of this type (the same view).
    pub fn deep_clone(&self) -> (r: RustType)
        ensures
            r@ == self@,
        decreases self, 1nat,
    {
        match self {
            RustType::Path { ident, args } => {
                proof {
                    assert(decreases_to!(self => args));
                }
                RustType::Path { ident: ident.clone(), args: clone_types(args) }
            },
            RustType::Reference(e) => RustType::Reference(Box::new((**e).deep_clone())),
            RustType::Slice(e) => RustType::Slice(Box::new((**e).deep_clone())),
            RustType::Array(e) => RustType::Array(Box::new((**e).deep_clone())),
            RustType::Tuple(es) => {
                proof {
                    assert(decreases_to!(self => es));
                }
                RustType::Tuple(clone_types(es))
            },
            RustType::Paren(e) => RustType::Paren(Box::new((**e).deep_clone())),
            RustType::Group(e) => RustType::Group(Box::new((**e).deep_clone())),
            RustType::Other => RustType::Other,
        }
    }

    /// The path type `ident` without type arguments.
    pub fn simple(ident: &str) -> (r: RustType)
        ensures
            r@ == RType::Path(ident@, Seq::empty()),
    {
        let r = RustType::Path { ident: owned(ident), args: Vec::new() };
        proof {
            let e: Seq<RustType> = Seq::empty();
            assert(types_view(e) =~= Seq::<RType>::empty());
        }
        r
    }
}

/// Identifiers of Rust's numeric primitives.
pub open spec fn is_number_name(id: Seq<char>) -> bool {
    id == "i8"@ || id == "i16"@ || id == "i32"@ || id == "i64"@ || id == "i128"@ || id == "isize"@
        || id == "u8"@ || id == "u16"@ || id == "u32"@ || id == "u64"@ || id == "u128"@
        || id == "usize"@ || id == "f32"@ || id == "f64"@
}

fn is_number_ident(id: &str) -> (r: bool)
    ensures
        r == is_number_name(id@),
{
    str_eq(id, "i8") || str_eq(id, "i16") || str_eq(id, "i32") || str_eq(id, "i64")
        || str_eq(id, "i128") || str_eq(id, "isize") || str_eq(id, "u8") || str_eq(id, "u16")
        || str_eq(id, "u32") || str_eq(id, "u64") || str_eq(id, "u128") || str_eq(id, "usize")
        || str_eq(id, "f32") || str_eq(id, "f64")
}

/// A union type (`A | B`) in parentheses, so that `(A | null)[]` reads right.
pub open spec fn paren_union(s: Seq<char>) -> Seq<char> {
    if index_of(s, '|') < s.len() {
        "("@ + s + ")"@
    } else {
        s
    }
}

/// Wraps a union (`A | B`) in parens so `(A | null)[]` reads correctly.
pub fn maybe_paren(s: &str) -> (r: String)
    ensures
        r@ == paren_union(s@),
{
    let v = chars_of(s);
    let k = find_char(&v, 0, '|');
    assert(v@.skip(0) =~= v@);
    if k < v.len() {
        let mut r = owned("(");
        push_str(&mut r, s);
        push_str(&mut r, ")");
        r
    } else {
        owned(s)
    }
}

/// The TypeScript rendering of the first type argument, or `default`.
pub open spec fn ts_first(args: Seq<RType>, default: Seq<char>) -> Seq<char>
    decreases args, 0nat,
{
    if args.len() > 0 {
        ts_of(args[0])
    } else {
        default
    }
}

/// The TypeScript renderings of `es`, joined with `, `.
pub open spec fn ts_list(es: Seq<RType>) -> Seq<char>
    decreases es, 0nat,
{
    if es.len() == 0 {
        Seq::empty()
    } else if es.len() == 1 {
        ts_of(es[0])
    } else {
        ts_of(es[0]) + ", "@ + ts_list(es.drop_first())
    }
}

/// The TypeScript type for a Rust type: `Option<T>` is `T | null`, sequences
/// and sets are `T[]`, maps are `Record<K, V>`, strings and chars are
/// `string`, numbers `number`, `bool` `boolean`, `()` `void`; `Form`,
/// `Result`, `Box`, `Arc`, `Rc`, references and parentheses are transparent;
/// any other named type keeps its identifier.
pub open spec fn ts_of(t: RType) -> Seq<char>
    decreases t, 1nat,
{
    match t {
        RType::Path(id, args) => {
            if id == "String"@ || id == "str"@ || id == "char"@ {
                "string"@
            } else if id == "bool"@ {
                "boolean"@
            } else if is_number_name(id) {
                "number"@
            } else if id == "Option"@ {
                ts_first(args, "unknown"@) + " | null"@
            } else if id == "Vec"@ || id == "VecDeque"@ || id == "HashSet"@ || id == "BTreeSet"@ {
                paren_union(ts_first(args, "unknown"@)) + "[]"@
            } else if id == "HashMap"@ || id == "BTreeMap"@ || id == "IndexMap"@ {
                "Record<"@ + ts_first(args, "string"@) + ", "@ + (if args.len() > 1 {
                    ts_first(args.drop_first(), "unknown"@)
                } else {
                    "unknown"@
                }) + ">"@
            } else if id == "Form"@ || id == "Box"@ || id == "Arc"@ || id == "Rc"@ {
                ts_first(args, "unknown"@)
            } else if id == "Result"@ {
                ts_first(args, "void"@)
            } else {
                id
            }
        },
        RType::Reference(e) => ts_of(*e),
        RType::Slice(e) => paren_union(ts_of(*e)) + "[]"@,
        RType::Array(e) => paren_union(ts_of(*e)) + "[]"@,
        RType::Tuple(es) => if es.len() == 0 {
            "void"@
        } else {
            "["@ + ts_list(es) + "]"@
        },
        RType::Paren(e) => ts_of(*e),
        RType::Group(e) => ts_of(*e),
        RType::Other => "unknown"@,
    }
}

/// The Rust numeric primitives.
pub open spec fn numeric_primitives() -> Seq<Seq<char>> {
    seq![
        seq!['i', '8'], seq!['i', '1', '6'], seq!['i', '3', '2'], seq!['i', '6', '4'], seq!['i', '1', '2', '8'],
        seq!['i', 's', 'i', 'z', 'e'], seq!['u', '8'], seq!['u', '1', '6'], seq!['u', '3', '2'], seq!['u', '6', '4'],
        seq!['u', '1', '2', '8'], seq!['u', 's', 'i', 'z', 'e'], seq!['f', '3', '2'], seq!['f', '6', '4'],
    ]
}

/// Every Rust primitive becomes its TypeScript primitive, whatever type
/// arguments it is written with: `String`, `str` and `char` are `string`,
/// each numeric primitive is `number`, `bool` is `boolean`, and `()` is
/// `void`.
pub proof fn law_primitives_map_to_typescript_primitives(id: Seq<char>, args: Seq<RType>)
    ensures
        (id == seq!['S', 't', 'r', 'i', 'n', 'g'] || id == seq!['s', 't', 'r'] || id == seq!['c', 'h', 'a', 'r'])
            ==> ts_of(RType::Path(id, args)) == seq!['s', 't', 'r', 'i', 'n', 'g'],
        id == seq!['b', 'o', 'o', 'l'] ==> ts_of(RType::Path(id, args)) == seq!['b', 'o', 'o', 'l', 'e', 'a', 'n'],
        numeric_primitives().contains(id) ==> ts_of(RType::Path(id, args)) == seq!['n', 'u', 'm', 'b', 'e', 'r'],
        ts_of(RType::Tuple(Seq::empty())) == seq!['v', 'o', 'i', 'd'],
{
    reveal_strlit("String");
    reveal_strlit("str");
    reveal_strlit("char");
    reveal_strlit("string");
    reveal_strlit("bool");
    reveal_strlit("boolean");
    reveal_strlit("number");
    reveal_strlit("void");
    reveal_strlit("i8");
    reveal_strlit("i16");
    reveal_strlit("i32");
    reveal_strlit("i64");
    reveal_strlit("i128");
    reveal_strlit("isize");
    reveal_strlit("u8");
    reveal_strlit("u16");
    reveal_strlit("u32");
    reveal_strlit("u64");
    reveal_strlit("u128");
    reveal_strlit("usize");
    reveal_strlit("f32");
    reveal_strlit("f64");
    assert("string"@ =~= seq!['s', 't', 'r', 'i', 'n', 'g']);
    assert("boolean"@ =~= seq!['b', 'o', 'o', 'l', 'e', 'a', 'n']);
    assert("number"@ =~= seq!['n', 'u', 'm', 'b', 'e', 'r']);
    assert("void"@ =~= seq!['v', 'o', 'i', 'd']);
    assert("String"@ =~= seq!['S', 't', 'r', 'i', 'n', 'g']);
    assert("str"@ =~= seq!['s', 't', 'r']);
    assert("char"@ =~= seq!['c', 'h', 'a', 'r']);
    if id == seq!['b', 'o', 'o', 'l'] {
        assert(id =~= "bool"@);
        assert(id != "String"@ && id != "str"@ && id != "char"@) by {
            assert(id[0] != "String"@[0]);
            assert(id[0] != "str"@[0]);
            assert(id[0] != "char"@[0]);
        }
    }
    if numeric_primitives().contains(id) {
        let k = choose|k: int| 0 <= k < numeric_primitives().len() && numeric_primitives()[k] == id;
        assert(id != "String"@ && id != "str"@ && id != "char"@ && id != "bool"@) by {
            assert(id[0] != 'S' && id[0] != 's' && id[0] != 'c' && id[0] != 'b');
        }
        assert(is_number_name(id)) by {
            assert("i8"@ =~= seq!['i', '8']);
            assert("i16"@ =~= seq!['i', '1', '6']);
            assert("i32"@ =~= seq!['i', '3', '2']);
            assert("i64"@ =~= seq!['i', '6', '4']);
            assert("i128"@ =~= seq!['i', '1', '2', '8']);
            assert("isize"@ =~= seq!['i', 's', 'i', 'z', 'e']);
            assert("u8"@ =~= seq!['u', '8']);
            assert("u16"@ =~= seq!['u', '1', '6']);
            assert("u32"@ =~= seq!['u', '3', '2']);
            assert("u64"@ =~= seq!['u', '6', '4']);
            assert("u128"@ =~= seq!['u', '1', '2', '8']);
            assert("usize"@ =~= seq!['u', 's', 'i', 'z', 'e']);
            assert("f32"@ =~= seq!['f', '3', '2']);
            assert("f64"@ =~= seq!['f', '6', '4']);
        }
    }
}

/// `s`, parenthesised when it holds a `|`.
pub open spec fn parenthesised_if_union(s: Seq<char>) -> Seq<char> {
    if exists|i: int| 0 <= i < s.len() && s[i] == '|' {
        seq!['('] + s + seq![')']
    } else {
        s
    }
}

/// Containers and wrappers follow their element type: `Option<T>` is
/// `T | null`; `Vec<T>`, `VecDeque<T>`, `HashSet<T>` and `BTreeSet<T>` are
/// `T[]` (with `T` parenthesised when it is a union); `HashMap<K, V>`,
/// `BTreeMap<K, V>` and `IndexMap<K, V>` are `Record<K, V>`; `Result<T, E>`,
/// `Box<T>`, `Arc<T>`, `Rc<T>` and `Form<T>` are `T`; a reference is its
/// referent, and a slice `[T]` is `T[]`.
pub proof fn law_containers_follow_their_elements(id: Seq<char>, t: RType, rest: Seq<RType>)
    ensures
        id == seq!['O', 'p', 't', 'i', 'o', 'n'] ==> ts_of(RType::Path(id, seq![t] + rest)) == ts_of(t) + seq![
            ' ',
            '|',
            ' ',
            'n',
            'u',
            'l',
            'l',
        ],
        (id == seq!['V', 'e', 'c'] || id == seq!['V', 'e', 'c', 'D', 'e', 'q', 'u', 'e'] || id == seq![
            'H',
            'a',
            's',
            'h',
            'S',
            'e',
            't',
        ] || id == seq!['B', 'T', 'r', 'e', 'e', 'S', 'e', 't']) ==> ts_of(RType::Path(id, seq![t] + rest))
            == parenthesised_if_union(ts_of(t)) + seq!['[', ']'],
        (id == seq!['H', 'a', 's', 'h', 'M', 'a', 'p'] || id == seq!['B', 'T', 'r', 'e', 'e', 'M', 'a', 'p'] || id
            == seq!['I', 'n', 'd', 'e', 'x', 'M', 'a', 'p']) && rest.len() > 0 ==> ts_of(
            RType::Path(id, seq![t] + rest),
        ) == seq!['R', 'e', 'c', 'o', 'r', 'd', '<'] + ts_of(t) + seq![',', ' '] + ts_of(rest[0]) + seq!['>'],
        (id == seq!['R', 'e', 's', 'u', 'l', 't'] || id == seq!['B', 'o', 'x'] || id == seq!['A', 'r', 'c'] || id
            == seq!['R', 'c'] || id == seq!['F', 'o', 'r', 'm']) ==> ts_of(RType::Path(id, seq![t] + rest)) == ts_of(t),
        ts_of(RType::Reference(Box::new(t))) == ts_of(t),
        ts_of(RType::Slice(Box::new(t))) == parenthesised_if_union(ts_of(t)) + seq!['[', ']'],
{
    reveal_strlit("String");
    reveal_strlit("str");
    reveal_strlit("char");
    reveal_strlit("bool");
    reveal_strlit("Option");
    reveal_strlit("Vec");
    reveal_strlit("VecDeque");
    reveal_strlit("HashSet");
    reveal_strlit("BTreeSet");
    reveal_strlit("HashMap");
    reveal_strlit("BTreeMap");
    reveal_strlit("IndexMap");
    reveal_strlit("Form");
    reveal_strlit("Box");
    reveal_strlit("Arc");
    reveal_strlit("Rc");
    reveal_strlit("Result");
    reveal_strlit(" | null");
    reveal_strlit("[]");
    reveal_strlit("(");
    reveal_strlit(")");
    reveal_strlit("Record<");
    reveal_strlit(", ");
    reveal_strlit(">");
    reveal_strlit("i8");
    reveal_strlit("i16");
    reveal_strlit("i32");
    reveal_strlit("i64");
    reveal_strlit("i128");
    reveal_strlit("isize");
    reveal_strlit("u8");
    reveal_strlit("u16");
    reveal_strlit("u32");
    reveal_strlit("u64");
    reveal_strlit("u128");
    reveal_strlit("usize");
    reveal_strlit("f32");
    reveal_strlit("f64");
    let args = seq![t] + rest;
    assert(args[0] == t);
    assert(args.len() > 0);
    if rest.len() > 0 {
        assert(args.drop_first() =~= rest);
    }
    let u = ts_of(t);
    lemma_index_of(u, '|');
    if exists|i: int| 0 <= i < u.len() && u[i] == '|' {
        let i = choose|i: int| 0 <= i < u.len() && u[i] == '|';
        assert(index_of(u, '|') < u.len());
    }
    assert(paren_union(u) == parenthesised_if_union(u));
    assert(" | null"@ =~= seq![' ', '|', ' ', 'n', 'u', 'l', 'l']);
    if id == seq!['O', 'p', 't', 'i', 'o', 'n'] {
        assert(id =~= "Option"@);
        assert(!is_number_name(id)) by {
            assert(id[0] == 'O');
        }
        assert(id != "String"@ && id != "str"@ && id != "char"@ && id != "bool"@) by {
            assert(id[0] != "String"@[0] && id[0] != "str"@[0] && id[0] != "char"@[0] && id[0] != "bool"@[0]);
        }
        assert(ts_first(args, "unknown"@) == u);
    }
    if id == seq!['V', 'e', 'c'] || id == seq!['V', 'e', 'c', 'D', 'e', 'q', 'u', 'e'] || id == seq![
        'H',
        'a',
        's',
        'h',
        'S',
        'e',
        't',
    ] || id == seq!['B', 'T', 'r', 'e', 'e', 'S', 'e', 't'] {
        assert(id[0] == 'V' || id[0] == 'H' || id[0] == 'B');
        assert(!is_number_name(id)) by {
            assert(id[0] != 'i' && id[0] != 'u' && id[0] != 'f');
        }
        assert(id != "String"@ && id != "str"@ && id != "char"@ && id != "bool"@) by {
            assert(id.len() != 4 || id[0] != 'b' || id[1] != "bool"@[1]);
            assert(id[0] != "String"@[0] && id[0] != "str"@[0] && id[0] != "char"@[0]);
        }
        assert(id != "Option"@) by {
            assert(id[0] != "Option"@[0]);
        }
        assert(id == "Vec"@ || id == "VecDeque"@ || id == "HashSet"@ || id == "BTreeSet"@);
        assert(ts_first(args, "unknown"@) == u);
    }
    if (id == seq!['H', 'a', 's', 'h', 'M', 'a', 'p'] || id == seq!['B', 'T', 'r', 'e', 'e', 'M', 'a', 'p'] || id
        == seq!['I', 'n', 'd', 'e', 'x', 'M', 'a', 'p']) && rest.len() > 0 {
        assert(id.len() >= 7);
        assert(id[0] == 'H' || id[0] == 'B' || id[0] == 'I');
        assert(!is_number_name(id)) by {
            assert(id[0] != 'i' && id[0] != 'u' && id[0] != 'f');
        }
        assert(id != "String"@ && id != "str"@ && id != "char"@ && id != "bool"@ && id != "Option"@ && id != "Vec"@);
        assert(id != "VecDeque"@) by {
            assert(id[0] != "VecDeque"@[0]);
        }
        assert(id != "HashSet"@) by {
            assert(id.len() != "HashSet"@.len() || id[4] != "HashSet"@[4]);
        }
        assert(id != "BTreeSet"@) by {
            assert(id.len() != "BTreeSet"@.len() || id[5] != "BTreeSet"@[5]);
        }
        assert(id == "HashMap"@ || id == "BTreeMap"@ || id == "IndexMap"@);
        assert(ts_first(args, "string"@) == u);
        assert(ts_first(args.drop_first(), "unknown"@) == ts_of(rest[0]));
    }
    if id == seq!['R', 'e', 's', 'u', 'l', 't'] || id == seq!['B', 'o', 'x'] || id == seq!['A', 'r', 'c'] || id
        == seq!['R', 'c'] || id == seq!['F', 'o', 'r', 'm'] {
        assert(id[0] == 'R' || id[0] == 'B' || id[0] == 'A' || id[0] == 'F');
        assert(!is_number_name(id)) by {
            assert(id[0] != 'i' && id[0] != 'u' && id[0] != 'f');
        }
        assert(id != "String"@ && id != "str"@ && id != "char"@ && id != "bool"@ && id != "Option"@ && id != "Vec"@
            && id != "VecDeque"@ && id != "HashSet"@ && id != "HashMap"@ && id != "IndexMap"@);
        assert(id != "BTreeSet"@ && id != "BTreeMap"@) by {
            assert(id.len() != 8);
        }
        assert(id == "Result"@ || id == "Box"@ || id == "Arc"@ || id == "Rc"@ || id == "Form"@);
        assert(ts_first(args, "unknown"@) == u);
        assert(ts_first(args, "void"@) == u);
    }
    assert("[]"@ =~= seq!['[', ']']);
    assert("Record<"@ =~= seq!['R', 'e', 'c', 'o', 'r', 'd', '<']);
    assert(", "@ =~= seq![',', ' ']);
    assert(">"@ =~= seq!['>']);
    assert("("@ =~= seq!['(']);
    assert(")"@ =~= seq![')']);
}

/// The type names that have a TypeScript rendering of their own.
pub open spec fn known_type_names() -> Seq<Seq<char>> {
    seq![
        seq!['S', 't', 'r', 'i', 'n', 'g'],
        seq!['s', 't', 'r'],
        seq!['c', 'h', 'a', 'r'],
        seq!['b', 'o', 'o', 'l'],
        seq!['O', 'p', 't', 'i', 'o', 'n'],
        seq!['V', 'e', 'c'],
        seq!['V', 'e', 'c', 'D', 'e', 'q', 'u', 'e'],
        seq!['H', 'a', 's', 'h', 'S', 'e', 't'],
        seq!['B', 'T', 'r', 'e', 'e', 'S', 'e', 't'],
        seq!['H', 'a', 's', 'h', 'M', 'a', 'p'],
        seq!['B', 'T', 'r', 'e', 'e', 'M', 'a', 'p'],
        seq!['I', 'n', 'd', 'e', 'x', 'M', 'a', 'p'],
        seq!['F', 'o', 'r', 'm'],
        seq!['B', 'o', 'x'],
        seq!['A', 'r', 'c'],
        seq!['R', 'c'],
        seq!['R', 'e', 's', 'u', 'l', 't'],
        seq!['i', '8'],
        seq!['i', '1', '6'],
        seq!['i', '3', '2'],
        seq!['i', '6', '4'],
        seq!['i', '1', '2', '8'],
        seq!['i', 's', 'i', 'z', 'e'],
        seq!['u', '8'],
        seq!['u', '1', '6'],
        seq!['u', '3', '2'],
        seq!['u', '6', '4'],
        seq!['u', '1', '2', '8'],
        seq!['u', 's', 'i', 'z', 'e'],
        seq!['f', '3', '2'],
        seq!['f', '6', '4'],
    ]
}

/// Any other named type keeps its own identifier (the name ts-rs gives it).
pub proof fn law_named_types_keep_their_name(id: Seq<char>, args: Seq<RType>)
    requires
        !known_type_names().contains(id),
    ensures
        ts_of(RType::Path(id, args)) == id,
{
    reveal_strlit("String");
    reveal_strlit("str");
    reveal_strlit("char");
    reveal_strlit("bool");
    reveal_strlit("Option");
    reveal_strlit("Vec");
    reveal_strlit("VecDeque");
    reveal_strlit("HashSet");
    reveal_strlit("BTreeSet");
    reveal_strlit("HashMap");
    reveal_strlit("BTreeMap");
    reveal_strlit("IndexMap");
    reveal_strlit("Form");
    reveal_strlit("Box");
    reveal_strlit("Arc");
    reveal_strlit("Rc");
    reveal_strlit("Result");
    reveal_strlit("i8");
    reveal_strlit("i16");
    reveal_strlit("i32");
    reveal_strlit("i64");
    reveal_strlit("i128");
    reveal_strlit("isize");
    reveal_strlit("u8");
    reveal_strlit("u16");
    reveal_strlit("u32");
    reveal_strlit("u64");
    reveal_strlit("u128");
    reveal_strlit("usize");
    reveal_strlit("f32");
    reveal_strlit("f64");
    assert(known_type_names()[0] == "String"@);
    assert(known_type_names()[1] == "str"@);
    assert(known_type_names()[2] == "char"@);
    assert(known_type_names()[3] == "bool"@);
    assert(known_type_names()[4] == "Option"@);
    assert(known_type_names()[5] == "Vec"@);
    assert(known_type_names()[6] == "VecDeque"@);
    assert(known_type_names()[7] == "HashSet"@);
    assert(known_type_names()[8] == "BTreeSet"@);
    assert(known_type_names()[9] == "HashMap"@);
    assert(known_type_names()[10] == "BTreeMap"@);
    assert(known_type_names()[11] == "IndexMap"@);
    assert(known_type_names()[12] == "Form"@);
    assert(known_type_names()[13] == "Box"@);
    assert(known_type_names()[14] == "Arc"@);
    assert(known_type_names()[15] == "Rc"@);
    assert(known_type_names()[16] == "Result"@);
    assert(known_type_names()[17] == "i8"@);
    assert(known_type_names()[18] == "i16"@);
    assert(known_type_names()[19] == "i32"@);
    assert(known_type_names()[20] == "i64"@);
    assert(known_type_names()[21] == "i128"@);
    assert(known_type_names()[22] == "isize"@);
    assert(known_type_names()[23] == "u8"@);
    assert(known_type_names()[24] == "u16"@);
    assert(known_type_names()[25] == "u32"@);
    assert(known_type_names()[26] == "u64"@);
    assert(known_type_names()[27] == "u128"@);
    assert(known_type_names()[28] == "usize"@);
    assert(known_type_names()[29] == "f32"@);
    assert(known_type_names()[30] == "f64"@);
}

#[verifier::loop_isolation(false)]
fn ts_first_exec(args: &Vec<RustType>, from: usize, default: &str) -> (r: String)
    requires
        from <= args@.len(),
    ensures
        r@ == ts_first(types_view(args@).skip(from as int), default@),
    decreases args, 0nat,
{
    proof {
        lemma_types_view(args@);
    }
    if from < args.len() {
        proof {
            assert(decreases_to!(args => args@));
            assert(decreases_to!(args@ => args@[from as int]));
        }
        ts_type(&args[from])
    } else {
        owned(default)
    }
}

#[verifier::loop_isolation(false)]
fn ts_list_exec(es: &Vec<RustType>) -> (r: String)
    ensures
        r@ == ts_list(types_view(es@)),
    decreases es, 0nat,
{
    proof {
        lemma_types_view(es@);
    }
    let n = es.len();
    let mut out = String::new();
    if n == 0 {
        return out;
    }
    let mut i = n;
    // build from the back: out == ts_list(views[i..])
    proof {
        assert(decreases_to!(es => es@));
        assert(decreases_to!(es@ => es@[n - 1]));
        let tail = types_view(es@).skip(n - 1);
        assert(tail.len() == 1);
    }
    out = ts_type(&es[n - 1]);
    i = n - 1;
    assert(ts_list(types_view(es@).skip(i as int)) == out@) by {
        let tail = types_view(es@).skip(i as int);
        assert(tail[0] == type_view(es@[i as int]));
    }
    while i > 0
        invariant
            0 <= i < n,
            n == es@.len(),
            types_view(es@).len() == n,
            out@ == ts_list(types_view(es@).skip(i as int)),
        decreases i,
    {
        proof {
            assert(decreases_to!(es => es@));
            assert(decreases_to!(es@ => es@[i - 1]));
        }
        let head = ts_type(&es[i - 1]);
        let mut next = head;
        push_str(&mut next, ", ");
        push_str(&mut next, out.as_str());
        proof {
            let s1 = types_view(es@).skip(i - 1);
            assert(s1[0] == type_view(es@[i - 1]));
            assert(s1.drop_first() =~= types_view(es@).skip(i as int));
            assert(s1.len() > 1);
        }
        out = next;
        i -= 1;
    }
    assert(types_view(es@).skip(0) =~= types_view(es@));
    out
}

/// Renders a Rust type as a TypeScript type string.
#[verifier::loop_isolation(false)]
pub fn ts_type(ty: &RustType) -> (r: String)
    ensures
        r@ == ts_of(ty@),
    decreases ty, 1nat,
{
    match ty {
        RustType::Path { ident, args } => {
            proof {
                assert(decreases_to!(ty => args));
                lemma_types_view(args@);
                assert(types_view(args@).skip(0) =~= types_view(args@));
            }
            let id = ident.as_str();
            if str_eq(id, "String") || str_eq(id, "str") || str_eq(id, "char") {
                owned("string")
            } else if str_eq(id, "bool") {
                owned("boolean")
            } else if is_number_ident(id) {
                owned("number")
            } else if str_eq(id, "Option") {
                let inner = ts_first_exec(args, 0, "unknown");
                cat(inner.as_str(), " | null")
            } else if str_eq(id, "Vec") || str_eq(id, "VecDeque") || str_eq(id, "HashSet")
                || str_eq(id, "BTreeSet") {
                let inner = ts_first_exec(args, 0, "unknown");
                let p = maybe_paren(inner.as_str());
                cat(p.as_str(), "[]")
            } else if str_eq(id, "HashMap") || str_eq(id, "BTreeMap") || str_eq(id, "IndexMap") {
                let k = ts_first_exec(args, 0, "string");
                let v = if args.len() > 1 {
                    ts_first_exec(args, 1, "unknown")
                } else {
                    owned("unknown")
                };
                proof {
                    if args@.len() > 1 {
                        assert(types_view(args@).skip(1) =~= types_view(args@).drop_first());
                    }
                }
                let mut r = owned("Record<");
                push_str(&mut r, k.as_str());
                push_str(&mut r, ", ");
                push_str(&mut r, v.as_str());
                push_str(&mut r, ">");
                r
            } else if str_eq(id, "Form") || str_eq(id, "Box") || str_eq(id, "Arc") || str_eq(id, "Rc") {
                ts_first_exec(args, 0, "unknown")
            } else if str_eq(id, "Result") {
                ts_first_exec(args, 0, "void")
            } else {
                owned(id)
            }
        },
        RustType::Reference(e) => ts_type(e),
        RustType::Slice(e) => {
            let inner = ts_type(e);
            let p = maybe_paren(inner.as_str());
            cat(p.as_str(), "[]")
        },
        RustType::Array(e) => {
            let inner = ts_type(e);
            let p = maybe_paren(inner.as_str());
            cat(p.as_str(), "[]")
        },
        RustType::Tuple(es) => {
            proof {
                assert(decreases_to!(ty => es));
                lemma_types_view(es@);
            }
            if es.len() == 0 {
                owned("void")
            } else {
                let inner = ts_list_exec(es);
                let mut r = owned("[");
                push_str(&mut r, inner.as_str());
                push_str(&mut r, "]");
                r
            }
        },
        RustType::Paren(e) => ts_type(e),
        RustType::Group(e) => ts_type(e),
        RustType::Other => owned("unknown"),
    }
}

/// Built-in TypeScript names, which need no import: the primitive names,
/// `Record`, `Array`, `char`, and any name without an alphabetic character.
pub open spec fn is_builtin_name(name: Seq<char>) -> bool {
    is_builtin_keyword(name) || forall|i: int| 0 <= i < name.len() ==> !is_alphabetic(#[trigger] name[i])
}

/// The TypeScript primitive names, with `Record`, `Array` and `char`.
pub open spec fn is_builtin_keyword(name: Seq<char>) -> bool {
    name == "string"@ || name == "number"@ || name == "boolean"@ || name == "void"@
        || name == "unknown"@ || name == "null"@ || name == "Record"@ || name == "Array"@
        || name == "char"@
}

/// Built-in TS type names that need no import.
pub fn is_builtin(name: &str) -> (r: bool)
    ensures
        r == is_builtin_name(name@),
{
    if str_eq(name, "string") || str_eq(name, "number") || str_eq(name, "boolean")
        || str_eq(name, "void") || str_eq(name, "unknown") || str_eq(name, "null")
        || str_eq(name, "Record") || str_eq(name, "Array") || str_eq(name, "char") {
        return true;
    }
    let v = chars_of(name);
    let mut i: usize = 0;
    while i < v.len()
        invariant
            v@ == name@,
            !is_builtin_keyword(name@),
            i <= v@.len(),
            forall|k: int| 0 <= k < i ==> !is_alphabetic(#[trigger] v@[k]),
        decreases v@.len() - i,
    {
        if char_is_alphabetic(v[i]) {
            assert(is_alphabetic(name@[i as int]));
            return false;
        }
        i += 1;
    }
    true
}

/// Type constructors whose arguments are searched for imports.
pub open spec fn is_container_name(id: Seq<char>) -> bool {
    id == "Option"@ || id == "Vec"@ || id == "VecDeque"@ || id == "HashSet"@ || id == "BTreeSet"@
        || id == "Box"@ || id == "Arc"@ || id == "Rc"@ || id == "Form"@ || id == "Result"@
        || id == "HashMap"@ || id == "BTreeMap"@ || id == "IndexMap"@
}

/// Primitive types, which are never imported.
pub open spec fn is_scalar_name(id: Seq<char>) -> bool {
    id == "String"@ || id == "str"@ || id == "char"@ || id == "bool"@ || is_number_name(id)
}

/// The named (non-built-in) types a Rust type refers to, whose TypeScript
/// declarations a generated file must import.
pub open spec fn imports(t: RType) -> Set<Seq<char>>
    decreases t, 1nat,
{
    match t {
        RType::Path(id, args) => {
            if is_container_name(id) {
                imports_list(args)
            } else if is_scalar_name(id) {
                Set::empty()
            } else if !is_builtin_name(id) {
                set![id]
            } else {
                Set::empty()
            }
        },
        RType::Reference(e) => imports(*e),
        RType::Slice(e) => imports(*e),
        RType::Array(e) => imports(*e),
        RType::Tuple(es) => imports_list(es),
        RType::Paren(e) => imports(*e),
        RType::Group(e) => imports(*e),
        RType::Other => Set::empty(),
    }
}

/// The imports of every type in `es`.
pub open spec fn imports_list(es: Seq<RType>) -> Set<Seq<char>>
    decreases es, 0nat,
{
    if es.len() == 0 {
        Set::empty()
    } else {
        imports(es[0]) + imports_list(es.drop_first())
    }
}

fn is_container_ident(id: &str) -> (r: bool)
    ensures
        r == is_container_name(id@),
{
    str_eq(id, "Option") || str_eq(id, "Vec") || str_eq(id, "VecDeque") || str_eq(id, "HashSet")
        || str_eq(id, "BTreeSet") || str_eq(id, "Box") || str_eq(id, "Arc") || str_eq(id, "Rc")
        || str_eq(id, "Form") || str_eq(id, "Result") || str_eq(id, "HashMap")
        || str_eq(id, "BTreeMap") || str_eq(id, "IndexMap")
}

#[verifier::loop_isolation(false)]
fn imports_of_list(es: &Vec<RustType>, out: &mut Vec<String>)
    requires
        strictly_sorted(views(old(out)@)),
    ensures
        strictly_sorted(views(final(out)@)),
        views(final(out)@).to_set() == views(old(out)@).to_set() + imports_list(types_view(es@)),
    decreases es, 0nat,
{
    proof {
        lemma_types_view(es@);
    }
    let n = es.len();
    let mut i = n;
    proof {
        assert(types_view(es@).skip(n as int) =~= Seq::<RType>::empty());
        assert(views(out@).to_set() =~= views(old(out)@).to_set() + Set::<Seq<char>>::empty());
    }
    while i > 0
        invariant
            i <= n,
            n == es@.len(),
            types_view(es@).len() == n,
            strictly_sorted(views(out@)),
            views(out@).to_set() == views(old(out)@).to_set() + imports_list(types_view(es@).skip(i as int)),
        decreases i,
    {
        proof {
            assert(decreases_to!(es => es@));
            assert(decreases_to!(es@ => es@[i - 1]));
        }
        let ghost before = views(out@).to_set();
        imports_of(&es[i - 1], out);
        proof {
            let s1 = types_view(es@).skip(i - 1);
            assert(s1[0] == type_view(es@[i - 1]));
            assert(s1.drop_first() =~= types_view(es@).skip(i as int));
            assert(views(out@).to_set() =~= views(old(out)@).to_set() + imports_list(s1));
        }
        i -= 1;
    }
    assert(types_view(es@).skip(0) =~= types_view(es@));
}

/// Collects into `out` the named (non-built-in) types referenced by `ty`:
/// the types whose TypeScript declarations a generated file imports. `out`
/// stays sorted, with nothing twice.
#[verifier::loop_isolation(false)]
pub fn imports_of(ty: &RustType, out: &mut Vec<String>)
    requires
        strictly_sorted(views(old(out)@)),
    ensures
        strictly_sorted(views(final(out)@)),
        views(final(out)@).to_set() == views(old(out)@).to_set() + imports(ty@),
    decreases ty, 1nat,
{
    match ty {
        RustType::Path { ident, args } => {
            proof {
                assert(decreases_to!(ty => args));
            }
            let id = ident.as_str();
            if is_container_ident(id) {
                imports_of_list(args, out);
            } else if str_eq(id, "String") || str_eq(id, "str") || str_eq(id, "char")
                || str_eq(id, "bool") || is_number_ident(id) {
                assert(views(out@).to_set() =~= views(old(out)@).to_set() + Set::<Seq<char>>::empty());
            } else if !is_builtin(id) {
                insert_sorted(out, owned(id));
                assert(views(old(out)@).to_set().insert(ident@) =~= views(old(out)@).to_set() + set![ident@]);
            } else {
                assert(views(out@).to_set() =~= views(old(out)@).to_set() + Set::<Seq<char>>::empty());
            }
        },
        RustType::Reference(e) => imports_of(e, out),
        RustType::Slice(e) => imports_of(e, out),
        RustType::Array(e) => imports_of(e, out),
        RustType::Tuple(es) => {
            proof {
                assert(decreases_to!(ty => es));
            }
            imports_of_list(es, out);
        },
        RustType::Paren(e) => imports_of(e, out),
        RustType::Group(e) => imports_of(e, out),
        RustType::Other => {
            assert(views(out@).to_set() =~= views(old(out)@).to_set() + Set::<Seq<char>>::empty());
        },
    }
}

} // verus!
