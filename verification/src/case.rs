//! Identifier case conversions, done by the `convert_case` crate and by std.
use vstd::prelude::*;
use convert_case::Casing;

verus! {

/// The `convert_case` cases this library converts identifiers to.
#[derive(PartialEq, Eq, Structural, Clone, Copy, Debug)]
pub enum CaseKind {
    /// `CreateDiscussion`.
    Pascal,
    /// `create_discussion`.
    Snake,
    /// `CREATE_DISCUSSION`.
    UpperSnake,
}

/// What `convert_case` makes of `s` in `case`: it splits `s` into words at
/// its boundaries and joins them in the case's pattern and delimiter.
pub uninterp spec fn case_converted(s: Seq<char>, case: CaseKind) -> Seq<char>;

/// `convert_case::Casing::to_case` on a `str`; its result is named by
/// `case_converted`.
#[verifier::external_body]
pub(crate) fn to_case(s: &str, case: CaseKind) -> (r: String)
    ensures
        r@ == case_converted(s@, case),
{
    let c = match case {
        CaseKind::Pascal => convert_case::Case::Pascal,
        CaseKind::Snake => convert_case::Case::Snake,
        CaseKind::UpperSnake => convert_case::Case::UpperSnake,
    };
    s.to_case(c)
}

/// The uppercase equivalent of `s`, as `str::to_uppercase` gives it.
pub uninterp spec fn upper_case(s: Seq<char>) -> Seq<char>;

/// std `str::to_uppercase`; its result is named by `upper_case`.
#[verifier::external_body]
pub(crate) fn to_uppercase(s: &str) -> (r: String)
    ensures
        r@ == upper_case(s@),
{
    s.to_uppercase()
}

} // verus!
