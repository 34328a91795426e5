//! The grammar of queries.
//!
//! A query is read from left to right. Where the grammar offers a choice,
//! the first alternative that fits is taken, and what has been taken is not
//! given up again: a word is matched as a prefix of what is left, so that
//! `i32x` begins with the built-in `i32`.

use crate::query::{
    Argument, ArgumentView, FnDecl, FnDeclView, FnRetTy, FnRetTyView, Function, FunctionView,
    GenericArg, GenericArgs, PrimitiveType, Qualifier, QualifierSet, Query, QueryKind, QueryView,
    Type, TypeView,
};
use crate::text::{chars_of, text_of};
use vstd::prelude::*;

verus! {

/// What a parser makes of a text from some position on: a value and the
/// position after it, or the position at which it gave up.
pub enum Parsed<T> {
    Done { value: T, next: int },
    Failed { at: int },
}

/// True of a blank, a tab, a carriage return and a line feed.
pub open spec fn is_space(c: char) -> bool {
    c == ' ' || c == '\t' || c == '\r' || c == '\n'
}

/// True of the upper case letters `A` to `Z`.
pub open spec fn is_upper(c: char) -> bool {
    'A' <= c <= 'Z'
}

/// True of the lower case letters `a` to `z`.
pub open spec fn is_lower(c: char) -> bool {
    'a' <= c <= 'z'
}

/// True of the digits `0` to `9`.
pub open spec fn is_digit(c: char) -> bool {
    '0' <= c <= '9'
}

/// True of the characters that a name may begin with.
pub open spec fn begins_name(c: char) -> bool {
    c == '_' || is_upper(c) || is_lower(c)
}

/// True of the characters that a name may go on with.
pub open spec fn continues_name(c: char) -> bool {
    begins_name(c) || is_digit(c)
}

/// True if the character at `p` is `c`.
pub open spec fn has_char(s: Seq<char>, p: int, c: char) -> bool {
    0 <= p < s.len() && s[p] == c
}

/// True if the text goes on with the word `t` at `p`.
pub open spec fn has_tag(s: Seq<char>, p: int, t: Seq<char>) -> bool {
    0 <= p && p + t.len() <= s.len() && s.subrange(p, p + t.len()) == t
}

/// The first position from `p` on that holds no space.
pub open spec fn skip_space(s: Seq<char>, p: int) -> int
    decreases s.len() - p,
{
    if 0 <= p < s.len() && is_space(s[p]) {
        skip_space(s, p + 1)
    } else {
        p
    }
}

/// The first position from `p` on that does not continue a name.
pub open spec fn name_end(s: Seq<char>, p: int) -> int
    decreases s.len() - p,
{
    if 0 <= p < s.len() && continues_name(s[p]) {
        name_end(s, p + 1)
    } else {
        p
    }
}

/// The first position from `p` on that holds no upper case letter.
pub open spec fn upper_end(s: Seq<char>, p: int) -> int
    decreases s.len() - p,
{
    if 0 <= p < s.len() && is_upper(s[p]) {
        upper_end(s, p + 1)
    } else {
        p
    }
}

/// The end of the white space after `p` lies between `p` and the end of
/// the text.
pub proof fn lemma_skip_space_bounds(s: Seq<char>, p: int)
    requires
        0 <= p <= s.len(),
    ensures
        p <= skip_space(s, p) <= s.len(),
        forall|i: int| p <= i < skip_space(s, p) ==> is_space(#[trigger] s[i]),
        skip_space(s, p) < s.len() ==> !is_space(s[skip_space(s, p)]),
        skip_space(s, skip_space(s, p)) == skip_space(s, p),
    decreases s.len() - p,
{
    if p < s.len() && is_space(s[p]) {
        lemma_skip_space_bounds(s, p + 1);
    }
}

/// A name at `p`: a letter or an underscore, and every letter, digit and
/// underscore that follows.
pub open spec fn symbol_p(s: Seq<char>, p: int) -> Parsed<Seq<char>> {
    if 0 <= p < s.len() && begins_name(s[p]) {
        Parsed::Done { value: s.subrange(p, name_end(s, p + 1)), next: name_end(s, p + 1) }
    } else {
        Parsed::Failed { at: p }
    }
}

/// A built-in at `p`. The words are tried in this order, so that `isize`
/// is found before `i8`.
pub open spec fn primitive_p(s: Seq<char>, p: int) -> Parsed<PrimitiveType> {
    if has_tag(s, p, "isize"@) {
        Parsed::Done { value: PrimitiveType::Isize, next: p + 5 }
    } else if has_tag(s, p, "i8"@) {
        Parsed::Done { value: PrimitiveType::I8, next: p + 2 }
    } else if has_tag(s, p, "i16"@) {
        Parsed::Done { value: PrimitiveType::I16, next: p + 3 }
    } else if has_tag(s, p, "i32"@) {
        Parsed::Done { value: PrimitiveType::I32, next: p + 3 }
    } else if has_tag(s, p, "i64"@) {
        Parsed::Done { value: PrimitiveType::I64, next: p + 3 }
    } else if has_tag(s, p, "i128"@) {
        Parsed::Done { value: PrimitiveType::I128, next: p + 4 }
    } else if has_tag(s, p, "usize"@) {
        Parsed::Done { value: PrimitiveType::Usize, next: p + 5 }
    } else if has_tag(s, p, "u8"@) {
        Parsed::Done { value: PrimitiveType::U8, next: p + 2 }
    } else if has_tag(s, p, "u16"@) {
        Parsed::Done { value: PrimitiveType::U16, next: p + 3 }
    } else if has_tag(s, p, "u32"@) {
        Parsed::Done { value: PrimitiveType::U32, next: p + 3 }
    } else if has_tag(s, p, "u64"@) {
        Parsed::Done { value: PrimitiveType::U64, next: p + 3 }
    } else if has_tag(s, p, "u128"@) {
        Parsed::Done { value: PrimitiveType::U128, next: p + 4 }
    } else if has_tag(s, p, "f32"@) {
        Parsed::Done { value: PrimitiveType::F32, next: p + 3 }
    } else if has_tag(s, p, "f64"@) {
        Parsed::Done { value: PrimitiveType::F64, next: p + 3 }
    } else if has_tag(s, p, "char"@) {
        Parsed::Done { value: PrimitiveType::Char, next: p + 4 }
    } else if has_tag(s, p, "bool"@) {
        Parsed::Done { value: PrimitiveType::Bool, next: p + 4 }
    } else if has_tag(s, p, "str"@) {
        Parsed::Done { value: PrimitiveType::Str, next: p + 3 }
    } else {
        Parsed::Failed { at: p }
    }
}

/// A generic at `p`: one or more upper case letters that no lower case
/// letter follows.
pub open spec fn generic_p(s: Seq<char>, p: int) -> Parsed<TypeView> {
    let end = upper_end(s, p);
    if !(0 <= p < end) {
        Parsed::Failed { at: p }
    } else if end < s.len() && is_lower(s[end]) {
        Parsed::Failed { at: end }
    } else {
        Parsed::Done { value: TypeView::Generic(s.subrange(p, end)), next: end }
    }
}

/// A type from `p` on, after any spaces: a built-in, a generic, a name
/// with its generic arguments if it has any, a tuple, a slice, `!`, a raw
/// pointer or a reference, tried in this order.
///
/// Where none fits, the parser gives up where the last of them did: at the
/// first character that is no space, or, after `&` or `&mut`, where the
/// type behind it gave up.
pub open spec fn type_p(s: Seq<char>, p: int) -> Parsed<TypeView>
    decreases s.len() - p, 2nat,
{
    if !(0 <= p <= s.len()) {
        Parsed::Failed { at: p }
    } else {
        let q = skip_space(s, p);
        if primitive_p(s, q) is Done {
            Parsed::Done {
                value: TypeView::Primitive(primitive_p(s, q)->value),
                next: primitive_p(s, q)->next,
            }
        } else if generic_p(s, q) is Done {
            generic_p(s, q)
        } else if symbol_p(s, q) is Done {
            let name = symbol_p(s, q)->value;
            let n = symbol_p(s, q)->next;
            if q < n <= s.len() {
                proof {
                    lemma_skip_space_bounds(s, p);
                }
                match generic_args_p(s, n) {
                    Parsed::Done { value, next } => Parsed::Done {
                        value: TypeView::UnresolvedPath { name, args: Some(value) },
                        next,
                    },
                    Parsed::Failed { .. } => Parsed::Done {
                        value: TypeView::UnresolvedPath { name, args: None },
                        next: n,
                    },
                }
            } else {
                Parsed::Failed { at: q }
            }
        } else if has_char(s, q, '(') {
            proof {
                lemma_skip_space_bounds(s, p);
            }
            let (items, n) = items_p(s, q + 1);
            if has_char(s, n, ')') {
                Parsed::Done { value: TypeView::Tuple(items), next: n + 1 }
            } else {
                Parsed::Failed { at: q }
            }
        } else if has_char(s, q, '[') {
            proof {
                lemma_skip_space_bounds(s, p);
            }
            match element_p(s, q + 1) {
                Parsed::Done { value, next } => if has_char(s, next, ']') {
                    Parsed::Done {
                        value: TypeView::Slice(
                            match value {
                                Some(t) => Some(Box::new(t)),
                                None => None,
                            },
                        ),
                        next: next + 1,
                    }
                } else {
                    Parsed::Failed { at: q }
                },
                Parsed::Failed { .. } => Parsed::Failed { at: q },
            }
        } else if has_char(s, q, '!') {
            Parsed::Done { value: TypeView::Never, next: q + 1 }
        } else if has_tag(s, q, "*mut"@) {
            proof {
                lemma_skip_space_bounds(s, p);
                reveal_strlit("*mut");
            }
            match type_p(s, q + 4) {
                Parsed::Done { value, next } => Parsed::Done {
                    value: TypeView::RawPointer { mutable: true, type_: Box::new(value) },
                    next,
                },
                Parsed::Failed { .. } => Parsed::Failed { at: q },
            }
        } else if has_tag(s, q, "*const"@) {
            proof {
                lemma_skip_space_bounds(s, p);
                reveal_strlit("*const");
            }
            match type_p(s, q + 6) {
                Parsed::Done { value, next } => Parsed::Done {
                    value: TypeView::RawPointer { mutable: false, type_: Box::new(value) },
                    next,
                },
                Parsed::Failed { .. } => Parsed::Failed { at: q },
            }
        } else if has_tag(s, q, "&mut"@) {
            proof {
                lemma_skip_space_bounds(s, p);
                reveal_strlit("&mut");
            }
            match type_p(s, q + 4) {
                Parsed::Done { value, next } => Parsed::Done {
                    value: TypeView::BorrowedRef { mutable: true, type_: Box::new(value) },
                    next,
                },
                Parsed::Failed { at } => Parsed::Failed { at },
            }
        } else if has_char(s, q, '&') {
            proof {
                lemma_skip_space_bounds(s, p);
            }
            match type_p(s, q + 1) {
                Parsed::Done { value, next } => Parsed::Done {
                    value: TypeView::BorrowedRef { mutable: false, type_: Box::new(value) },
                    next,
                },
                Parsed::Failed { at } => Parsed::Failed { at },
            }
        } else {
            Parsed::Failed { at: q }
        }
    }
}

/// The element of a slice at `p`: the wildcard `_` right there, or a
/// type.
pub open spec fn element_p(s: Seq<char>, p: int) -> Parsed<Option<TypeView>>
    decreases s.len() - p, 3nat,
{
    if has_char(s, p, '_') {
        Parsed::Done { value: None, next: p + 1 }
    } else {
        match type_p(s, p) {
            Parsed::Done { value, next } => Parsed::Done { value: Some(value), next },
            Parsed::Failed { at } => Parsed::Failed { at },
        }
    }
}

/// An element of a tuple from `p` on, after any spaces: the wildcard `_`,
/// or a type.
pub open spec fn item_p(s: Seq<char>, p: int) -> Parsed<Option<TypeView>>
    decreases s.len() - p, 3nat,
{
    if !(0 <= p <= s.len()) {
        Parsed::Failed { at: p }
    } else {
        let q = skip_space(s, p);
        if has_char(s, q, '_') {
            Parsed::Done { value: None, next: q + 1 }
        } else {
            proof {
                lemma_skip_space_bounds(s, p);
            }
            match type_p(s, q) {
                Parsed::Done { value, next } => Parsed::Done { value: Some(value), next },
                Parsed::Failed { at } => Parsed::Failed { at },
            }
        }
    }
}

/// The elements of a tuple from `p` on, with commas between them, as far
/// as they go, and the position after the last of them.
pub open spec fn items_p(s: Seq<char>, p: int) -> (Seq<Option<TypeView>>, int)
    decreases s.len() - p, 5nat,
{
    match item_p(s, p) {
        Parsed::Done { value, next } => if p < next <= s.len() {
            let (rest, end) = more_items_p(s, next);
            (seq![value] + rest, end)
        } else {
            (seq![value], next)
        },
        Parsed::Failed { .. } => (Seq::empty(), p),
    }
}

/// The elements that follow at `p`, each after a comma. A comma that no
/// element follows is not taken.
pub open spec fn more_items_p(s: Seq<char>, p: int) -> (Seq<Option<TypeView>>, int)
    decreases s.len() - p, 4nat,
{
    if has_char(s, p, ',') {
        match item_p(s, p + 1) {
            Parsed::Done { value, next } => if p < next <= s.len() {
                let (rest, end) = more_items_p(s, next);
                (seq![value] + rest, end)
            } else {
                (seq![value], next)
            },
            Parsed::Failed { .. } => (Seq::empty(), p),
        }
    } else {
        (Seq::empty(), p)
    }
}

/// A generic argument from `p` on, after any spaces: the wildcard `_`, a
/// type, or nothing at all, which counts as the wildcard.
pub open spec fn arg_p(s: Seq<char>, p: int) -> (Option<TypeView>, int)
    decreases s.len() - p, 3nat,
{
    if !(0 <= p <= s.len()) {
        (None, p)
    } else {
        let q = skip_space(s, p);
        if has_char(s, q, '_') {
            (None, q + 1)
        } else {
            proof {
                lemma_skip_space_bounds(s, p);
            }
            match type_p(s, q) {
                Parsed::Done { value, next } => (Some(value), next),
                Parsed::Failed { .. } => (None, q),
            }
        }
    }
}

/// The generic arguments that follow at `p`, each after a comma.
pub open spec fn more_args_p(s: Seq<char>, p: int) -> (Seq<Option<TypeView>>, int)
    decreases s.len() - p, 4nat,
{
    if has_char(s, p, ',') {
        let (value, next) = arg_p(s, p + 1);
        if p < next <= s.len() {
            let (rest, end) = more_args_p(s, next);
            (seq![value] + rest, end)
        } else {
            (seq![value], next)
        }
    } else {
        (Seq::empty(), p)
    }
}

/// A list of generic arguments in angle brackets at `p`. The list has at
/// least one argument: `<>` holds one wildcard.
pub open spec fn generic_args_p(s: Seq<char>, p: int) -> Parsed<Seq<Option<TypeView>>>
    decreases s.len() - p, 5nat,
{
    if has_char(s, p, '<') {
        let (first, next) = arg_p(s, p + 1);
        if p < next <= s.len() {
            let (rest, end) = more_args_p(s, next);
            if has_char(s, end, '>') {
                Parsed::Done { value: seq![first] + rest, next: end + 1 }
            } else {
                Parsed::Failed { at: end }
            }
        } else {
            Parsed::Failed { at: p }
        }
    } else {
        Parsed::Failed { at: p }
    }
}

/// A parameter with a colon at `p`: a name, the wildcard `_` or nothing
/// before the colon, and a type, the wildcard `_` or nothing after it and
/// any spaces.
pub open spec fn argument_p(s: Seq<char>, p: int) -> Parsed<ArgumentView> {
    let (name, n1) = if has_char(s, p, '_') {
        (None, p + 1)
    } else {
        match symbol_p(s, p) {
            Parsed::Done { value, next } => (Some(value), next),
            Parsed::Failed { .. } => (None, p),
        }
    };
    if has_char(s, n1, ':') {
        let n2 = skip_space(s, n1 + 1);
        if has_char(s, n2, '_') {
            Parsed::Done { value: ArgumentView { ty: None, name }, next: n2 + 1 }
        } else {
            match type_p(s, n2) {
                Parsed::Done { value, next } => Parsed::Done {
                    value: ArgumentView { ty: Some(value), name },
                    next,
                },
                Parsed::Failed { .. } => Parsed::Done {
                    value: ArgumentView { ty: None, name },
                    next: n2,
                },
            }
        }
    } else {
        Parsed::Failed { at: n1 }
    }
}

/// A parameter from `p` on, after any spaces: one with a colon, the
/// wildcard `_`, or a type alone. A name alone is read as a type.
pub open spec fn parameter_p(s: Seq<char>, p: int) -> Parsed<ArgumentView> {
    let q = skip_space(s, p);
    if argument_p(s, q) is Done {
        argument_p(s, q)
    } else if has_char(s, q, '_') {
        Parsed::Done { value: ArgumentView { ty: None, name: None }, next: q + 1 }
    } else {
        match type_p(s, q) {
            Parsed::Done { value, next } => Parsed::Done {
                value: ArgumentView { ty: Some(value), name: None },
                next,
            },
            Parsed::Failed { at } => Parsed::Failed { at },
        }
    }
}

/// The parameters that follow at `p`, each after a comma.
pub open spec fn more_parameters_p(s: Seq<char>, p: int) -> (Seq<ArgumentView>, int)
    decreases s.len() - p,
{
    if has_char(s, p, ',') {
        match parameter_p(s, p + 1) {
            Parsed::Done { value, next } => if p < next <= s.len() {
                let (rest, end) = more_parameters_p(s, next);
                (seq![value] + rest, end)
            } else {
                (seq![value], next)
            },
            Parsed::Failed { .. } => (Seq::empty(), p),
        }
    } else {
        (Seq::empty(), p)
    }
}

/// The parameters from `p` on, with commas between them, as far as they
/// go.
pub open spec fn parameters_p(s: Seq<char>, p: int) -> (Seq<ArgumentView>, int) {
    match parameter_p(s, p) {
        Parsed::Done { value, next } => {
            let (rest, end) = more_parameters_p(s, next);
            (seq![value] + rest, end)
        },
        Parsed::Failed { .. } => (Seq::empty(), p),
    }
}

/// A return clause from `p` on, after any spaces: `->` and `()` for the
/// unit return, `->` and a type, or the end of the text, which stands for
/// the unit return too.
pub open spec fn output_p(s: Seq<char>, p: int) -> Parsed<FnRetTyView> {
    let q = skip_space(s, p);
    if has_tag(s, q, "->"@) {
        let r = skip_space(s, q + 2);
        if has_tag(s, r, "()"@) {
            Parsed::Done { value: FnRetTyView::DefaultReturn, next: r + 2 }
        } else {
            match type_p(s, q + 2) {
                Parsed::Done { value, next } => Parsed::Done {
                    value: FnRetTyView::Return(value),
                    next,
                },
                Parsed::Failed { .. } => Parsed::Failed { at: q },
            }
        }
    } else if q == s.len() {
        Parsed::Done { value: FnRetTyView::DefaultReturn, next: q }
    } else {
        Parsed::Failed { at: q }
    }
}

/// A declaration at `p`: parameters in round brackets, where `..` stands
/// for any parameters, and a return clause if one follows.
pub open spec fn decl_p(s: Seq<char>, p: int) -> Parsed<FnDeclView> {
    if has_char(s, p, '(') {
        let (inputs, n) = if has_tag(s, p + 1, ".."@) {
            (None, p + 3)
        } else {
            (Some(parameters_p(s, p + 1).0), parameters_p(s, p + 1).1)
        };
        if has_char(s, n, ')') {
            match output_p(s, n + 1) {
                Parsed::Done { value, next } => Parsed::Done {
                    value: FnDeclView { inputs, output: Some(value) },
                    next,
                },
                Parsed::Failed { .. } => Parsed::Done {
                    value: FnDeclView { inputs, output: None },
                    next: n + 1,
                },
            }
        } else {
            Parsed::Failed { at: n }
        }
    } else {
        Parsed::Failed { at: p }
    }
}

/// The word before a function at `q`, if there is one, with the qualifier
/// that it stands for, if any, and the position after it.
pub open spec fn qualifier_word_p(s: Seq<char>, q: int) -> Option<(Option<Qualifier>, int)> {
    if has_tag(s, q, "pub"@) {
        Some((None, q + 3))
    } else if has_tag(s, q, "async"@) {
        Some((Some(Qualifier::Async), q + 5))
    } else if has_tag(s, q, "unsafe"@) {
        Some((Some(Qualifier::Unsafe), q + 6))
    } else if has_tag(s, q, "extern"@) {
        Some((None, q + 6))
    } else if has_tag(s, q, "const"@) {
        Some((Some(Qualifier::Const), q + 5))
    } else if has_tag(s, q, "fn"@) {
        Some((None, q + 2))
    } else {
        None
    }
}

/// The qualifiers among the words from `p` on, each word after any spaces,
/// and the position after the last word.
pub open spec fn qualifiers_p(s: Seq<char>, p: int) -> (Set<Qualifier>, int)
    decreases s.len() - p,
{
    match qualifier_word_p(s, skip_space(s, p)) {
        Some((word, next)) => if p < next <= s.len() {
            let (rest, end) = qualifiers_p(s, next);
            (
                match word {
                    Some(q) => rest.insert(q),
                    None => rest,
                },
                end,
            )
        } else {
            (Set::empty(), p)
        },
        None => (Set::empty(), p),
    }
}

/// A query, and the position up to which the text was read.
///
/// The words before the function come first, after any spaces. A name
/// follows only after at least one space. The declaration may follow after
/// any spaces; only with a declaration do the qualifiers count. Each part
/// may be missing, so that every text gives a query.
pub open spec fn query_p(s: Seq<char>) -> (QueryView, int) {
    let (qualifiers, after_words) = qualifiers_p(s, skip_space(s, 0));
    let a = skip_space(s, after_words);
    let (name, after_name) = if a > after_words {
        match symbol_p(s, a) {
            Parsed::Done { value, next } => (Some(value), next),
            Parsed::Failed { .. } => (None, after_words),
        }
    } else {
        (None, after_words)
    };
    match decl_p(s, skip_space(s, after_name)) {
        Parsed::Done { value, next } => (
            QueryView { name, kind: Some(FunctionView { decl: value, qualifiers }) },
            next,
        ),
        Parsed::Failed { .. } => (QueryView { name, kind: None }, after_name),
    }
}

/// A return clause that is written `-> ()` is the unit return.
pub proof fn written_unit_return(s: Seq<char>, p: int)
    requires
        has_tag(s, skip_space(s, p), "->"@),
        has_tag(s, skip_space(s, skip_space(s, p) + 2), "()"@),
    ensures
        output_p(s, p) matches Parsed::Done { value, .. } && value == FnRetTyView::DefaultReturn,
{
}

/// A return clause that is left out at the end of the text is the unit
/// return.
pub proof fn missing_unit_return(s: Seq<char>, p: int)
    requires
        skip_space(s, p) == s.len(),
    ensures
        output_p(s, p) matches Parsed::Done { value, .. } && value == FnRetTyView::DefaultReturn,
{
    reveal_strlit("->");
}

/// The views of a list of optional types.
pub open spec fn option_views(v: Seq<Option<Type>>) -> Seq<Option<TypeView>> {
    Seq::new(
        v.len(),
        |i: int|
            match v[i] {
                Some(t) => Some(t@),
                None => None,
            },
    )
}

/// The views of a list of generic arguments.
pub open spec fn arg_views(v: Seq<Option<GenericArg>>) -> Seq<Option<TypeView>> {
    Seq::new(
        v.len(),
        |i: int|
            match v[i] {
                Some(GenericArg::Type(t)) => Some(t@),
                None => None,
            },
    )
}

proof fn lemma_tuple_view(v: Vec<Option<Type>>)
    ensures
        Type::Tuple(v)@ == TypeView::Tuple(option_views(v@)),
{
    assert(Type::Tuple(v)@->Tuple_0 =~= option_views(v@));
}

proof fn lemma_args_view(v: Vec<Option<GenericArg>>)
    ensures
        (GenericArgs::AngleBracketed { args: v })@ == arg_views(v@),
{
}

proof fn lemma_tags()
    ensures
        "isize"@.len() == 5,
        "i8"@.len() == 2,
        "i16"@.len() == 3,
        "i32"@.len() == 3,
        "i64"@.len() == 3,
        "i128"@.len() == 4,
        "usize"@.len() == 5,
        "u8"@.len() == 2,
        "u16"@.len() == 3,
        "u32"@.len() == 3,
        "u64"@.len() == 3,
        "u128"@.len() == 4,
        "f32"@.len() == 3,
        "f64"@.len() == 3,
        "char"@.len() == 4,
        "bool"@.len() == 4,
        "str"@.len() == 3,
        "*mut"@.len() == 4,
        "*const"@.len() == 6,
        "&mut"@.len() == 4,
        ".."@.len() == 2,
        "->"@.len() == 2,
        "()"@.len() == 2,
        "pub"@.len() == 3,
        "async"@.len() == 5,
        "unsafe"@.len() == 6,
        "extern"@.len() == 6,
        "const"@.len() == 5,
        "fn"@.len() == 2,
{
    reveal_strlit("isize");
    reveal_strlit("i8");
    reveal_strlit("i16");
    reveal_strlit("i32");
    reveal_strlit("i64");
    reveal_strlit("i128");
    reveal_strlit("usize");
    reveal_strlit("u8");
    reveal_strlit("u16");
    reveal_strlit("u32");
    reveal_strlit("u64");
    reveal_strlit("u128");
    reveal_strlit("f32");
    reveal_strlit("f64");
    reveal_strlit("char");
    reveal_strlit("bool");
    reveal_strlit("str");
    reveal_strlit("*mut");
    reveal_strlit("*const");
    reveal_strlit("&mut");
    reveal_strlit("..");
    reveal_strlit("->");
    reveal_strlit("()");
    reveal_strlit("pub");
    reveal_strlit("async");
    reveal_strlit("unsafe");
    reveal_strlit("extern");
    reveal_strlit("const");
    reveal_strlit("fn");
}

/// The first position from `p` on that holds no space.
fn skip_spaces(chars: &[char], p: usize) -> (q: usize)
    requires
        p <= chars@.len(),
    ensures
        q == skip_space(chars@, p as int),
        p <= q <= chars@.len(),
{
    let mut q = p;
    while q < chars.len() && (chars[q] == ' ' || chars[q] == '\t' || chars[q] == '\r' || chars[q]
        == '\n')
        invariant
            p <= q <= chars@.len(),
            skip_space(chars@, p as int) == skip_space(chars@, q as int),
        decreases chars@.len() - q,
    {
        q = q + 1;
    }
    q
}

fn is_name_start(c: char) -> (r: bool)
    ensures
        r == begins_name(c),
{
    c == '_' || ('A' <= c && c <= 'Z') || ('a' <= c && c <= 'z')
}

fn is_name_part(c: char) -> (r: bool)
    ensures
        r == continues_name(c),
{
    is_name_start(c) || ('0' <= c && c <= '9')
}

/// True if the character at `p` is `c`.
fn at_char(chars: &[char], p: usize, c: char) -> (r: bool)
    ensures
        r == has_char(chars@, p as int, c),
        r ==> p < usize::MAX,
{
    p < chars.len() && chars[p] == c
}

/// The position after the word `tag` at `p`, if the text goes on with it.
fn after_tag(chars: &[char], p: usize, tag: &str) -> (r: Option<usize>)
    ensures
        match r {
            Some(n) => has_tag(chars@, p as int, tag@) && n == p + tag@.len(),
            None => !has_tag(chars@, p as int, tag@),
        },
{
    let word = chars_of(tag);
    let total = chars.len();
    if p > chars.len() || word.len() > chars.len() - p {
        return None;
    }
    let mut i: usize = 0;
    while i < word.len()
        invariant
            i <= word.len(),
            word@ == tag@,
            total == chars@.len(),
            p + word.len() <= chars@.len(),
            forall|j: int| 0 <= j < i ==> chars@[p + j] == word@[j],
        decreases word.len() - i,
    {
        if chars[p + i] != word[i] {
            return None;
        }
        i = i + 1;
    }
    assert(chars@.subrange(p as int, p + tag@.len()) =~= tag@);
    Some(p + word.len())
}

/// A name at `p`.
fn symbol_at(chars: &[char], p: usize) -> (r: Option<(String, usize)>)
    requires
        p <= chars@.len(),
    ensures
        match symbol_p(chars@, p as int) {
            Parsed::Done { value, next } => r matches Some((name, n)) && name@ == value && n
                == next && p < n <= chars@.len(),
            Parsed::Failed { .. } => r is None,
        },
{
    if p < chars.len() && is_name_start(chars[p]) {
        let mut end = p + 1;
        while end < chars.len() && is_name_part(chars[end])
            invariant
                p < end <= chars@.len(),
                name_end(chars@, p + 1) == name_end(chars@, end as int),
            decreases chars@.len() - end,
        {
            end = end + 1;
        }
        Some((text_of(chars, p, end), end))
    } else {
        None
    }
}

/// A built-in at `p`.
fn primitive_at(chars: &[char], p: usize) -> (r: Option<(PrimitiveType, usize)>)
    requires
        p <= chars@.len(),
    ensures
        match primitive_p(chars@, p as int) {
            Parsed::Done { value, next } => r matches Some((v, n)) && v == value && n == next
                && p < n <= chars@.len(),
            Parsed::Failed { .. } => r is None,
        },
{
    proof {
        lemma_tags();
    }
    if let Some(n) = after_tag(chars, p, "isize") {
        Some((PrimitiveType::Isize, n))
    } else if let Some(n) = after_tag(chars, p, "i8") {
        Some((PrimitiveType::I8, n))
    } else if let Some(n) = after_tag(chars, p, "i16") {
        Some((PrimitiveType::I16, n))
    } else if let Some(n) = after_tag(chars, p, "i32") {
        Some((PrimitiveType::I32, n))
    } else if let Some(n) = after_tag(chars, p, "i64") {
        Some((PrimitiveType::I64, n))
    } else if let Some(n) = after_tag(chars, p, "i128") {
        Some((PrimitiveType::I128, n))
    } else if let Some(n) = after_tag(chars, p, "usize") {
        Some((PrimitiveType::Usize, n))
    } else if let Some(n) = after_tag(chars, p, "u8") {
        Some((PrimitiveType::U8, n))
    } else if let Some(n) = after_tag(chars, p, "u16") {
        Some((PrimitiveType::U16, n))
    } else if let Some(n) = after_tag(chars, p, "u32") {
        Some((PrimitiveType::U32, n))
    } else if let Some(n) = after_tag(chars, p, "u64") {
        Some((PrimitiveType::U64, n))
    } else if let Some(n) = after_tag(chars, p, "u128") {
        Some((PrimitiveType::U128, n))
    } else if let Some(n) = after_tag(chars, p, "f32") {
        Some((PrimitiveType::F32, n))
    } else if let Some(n) = after_tag(chars, p, "f64") {
        Some((PrimitiveType::F64, n))
    } else if let Some(n) = after_tag(chars, p, "char") {
        Some((PrimitiveType::Char, n))
    } else if let Some(n) = after_tag(chars, p, "bool") {
        Some((PrimitiveType::Bool, n))
    } else if let Some(n) = after_tag(chars, p, "str") {
        Some((PrimitiveType::Str, n))
    } else {
        None
    }
}

/// A generic at `p`.
fn generic_at(chars: &[char], p: usize) -> (r: Option<(Type, usize)>)
    requires
        p <= chars@.len(),
    ensures
        match generic_p(chars@, p as int) {
            Parsed::Done { value, next } => r matches Some((t, n)) && t@ == value && n == next
                && p < n <= chars@.len(),
            Parsed::Failed { .. } => r is None,
        },
{
    let mut end = p;
    while end < chars.len() && 'A' <= chars[end] && chars[end] <= 'Z'
        invariant
            p <= end <= chars@.len(),
            upper_end(chars@, p as int) == upper_end(chars@, end as int),
        decreases chars@.len() - end,
    {
        end = end + 1;
    }
    if end == p {
        None
    } else if end < chars.len() && 'a' <= chars[end] && chars[end] <= 'z' {
        None
    } else {
        Some((Type::Generic(text_of(chars, p, end)), end))
    }
}

/// A type from `p` on.
pub fn type_at(chars: &[char], p: usize) -> (r: Result<(Type, usize), usize>)
    requires
        p <= chars@.len(),
    ensures
        match type_p(chars@, p as int) {
            Parsed::Done { value, next } => r matches Ok((t, n)) && t@ == value && n == next && p
                < n <= chars@.len(),
            Parsed::Failed { at } => r matches Err(e) && e == at,
        },
    decreases chars@.len() - p, 2nat,
{
    proof {
        lemma_tags();
    }
    let q = skip_spaces(chars, p);
    if let Some((prim, n)) = primitive_at(chars, q) {
        return Ok((Type::Primitive(prim), n));
    }
    if let Some((generic, n)) = generic_at(chars, q) {
        return Ok((generic, n));
    }
    if let Some((name, n)) = symbol_at(chars, q) {
        return match generic_args_at(chars, n) {
            Ok((args, m)) => Ok((Type::UnresolvedPath { name, args: Some(Box::new(args)) }, m)),
            Err(_) => Ok((Type::UnresolvedPath { name, args: None }, n)),
        };
    }
    if at_char(chars, q, '(') {
        let (items, n) = items_at(chars, q + 1);
        if at_char(chars, n, ')') {
            proof {
                lemma_tuple_view(items);
            }
            return Ok((Type::Tuple(items), n + 1));
        }
        return Err(q);
    }
    if at_char(chars, q, '[') {
        let element = if at_char(chars, q + 1, '_') {
            Ok((None, q + 2))
        } else {
            match type_at(chars, q + 1) {
                Ok((t, n)) => Ok((Some(Box::new(t)), n)),
                Err(e) => Err(e),
            }
        };
        return match element {
            Ok((inner, n)) => {
                assert((match inner {
                    Some(b) => Some(b@),
                    None => None,
                }) == element_p(chars@, q + 1)->value);
                if at_char(chars, n, ']') {
                    Ok((Type::Slice(inner), n + 1))
                } else {
                    Err(q)
                }
            },
            Err(_) => Err(q),
        };
    }
    if at_char(chars, q, '!') {
        return Ok((Type::Never, q + 1));
    }
    if let Some(n) = after_tag(chars, q, "*mut") {
        return match type_at(chars, n) {
            Ok((t, m)) => Ok((Type::RawPointer { mutable: true, type_: Box::new(t) }, m)),
            Err(_) => Err(q),
        };
    }
    if let Some(n) = after_tag(chars, q, "*const") {
        return match type_at(chars, n) {
            Ok((t, m)) => Ok((Type::RawPointer { mutable: false, type_: Box::new(t) }, m)),
            Err(_) => Err(q),
        };
    }
    if let Some(n) = after_tag(chars, q, "&mut") {
        return match type_at(chars, n) {
            Ok((t, m)) => Ok((Type::BorrowedRef { mutable: true, type_: Box::new(t) }, m)),
            Err(e) => Err(e),
        };
    }
    if at_char(chars, q, '&') {
        return match type_at(chars, q + 1) {
            Ok((t, m)) => Ok((Type::BorrowedRef { mutable: false, type_: Box::new(t) }, m)),
            Err(e) => Err(e),
        };
    }
    Err(q)
}

/// An element of a tuple from `p` on.
fn item_at(chars: &[char], p: usize) -> (r: Result<(Option<Type>, usize), usize>)
    requires
        p <= chars@.len(),
    ensures
        match item_p(chars@, p as int) {
            Parsed::Done { value, next } => r matches Ok((t, n)) && (match t {
                Some(x) => Some(x@),
                None => None,
            }) == value && n == next && p < n <= chars@.len(),
            Parsed::Failed { at } => r matches Err(e) && e == at,
        },
    decreases chars@.len() - p, 3nat,
{
    let q = skip_spaces(chars, p);
    if at_char(chars, q, '_') {
        Ok((None, q + 1))
    } else {
        match type_at(chars, q) {
            Ok((t, n)) => Ok((Some(t), n)),
            Err(e) => Err(e),
        }
    }
}

/// The elements of a tuple from `p` on.
fn items_at(chars: &[char], p: usize) -> (r: (Vec<Option<Type>>, usize))
    requires
        p <= chars@.len(),
    ensures
        option_views(r.0@) == items_p(chars@, p as int).0,
        r.1 == items_p(chars@, p as int).1,
        p <= r.1 <= chars@.len(),
    decreases chars@.len() - p, 5nat,
{
    let mut items: Vec<Option<Type>> = Vec::new();
    let mut at = match item_at(chars, p) {
        Ok((first, n)) => {
            items.push(first);
            n
        },
        Err(_) => {
            return (items, p);
        },
    };
    let ghost whole = items_p(chars@, p as int);
    loop
        invariant
            p < at <= chars@.len(),
            whole == items_p(chars@, p as int),
            option_views(items@) + more_items_p(chars@, at as int).0 == whole.0,
            more_items_p(chars@, at as int).1 == whole.1,
        ensures
            option_views(items@) == whole.0,
            at == whole.1,
            p <= at <= chars@.len(),
        decreases chars@.len() - at,
    {
        if !at_char(chars, at, ',') {
            break ;
        }
        match item_at(chars, at + 1) {
            Ok((next, n)) => {
                items.push(next);
                at = n;
            },
            Err(_) => {
                break ;
            },
        }
    }
    (items, at)
}

/// A generic argument from `p` on.
fn arg_at(chars: &[char], p: usize) -> (r: (Option<GenericArg>, usize))
    requires
        p <= chars@.len(),
    ensures
        (match r.0 {
            Some(GenericArg::Type(t)) => Some(t@),
            None => None,
        }) == arg_p(chars@, p as int).0,
        r.1 == arg_p(chars@, p as int).1,
        p <= r.1 <= chars@.len(),
    decreases chars@.len() - p, 3nat,
{
    let q = skip_spaces(chars, p);
    if at_char(chars, q, '_') {
        (None, q + 1)
    } else {
        match type_at(chars, q) {
            Ok((t, n)) => (Some(GenericArg::Type(t)), n),
            Err(_) => (None, q),
        }
    }
}

/// A list of generic arguments in angle brackets at `p`.
fn generic_args_at(chars: &[char], p: usize) -> (r: Result<(GenericArgs, usize), usize>)
    requires
        p <= chars@.len(),
    ensures
        match generic_args_p(chars@, p as int) {
            Parsed::Done { value, next } => r matches Ok((args, n)) && args@ == value && n == next
                && p < n <= chars@.len(),
            Parsed::Failed { at } => r matches Err(e) && e == at,
        },
    decreases chars@.len() - p, 5nat,
{
    if !at_char(chars, p, '<') {
        return Err(p);
    }
    let mut args: Vec<Option<GenericArg>> = Vec::new();
    let (first, start) = arg_at(chars, p + 1);
    args.push(first);
    let mut at = start;
    let ghost whole = more_args_p(chars@, start as int);
    let ghost head = arg_views(args@);
    loop
        invariant
            p < at <= chars@.len(),
            whole == more_args_p(chars@, start as int),
            arg_views(args@) + more_args_p(chars@, at as int).0 == head + whole.0,
            more_args_p(chars@, at as int).1 == whole.1,
        ensures
            arg_views(args@) == head + whole.0,
            at == whole.1,
            p < at <= chars@.len(),
        decreases chars@.len() - at,
    {
        if !at_char(chars, at, ',') {
            break ;
        }
        let (next, n) = arg_at(chars, at + 1);
        args.push(next);
        at = n;
    }
    if at_char(chars, at, '>') {
        proof {
            lemma_args_view(args);
        }
        Ok((GenericArgs::AngleBracketed { args }, at + 1))
    } else {
        Err(at)
    }
}

/// A parameter with a colon at `p`.
fn argument_at(chars: &[char], p: usize) -> (r: Result<(Argument, usize), usize>)
    requires
        p <= chars@.len(),
    ensures
        match argument_p(chars@, p as int) {
            Parsed::Done { value, next } => r matches Ok((a, n)) && a@ == value && n == next && p
                < n <= chars@.len(),
            Parsed::Failed { at } => r matches Err(e) && e == at,
        },
{
    let (name, n1) = if at_char(chars, p, '_') {
        (None, p + 1)
    } else {
        match symbol_at(chars, p) {
            Some((name, n)) => (Some(name), n),
            None => (None, p),
        }
    };
    if !at_char(chars, n1, ':') {
        return Err(n1);
    }
    let n2 = skip_spaces(chars, n1 + 1);
    if at_char(chars, n2, '_') {
        Ok((Argument { ty: None, name }, n2 + 1))
    } else {
        match type_at(chars, n2) {
            Ok((t, n)) => Ok((Argument { ty: Some(t), name }, n)),
            Err(_) => Ok((Argument { ty: None, name }, n2)),
        }
    }
}

/// A parameter from `p` on.
fn parameter_at(chars: &[char], p: usize) -> (r: Result<(Argument, usize), usize>)
    requires
        p <= chars@.len(),
    ensures
        match parameter_p(chars@, p as int) {
            Parsed::Done { value, next } => r matches Ok((a, n)) && a@ == value && n == next && p
                < n <= chars@.len(),
            Parsed::Failed { at } => r matches Err(e) && e == at,
        },
{
    let q = skip_spaces(chars, p);
    if let Ok(found) = argument_at(chars, q) {
        return Ok(found);
    }
    if at_char(chars, q, '_') {
        return Ok((Argument { ty: None, name: None }, q + 1));
    }
    match type_at(chars, q) {
        Ok((t, n)) => Ok((Argument { ty: Some(t), name: None }, n)),
        Err(e) => Err(e),
    }
}

/// The views of a list of parameters.
pub open spec fn argument_views(v: Seq<Argument>) -> Seq<ArgumentView> {
    v.map_values(|a: Argument| a@)
}

/// The parameters from `p` on.
fn parameters_at(chars: &[char], p: usize) -> (r: (Vec<Argument>, usize))
    requires
        p <= chars@.len(),
    ensures
        argument_views(r.0@) == parameters_p(chars@, p as int).0,
        r.1 == parameters_p(chars@, p as int).1,
        p <= r.1 <= chars@.len(),
{
    let mut items: Vec<Argument> = Vec::new();
    let mut at = match parameter_at(chars, p) {
        Ok((first, n)) => {
            items.push(first);
            n
        },
        Err(_) => {
            return (items, p);
        },
    };
    let ghost whole = parameters_p(chars@, p as int);
    loop
        invariant
            p < at <= chars@.len(),
            whole == parameters_p(chars@, p as int),
            argument_views(items@) + more_parameters_p(chars@, at as int).0 == whole.0,
            more_parameters_p(chars@, at as int).1 == whole.1,
        ensures
            argument_views(items@) == whole.0,
            at == whole.1,
            p <= at <= chars@.len(),
        decreases chars@.len() - at,
    {
        if !at_char(chars, at, ',') {
            break ;
        }
        match parameter_at(chars, at + 1) {
            Ok((next, n)) => {
                items.push(next);
                at = n;
            },
            Err(_) => {
                break ;
            },
        }
    }
    (items, at)
}

/// A return clause from `p` on.
fn output_at(chars: &[char], p: usize) -> (r: Result<(FnRetTy, usize), usize>)
    requires
        p <= chars@.len(),
    ensures
        match output_p(chars@, p as int) {
            Parsed::Done { value, next } => r matches Ok((o, n)) && o@ == value && n == next && p
                <= n <= chars@.len(),
            Parsed::Failed { at } => r matches Err(e) && e == at,
        },
{
    proof {
        lemma_tags();
    }
    let total = chars.len();
    let q = skip_spaces(chars, p);
    if let Some(after_arrow) = after_tag(chars, q, "->") {
        let r = skip_spaces(chars, after_arrow);
        if let Some(n) = after_tag(chars, r, "()") {
            return Ok((FnRetTy::DefaultReturn, n));
        }
        return match type_at(chars, after_arrow) {
            Ok((t, n)) => Ok((FnRetTy::Return(t), n)),
            Err(_) => Err(q),
        };
    }
    if q == total {
        Ok((FnRetTy::DefaultReturn, q))
    } else {
        Err(q)
    }
}

/// A declaration at `p`.
pub fn decl_at(chars: &[char], p: usize) -> (r: Result<(FnDecl, usize), usize>)
    requires
        p <= chars@.len(),
    ensures
        match decl_p(chars@, p as int) {
            Parsed::Done { value, next } => r matches Ok((d, n)) && d@ == value && n == next && p
                < n <= chars@.len(),
            Parsed::Failed { at } => r matches Err(e) && e == at,
        },
{
    proof {
        lemma_tags();
    }
    if !at_char(chars, p, '(') {
        return Err(p);
    }
    let (inputs, n) = match after_tag(chars, p + 1, "..") {
        Some(n) => (None, n),
        None => {
            let (items, n) = parameters_at(chars, p + 1);
            (Some(items), n)
        },
    };
    if !at_char(chars, n, ')') {
        return Err(n);
    }
    match output_at(chars, n + 1) {
        Ok((output, m)) => Ok((FnDecl { inputs, output: Some(output) }, m)),
        Err(_) => Ok((FnDecl { inputs, output: None }, n + 1)),
    }
}

/// The word before a function at `q`.
fn qualifier_word_at(chars: &[char], q: usize) -> (r: Option<(Option<Qualifier>, usize)>)
    requires
        q <= chars@.len(),
    ensures
        match qualifier_word_p(chars@, q as int) {
            Some((word, next)) => r matches Some((w, n)) && w == word && n == next && q < n
                <= chars@.len(),
            None => r is None,
        },
{
    proof {
        lemma_tags();
    }
    if let Some(n) = after_tag(chars, q, "pub") {
        Some((None, n))
    } else if let Some(n) = after_tag(chars, q, "async") {
        Some((Some(Qualifier::Async), n))
    } else if let Some(n) = after_tag(chars, q, "unsafe") {
        Some((Some(Qualifier::Unsafe), n))
    } else if let Some(n) = after_tag(chars, q, "extern") {
        Some((None, n))
    } else if let Some(n) = after_tag(chars, q, "const") {
        Some((Some(Qualifier::Const), n))
    } else if let Some(n) = after_tag(chars, q, "fn") {
        Some((None, n))
    } else {
        None
    }
}

/// The qualifiers among the words from `p` on.
fn qualifiers_at(chars: &[char], p: usize) -> (r: (QualifierSet, usize))
    requires
        p <= chars@.len(),
    ensures
        r.0@ == qualifiers_p(chars@, p as int).0,
        r.1 == qualifiers_p(chars@, p as int).1,
        p <= r.1 <= chars@.len(),
{
    let mut found = QualifierSet::new();
    let mut at = p;
    let ghost whole = qualifiers_p(chars@, p as int);
    loop
        invariant
            p <= at <= chars@.len(),
            whole == qualifiers_p(chars@, p as int),
            found@.union(qualifiers_p(chars@, at as int).0) == whole.0,
            qualifiers_p(chars@, at as int).1 == whole.1,
        ensures
            found@ == whole.0,
            at == whole.1,
            p <= at <= chars@.len(),
        decreases chars@.len() - at,
    {
        let q = skip_spaces(chars, at);
        match qualifier_word_at(chars, q) {
            Some((word, n)) => {
                if let Some(w) = word {
                    found.insert(w);
                }
                proof {
                    match word {
                        Some(w) => {
                        },
                        None => {},
                    }
                }
                at = n;
            },
            None => {
                break ;
            },
        }
    }
    (found, at)
}

/// Where a text is not what was asked for.
#[derive(Debug, Clone, Copy, PartialEq, Eq)]
pub struct ParseError {
    /// The position, counted in characters, at which the parser gave up.
    pub position: usize,
}

/// Reads a query. Every text gives a query; what could not be read is
/// handed back.
pub fn parse_query(text: &str) -> (r: Result<(String, Query), ParseError>)
    ensures
        r matches Ok((rest, query)) && query@ == query_p(text@).0 && 0 <= query_p(text@).1
            <= text@.len() && rest@ == text@.subrange(query_p(text@).1, text@.len() as int),
{
    let chars = chars_of(text);
    let chars = chars.as_slice();
    let total = chars.len();
    let start = skip_spaces(chars, 0);
    let (qualifiers, after_words) = qualifiers_at(chars, start);
    let a = skip_spaces(chars, after_words);
    let (name, after_name) = if a > after_words {
        match symbol_at(chars, a) {
            Some((name, n)) => (Some(name), n),
            None => (None, after_words),
        }
    } else {
        (None, after_words)
    };
    let b = skip_spaces(chars, after_name);
    match decl_at(chars, b) {
        Ok((decl, n)) => {
            let query = Query {
                name,
                kind: Some(QueryKind::FunctionQuery(Function { decl, qualifiers })),
            };
            Ok((text_of(chars, n, total), query))
        },
        Err(_) => {
            let query = Query { name, kind: None };
            Ok((text_of(chars, after_name, total), query))
        },
    }
}

/// Reads a type at the beginning of `text`, and hands back what follows
/// it.
pub fn parse_type(text: &str) -> (r: Result<(String, Type), ParseError>)
    ensures
        match type_p(text@, 0) {
            Parsed::Done { value, next } => r matches Ok((rest, t)) && t@ == value && 0 <= next
                <= text@.len() && rest@ == text@.subrange(next, text@.len() as int),
            Parsed::Failed { at } => r matches Err(e) && e.position == at,
        },
{
    let chars = chars_of(text);
    let chars = chars.as_slice();
    match type_at(chars, 0) {
        Ok((t, n)) => Ok((text_of(chars, n, chars.len()), t)),
        Err(position) => Err(ParseError { position }),
    }
}

/// Reads a declaration at the beginning of `text`, and hands back what
/// follows it.
pub fn parse_function_decl(text: &str) -> (r: Result<(String, FnDecl), ParseError>)
    ensures
        match decl_p(text@, 0) {
            Parsed::Done { value, next } => r matches Ok((rest, d)) && d@ == value && 0 <= next
                <= text@.len() && rest@ == text@.subrange(next, text@.len() as int),
            Parsed::Failed { at } => r matches Err(e) && e.position == at,
        },
{
    let chars = chars_of(text);
    let chars = chars.as_slice();
    match decl_at(chars, 0) {
        Ok((d, n)) => Ok((text_of(chars, n, chars.len()), d)),
        Err(position) => Err(ParseError { position }),
    }
}

} // verus!
