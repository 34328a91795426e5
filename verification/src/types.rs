//! The data model of a documented crate: items, types, generics and the
//! containers that hold them.

use crate::query::{Qualifier, QualifierSet};
use crate::text::same_text;
use std::collections::HashMap;
use vstd::prelude::*;

verus! {

/// Identifier of an item. Unique only within one crate.
#[derive(Clone, Copy, Debug, PartialEq, Eq, PartialOrd, Ord, Hash, Structural)]
pub struct Id(pub u32);

/// True of the characters that count as white space.
pub open spec fn is_white(c: char) -> bool {
    ||| '\u{9}' <= c <= '\u{d}'
    ||| c == ' '
    ||| c == '\u{85}'
    ||| c == '\u{a0}'
    ||| c == '\u{1680}'
    ||| '\u{2000}' <= c <= '\u{200a}'
    ||| c == '\u{2028}'
    ||| c == '\u{2029}'
    ||| c == '\u{202f}'
    ||| c == '\u{205f}'
    ||| c == '\u{3000}'
}

/// The first position from `i` on that holds no white space.
pub open spec fn white_end(s: Seq<char>, i: int) -> int
    decreases s.len() - i,
{
    if 0 <= i < s.len() && is_white(s[i]) {
        white_end(s, i + 1)
    } else {
        i
    }
}

/// The position after the last character before `j` that is no white
/// space, and not before `from`.
pub open spec fn white_start(s: Seq<char>, from: int, j: int) -> int
    decreases j,
{
    if 0 <= from < j <= s.len() && is_white(s[j - 1]) {
        white_start(s, from, j - 1)
    } else {
        j
    }
}

/// The first `n` characters of `s` without the underscores among them.
pub open spec fn without_underscores(s: Seq<char>, n: int) -> Seq<char>
    decreases n,
{
    if n <= 0 {
        Seq::empty()
    } else if s[n - 1] == '_' {
        without_underscores(s, n - 1)
    } else {
        without_underscores(s, n - 1).push(s[n - 1])
    }
}

/// The value of the decimal digits `digits[..n]`, if they are all digits.
pub open spec fn digits_value(digits: Seq<char>, n: int) -> Option<nat>
    decreases n,
{
    if n <= 0 {
        Some(0)
    } else if !('0' <= digits[n - 1] <= '9') {
        None
    } else {
        match digits_value(digits, n - 1) {
            Some(v) => Some(v * 10 + (digits[n - 1] as nat - '0' as nat) as nat),
            None => None,
        }
    }
}

/// The id that a text states: after white space at both ends and every
/// underscore are taken away, a number in decimal digits, with or without
/// a plus sign before it, that is not above the greatest id.
pub open spec fn id_of_text(s: Seq<char>) -> Option<Id> {
    let from = white_end(s, 0);
    let to = white_start(s, from, s.len() as int);
    let kept = without_underscores(s.subrange(from, to), to - from);
    let digits = if kept.len() > 0 && kept[0] == '+' {
        kept.skip(1)
    } else {
        kept
    };
    if digits.len() == 0 {
        None
    } else {
        match digits_value(digits, digits.len() as int) {
            Some(v) => if v <= u32::MAX {
                Some(Id(v as u32))
            } else {
                None
            },
            None => None,
        }
    }
}

proof fn lemma_digits_grow(digits: Seq<char>, n: int, m: int)
    requires
        0 <= n <= m <= digits.len(),
        digits_value(digits, m) is Some,
    ensures
        digits_value(digits, n) is Some,
        digits_value(digits, n)->0 <= digits_value(digits, m)->0,
    decreases m - n,
{
    if n < m {
        lemma_digits_grow(digits, n, m - 1);
    }
}

fn is_white_char(c: char) -> (r: bool)
    ensures
        r == is_white(c),
{
    ('\u{9}' <= c && c <= '\u{d}') || c == ' ' || c == '\u{85}' || c == '\u{a0}' || c
        == '\u{1680}' || ('\u{2000}' <= c && c <= '\u{200a}') || c == '\u{2028}' || c
        == '\u{2029}' || c == '\u{202f}' || c == '\u{205f}' || c == '\u{3000}'
}

impl Id {
    /// The id of this number, if the number is not above the greatest id.
    pub fn from_number(v: u64) -> (r: Option<Id>)
        ensures
            r == if v <= u32::MAX {
                Some(Id(v as u32))
            } else {
                None
            },
    {
        if v <= 0xffff_ffff {
            Some(Id(v as u32))
        } else {
            None
        }
    }

    /// The id that a text states.
    pub fn from_text(text: &str) -> (r: Option<Id>)
        ensures
            r == id_of_text(text@),
    {
        let chars = crate::text::chars_of(text);
        let n = chars.len();
        let mut from: usize = 0;
        while from < n && is_white_char(chars[from])
            invariant
                from <= n,
                n == chars@.len(),
                white_end(chars@, 0) == white_end(chars@, from as int),
            decreases n - from,
        {
            from = from + 1;
        }
        let mut to: usize = n;
        while from < to && is_white_char(chars[to - 1])
            invariant
                from <= to <= n,
                n == chars@.len(),
                white_start(chars@, from as int, n as int) == white_start(
                    chars@,
                    from as int,
                    to as int,
                ),
            decreases to,
        {
            to = to - 1;
        }
        let ghost part = chars@.subrange(from as int, to as int);
        let mut kept: Vec<char> = Vec::new();
        let mut i: usize = from;
        while i < to
            invariant
                from <= i <= to <= n,
                n == chars@.len(),
                part == chars@.subrange(from as int, to as int),
                kept@ == without_underscores(part, i - from),
            decreases to - i,
        {
            if chars[i] != '_' {
                kept.push(chars[i]);
            }
            i = i + 1;
        }
        let start: usize = if kept.len() > 0 && kept[0] == '+' {
            1
        } else {
            0
        };
        let ghost digits = if start == 1 {
            kept@.skip(1)
        } else {
            kept@
        };
        if kept.len() == start {
            return None;
        }
        let mut value: u64 = 0;
        let mut k: usize = start;
        while k < kept.len()
            invariant
                start <= k <= kept@.len(),
                digits == kept@.skip(start as int),
                digits.len() > 0,
                digits_value(digits, k - start) == Some(value as nat),
                value <= u32::MAX,
                id_of_text(text@) == (match digits_value(digits, digits.len() as int) {
                    Some(v) => if v <= u32::MAX {
                        Some(Id(v as u32))
                    } else {
                        None
                    },
                    None => None,
                }),
            decreases kept.len() - k,
        {
            let c = kept[k];
            if !('0' <= c && c <= '9') {
                proof {
                    if digits_value(digits, digits.len() as int) is Some {
                        lemma_digits_grow(digits, k - start + 1, digits.len() as int);
                    }
                }
                return None;
            }
            let d: u64 = (c as u64) - ('0' as u64);
            value = value * 10 + d;
            if value > 0xffff_ffff {
                proof {
                    if digits_value(digits, digits.len() as int) is Some {
                        lemma_digits_grow(digits, k - start + 1, digits.len() as int);
                    }
                }
                return None;
            }
            k = k + 1;
        }
        Some(Id(value as u32))
    }
}

/// Name and version of an indexed crate. The version `latest` stands for
/// "unknown or any".
#[derive(Debug, Clone, Hash, PartialEq, Eq, PartialOrd, Ord)]
pub struct CrateMetadata {
    pub name: String,
    pub version: String,
}

impl View for CrateMetadata {
    type V = (Seq<char>, Seq<char>);

    open spec fn view(&self) -> (Seq<char>, Seq<char>) {
        (self.name@, self.version@)
    }
}

impl CrateMetadata {
    /// The crate `name` in its latest version.
    pub fn new(name: String) -> (r: Self)
        ensures
            r@ == (name@, "latest"@),
    {
        CrateMetadata { name, version: "latest".to_string() }
    }

    /// A copy of the name and version.
    pub fn duplicate(&self) -> (r: Self)
        ensures
            r@ == self@,
    {
        CrateMetadata { name: self.name.clone(), version: self.version.clone() }
    }

    /// True if name and version are the same.
    pub fn same(&self, other: &CrateMetadata) -> (r: bool)
        ensures
            r == (self@ == other@),
    {
        same_text(self.name.as_str(), other.name.as_str()) && same_text(
            self.version.as_str(),
            other.version.as_str(),
        )
    }

    /// Name and version as one text, with a colon between them.
    pub open spec fn text(self) -> Seq<char> {
        self.name@ + ":"@ + self.version@
    }

    /// Name and version as one text, with a colon between them.
    pub fn display(&self) -> (r: String)
        ensures
            r@ == self.text(),
    {
        let mut out = self.name.clone();
        out.push_str(":");
        out.push_str(self.version.as_str());
        out
    }
}

impl Crate {
    /// Name and version of the crate.
    pub fn crate_metadata(&self) -> (r: CrateMetadata)
        requires
            self.name is Some,
        ensures
            r@ == (self.name->0@, self.crate_version@),
    {
        match &self.name {
            Some(n) => CrateMetadata { name: n.clone(), version: self.crate_version.clone() },
            None => CrateMetadata { name: String::new(), version: self.crate_version.clone() },
        }
    }
}

/// One documented crate.
///
/// `index` and `paths` are keyed by the number inside an [`Id`].
#[derive(Debug, PartialEq, Eq)]
pub struct Crate {
    pub name: Option<String>,
    /// Id of the root module.
    pub root: Id,
    pub crate_version: String,
    pub includes_private: bool,
    /// Every item of the crate, by id.
    pub index: HashMap<u32, Item>,
    /// Canonical module path of each public item, by id.
    pub paths: HashMap<u32, ItemSummary>,
    pub external_crates: HashMap<u32, ExternalCrate>,
    pub target: Target,
    pub format_version: u32,
}

/// The compilation target the documentation was generated for.
#[derive(Clone, Debug, PartialEq, Eq, Default)]
pub struct Target {
    pub triple: String,
    pub target_features: Vec<TargetFeature>,
}

#[derive(Clone, Debug, PartialEq, Eq, Default)]
pub struct TargetFeature {
    pub name: String,
    pub implies_features: Vec<String>,
    pub unstable_feature_gate: Option<String>,
    pub globally_enabled: bool,
}

/// A crate that the documented crate refers to.
#[derive(Clone, Debug, PartialEq, Eq, Hash)]
pub struct ExternalCrate {
    pub name: String,
    pub html_root_url: Option<String>,
}

/// What is known of an item that may live in another crate.
#[derive(Clone, Debug, PartialEq, Eq, Hash)]
pub struct ItemSummary {
    pub crate_id: u32,
    /// Fully qualified path, one segment per element.
    pub path: Vec<String>,
    pub kind: ItemKind,
}

/// A documented declaration.
#[derive(Debug, PartialEq, Eq)]
pub struct Item {
    pub id: Id,
    pub crate_id: u32,
    /// Absent for items such as impls.
    pub name: Option<String>,
    pub span: Option<Span>,
    pub visibility: Visibility,
    pub docs: Option<String>,
    /// Targets of the intra-doc links of the docstring.
    pub links: HashMap<String, Id>,
    pub attrs: Vec<Attribute>,
    pub deprecation: Option<Deprecation>,
    pub inner: ItemEnum,
}

#[derive(Clone, Debug, PartialEq, Eq)]
pub enum Attribute {
    NonExhaustive,
    MustUse { reason: Option<String> },
    MacroExport,
    ExportName(String),
    LinkSection(String),
    AutomaticallyDerived,
    Repr(AttributeRepr),
    NoMangle,
    TargetFeature { enable: Vec<String> },
    Other(String),
}

#[derive(Clone, Debug, PartialEq, Eq)]
pub struct AttributeRepr {
    pub kind: ReprKind,
    pub align: Option<u64>,
    pub packed: Option<u64>,
    pub int: Option<String>,
}

#[derive(Clone, Debug, PartialEq, Eq)]
pub enum ReprKind {
    Rust,
    C,
    Transparent,
    Simd,
}

/// A range of source text. Lines and columns count from one.
#[derive(Debug, PartialEq, Eq, Hash)]
pub struct Span {
    pub filename: String,
    pub begin: (usize, usize),
    pub end: (usize, usize),
}

impl Clone for Span {
    fn clone(&self) -> (r: Self)
        ensures
            r == *self,
    {
        Span {
            filename: self.filename.clone(),
            begin: (self.begin.0, self.begin.1),
            end: (self.end.0, self.end.1),
        }
    }
}

#[derive(Clone, Debug, PartialEq, Eq, Hash)]
pub struct Deprecation {
    pub since: Option<String>,
    pub note: Option<String>,
}

#[derive(Clone, Debug, PartialEq, Eq, Hash)]
pub enum Visibility {
    Public,
    Default,
    Crate,
    Restricted { parent: Id, path: String },
}

#[derive(Debug, PartialEq, Eq, Hash)]
pub struct DynTrait {
    pub traits: Vec<PolyTrait>,
    pub lifetime: Option<String>,
}

#[derive(Debug, PartialEq, Eq, Hash)]
pub struct PolyTrait {
    pub trait_: Path,
    pub generic_params: Vec<GenericParamDef>,
}

/// The generic arguments of one path segment.
#[derive(Debug, PartialEq, Eq, Hash)]
pub enum GenericArgs {
    /// `<'a, 32, B: Copy, C = u32>`
    AngleBracketed { args: Vec<GenericArg>, constraints: Vec<AssocItemConstraint> },
    /// `Fn(A, B) -> C`
    Parenthesized { inputs: Vec<Type>, output: Option<Type> },
    /// `T::method(..)`
    ReturnTypeNotation,
}

#[derive(Debug, PartialEq, Eq, Hash)]
pub enum GenericArg {
    Lifetime(String),
    Type(Type),
    Const(Constant),
    Infer,
}

#[derive(Clone, Debug, PartialEq, Eq, Hash)]
pub struct Constant {
    pub expr: String,
    pub value: Option<String>,
    pub is_literal: bool,
}

#[derive(Debug, PartialEq, Eq, Hash)]
pub struct AssocItemConstraint {
    pub name: String,
    pub args: Option<Box<GenericArgs>>,
    pub binding: AssocItemConstraintKind,
}

#[derive(Debug, PartialEq, Eq, Hash)]
pub enum AssocItemConstraintKind {
    Equality(Term),
    Constraint(Vec<GenericBound>),
}

#[derive(Clone, Copy, Debug, PartialEq, Eq, Hash)]
pub enum ItemKind {
    Module,
    ExternCrate,
    Use,
    Struct,
    StructField,
    Union,
    Enum,
    Variant,
    Function,
    TypeAlias,
    Constant,
    Trait,
    TraitAlias,
    Impl,
    Static,
    ExternType,
    Macro,
    ProcAttribute,
    ProcDerive,
    AssocConst,
    AssocType,
    Primitive,
    Keyword,
    Attribute,
}

/// The part of an item that depends on its kind.
#[derive(Debug, PartialEq, Eq, Hash)]
pub enum ItemEnum {
    Module(Module),
    ExternCrate { name: String, rename: Option<String> },
    Use(Use),
    Union(Union),
    Struct(Struct),
    StructField(Type),
    Enum(Enum),
    Variant(Variant),
    Function(Function),
    Trait(Trait),
    TraitAlias(TraitAlias),
    Impl(Impl),
    TypeAlias(TypeAlias),
    Constant { type_: Type, const_: Constant },
    Static(Static),
    ExternType,
    Macro(String),
    ProcMacro(ProcMacro),
    Primitive(Primitive),
    AssocConst { type_: Type, value: Option<String> },
    AssocType { generics: Generics, bounds: Vec<GenericBound>, type_: Option<Type> },
}

#[derive(Clone, Debug, PartialEq, Eq, Hash)]
pub struct Module {
    /// True of the root module only.
    pub is_crate: bool,
    pub items: Vec<Id>,
    pub is_stripped: bool,
}

#[derive(Debug, PartialEq, Eq, Hash)]
pub struct Union {
    pub generics: Generics,
    pub has_stripped_fields: bool,
    pub fields: Vec<Id>,
    pub impls: Vec<Id>,
}

#[derive(Debug, PartialEq, Eq, Hash)]
pub struct Struct {
    pub kind: StructKind,
    pub generics: Generics,
    pub impls: Vec<Id>,
}

#[derive(Clone, Debug, PartialEq, Eq, Hash)]
pub enum StructKind {
    Unit,
    Tuple(Vec<Option<Id>>),
    Plain { fields: Vec<Id>, has_stripped_fields: bool },
}

#[derive(Debug, PartialEq, Eq, Hash)]
pub struct Enum {
    pub generics: Generics,
    pub has_stripped_variants: bool,
    pub variants: Vec<Id>,
    pub impls: Vec<Id>,
}

#[derive(Clone, Debug, PartialEq, Eq, Hash)]
pub struct Variant {
    pub kind: VariantKind,
    pub discriminant: Option<Discriminant>,
}

#[derive(Clone, Debug, PartialEq, Eq, Hash)]
pub enum VariantKind {
    Plain,
    Tuple(Vec<Option<Id>>),
    Struct { fields: Vec<Id>, has_stripped_fields: bool },
}

#[derive(Clone, Debug, PartialEq, Eq, Hash)]
pub struct Discriminant {
    pub expr: String,
    pub value: String,
}

#[derive(Clone, Debug, PartialEq, Eq, Hash, Default)]
pub struct FunctionHeader {
    pub is_const: bool,
    pub is_unsafe: bool,
    pub is_async: bool,
    pub abi: Abi,
}

/// True if `r` is the argument that stands for the parameter `p`: a
/// lifetime with its tick, a type by its default or else by its name, a
/// constant by its name.
pub open spec fn stands_for(p: GenericParamDef, r: GenericArg) -> bool {
    match p.kind {
        GenericParamDefKind::Lifetime { .. } => {
            &&& r is Lifetime
            &&& r->Lifetime_0@ == if p.name@.len() > 0 && p.name@[0] == '\'' {
                p.name@
            } else {
                seq!['\''] + p.name@
            }
        },
        GenericParamDefKind::Type { default, .. } => {
            &&& r is Type
            &&& match default {
                Some(d) => r->Type_0 == d,
                None => r->Type_0 == Type::Generic(p.name),
            }
        },
        GenericParamDefKind::Const { .. } => r == GenericArg::Const(
            Constant { expr: p.name, value: None, is_literal: false },
        ),
    }
}

/// True if `r` is the type that the item stands for: a struct is the path
/// of its name with its own generic parameters for arguments, any other
/// item a type that is left open.
pub open spec fn type_of_item(item: Item, r: Type) -> bool {
    match item.inner {
        ItemEnum::Struct(s) => {
            &&& r is ResolvedPath
            &&& r->ResolvedPath_0.id == item.id
            &&& r->ResolvedPath_0.path@ == (match item.name {
                Some(n) => n@,
                None => Seq::empty(),
            })
            &&& r->ResolvedPath_0.args is Some
            &&& *r->ResolvedPath_0.args->0 is AngleBracketed
            &&& r->ResolvedPath_0.args->0->constraints@.len() == 0
            &&& r->ResolvedPath_0.args->0->AngleBracketed_args@.len() == s.generics.params@.len()
            &&& forall|i: int|
                0 <= i < s.generics.params@.len() ==> stands_for(
                    s.generics.params@[i],
                    #[trigger] r->ResolvedPath_0.args->0->AngleBracketed_args@[i],
                )
        },
        _ => r == Type::Infer,
    }
}

impl GenericParamDef {
    /// The argument that stands for the parameter.
    pub fn to_generic_arg(self) -> (r: GenericArg)
        ensures
            stands_for(self, r),
    {
        match self.kind {
            GenericParamDefKind::Lifetime { .. } => {
                let chars = crate::text::chars_of(self.name.as_str());
                if chars.len() > 0 && chars[0] == '\'' {
                    GenericArg::Lifetime(self.name)
                } else {
                    let mut name = String::new();
                    name.push('\'');
                    name.push_str(self.name.as_str());
                    GenericArg::Lifetime(name)
                }
            },
            GenericParamDefKind::Type { default, .. } => match default {
                Some(d) => GenericArg::Type(d),
                None => GenericArg::Type(Type::Generic(self.name)),
            },
            GenericParamDefKind::Const { .. } => GenericArg::Const(
                Constant { expr: self.name, value: None, is_literal: false },
            ),
        }
    }
}

impl Type {
    /// The type that an item stands for.
    pub fn from_item(item: Item) -> (r: Type)
        ensures
            type_of_item(item, r),
    {
        match item.inner {
            ItemEnum::Struct(s) => {
                let mut params = s.generics.params;
                let ghost all = params@;
                let mut turned: Vec<GenericParamDef> = Vec::new();
                while params.len() > 0
                    invariant
                        turned@.len() + params@.len() == all.len(),
                        forall|i: int| 0 <= i < params@.len() ==> params@[i] == all[i],
                        forall|i: int|
                            0 <= i < turned@.len() ==> turned@[i] == all[all.len() - 1 - i],
                    decreases params.len(),
                {
                    match params.pop() {
                        Some(p) => {
                            turned.push(p);
                        },
                        None => {},
                    }
                }
                let mut args: Vec<GenericArg> = Vec::new();
                while turned.len() > 0
                    invariant
                        args@.len() + turned@.len() == all.len(),
                        forall|i: int|
                            0 <= i < turned@.len() ==> turned@[i] == all[all.len() - 1 - i],
                        forall|i: int|
                            0 <= i < args@.len() ==> stands_for(all[i], #[trigger] args@[i]),
                    decreases turned.len(),
                {
                    match turned.pop() {
                        Some(p) => {
                            args.push(p.to_generic_arg());
                        },
                        None => {},
                    }
                }
                Type::ResolvedPath(
                    Path {
                        path: match item.name {
                            Some(n) => n,
                            None => String::new(),
                        },
                        id: item.id,
                        args: Some(
                            Box::new(
                                GenericArgs::AngleBracketed { args, constraints: Vec::new() },
                            ),
                        ),
                    },
                )
            },
            _ => Type::Infer,
        }
    }
}

impl FunctionHeader {
    /// The qualifiers that the header states.
    pub open spec fn qualifier_set(self) -> Set<Qualifier> {
        Set::new(
            |q: Qualifier|
                match q {
                    Qualifier::Async => self.is_async,
                    Qualifier::Unsafe => self.is_unsafe,
                    Qualifier::Const => self.is_const,
                },
        )
    }

    /// The qualifiers that the header states.
    pub fn qualifiers(&self) -> (r: QualifierSet)
        ensures
            r@ == self.qualifier_set(),
    {
        let r = QualifierSet {
            is_async: self.is_async,
            is_unsafe: self.is_unsafe,
            is_const: self.is_const,
        };
        r
    }
}

#[derive(Clone, Debug, PartialEq, Eq, Hash, Default)]
pub enum Abi {
    #[default]
    Rust,
    C { unwind: bool },
    Cdecl { unwind: bool },
    Stdcall { unwind: bool },
    Fastcall { unwind: bool },
    Aapcs { unwind: bool },
    Win64 { unwind: bool },
    SysV64 { unwind: bool },
    System { unwind: bool },
    Other(String),
}

#[derive(Debug, PartialEq, Eq, Hash)]
pub struct Function {
    pub sig: FunctionSignature,
    pub generics: Generics,
    pub header: FunctionHeader,
    pub has_body: bool,
}

#[derive(Debug, PartialEq, Eq, Hash, Default)]
pub struct Generics {
    pub params: Vec<GenericParamDef>,
    pub where_predicates: Vec<WherePredicate>,
}

#[derive(Debug, PartialEq, Eq, Hash)]
pub struct GenericParamDef {
    pub name: String,
    pub kind: GenericParamDefKind,
}

#[derive(Debug, PartialEq, Eq, Hash)]
pub enum GenericParamDefKind {
    Lifetime { outlives: Vec<String> },
    Type { bounds: Vec<GenericBound>, default: Option<Type>, is_synthetic: bool },
    Const { type_: Type, default: Option<String> },
}

#[derive(Debug, PartialEq, Eq, Hash)]
pub enum WherePredicate {
    BoundPredicate { type_: Type, bounds: Vec<GenericBound>, generic_params: Vec<GenericParamDef> },
    LifetimePredicate { lifetime: String, outlives: Vec<String> },
    EqPredicate { lhs: Type, rhs: Term },
}

#[derive(Debug, PartialEq, Eq, Hash)]
pub enum GenericBound {
    TraitBound { trait_: Path, generic_params: Vec<GenericParamDef>, modifier: TraitBoundModifier },
    Outlives(String),
    Use(Vec<PreciseCapturingArg>),
}

#[derive(Clone, Copy, Debug, PartialEq, Eq, Hash)]
pub enum TraitBoundModifier {
    /// No marker before the bound.
    Unmodified,
    Maybe,
    MaybeConst,
}

#[derive(Clone, Debug, PartialEq, Eq, Hash)]
pub enum PreciseCapturingArg {
    Lifetime(String),
    Param(String),
}

#[derive(Debug, PartialEq, Eq, Hash)]
pub enum Term {
    Type(Type),
    Constant(Constant),
}

/// A type as it stands in a documented signature.
#[derive(Debug, PartialEq, Eq, Hash)]
pub enum Type {
    /// A struct, enum, union or alias, by path: `std::option::Option<u32>`.
    ResolvedPath(Path),
    DynTrait(DynTrait),
    /// A generic parameter: `T`.
    Generic(String),
    /// A built-in: `i32`, `str`.
    Primitive(String),
    FunctionPointer(Box<FunctionPointer>),
    Tuple(Vec<Type>),
    Slice(Box<Type>),
    Array { type_: Box<Type>, len: String },
    Pat { type_: Box<Type>, pat: String },
    ImplTrait(Vec<GenericBound>),
    Infer,
    RawPointer { is_mutable: bool, type_: Box<Type> },
    BorrowedRef { lifetime: Option<String>, is_mutable: bool, type_: Box<Type> },
    QualifiedPath {
        name: String,
        args: Option<Box<GenericArgs>>,
        self_type: Box<Type>,
        trait_: Option<Path>,
    },
}

/// A path to a type or trait, with the generic arguments of its last segment.
#[derive(Debug, PartialEq, Eq, Hash)]
pub struct Path {
    pub path: String,
    pub id: Id,
    pub args: Option<Box<GenericArgs>>,
}

#[derive(Debug, PartialEq, Eq, Hash)]
pub struct FunctionPointer {
    pub sig: FunctionSignature,
    pub generic_params: Vec<GenericParamDef>,
    pub header: FunctionHeader,
}

#[derive(Debug, PartialEq, Eq, Hash)]
pub struct FunctionSignature {
    /// The parameters in order: name, then type.
    pub inputs: Vec<(String, Type)>,
    /// Absent where the function returns the unit type.
    pub output: Option<Type>,
    pub is_c_variadic: bool,
}

#[derive(Debug, PartialEq, Eq, Hash)]
pub struct Trait {
    pub is_auto: bool,
    pub is_unsafe: bool,
    pub is_dyn_compatible: bool,
    pub items: Vec<Id>,
    pub generics: Generics,
    pub bounds: Vec<GenericBound>,
    pub implementations: Vec<Id>,
}

#[derive(Debug, PartialEq, Eq, Hash)]
pub struct TraitAlias {
    pub generics: Generics,
    pub params: Vec<GenericBound>,
}

#[derive(Debug, PartialEq, Eq, Hash)]
pub struct Impl {
    pub is_unsafe: bool,
    pub generics: Generics,
    pub provided_trait_methods: Vec<String>,
    /// Absent for an inherent impl.
    pub trait_: Option<Path>,
    /// The type that receives the impl.
    pub for_: Type,
    pub items: Vec<Id>,
    pub is_negative: bool,
    pub is_synthetic: bool,
    pub blanket_impl: Option<Type>,
}

#[derive(Clone, Debug, PartialEq, Eq, Hash)]
pub struct Use {
    pub source: String,
    pub name: String,
    pub id: Option<Id>,
    pub is_glob: bool,
}

#[derive(Clone, Debug, PartialEq, Eq, Hash)]
pub struct ProcMacro {
    pub kind: MacroKind,
    pub helpers: Vec<String>,
}

#[derive(Clone, Copy, Debug, PartialEq, Eq, Hash)]
pub enum MacroKind {
    Bang,
    Attr,
    Derive,
}

#[derive(Debug, PartialEq, Eq, Hash)]
pub struct TypeAlias {
    pub type_: Type,
    pub generics: Generics,
}

#[derive(Debug, PartialEq, Eq, Hash)]
pub struct Static {
    pub type_: Type,
    pub is_mutable: bool,
    pub expr: String,
    pub is_unsafe: bool,
}

#[derive(Clone, Debug, PartialEq, Eq, Hash)]
pub struct Primitive {
    pub name: String,
    pub impls: Vec<Id>,
}

} // verus!
