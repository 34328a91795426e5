//! The query: a fragment of a function signature, as the user wrote it.

use crate::text::same_text;
use vstd::prelude::*;

verus! {

/// A name in a query.
pub type Symbol = String;

/// The built-in types of the source language.
#[derive(Clone, Copy, Debug, PartialEq, Eq, Structural)]
pub enum PrimitiveType {
    Isize,
    I8,
    I16,
    I32,
    I64,
    I128,
    Usize,
    U8,
    U16,
    U32,
    U64,
    U128,
    F32,
    F64,
    Char,
    Bool,
    Str,
    Unit,
    Never,
}

/// A type on the query side. `None` in a tuple, a slice or a list of
/// generic arguments is the wildcard `_`.
#[non_exhaustive]
#[derive(Debug, PartialEq)]
pub enum Type {
    /// A name that is neither a built-in nor a bare generic: `Vec<T>`.
    UnresolvedPath { name: Symbol, args: Option<Box<GenericArgs>> },
    Generic(String),
    Primitive(PrimitiveType),
    Tuple(Vec<Option<Type>>),
    Slice(Option<Box<Type>>),
    Never,
    RawPointer { mutable: bool, type_: Box<Type> },
    BorrowedRef { mutable: bool, type_: Box<Type> },
}

#[non_exhaustive]
#[derive(Debug, PartialEq)]
pub enum GenericArgs {
    AngleBracketed { args: Vec<Option<GenericArg>> },
}

#[non_exhaustive]
#[derive(Debug, PartialEq)]
pub enum GenericArg {
    Type(Type),
}

/// What a query type is, as a mathematical value.
pub enum TypeView {
    UnresolvedPath { name: Seq<char>, args: Option<Seq<Option<TypeView>>> },
    Generic(Seq<char>),
    Primitive(PrimitiveType),
    Tuple(Seq<Option<TypeView>>),
    Slice(Option<Box<TypeView>>),
    Never,
    RawPointer { mutable: bool, type_: Box<TypeView> },
    BorrowedRef { mutable: bool, type_: Box<TypeView> },
}

/// The view of a query type.
pub open spec fn type_view(t: Type) -> TypeView
    decreases t,
{
    match t {
        Type::UnresolvedPath { name, args } => TypeView::UnresolvedPath {
            name: name@,
            args: match args {
                Some(b) => Some(args_view(*b)),
                None => None,
            },
        },
        Type::Generic(name) => TypeView::Generic(name@),
        Type::Primitive(p) => TypeView::Primitive(p),
        Type::Tuple(ts) => TypeView::Tuple(
            Seq::new(
                ts@.len(),
                |i: int|
                    if 0 <= i < ts@.len() {
                        match ts@[i] {
                            Some(t) => Some(type_view(t)),
                            None => None,
                        }
                    } else {
                        None
                    },
            ),
        ),
        Type::Slice(t) => TypeView::Slice(
            match t {
                Some(b) => Some(Box::new(type_view(*b))),
                None => None,
            },
        ),
        Type::Never => TypeView::Never,
        Type::RawPointer { mutable, type_ } => TypeView::RawPointer {
            mutable,
            type_: Box::new(type_view(*type_)),
        },
        Type::BorrowedRef { mutable, type_ } => TypeView::BorrowedRef {
            mutable,
            type_: Box::new(type_view(*type_)),
        },
    }
}

/// The view of a list of generic arguments: one entry per argument, `None`
/// for the wildcard.
pub open spec fn args_view(a: GenericArgs) -> Seq<Option<TypeView>>
    decreases a,
{
    match a {
        GenericArgs::AngleBracketed { args } => Seq::new(
            args@.len(),
            |i: int|
                if 0 <= i < args@.len() {
                    match args@[i] {
                        Some(GenericArg::Type(t)) => Some(type_view(t)),
                        None => None,
                    }
                } else {
                    None
                },
        ),
    }
}

impl View for Type {
    type V = TypeView;

    open spec fn view(&self) -> TypeView {
        type_view(*self)
    }
}

impl View for GenericArgs {
    type V = Seq<Option<TypeView>>;

    open spec fn view(&self) -> Seq<Option<TypeView>> {
        args_view(*self)
    }
}

impl PrimitiveType {
    /// The spelling of the built-in in source text.
    pub open spec fn spelling(self) -> Seq<char> {
        match self {
            PrimitiveType::Isize => "isize"@,
            PrimitiveType::I8 => "i8"@,
            PrimitiveType::I16 => "i16"@,
            PrimitiveType::I32 => "i32"@,
            PrimitiveType::I64 => "i64"@,
            PrimitiveType::I128 => "i128"@,
            PrimitiveType::Usize => "usize"@,
            PrimitiveType::U8 => "u8"@,
            PrimitiveType::U16 => "u16"@,
            PrimitiveType::U32 => "u32"@,
            PrimitiveType::U64 => "u64"@,
            PrimitiveType::U128 => "u128"@,
            PrimitiveType::F32 => "f32"@,
            PrimitiveType::F64 => "f64"@,
            PrimitiveType::Char => "char"@,
            PrimitiveType::Bool => "bool"@,
            PrimitiveType::Str => "str"@,
            PrimitiveType::Unit => "unit"@,
            PrimitiveType::Never => "never"@,
        }
    }

    /// The spelling of the built-in.
    pub fn as_str(&self) -> (r: &'static str)
        ensures
            r@ == self.spelling(),
    {
        match self {
            PrimitiveType::Isize => "isize",
            PrimitiveType::I8 => "i8",
            PrimitiveType::I16 => "i16",
            PrimitiveType::I32 => "i32",
            PrimitiveType::I64 => "i64",
            PrimitiveType::I128 => "i128",
            PrimitiveType::Usize => "usize",
            PrimitiveType::U8 => "u8",
            PrimitiveType::U16 => "u16",
            PrimitiveType::U32 => "u32",
            PrimitiveType::U64 => "u64",
            PrimitiveType::U128 => "u128",
            PrimitiveType::F32 => "f32",
            PrimitiveType::F64 => "f64",
            PrimitiveType::Char => "char",
            PrimitiveType::Bool => "bool",
            PrimitiveType::Str => "str",
            PrimitiveType::Unit => "unit",
            PrimitiveType::Never => "never",
        }
    }
}

/// What is left of a type once every pointer and reference around it is
/// taken away.
pub open spec fn pointee(t: TypeView) -> TypeView
    decreases t,
{
    match t {
        TypeView::RawPointer { type_, .. } => pointee(*type_),
        TypeView::BorrowedRef { type_, .. } => pointee(*type_),
        _ => t,
    }
}

impl Type {
    /// The type behind all pointers and references.
    pub fn inner_type(&self) -> (r: &Self)
        ensures
            r@ == pointee(self@),
        decreases self,
    {
        match self {
            Type::RawPointer { type_, .. } => type_.inner_type(),
            Type::BorrowedRef { type_, .. } => type_.inner_type(),
            _ => self,
        }
    }

    /// Structural equality.
    pub fn same(&self, other: &Type) -> (r: bool)
        ensures
            r == (self@ == other@),
        decreases self,
    {
        match (self, other) {
            (
                Type::UnresolvedPath { name: n1, args: a1 },
                Type::UnresolvedPath { name: n2, args: a2 },
            ) => {
                if !same_text(n1, n2) {
                    return false;
                }
                match (a1, a2) {
                    (None, None) => true,
                    (Some(b1), Some(b2)) => b1.same(b2),
                    _ => false,
                }
            },
            (Type::Generic(n1), Type::Generic(n2)) => same_text(n1, n2),
            (Type::Primitive(left), Type::Primitive(right)) => *left == *right,
            (Type::Tuple(t1), Type::Tuple(t2)) => {
                if t1.len() != t2.len() {
                    assert(self@->Tuple_0.len() != other@->Tuple_0.len());
                    return false;
                }
                let mut i: usize = 0;
                while i < t1.len()
                    invariant
                        i <= t1.len(),
                        t1.len() == t2.len(),
                        self == Type::Tuple(*t1),
                        other@ == TypeView::Tuple(other@->Tuple_0),
                        other == Type::Tuple(*t2),
                        forall|j: int|
                            0 <= j < i ==> self@->Tuple_0[j] == #[trigger] other@->Tuple_0[j],
                    decreases t1.len() - i,
                {
                    let eq = match (&t1[i], &t2[i]) {
                        (None, None) => true,
                        (Some(x), Some(y)) => x.same(y),
                        _ => false,
                    };
                    if !eq {
                        assert(self@->Tuple_0[i as int] != other@->Tuple_0[i as int]);
                        return false;
                    }
                    i = i + 1;
                }
                assert(self@->Tuple_0 =~= other@->Tuple_0);
                true
            },
            (Type::Slice(bindings_then), Type::Slice(bindings_after)) => match (bindings_then, bindings_after) {
                (None, None) => true,
                (Some(b1), Some(b2)) => b1.same(b2),
                _ => false,
            },
            (Type::Never, Type::Never) => true,
            (
                Type::RawPointer { mutable: m1, type_: b1 },
                Type::RawPointer { mutable: m2, type_: b2 },
            ) => *m1 == *m2 && b1.same(b2),
            (
                Type::BorrowedRef { mutable: m1, type_: b1 },
                Type::BorrowedRef { mutable: m2, type_: b2 },
            ) => *m1 == *m2 && b1.same(b2),
            _ => false,
        }
    }

    /// A copy of the type.
    pub fn duplicate(&self) -> (r: Type)
        ensures
            r@ == self@,
        decreases self,
    {
        match self {
            Type::UnresolvedPath { name, args } => Type::UnresolvedPath {
                name: name.clone(),
                args: match args {
                    Some(b) => Some(Box::new(b.duplicate())),
                    None => None,
                },
            },
            Type::Generic(name) => Type::Generic(name.clone()),
            Type::Primitive(p) => Type::Primitive(*p),
            Type::Tuple(ts) => {
                let mut out: Vec<Option<Type>> = Vec::new();
                let mut i: usize = 0;
                while i < ts.len()
                    invariant
                        i <= ts.len(),
                        out.len() == i,
                        self == Type::Tuple(*ts),
                        forall|j: int|
                            0 <= j < i ==> (match #[trigger] out@[j] {
                                Some(t) => Some(t@),
                                None => None,
                            }) == self@->Tuple_0[j],
                    decreases ts.len() - i,
                {
                    let e = match &ts[i] {
                        Some(t) => Some(t.duplicate()),
                        None => None,
                    };
                    out.push(e);
                    i = i + 1;
                }
                let r = Type::Tuple(out);
                assert(r@->Tuple_0 =~= self@->Tuple_0);
                r
            },
            Type::Slice(t) => Type::Slice(
                match t {
                    Some(b) => Some(Box::new(b.duplicate())),
                    None => None,
                },
            ),
            Type::Never => Type::Never,
            Type::RawPointer { mutable, type_ } => Type::RawPointer {
                mutable: *mutable,
                type_: Box::new(type_.duplicate()),
            },
            Type::BorrowedRef { mutable, type_ } => Type::BorrowedRef {
                mutable: *mutable,
                type_: Box::new(type_.duplicate()),
            },
        }
    }
}

impl GenericArgs {
    /// Structural equality.
    pub fn same(&self, other: &GenericArgs) -> (r: bool)
        ensures
            r == (self@ == other@),
        decreases self,
    {
        match (self, other) {
            (
                GenericArgs::AngleBracketed { args: t1 },
                GenericArgs::AngleBracketed { args: t2 },
            ) => {
                if t1.len() != t2.len() {
                    return false;
                }
                let mut i: usize = 0;
                while i < t1.len()
                    invariant
                        i <= t1.len(),
                        t1.len() == t2.len(),
                        decreases_to!(self => t1),
                        self@.len() == t1.len(),
                        other@.len() == t2.len(),
                        forall|j: int|
                            0 <= j < t1.len() ==> #[trigger] self@[j] == (match t1@[j] {
                                Some(GenericArg::Type(t)) => Some(t@),
                                None => None,
                            }),
                        forall|j: int|
                            0 <= j < t2.len() ==> #[trigger] other@[j] == (match t2@[j] {
                                Some(GenericArg::Type(t)) => Some(t@),
                                None => None,
                            }),
                        forall|j: int| 0 <= j < i ==> self@[j] == #[trigger] other@[j],
                    decreases t1.len() - i,
                {
                    let eq = match (&t1[i], &t2[i]) {
                        (None, None) => true,
                        (Some(a), Some(b)) => match (a, b) {
                            (GenericArg::Type(x), GenericArg::Type(y)) => {
                                x.same(y)
                            },
                        },
                        _ => false,
                    };
                    if !eq {
                        assert(self@[i as int] != other@[i as int]);
                        return false;
                    }
                    i = i + 1;
                }
                assert(self@ =~= other@);
                true
            },
        }
    }

    /// A copy of the arguments.
    pub fn duplicate(&self) -> (r: GenericArgs)
        ensures
            r@ == self@,
        decreases self,
    {
        match self {
            GenericArgs::AngleBracketed { args } => {
                let mut out: Vec<Option<GenericArg>> = Vec::new();
                let mut i: usize = 0;
                while i < args.len()
                    invariant
                        i <= args.len(),
                        out.len() == i,
                        decreases_to!(self => args),
                        self@.len() == args.len(),
                        forall|j: int|
                            0 <= j < args.len() ==> #[trigger] self@[j] == (match args@[j] {
                                Some(GenericArg::Type(t)) => Some(t@),
                                None => None,
                            }),
                        forall|j: int|
                            0 <= j < i ==> (match #[trigger] out@[j] {
                                Some(GenericArg::Type(t)) => Some(t@),
                                None => None,
                            }) == self@[j],
                    decreases args.len() - i,
                {
                    let e = match &args[i] {
                        Some(a) => match a {
                            GenericArg::Type(t) => Some(GenericArg::Type(t.duplicate())),
                        },
                        None => None,
                    };
                    out.push(e);
                    i = i + 1;
                }
                let r = GenericArgs::AngleBracketed { args: out };
                r
            },
        }
    }
}

/// A marker in front of `fn` that the comparison takes into account.
#[non_exhaustive]
#[derive(Clone, Copy, Debug, PartialEq, Eq, Hash, Structural)]
pub enum Qualifier {
    Async,
    Unsafe,
    Const,
}

/// A set of qualifiers.
#[derive(Clone, Copy, Debug, PartialEq, Eq, Hash, Default, Structural)]
pub struct QualifierSet {
    pub is_async: bool,
    pub is_unsafe: bool,
    pub is_const: bool,
}

impl View for QualifierSet {
    type V = Set<Qualifier>;

    open spec fn view(&self) -> Set<Qualifier> {
        Set::new(
            |q: Qualifier|
                match q {
                    Qualifier::Async => self.is_async,
                    Qualifier::Unsafe => self.is_unsafe,
                    Qualifier::Const => self.is_const,
                },
        )
    }
}

impl QualifierSet {
    /// The empty set.
    pub fn new() -> (r: Self)
        ensures
            r@ == Set::<Qualifier>::empty(),
    {
        let r = QualifierSet { is_async: false, is_unsafe: false, is_const: false };
        r
    }

    /// Adds `q`; true if it was not yet in the set.
    pub fn insert(&mut self, q: Qualifier) -> (added: bool)
        ensures
            final(self)@ == old(self)@.insert(q),
            added == !old(self)@.contains(q),
    {
        let added = !self.contains(q);
        match q {
            Qualifier::Async => {
                self.is_async = true;
            },
            Qualifier::Unsafe => {
                self.is_unsafe = true;
            },
            Qualifier::Const => {
                self.is_const = true;
            },
        }
        added
    }

    /// True if `q` is in the set.
    pub fn contains(&self, q: Qualifier) -> (r: bool)
        ensures
            r == self@.contains(q),
    {
        match q {
            Qualifier::Async => self.is_async,
            Qualifier::Unsafe => self.is_unsafe,
            Qualifier::Const => self.is_const,
        }
    }

    /// The set of the qualifiers in `list`.
    pub fn from_list(list: &[Qualifier]) -> (r: Self)
        ensures
            r@ == list@.to_set(),
    {
        let mut r = QualifierSet::new();
        let mut i: usize = 0;
        while i < list.len()
            invariant
                i <= list.len(),
                r@ == list@.take(i as int).to_set(),
            decreases list.len() - i,
        {
            r.insert(list[i]);
            assert(list@.take(i + 1) == list@.take(i as int).push(list@[i as int]));
            assert(list@.take(i as int).push(list@[i as int]).to_set() =~= list@.take(
                i as int,
            ).to_set().insert(list@[i as int])) by {
                assert forall|q: Qualifier|
                    list@.take(i as int).push(list@[i as int]).contains(q) <==> (list@.take(
                        i as int,
                    ).contains(q) || q == list@[i as int]) by {
                    let t = list@.take(i as int);
                    let p = t.push(list@[i as int]);
                    if q == list@[i as int] {
                        assert(p[i as int] == q);
                    }
                }
            }
            i = i + 1;
        }
        assert(list@.take(list@.len() as int) == list@);
        r
    }

    /// True if `q` is in `self` and not in `other`.
    pub fn has_beyond(&self, other: &QualifierSet, q: Qualifier) -> (r: bool)
        ensures
            r == self@.difference(other@).contains(q),
    {
        self.contains(q) && !other.contains(q)
    }
}

/// One parameter of a query. A missing name or type matches anything.
#[derive(Debug, PartialEq)]
pub struct Argument {
    pub ty: Option<Type>,
    pub name: Option<Symbol>,
}

pub struct ArgumentView {
    pub ty: Option<TypeView>,
    pub name: Option<Seq<char>>,
}

impl View for Argument {
    type V = ArgumentView;

    open spec fn view(&self) -> ArgumentView {
        ArgumentView {
            ty: match self.ty {
                Some(t) => Some(t@),
                None => None,
            },
            name: match self.name {
                Some(n) => Some(n@),
                None => None,
            },
        }
    }
}

impl Argument {
    /// A copy of the parameter.
    pub fn duplicate(&self) -> (r: Argument)
        ensures
            r@ == self@,
    {
        Argument {
            ty: match &self.ty {
                Some(t) => Some(t.duplicate()),
                None => None,
            },
            name: match &self.name {
                Some(n) => Some(n.clone()),
                None => None,
            },
        }
    }
}

impl Clone for Type {
    fn clone(&self) -> (r: Self)
        ensures
            r@ == self@,
    {
        self.duplicate()
    }
}

impl Clone for GenericArgs {
    fn clone(&self) -> (r: Self)
        ensures
            r@ == self@,
    {
        self.duplicate()
    }
}

impl Clone for GenericArg {
    fn clone(&self) -> (r: Self)
        ensures
            r == GenericArg::Type(r->Type_0),
            r->Type_0@ == self->Type_0@,
    {
        match self {
            GenericArg::Type(t) => GenericArg::Type(t.duplicate()),
        }
    }
}

impl Clone for Argument {
    fn clone(&self) -> (r: Self)
        ensures
            r@ == self@,
    {
        self.duplicate()
    }
}

/// The return clause of a query.
#[derive(Debug, PartialEq)]
pub enum FnRetTy {
    Return(Type),
    /// No return type, or the unit type.
    DefaultReturn,
}

pub enum FnRetTyView {
    Return(TypeView),
    DefaultReturn,
}

impl View for FnRetTy {
    type V = FnRetTyView;

    open spec fn view(&self) -> FnRetTyView {
        match self {
            FnRetTy::Return(t) => FnRetTyView::Return(t@),
            FnRetTy::DefaultReturn => FnRetTyView::DefaultReturn,
        }
    }
}

impl Clone for FnRetTy {
    fn clone(&self) -> (r: Self)
        ensures
            r@ == self@,
    {
        match self {
            FnRetTy::Return(t) => FnRetTy::Return(t.duplicate()),
            FnRetTy::DefaultReturn => FnRetTy::DefaultReturn,
        }
    }
}

/// Parameters and return clause of a query. Absent `inputs` stands for
/// "any parameters", absent `output` for "any return type".
#[derive(Debug, PartialEq)]
pub struct FnDecl {
    pub inputs: Option<Vec<Argument>>,
    pub output: Option<FnRetTy>,
}

pub struct FnDeclView {
    pub inputs: Option<Seq<ArgumentView>>,
    pub output: Option<FnRetTyView>,
}

impl View for FnDecl {
    type V = FnDeclView;

    open spec fn view(&self) -> FnDeclView {
        FnDeclView {
            inputs: match self.inputs {
                Some(v) => Some(v@.map_values(|a: Argument| a@)),
                None => None,
            },
            output: match self.output {
                Some(o) => Some(o@),
                None => None,
            },
        }
    }
}

impl Clone for FnDecl {
    fn clone(&self) -> (r: Self)
        ensures
            r@ == self@,
    {
        let inputs = match &self.inputs {
            None => None,
            Some(inputs) => {
                let mut out: Vec<Argument> = Vec::new();
                let mut i: usize = 0;
                while i < inputs.len()
                    invariant
                        i <= inputs.len(),
                        out.len() == i,
                        forall|j: int| 0 <= j < i ==> (#[trigger] out@[j])@ == inputs@[j]@,
                    decreases inputs.len() - i,
                {
                    out.push(inputs[i].duplicate());
                    i = i + 1;
                }
                assert(out@.map_values(|a: Argument| a@) =~= inputs@.map_values(
                    |a: Argument| a@,
                ));
                Some(out)
            },
        };
        let output = match &self.output {
            None => None,
            Some(o) => Some(o.clone()),
        };
        FnDecl { inputs, output }
    }
}

/// The function part of a query.
#[derive(Debug, PartialEq)]
pub struct Function {
    pub decl: FnDecl,
    pub qualifiers: QualifierSet,
}

pub struct FunctionView {
    pub decl: FnDeclView,
    pub qualifiers: Set<Qualifier>,
}

impl View for Function {
    type V = FunctionView;

    open spec fn view(&self) -> FunctionView {
        FunctionView { decl: self.decl@, qualifiers: self.qualifiers@ }
    }
}

impl Clone for Function {
    fn clone(&self) -> (r: Self)
        ensures
            r@ == self@,
    {
        Function { decl: self.decl.clone(), qualifiers: self.qualifiers }
    }
}

#[non_exhaustive]
#[derive(Debug, PartialEq)]
pub enum QueryKind {
    FunctionQuery(Function),
}

impl View for QueryKind {
    type V = FunctionView;

    open spec fn view(&self) -> FunctionView {
        match self {
            QueryKind::FunctionQuery(f) => f@,
        }
    }
}

impl Clone for QueryKind {
    fn clone(&self) -> (r: Self)
        ensures
            r@ == self@,
    {
        match self {
            QueryKind::FunctionQuery(f) => QueryKind::FunctionQuery(f.clone()),
        }
    }
}

/// A parsed query: an optional name and an optional function signature.
#[derive(Debug, PartialEq)]
pub struct Query {
    pub name: Option<Symbol>,
    pub kind: Option<QueryKind>,
}

pub struct QueryView {
    pub name: Option<Seq<char>>,
    pub kind: Option<FunctionView>,
}

impl View for Query {
    type V = QueryView;

    open spec fn view(&self) -> QueryView {
        QueryView {
            name: match self.name {
                Some(n) => Some(n@),
                None => None,
            },
            kind: match self.kind {
                Some(k) => Some(k@),
                None => None,
            },
        }
    }
}

impl Clone for Query {
    fn clone(&self) -> (r: Self)
        ensures
            r@ == self@,
    {
        Query {
            name: match &self.name {
                Some(n) => Some(n.clone()),
                None => None,
            },
            kind: match &self.kind {
                Some(k) => Some(k.clone()),
                None => None,
            },
        }
    }
}

impl Query {
    /// The parameters of the query, where it states them.
    pub fn args(&self) -> (r: Option<Vec<Argument>>)
        ensures
            match r {
                Some(v) => self@.kind is Some && self@.kind->0.decl.inputs == Some(
                    v@.map_values(|a: Argument| a@),
                ),
                None => self@.kind is None || self@.kind->0.decl.inputs is None,
            },
    {
        match &self.kind {
            None => None,
            Some(QueryKind::FunctionQuery(f)) => match &f.decl.inputs {
                None => None,
                Some(inputs) => {
                    let mut out: Vec<Argument> = Vec::new();
                    let mut i: usize = 0;
                    while i < inputs.len()
                        invariant
                            i <= inputs.len(),
                            out.len() == i,
                            forall|j: int| 0 <= j < i ==> (#[trigger] out@[j])@ == inputs@[j]@,
                        decreases inputs.len() - i,
                    {
                        out.push(inputs[i].duplicate());
                        i = i + 1;
                    }
                    Some(out)
                },
            },
        }
    }
}

/// Where a hit is found and what its documentation says.
#[derive(Clone, Debug, PartialEq)]
pub struct HitItem {
    pub path: Vec<String>,
    pub link: Vec<String>,
    pub docs: Option<String>,
}

} // verus!
