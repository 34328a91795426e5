//! How the items of a documented crate are shown in text.

use crate::text::{join, join_texts, texts};
use crate::types::{
    AssocItemConstraint, AssocItemConstraintKind, Constant, Function, FunctionHeader,
    FunctionSignature, GenericArg, GenericArgs, GenericBound, GenericParamDef,
    GenericParamDefKind, Generics, Item, ItemEnum, Path, PreciseCapturingArg, Term,
    TraitBoundModifier, Type, WherePredicate,
};
use crate::query;
use crate::query::{ArgumentView, FnDeclView, FnRetTyView, QueryView, TypeView};
use vstd::prelude::*;

verus! {

/// The text that the standard library's `{:?}` gives for the generic
/// arguments of a query type.
pub uninterp spec fn debug_form(args: Seq<Option<TypeView>>) -> Seq<char>;

/// `format!` of the standard library with `{:?}`, on the generic arguments
/// of a query type, for which `Debug` is derived. Taken on trust: that the
/// text depends on nothing but the arguments.
#[verifier::external_body]
fn debug_text(args: &query::GenericArgs) -> (r: String)
    ensures
        r@ == debug_form(args@),
{
    format!("{:?}", args)
}

/// A query type as it is shown: a name with its generic arguments in
/// their debug form, a wildcard as `_`.
pub open spec fn query_type_text(t: TypeView) -> Seq<char>
    decreases t, 0nat,
{
    match t {
        TypeView::UnresolvedPath { name, args } => match args {
            Some(a) => name + "<"@ + debug_form(a) + ">"@,
            None => name,
        },
        TypeView::Generic(name) => name,
        TypeView::Primitive(p) => p.spelling(),
        TypeView::Tuple(ts) => "("@ + join(option_texts(ts), ", "@) + ")"@,
        TypeView::Slice(inner) => match inner {
            Some(b) => "["@ + query_type_text(*b) + "]"@,
            None => "[_]"@,
        },
        TypeView::Never => "!"@,
        TypeView::RawPointer { mutable, type_ } => (if mutable {
            "*mut "@
        } else {
            "*const "@
        }) + query_type_text(*type_),
        TypeView::BorrowedRef { mutable, type_ } => (if mutable {
            "&mut "@
        } else {
            "&"@
        }) + query_type_text(*type_),
    }
}

/// The elements of a tuple of a query as they are shown.
pub open spec fn option_texts(ts: Seq<Option<TypeView>>) -> Seq<Seq<char>>
    decreases ts, 0nat,
{
    Seq::new(
        ts.len(),
        |i: int|
            if 0 <= i < ts.len() {
                match ts[i] {
                    Some(t) => query_type_text(t),
                    None => "_"@,
                }
            } else {
                Seq::empty()
            },
    )
}

/// A parameter of a query: name and type with a colon between them, `_`
/// for what is missing; the type alone where there is no name.
pub open spec fn argument_text(a: ArgumentView) -> Seq<char> {
    match (a.name, a.ty) {
        (Some(name), Some(ty)) => name + ": "@ + query_type_text(ty),
        (Some(name), None) => name + ": _"@,
        (None, Some(ty)) => query_type_text(ty),
        (None, None) => "_"@,
    }
}

/// The declaration of a query: the parameters in round brackets, `..`
/// for any parameters, and the return type after an arrow.
pub open spec fn decl_text(d: FnDeclView) -> Seq<char> {
    "("@ + (match d.inputs {
        Some(inputs) => join(Seq::new(inputs.len(), |i: int| argument_text(inputs[i])), ", "@),
        None => ".."@,
    }) + ")"@ + (match d.output {
        Some(FnRetTyView::Return(ty)) => " -> "@ + query_type_text(ty),
        _ => Seq::empty(),
    })
}

/// A query: `fn`, the name after a blank, and the declaration.
pub open spec fn query_text(q: QueryView) -> Seq<char> {
    "fn"@ + (match q.name {
        Some(name) => " "@ + name,
        None => Seq::empty(),
    }) + (match q.kind {
        Some(f) => decl_text(f.decl),
        None => Seq::empty(),
    })
}

impl query::Type {
    /// The type in a line of text.
    pub fn display(&self) -> (r: String)
        ensures
            r@ == query_type_text(self@),
        decreases self,
    {
        match self {
            query::Type::UnresolvedPath { name, args } => {
                let mut out = name.clone();
                if let Some(a) = args {
                    out.push_str("<");
                    out.push_str(debug_text(a).as_str());
                    out.push_str(">");
                }
                out
            },
            query::Type::Generic(name) => name.clone(),
            query::Type::Primitive(p) => p.as_str().to_string(),
            query::Type::Tuple(ts) => {
                let mut parts: Vec<String> = Vec::new();
                let mut i: usize = 0;
                while i < ts.len()
                    invariant
                        i <= ts.len(),
                        parts.len() == i,
                        decreases_to!(self => ts),
                        self@->Tuple_0.len() == ts@.len(),
                        forall|j: int|
                            0 <= j < ts@.len() ==> #[trigger] self@->Tuple_0[j] == (match ts@[j] {
                                Some(t) => Some(t@),
                                None => None,
                            }),
                        forall|j: int|
                            0 <= j < i ==> (#[trigger] parts@[j])@ == option_texts(
                                self@->Tuple_0,
                            )[j],
                    decreases ts.len() - i,
                {
                    parts.push(
                        match &ts[i] {
                            Some(t) => t.display(),
                            None => "_".to_string(),
                        },
                    );
                    i = i + 1;
                }
                assert(texts(parts@) =~= option_texts(self@->Tuple_0));
                let mut out = "(".to_string();
                out.push_str(join_texts(&parts, ", ").as_str());
                out.push_str(")");
                out
            },
            query::Type::Slice(inner) => match inner {
                Some(b) => {
                    let mut out = "[".to_string();
                    out.push_str(b.display().as_str());
                    out.push_str("]");
                    out
                },
                None => "[_]".to_string(),
            },
            query::Type::Never => "!".to_string(),
            query::Type::RawPointer { mutable, type_ } => {
                let mut out = if *mutable {
                    "*mut ".to_string()
                } else {
                    "*const ".to_string()
                };
                out.push_str(type_.display().as_str());
                out
            },
            query::Type::BorrowedRef { mutable, type_ } => {
                let mut out = if *mutable {
                    "&mut ".to_string()
                } else {
                    "&".to_string()
                };
                out.push_str(type_.display().as_str());
                out
            },
        }
    }
}

impl query::Argument {
    /// The parameter in a line of text.
    pub fn display(&self) -> (r: String)
        ensures
            r@ == argument_text(self@),
    {
        match (&self.name, &self.ty) {
            (Some(name), Some(ty)) => {
                let mut out = name.clone();
                out.push_str(": ");
                out.push_str(ty.display().as_str());
                out
            },
            (Some(name), None) => {
                let mut out = name.clone();
                out.push_str(": _");
                out
            },
            (None, Some(ty)) => ty.display(),
            (None, None) => "_".to_string(),
        }
    }
}

impl query::FnDecl {
    /// The declaration in a line of text.
    pub fn display(&self) -> (r: String)
        ensures
            r@ == decl_text(self@),
    {
        let mut out = "(".to_string();
        match &self.inputs {
            Some(inputs) => {
                let ghost views = self@.inputs->0;
                let mut parts: Vec<String> = Vec::new();
                let mut i: usize = 0;
                while i < inputs.len()
                    invariant
                        i <= inputs.len(),
                        parts.len() == i,
                        views == inputs@.map_values(|a: query::Argument| a@),
                        forall|j: int|
                            0 <= j < i ==> (#[trigger] parts@[j])@ == argument_text(views[j]),
                    decreases inputs.len() - i,
                {
                    parts.push(inputs[i].display());
                    i = i + 1;
                }
                assert(texts(parts@) =~= Seq::new(views.len(), |i: int| argument_text(views[i])));
                out.push_str(join_texts(&parts, ", ").as_str());
            },
            None => {
                out.push_str("..");
            },
        }
        out.push_str(")");
        if let Some(query::FnRetTy::Return(ty)) = &self.output {
            out.push_str(" -> ");
            out.push_str(ty.display().as_str());
        }
        out
    }
}

impl query::QueryKind {
    /// The declaration of the query in a line of text.
    pub fn display(&self) -> (r: String)
        ensures
            r@ == decl_text(self@.decl),
    {
        match self {
            query::QueryKind::FunctionQuery(f) => f.decl.display(),
        }
    }
}

impl query::Query {
    /// The query in a line of text.
    pub fn display(&self) -> (r: String)
        ensures
            r@ == query_text(self@),
    {
        let mut out = "fn".to_string();
        if let Some(name) = &self.name {
            out.push_str(" ");
            out.push_str(name.as_str());
        }
        if let Some(kind) = &self.kind {
            out.push_str(kind.display().as_str());
        }
        out
    }
}

/// A type as it is shown in a line of text: a path by its name, a tuple
/// by its elements, a reference with its lifetime, and the kinds that have
/// no short form by a word for the kind.
pub open spec fn type_text(t: Type) -> Seq<char>
    decreases t, 0nat,
{
    match t {
        Type::ResolvedPath(path) => path.path@,
        Type::DynTrait(_) => "dyn <trait>"@,
        Type::Generic(name) => name@,
        Type::Primitive(name) => name@,
        Type::FunctionPointer(_) => "fn(...)"@,
        Type::Tuple(ts) => "("@ + join(type_list_texts(ts@), ", "@) + ")"@,
        Type::Slice(inner) => "["@ + type_text(*inner) + "]"@,
        Type::Array { type_, len } => "["@ + type_text(*type_) + "; "@ + len@ + "]"@,
        Type::Pat { .. } => "<pattern type>"@,
        Type::ImplTrait(_) => "impl <trait bounds>"@,
        Type::Infer => "_"@,
        Type::RawPointer { is_mutable, .. } => if is_mutable {
            "*mut ..."@
        } else {
            "*const ..."@
        },
        Type::BorrowedRef { lifetime, is_mutable, type_ } => if is_mutable {
            "&mut"@ + (match lifetime {
                Some(l) => l@,
                None => ""@,
            }) + " "@ + type_text(*type_)
        } else {
            "&"@ + (match lifetime {
                Some(l) => l@,
                None => "_"@,
            }) + " "@ + type_text(*type_)
        },
        Type::QualifiedPath { name, .. } => "<qualified path>::"@ + name@,
    }
}

/// The types of a list as they are shown.
pub open spec fn type_list_texts(ts: Seq<Type>) -> Seq<Seq<char>>
    decreases ts, 0nat,
{
    Seq::new(
        ts.len(),
        |i: int|
            if 0 <= i < ts.len() {
                type_text(ts[i])
            } else {
                Seq::empty()
            },
    )
}

/// The strings of a list, each as it is.
pub open spec fn string_texts(v: Seq<String>) -> Seq<Seq<char>> {
    texts(v)
}

/// A constant or a type that a name is bound to.
pub open spec fn term_text(t: Term) -> Seq<char> {
    match t {
        Term::Type(t) => type_text(t),
        Term::Constant(c) => c.expr@,
    }
}

/// What is captured, by its name.
pub open spec fn capture_text(a: PreciseCapturingArg) -> Seq<char> {
    match a {
        PreciseCapturingArg::Lifetime(name) => name@,
        PreciseCapturingArg::Param(name) => name@,
    }
}

/// A path with its generic arguments in angle brackets around them.
pub open spec fn path_text(p: Path) -> Seq<char>
    decreases p, 0nat,
{
    p.path@ + "<"@ + (match p.args {
        Some(a) => generic_args_text(*a),
        None => Seq::empty(),
    }) + ">"@
}

/// One generic argument.
pub open spec fn generic_arg_text(a: GenericArg) -> Seq<char> {
    match a {
        GenericArg::Lifetime(l) => l@,
        GenericArg::Type(t) => type_text(t),
        GenericArg::Const(c) => c.expr@,
        GenericArg::Infer => "_"@,
    }
}

/// The generic arguments of a path: in angle brackets with the
/// constraints after them, in round brackets with the return type after
/// them, or three dots.
pub open spec fn generic_args_text(a: GenericArgs) -> Seq<char>
    decreases a, 1nat,
{
    match a {
        GenericArgs::AngleBracketed { args, constraints } => "<"@ + join(
            Seq::new(args@.len(), |i: int| generic_arg_text(args@[i])),
            ", "@,
        ) + constraints_text(constraints@, 0) + ">"@,
        GenericArgs::Parenthesized { inputs, output } => "("@ + join(
            type_list_texts(inputs@),
            ", "@,
        ) + ")"@ + (match output {
            Some(o) => " -> "@ + type_text(o),
            None => Seq::empty(),
        }),
        GenericArgs::ReturnTypeNotation => "..."@,
    }
}

/// A constraint on an associated item, after a comma.
pub open spec fn constraint_text(c: AssocItemConstraint) -> Seq<char>
    decreases c, 0nat,
{
    ", "@ + c.name@ + " "@ + (match c.binding {
        AssocItemConstraintKind::Equality(term) => "= "@ + term_text(term),
        AssocItemConstraintKind::Constraint(bounds) => ": "@ + join(bound_texts(bounds@), " + "@),
    })
}

/// The constraints from position `i` on, each after a comma.
pub open spec fn constraints_text(cs: Seq<AssocItemConstraint>, i: int) -> Seq<char>
    decreases cs, cs.len() - i,
{
    if 0 <= i < cs.len() {
        constraint_text(cs[i]) + constraints_text(cs, i + 1)
    } else {
        Seq::empty()
    }
}

/// The bounds of a list as they are shown.
pub open spec fn bound_texts(bs: Seq<GenericBound>) -> Seq<Seq<char>>
    decreases bs, 0nat,
{
    Seq::new(
        bs.len(),
        |i: int|
            if 0 <= i < bs.len() {
                bound_text(bs[i])
            } else {
                Seq::empty()
            },
    )
}

/// The parameters of a list as they are shown.
pub open spec fn param_texts(ps: Seq<GenericParamDef>) -> Seq<Seq<char>>
    decreases ps, 0nat,
{
    Seq::new(
        ps.len(),
        |i: int|
            if 0 <= i < ps.len() {
                param_text(ps[i])
            } else {
                Seq::empty()
            },
    )
}

/// `for<..> ` with the parameters of a list, or nothing where the list
/// is empty.
pub open spec fn binder_text(ps: Seq<GenericParamDef>) -> Seq<char>
    decreases ps, 1nat,
{
    if ps.len() > 0 {
        "for<"@ + join(param_texts(ps), ", "@) + "> "@
    } else {
        Seq::empty()
    }
}

/// A bound on a generic.
pub open spec fn bound_text(b: GenericBound) -> Seq<char>
    decreases b, 0nat,
{
    match b {
        GenericBound::TraitBound { trait_, generic_params, modifier } => binder_text(
            generic_params@,
        ) + path_text(trait_) + (match modifier {
            TraitBoundModifier::Unmodified => ""@,
            TraitBoundModifier::Maybe => "?"@,
            TraitBoundModifier::MaybeConst => " + const"@,
        }),
        GenericBound::Outlives(lifetime) => lifetime@,
        GenericBound::Use(args) => "use<"@ + join(
            Seq::new(args@.len(), |i: int| capture_text(args@[i])),
            ", "@,
        ) + ">"@,
    }
}

/// A generic parameter as it is declared.
pub open spec fn param_text(p: GenericParamDef) -> Seq<char>
    decreases p, 0nat,
{
    match p.kind {
        GenericParamDefKind::Lifetime { outlives } => p.name@ + (if outlives@.len() > 0 {
            ": "@ + join(string_texts(outlives@), " + "@)
        } else {
            Seq::empty()
        }),
        GenericParamDefKind::Type { bounds, default, is_synthetic } => (if is_synthetic {
            "impl "@ + join(bound_texts(bounds@), " + "@)
        } else {
            p.name@ + (if bounds@.len() > 0 {
                ": "@ + join(bound_texts(bounds@), " + "@)
            } else {
                Seq::empty()
            })
        }) + (match default {
            Some(d) => " = "@ + type_text(d),
            None => Seq::empty(),
        }),
        GenericParamDefKind::Const { type_, default } => "const "@ + p.name@ + ": "@ + type_text(
            type_,
        ) + (match default {
            Some(d) => " = "@ + d@,
            None => Seq::empty(),
        }),
    }
}

/// A predicate of a where clause.
pub open spec fn predicate_text(p: WherePredicate) -> Seq<char> {
    match p {
        WherePredicate::BoundPredicate { type_, bounds, generic_params } => binder_text(
            generic_params@,
        ) + type_text(type_) + ": "@ + join(bound_texts(bounds@), " + "@),
        WherePredicate::LifetimePredicate { lifetime, outlives } => lifetime@ + ": "@ + join(
            string_texts(outlives@),
            " + "@,
        ),
        WherePredicate::EqPredicate { lhs, rhs } => type_text(lhs) + " = "@ + term_text(rhs),
    }
}

/// The generics of an item: the parameters in angle brackets, then the
/// where clause; each only where there is something to show.
pub open spec fn generics_text(g: Generics) -> Seq<char> {
    (if g.params@.len() > 0 {
        "<"@ + join(param_texts(g.params@), ", "@) + ">"@
    } else {
        Seq::empty()
    }) + (if g.where_predicates@.len() > 0 {
        " where "@ + join(
            Seq::new(g.where_predicates@.len(), |i: int| predicate_text(g.where_predicates@[i])),
            ", "@,
        )
    } else {
        Seq::empty()
    })
}

/// A signature without the name of the function: the parameters with
/// their names, three dots for more, and the return type.
pub open spec fn inputs_text(s: FunctionSignature) -> Seq<char> {
    "fn("@ + join(
        Seq::new(s.inputs@.len(), |i: int| s.inputs@[i].0@ + ": "@ + type_text(s.inputs@[i].1)),
        ", "@,
    ) + (if s.is_c_variadic {
        (if s.inputs@.len() > 0 {
            ", "@
        } else {
            ""@
        }) + "..."@
    } else {
        Seq::empty()
    }) + ")"@ + (match s.output {
        Some(o) => " -> "@ + type_text(o),
        None => Seq::empty(),
    })
}

/// The qualifiers of a function, each after a blank.
pub open spec fn header_text(h: FunctionHeader) -> Seq<char> {
    (if h.is_const {
        " const"@
    } else {
        ""@
    }) + (if h.is_unsafe {
        " unsafe"@
    } else {
        ""@
    }) + (if h.is_async {
        " async"@
    } else {
        ""@
    })
}

/// A function: qualifiers, generics and signature, with a blank between
/// each two.
pub open spec fn function_text(f: Function) -> Seq<char> {
    header_text(f.header) + " "@ + generics_text(f.generics) + " "@ + inputs_text(f.sig)
}

/// The kind of an item in words; a function in full.
pub open spec fn kind_text(inner: ItemEnum) -> Seq<char> {
    match inner {
        ItemEnum::Module(_) => "module"@,
        ItemEnum::ExternCrate { .. } => "extern crate"@,
        ItemEnum::Use(_) => "use"@,
        ItemEnum::Union(_) => "union"@,
        ItemEnum::Struct(_) => "struct"@,
        ItemEnum::StructField(_) => "struct field"@,
        ItemEnum::Enum(_) => "enum"@,
        ItemEnum::Variant(_) => "variant"@,
        ItemEnum::Function(f) => function_text(f),
        ItemEnum::Trait(_) => "trait"@,
        ItemEnum::TraitAlias(_) => "trait alias"@,
        ItemEnum::Impl(_) => "impl"@,
        ItemEnum::TypeAlias(_) => "type alias"@,
        ItemEnum::Constant { .. } => "constant"@,
        ItemEnum::Static(_) => "static"@,
        ItemEnum::ExternType => "extern type"@,
        ItemEnum::Macro(_) => "macro"@,
        ItemEnum::ProcMacro(_) => "procedural macro"@,
        ItemEnum::Primitive(_) => "primitive type"@,
        ItemEnum::AssocConst { .. } => "associated constant"@,
        ItemEnum::AssocType { .. } => "associated type"@,
    }
}

/// An item: its name, if it has one, and its kind.
pub open spec fn item_text(item: Item) -> Seq<char> {
    (match item.name {
        Some(n) => n@ + " "@,
        None => Seq::empty(),
    }) + kind_text(item.inner)
}

/// A copy of each string of a list.
fn copies(v: &Vec<String>) -> (r: Vec<String>)
    ensures
        texts(r@) == texts(v@),
{
    let mut out: Vec<String> = Vec::new();
    let mut i: usize = 0;
    while i < v.len()
        invariant
            i <= v.len(),
            out.len() == i,
            forall|j: int| 0 <= j < i ==> (#[trigger] out@[j])@ == v@[j]@,
        decreases v.len() - i,
    {
        out.push(v[i].clone());
        i = i + 1;
    }
    out
}

/// The types of a list, each as it is shown.
fn show_types(ts: &Vec<Type>) -> (r: Vec<String>)
    ensures
        texts(r@) == type_list_texts(ts@),
    decreases ts, 0nat,
{
    let mut parts: Vec<String> = Vec::new();
    let mut i: usize = 0;
    while i < ts.len()
        invariant
            i <= ts.len(),
            parts.len() == i,
            forall|j: int| 0 <= j < i ==> (#[trigger] parts@[j])@ == type_text(ts@[j]),
        decreases ts.len() - i,
    {
        parts.push(ts[i].display());
        i = i + 1;
    }
    parts
}

impl Type {
    /// The type in a line of text.
    pub fn display(&self) -> (r: String)
        ensures
            r@ == type_text(*self),
        decreases self, 1nat,
    {
        match self {
            Type::ResolvedPath(path) => path.path.clone(),
            Type::DynTrait(_) => "dyn <trait>".to_string(),
            Type::Generic(name) => name.clone(),
            Type::Primitive(name) => name.clone(),
            Type::FunctionPointer(_) => "fn(...)".to_string(),
            Type::Tuple(ts) => {
                let mut out = "(".to_string();
                out.push_str(join_texts(&show_types(ts), ", ").as_str());
                out.push_str(")");
                out
            },
            Type::Slice(inner) => {
                let mut out = "[".to_string();
                out.push_str(inner.display().as_str());
                out.push_str("]");
                out
            },
            Type::Array { type_, len } => {
                let mut out = "[".to_string();
                out.push_str(type_.display().as_str());
                out.push_str("; ");
                out.push_str(len.as_str());
                out.push_str("]");
                out
            },
            Type::Pat { .. } => "<pattern type>".to_string(),
            Type::ImplTrait(_) => "impl <trait bounds>".to_string(),
            Type::Infer => "_".to_string(),
            Type::RawPointer { is_mutable, .. } => {
                if *is_mutable {
                    "*mut ...".to_string()
                } else {
                    "*const ...".to_string()
                }
            },
            Type::BorrowedRef { lifetime, is_mutable, type_ } => {
                let mut out = if *is_mutable {
                    "&mut".to_string()
                } else {
                    "&".to_string()
                };
                match lifetime {
                    Some(l) => {
                        out.push_str(l.as_str());
                    },
                    None => {
                        out.push_str(
                            if *is_mutable {
                                ""
                            } else {
                                "_"
                            },
                        );
                    },
                }
                out.push_str(" ");
                out.push_str(type_.display().as_str());
                out
            },
            Type::QualifiedPath { name, .. } => {
                let mut out = "<qualified path>::".to_string();
                out.push_str(name.as_str());
                out
            },
        }
    }
}

impl Term {
    /// The term in a line of text.
    pub fn display(&self) -> (r: String)
        ensures
            r@ == term_text(*self),
    {
        match self {
            Term::Type(t) => t.display(),
            Term::Constant(c) => c.display(),
        }
    }
}

impl Constant {
    /// The expression of the constant.
    pub fn display(&self) -> (r: String)
        ensures
            r@ == self.expr@,
    {
        self.expr.clone()
    }
}

impl GenericArg {
    /// The argument in a line of text.
    pub fn display(&self) -> (r: String)
        ensures
            r@ == generic_arg_text(*self),
    {
        match self {
            GenericArg::Lifetime(l) => l.clone(),
            GenericArg::Type(t) => t.display(),
            GenericArg::Const(c) => c.display(),
            GenericArg::Infer => "_".to_string(),
        }
    }
}

/// The bounds of a list, each as it is shown.
fn show_bounds(bs: &Vec<GenericBound>) -> (r: Vec<String>)
    ensures
        texts(r@) == bound_texts(bs@),
    decreases bs, 0nat,
{
    let mut parts: Vec<String> = Vec::new();
    let mut i: usize = 0;
    while i < bs.len()
        invariant
            i <= bs.len(),
            parts.len() == i,
            forall|j: int| 0 <= j < i ==> (#[trigger] parts@[j])@ == bound_text(bs@[j]),
        decreases bs.len() - i,
    {
        parts.push(bs[i].display());
        i = i + 1;
    }
    parts
}

/// The parameters of a list, each as it is shown.
fn show_params(ps: &Vec<GenericParamDef>) -> (r: Vec<String>)
    ensures
        texts(r@) == param_texts(ps@),
    decreases ps, 0nat,
{
    let mut parts: Vec<String> = Vec::new();
    let mut i: usize = 0;
    while i < ps.len()
        invariant
            i <= ps.len(),
            parts.len() == i,
            forall|j: int| 0 <= j < i ==> (#[trigger] parts@[j])@ == param_text(ps@[j]),
        decreases ps.len() - i,
    {
        parts.push(ps[i].display());
        i = i + 1;
    }
    parts
}

/// `for<..> ` with the parameters of a list.
fn show_binder(ps: &Vec<GenericParamDef>) -> (r: String)
    ensures
        r@ == binder_text(ps@),
    decreases ps, 1nat,
{
    if ps.len() > 0 {
        let mut out = "for<".to_string();
        out.push_str(join_texts(&show_params(ps), ", ").as_str());
        out.push_str("> ");
        out
    } else {
        String::new()
    }
}

impl Path {
    /// The path with its generic arguments.
    pub fn display(&self) -> (r: String)
        ensures
            r@ == path_text(*self),
        decreases self, 1nat,
    {
        let mut out = self.path.clone();
        out.push_str("<");
        if let Some(a) = &self.args {
            out.push_str(a.display().as_str());
        }
        out.push_str(">");
        out
    }
}

impl GenericArgs {
    /// The arguments in a line of text.
    pub fn display(&self) -> (r: String)
        ensures
            r@ == generic_args_text(*self),
        decreases self, 2nat,
    {
        match self {
            GenericArgs::AngleBracketed { args, constraints } => {
                let mut parts: Vec<String> = Vec::new();
                let mut i: usize = 0;
                while i < args.len()
                    invariant
                        i <= args.len(),
                        parts.len() == i,
                        forall|j: int|
                            0 <= j < i ==> (#[trigger] parts@[j])@ == generic_arg_text(args@[j]),
                    decreases args.len() - i,
                {
                    parts.push(args[i].display());
                    i = i + 1;
                }
                assert(texts(parts@) =~= Seq::new(
                    args@.len(),
                    |i: int| generic_arg_text(args@[i]),
                ));
                let mut out = "<".to_string();
                out.push_str(join_texts(&parts, ", ").as_str());
                let ghost head = out@;
                let mut k: usize = 0;
                assert(out@ + constraints_text(constraints@, 0) =~= head + constraints_text(
                    constraints@,
                    0,
                ));
                while k < constraints.len()
                    invariant
                        k <= constraints.len(),
                        decreases_to!(self => constraints),
                        out@ + constraints_text(constraints@, k as int) == head + constraints_text(
                            constraints@,
                            0,
                        ),
                    decreases constraints.len() - k,
                {
                    let ghost before = out@;
                    let c = &constraints[k];
                    out.push_str(", ");
                    out.push_str(c.name.as_str());
                    out.push_str(" ");
                    match &c.binding {
                        AssocItemConstraintKind::Equality(term) => {
                            out.push_str("= ");
                            out.push_str(term.display().as_str());
                        },
                        AssocItemConstraintKind::Constraint(bounds) => {
                            out.push_str(": ");
                            out.push_str(join_texts(&show_bounds(bounds), " + ").as_str());
                        },
                    }
                    proof {
                        let step = constraint_text(constraints@[k as int]);
                        let rest = constraints_text(constraints@, k + 1);
                        assert(out@ =~= before + step);
                        assert(before + (step + rest) =~= (before + step) + rest);
                    }
                    k = k + 1;
                }
                assert(constraints_text(constraints@, k as int) =~= Seq::<char>::empty());
                out.push_str(">");
                assert(out@ =~= generic_args_text(*self));
                out
            },
            GenericArgs::Parenthesized { inputs, output } => {
                let mut out = "(".to_string();
                out.push_str(join_texts(&show_types(inputs), ", ").as_str());
                out.push_str(")");
                if let Some(o) = output {
                    out.push_str(" -> ");
                    out.push_str(o.display().as_str());
                }
                assert(out@ =~= generic_args_text(*self));
                out
            },
            GenericArgs::ReturnTypeNotation => "...".to_string(),
        }
    }
}

impl GenericBound {
    /// The bound in a line of text.
    pub fn display(&self) -> (r: String)
        ensures
            r@ == bound_text(*self),
        decreases self, 1nat,
    {
        match self {
            GenericBound::TraitBound { trait_, generic_params, modifier } => {
                let mut out = show_binder(generic_params);
                out.push_str(trait_.display().as_str());
                match modifier {
                    TraitBoundModifier::Unmodified => {
                        out.push_str("");
                    },
                    TraitBoundModifier::Maybe => {
                        out.push_str("?");
                    },
                    TraitBoundModifier::MaybeConst => {
                        out.push_str(" + const");
                    },
                }
                out
            },
            GenericBound::Outlives(lifetime) => lifetime.clone(),
            GenericBound::Use(args) => {
                let mut parts: Vec<String> = Vec::new();
                let mut i: usize = 0;
                while i < args.len()
                    invariant
                        i <= args.len(),
                        parts.len() == i,
                        forall|j: int|
                            0 <= j < i ==> (#[trigger] parts@[j])@ == capture_text(args@[j]),
                    decreases args.len() - i,
                {
                    parts.push(
                        match &args[i] {
                            PreciseCapturingArg::Lifetime(name) => name.clone(),
                            PreciseCapturingArg::Param(name) => name.clone(),
                        },
                    );
                    i = i + 1;
                }
                assert(texts(parts@) =~= Seq::new(args@.len(), |i: int| capture_text(args@[i])));
                let mut out = "use<".to_string();
                out.push_str(join_texts(&parts, ", ").as_str());
                out.push_str(">");
                out
            },
        }
    }
}

impl GenericParamDef {
    /// The parameter as it is declared.
    pub fn display(&self) -> (r: String)
        ensures
            r@ == param_text(*self),
        decreases self, 1nat,
    {
        match &self.kind {
            GenericParamDefKind::Lifetime { outlives } => {
                let mut out = self.name.clone();
                if outlives.len() > 0 {
                    out.push_str(": ");
                    out.push_str(join_texts(&copies(outlives), " + ").as_str());
                }
                out
            },
            GenericParamDefKind::Type { bounds, default, is_synthetic } => {
                let mut out = String::new();
                if *is_synthetic {
                    out.push_str("impl ");
                    out.push_str(join_texts(&show_bounds(bounds), " + ").as_str());
                } else {
                    out.push_str(self.name.as_str());
                    if bounds.len() > 0 {
                        out.push_str(": ");
                        out.push_str(join_texts(&show_bounds(bounds), " + ").as_str());
                    }
                }
                if let Some(d) = default {
                    out.push_str(" = ");
                    out.push_str(d.display().as_str());
                }
                out
            },
            GenericParamDefKind::Const { type_, default } => {
                let mut out = "const ".to_string();
                out.push_str(self.name.as_str());
                out.push_str(": ");
                out.push_str(type_.display().as_str());
                if let Some(d) = default {
                    out.push_str(" = ");
                    out.push_str(d.as_str());
                }
                out
            },
        }
    }
}

impl WherePredicate {
    /// The predicate in a line of text.
    pub fn display(&self) -> (r: String)
        ensures
            r@ == predicate_text(*self),
    {
        match self {
            WherePredicate::BoundPredicate { type_, bounds, generic_params } => {
                let mut out = show_binder(generic_params);
                out.push_str(type_.display().as_str());
                out.push_str(": ");
                out.push_str(join_texts(&show_bounds(bounds), " + ").as_str());
                out
            },
            WherePredicate::LifetimePredicate { lifetime, outlives } => {
                let mut out = lifetime.clone();
                out.push_str(": ");
                out.push_str(join_texts(&copies(outlives), " + ").as_str());
                out
            },
            WherePredicate::EqPredicate { lhs, rhs } => {
                let mut out = lhs.display();
                out.push_str(" = ");
                out.push_str(rhs.display().as_str());
                out
            },
        }
    }
}

impl Generics {
    /// The generics in a line of text.
    pub fn display(&self) -> (r: String)
        ensures
            r@ == generics_text(*self),
    {
        let mut out = String::new();
        if self.params.len() > 0 {
            out.push_str("<");
            out.push_str(join_texts(&show_params(&self.params), ", ").as_str());
            out.push_str(">");
        }
        if self.where_predicates.len() > 0 {
            let mut parts: Vec<String> = Vec::new();
            let mut i: usize = 0;
            while i < self.where_predicates.len()
                invariant
                    i <= self.where_predicates.len(),
                    parts.len() == i,
                    forall|j: int|
                        0 <= j < i ==> (#[trigger] parts@[j])@ == predicate_text(
                            self.where_predicates@[j],
                        ),
                decreases self.where_predicates.len() - i,
            {
                parts.push(self.where_predicates[i].display());
                i = i + 1;
            }
            assert(texts(parts@) =~= Seq::new(
                self.where_predicates@.len(),
                |i: int| predicate_text(self.where_predicates@[i]),
            ));
            out.push_str(" where ");
            out.push_str(join_texts(&parts, ", ").as_str());
        }
        out
    }
}

impl FunctionSignature {
    /// The signature without the name of the function.
    pub fn display(&self) -> (r: String)
        ensures
            r@ == inputs_text(*self),
    {
        let mut parts: Vec<String> = Vec::new();
        let mut i: usize = 0;
        while i < self.inputs.len()
            invariant
                i <= self.inputs.len(),
                parts.len() == i,
                forall|j: int|
                    0 <= j < i ==> (#[trigger] parts@[j])@ == self.inputs@[j].0@ + ": "@
                        + type_text(self.inputs@[j].1),
            decreases self.inputs.len() - i,
        {
            let mut part = self.inputs[i].0.clone();
            part.push_str(": ");
            part.push_str(self.inputs[i].1.display().as_str());
            parts.push(part);
            i = i + 1;
        }
        assert(texts(parts@) =~= Seq::new(
            self.inputs@.len(),
            |i: int| self.inputs@[i].0@ + ": "@ + type_text(self.inputs@[i].1),
        ));
        let mut out = "fn(".to_string();
        out.push_str(join_texts(&parts, ", ").as_str());
        if self.is_c_variadic {
            if self.inputs.len() > 0 {
                out.push_str(", ");
            } else {
                out.push_str("");
            }
            out.push_str("...");
        }
        out.push_str(")");
        if let Some(o) = &self.output {
            out.push_str(" -> ");
            out.push_str(o.display().as_str());
        }
        out
    }
}

impl FunctionHeader {
    /// The qualifiers, each after a blank.
    pub fn display(&self) -> (r: String)
        ensures
            r@ == header_text(*self),
    {
        let mut out = String::new();
        out.push_str(
            if self.is_const {
                " const"
            } else {
                ""
            },
        );
        out.push_str(
            if self.is_unsafe {
                " unsafe"
            } else {
                ""
            },
        );
        out.push_str(
            if self.is_async {
                " async"
            } else {
                ""
            },
        );
        out
    }
}

impl Function {
    /// The function in a line of text.
    pub fn display(&self) -> (r: String)
        ensures
            r@ == function_text(*self),
    {
        let mut out = self.header.display();
        out.push_str(" ");
        out.push_str(self.generics.display().as_str());
        out.push_str(" ");
        out.push_str(self.sig.display().as_str());
        out
    }
}

impl ItemEnum {
    /// The kind of the item in words; a function in full.
    pub fn display(&self) -> (r: String)
        ensures
            r@ == kind_text(*self),
    {
        match self {
            ItemEnum::Module(_) => "module".to_string(),
            ItemEnum::ExternCrate { .. } => "extern crate".to_string(),
            ItemEnum::Use(_) => "use".to_string(),
            ItemEnum::Union(_) => "union".to_string(),
            ItemEnum::Struct(_) => "struct".to_string(),
            ItemEnum::StructField(_) => "struct field".to_string(),
            ItemEnum::Enum(_) => "enum".to_string(),
            ItemEnum::Variant(_) => "variant".to_string(),
            ItemEnum::Function(f) => f.display(),
            ItemEnum::Trait(_) => "trait".to_string(),
            ItemEnum::TraitAlias(_) => "trait alias".to_string(),
            ItemEnum::Impl(_) => "impl".to_string(),
            ItemEnum::TypeAlias(_) => "type alias".to_string(),
            ItemEnum::Constant { .. } => "constant".to_string(),
            ItemEnum::Static(_) => "static".to_string(),
            ItemEnum::ExternType => "extern type".to_string(),
            ItemEnum::Macro(_) => "macro".to_string(),
            ItemEnum::ProcMacro(_) => "procedural macro".to_string(),
            ItemEnum::Primitive(_) => "primitive type".to_string(),
            ItemEnum::AssocConst { .. } => "associated constant".to_string(),
            ItemEnum::AssocType { .. } => "associated type".to_string(),
        }
    }
}

impl Item {
    /// The item in a line of text.
    pub fn display(&self) -> (r: String)
        ensures
            r@ == item_text(*self),
    {
        let mut out = String::new();
        if let Some(n) = &self.name {
            out.push_str(n.as_str());
            out.push_str(" ");
        }
        out.push_str(self.inner.display().as_str());
        out
    }
}

} // verus!
