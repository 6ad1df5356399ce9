//! Declared types, as far as the rewrite looks into them: a path with its
//! trailing generic arguments, or text that is carried through unread.
use vstd::prelude::*;
use vstd::string::*;
use crate::error::ConfigError;
use crate::text::{join, join_texts, texts};

verus! {

/// A type as written in a signature.
#[derive(Debug, PartialEq, Eq)]
pub enum TypeExpr {
    /// A path: what stands before its last segment, the last segment's
    /// name, and that segment's generic arguments where it has any.
    Path { prefix: String, name: String, args: Option<Vec<GenericArg>> },
    /// Any other type, by its text.
    Opaque { text: String },
}

/// One generic argument of a path.
#[derive(Debug, PartialEq, Eq)]
pub enum GenericArg {
    /// A type.
    Type(TypeExpr),
    /// Anything else (a lifetime, a constant, a binding), by its text.
    Opaque(String),
}

/// What a [`TypeExpr`] stands for.
pub enum TypeView {
    Path { prefix: Seq<char>, name: Seq<char>, args: Option<Seq<GenericArgView>> },
    Opaque { text: Seq<char> },
}

/// What a [`GenericArg`] stands for.
pub enum GenericArgView {
    Type(TypeView),
    Opaque(Seq<char>),
}

impl TypeExpr {
    /// What this type stands for: its view, found by descending into it.
    pub open spec fn model(self) -> TypeView
        decreases self,
    {
        match self {
            TypeExpr::Path { prefix, name, args } => TypeView::Path {
                prefix: prefix@,
                name: name@,
                args: match args {
                    Some(list) => Some(arg_views(list@)),
                    None => None,
                },
            },
            TypeExpr::Opaque { text } => TypeView::Opaque { text: text@ },
        }
    }
}

impl GenericArg {
    /// What this argument stands for.
    pub open spec fn model(self) -> GenericArgView
        decreases self,
    {
        match self {
            GenericArg::Type(ty) => GenericArgView::Type(ty.model()),
            GenericArg::Opaque(text) => GenericArgView::Opaque(text@),
        }
    }
}

impl View for TypeExpr {
    type V = TypeView;

    open spec fn view(&self) -> TypeView {
        self.model()
    }
}

impl View for GenericArg {
    type V = GenericArgView;

    open spec fn view(&self) -> GenericArgView {
        self.model()
    }
}

/// The views of a sequence of generic arguments.
pub open spec fn arg_views(list: Seq<GenericArg>) -> Seq<GenericArgView>
    decreases list,
{
    Seq::new(
        list.len(),
        |i: int|
            if 0 <= i < list.len() {
                list[i].model()
            } else {
                GenericArgView::Opaque(Seq::empty())
            },
    )
}

/// The views of a sequence of types.
pub open spec fn type_views(list: Seq<TypeExpr>) -> Seq<TypeView> {
    Seq::new(list.len(), |i: int| list[i]@)
}

/// The text of a type.
pub open spec fn type_text(ty: TypeView) -> Seq<char>
    decreases ty,
{
    match ty {
        TypeView::Path { prefix, name, args } => prefix + name + match args {
            Some(list) => "<"@ + join(arg_texts(list), ", "@) + ">"@,
            None => Seq::empty(),
        },
        TypeView::Opaque { text } => text,
    }
}

/// The text of a generic argument.
pub open spec fn arg_text(arg: GenericArgView) -> Seq<char>
    decreases arg,
{
    match arg {
        GenericArgView::Type(ty) => type_text(ty),
        GenericArgView::Opaque(text) => text,
    }
}

/// The texts of a sequence of generic arguments.
pub open spec fn arg_texts(list: Seq<GenericArgView>) -> Seq<Seq<char>>
    decreases list,
{
    Seq::new(
        list.len(),
        |i: int|
            if 0 <= i < list.len() {
                arg_text(list[i])
            } else {
                Seq::empty()
            },
    )
}

/// The texts of a sequence of types.
pub open spec fn type_texts(list: Seq<TypeView>) -> Seq<Seq<char>> {
    Seq::new(list.len(), |i: int| type_text(list[i]))
}

/// The first generic argument of a path, where it has one and it is a type.
pub open spec fn first_type_argument(ty: TypeView) -> Option<TypeView> {
    match ty {
        TypeView::Path { args: Some(list), .. } => if list.len() > 0 {
            match list[0] {
                GenericArgView::Type(inner) => Some(inner),
                GenericArgView::Opaque(_) => None,
            }
        } else {
            None
        },
        _ => None,
    }
}

/// The type found by descending `depth` times into the first generic argument:
/// the type of a binding that lies `depth` layers inside a parameter's pattern.
/// There is none where the type runs out of generic arguments first.
pub open spec fn leaf_type(ty: TypeView, depth: nat) -> Option<TypeView>
    decreases depth,
{
    if depth == 0 {
        Some(ty)
    } else {
        match first_type_argument(ty) {
            Some(inner) => leaf_type(inner, (depth - 1) as nat),
            None => None,
        }
    }
}

/// The type of a binding at `depth`, or the failure to find one.
pub open spec fn resolved_type(ty: TypeView, depth: nat) -> Result<TypeView, ConfigError> {
    match leaf_type(ty, depth) {
        Some(leaf) => Ok(leaf),
        None => Err(ConfigError::DepthExceedsType),
    }
}

/// The type that an outcome stands for.
pub open spec fn type_outcome(r: Result<TypeExpr, ConfigError>) -> Result<TypeView, ConfigError> {
    match r {
        Ok(ty) => Ok(ty@),
        Err(e) => Err(e),
    }
}

/// The types that an outcome stands for.
pub open spec fn types_outcome(r: Result<Vec<TypeExpr>, ConfigError>) -> Result<
    Seq<TypeView>,
    ConfigError,
> {
    match r {
        Ok(tys) => Ok(type_views(tys@)),
        Err(e) => Err(e),
    }
}

/// Narrows a parameter's declared type to the type of a binding found at
/// `depth`. Fails where the type cannot be unwrapped that often.
pub fn ty_from_depth_info(depth: u8, ty: &TypeExpr) -> (r: Result<TypeExpr, ConfigError>)
    ensures
        type_outcome(r) == resolved_type(ty@, depth as nat),
    decreases depth,
{
    if depth == 0 {
        return Ok(ty.duplicate());
    }
    match ty {
        TypeExpr::Path { args: Some(list), .. } => {
            if list.len() > 0 {
                match &list[0] {
                    GenericArg::Type(inner) => ty_from_depth_info(depth - 1, inner),
                    GenericArg::Opaque(_) => Err(ConfigError::DepthExceedsType),
                }
            } else {
                Err(ConfigError::DepthExceedsType)
            }
        },
        _ => Err(ConfigError::DepthExceedsType),
    }
}

impl TypeExpr {
    /// A copy of this type.
    pub fn duplicate(&self) -> (r: TypeExpr)
        ensures
            r@ == self@,
        decreases self,
    {
        match self {
            TypeExpr::Path { prefix, name, args } => {
                let copied = match args {
                    Some(list) => Some(duplicate_args(list)),
                    None => None,
                };
                let r = TypeExpr::Path { prefix: prefix.clone(), name: name.clone(), args: copied };
                proof {
                    if let Some(list) = args {
                        assert(arg_views(copied->Some_0@) =~= arg_views(list@));
                    }
                }
                r
            },
            TypeExpr::Opaque { text } => TypeExpr::Opaque { text: text.clone() },
        }
    }

    /// Writes this type out.
    pub fn to_text(&self) -> (r: String)
        ensures
            r@ == type_text(self@),
        decreases self,
    {
        match self {
            TypeExpr::Path { prefix, name, args } => {
                let mut out = prefix.clone();
                out.append(name.as_str());
                match args {
                    Some(list) => {
                        let parts = args_to_texts(list);
                        let mut tail = String::from_str("<");
                        tail.append(join_texts(&parts, ", ").as_str());
                        tail.append(">");
                        proof {
                            let shown = self@->Path_args->Some_0;
                            assert(texts(parts@) =~= arg_texts(shown));
                        }
                        out.append(tail.as_str());
                    },
                    None => {
                        assert(out@ =~= type_text(self@));
                    },
                }
                out
            },
            TypeExpr::Opaque { text } => text.clone(),
        }
    }
}

impl GenericArg {
    /// A copy of this argument.
    pub fn duplicate(&self) -> (r: GenericArg)
        ensures
            r@ == self@,
        decreases self,
    {
        match self {
            GenericArg::Type(ty) => GenericArg::Type(ty.duplicate()),
            GenericArg::Opaque(text) => GenericArg::Opaque(text.clone()),
        }
    }

    /// Writes this argument out.
    pub fn to_text(&self) -> (r: String)
        ensures
            r@ == arg_text(self@),
        decreases self,
    {
        match self {
            GenericArg::Type(ty) => ty.to_text(),
            GenericArg::Opaque(text) => text.clone(),
        }
    }
}

/// A copy of each of several arguments.
fn duplicate_args(list: &Vec<GenericArg>) -> (r: Vec<GenericArg>)
    ensures
        r@.len() == list@.len(),
        forall|j: int| 0 <= j < list@.len() ==> r@[j]@ == list@[j]@,
    decreases list,
{
    let mut out: Vec<GenericArg> = Vec::new();
    let mut i: usize = 0;
    while i < list.len()
        invariant
            i <= list.len(),
            out@.len() == i,
            forall|j: int| 0 <= j < i ==> out@[j]@ == list@[j]@,
        decreases list.len() - i,
    {
        out.push(list[i].duplicate());
        i = i + 1;
    }
    out
}

/// The texts of several arguments.
fn args_to_texts(list: &Vec<GenericArg>) -> (r: Vec<String>)
    ensures
        r@.len() == list@.len(),
        forall|j: int| 0 <= j < list@.len() ==> r@[j]@ == arg_text(list@[j]@),
    decreases list,
{
    let mut out: Vec<String> = Vec::new();
    let mut i: usize = 0;
    while i < list.len()
        invariant
            i <= list.len(),
            out@.len() == i,
            forall|j: int| 0 <= j < i ==> out@[j]@ == arg_text(list@[j]@),
        decreases list.len() - i,
    {
        out.push(list[i].to_text());
        i = i + 1;
    }
    out
}

} // verus!
