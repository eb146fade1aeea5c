//! The declared type of a field, as written in the record declaration.
use vstd::prelude::*;

verus! {

/// A declared Rust type, reduced to the shapes that type inference looks at.
#[derive(Debug, PartialEq, Eq)]
pub enum RustType {
    /// A path such as `u32`, `Vec<String>` or `chrono::NaiveDateTime`.
    Path(TypePath),
    /// `(T1, T2, ..)`.
    Tuple(Vec<RustType>),
    /// `[T; N]`.
    Array(Box<RustType>),
    /// `[T]`.
    Slice(Box<RustType>),
    /// `&T` or `&mut T`.
    Reference(Box<RustType>),
    /// `(T)`.
    Paren(Box<RustType>),
    /// Any other shape.
    Other,
}

/// A type path: its segments, and whether it starts with `::`.
#[derive(Debug, PartialEq, Eq)]
pub struct TypePath {
    pub leading_colon: bool,
    pub segments: Vec<PathSegment>,
}

/// One segment of a path: a name and its generic arguments.
#[derive(Debug, PartialEq, Eq)]
pub struct PathSegment {
    pub ident: String,
    pub arguments: PathArguments,
}

/// The arguments that follow a path segment.
#[derive(Debug, PartialEq, Eq)]
pub enum PathArguments {
    /// No arguments.
    Empty,
    /// `<A, B, ..>`.
    AngleBracketed(Vec<GenericArgument>),
    /// `(A, B) -> C`.
    Parenthesized,
}

/// One angle-bracketed argument.
#[derive(Debug, PartialEq, Eq)]
pub enum GenericArgument {
    Type(RustType),
    /// A lifetime, a constant or a binding.
    Other,
}

/// The name of a path made of one segment without arguments and no leading `::`.
pub open spec fn path_ident(p: TypePath) -> Option<Seq<char>> {
    if !p.leading_colon && p.segments@.len() == 1 && p.segments@[0].arguments is Empty {
        Some(p.segments@[0].ident@)
    } else {
        None
    }
}

impl TypePath {
    /// The name of the path, where it is a single plain identifier.
    pub fn get_ident(&self) -> (r: Option<&String>)
        ensures
            match r {
                Some(s) => path_ident(*self) == Some(s@),
                None => path_ident(*self) is None,
            },
    {
        if !self.leading_colon && self.segments.len() == 1 {
            match &self.segments[0].arguments {
                PathArguments::Empty => Some(&self.segments[0].ident),
                _ => None,
            }
        } else {
            None
        }
    }
}

} // verus!
