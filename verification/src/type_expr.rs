//! The tree of a type expression, and the mathematical tree it stands for.

use vstd::prelude::*;

verus! {

broadcast use vstd::std_specs::vec::axiom_vec_index_decreases;

/// A type expression.
///
/// Identifiers are kept as text. A lifetime is kept without its apostrophe,
/// so `'a` is `a`, `'static` is `static` and `'_` is `_`.
#[derive(Debug, PartialEq, Eq)]
pub enum TypeExpr {
    /// A path such as `std::vec::Vec<T>`, one segment after the other.
    Named(Vec<Segment>),
    /// `&'a mut T`: whether it is mutable, its lifetime if one is written,
    /// and the type referred to.
    Reference(bool, Option<String>, Box<TypeExpr>),
    /// `*const T` or `*mut T`.
    Pointer(Box<TypeExpr>),
    /// `[T; n]`: the element type and the text of the length expression.
    Array(Box<TypeExpr>, String),
    /// `[T]`.
    Slice(Box<TypeExpr>),
    /// `(A, B, C)`.
    Tuple(Vec<TypeExpr>),
    /// A type within invisible delimiters.
    Grouped(Box<TypeExpr>),
    /// `(T)`.
    Parenthesized(Box<TypeExpr>),
    /// Anything else: `impl Trait`, `dyn Trait`, `fn(A) -> B`, `_`, `!`, a
    /// macro. Nothing inside it is looked at.
    Opaque,
}

/// One segment of a path, with the arguments written after it.
#[derive(Debug, PartialEq, Eq)]
pub struct Segment {
    pub ident: String,
    pub arguments: Arguments,
}

/// What follows the identifier of a path segment.
#[derive(Debug, PartialEq, Eq)]
pub enum Arguments {
    /// Nothing, as in `Vec`.
    Absent,
    /// A generic argument list, as in `Vec<T>`.
    AngleBracketed(Vec<Argument>),
    /// The `(A, B) -> C` of `Fn(A, B) -> C`. Nothing inside it is looked at.
    Parenthesized,
}

/// One generic argument.
#[derive(Debug, PartialEq, Eq)]
pub enum Argument {
    /// A lifetime, without its apostrophe.
    Lifetime(String),
    /// A type. A const expression or an associated-type binding stands here
    /// as [`TypeExpr::Opaque`].
    Type(TypeExpr),
}

/// The mathematical value of a [`TypeExpr`].
#[verifier::ext_equal]
pub enum TypeTree {
    Named(Seq<SegmentTree>),
    Reference(bool, Option<Seq<char>>, Box<TypeTree>),
    Pointer(Box<TypeTree>),
    Array(Box<TypeTree>, Seq<char>),
    Slice(Box<TypeTree>),
    Tuple(Seq<TypeTree>),
    Grouped(Box<TypeTree>),
    Parenthesized(Box<TypeTree>),
    Opaque,
}

/// The mathematical value of a [`Segment`].
#[verifier::ext_equal]
pub struct SegmentTree {
    pub ident: Seq<char>,
    pub arguments: ArgumentsTree,
}

/// The mathematical value of an [`Arguments`].
#[verifier::ext_equal]
pub enum ArgumentsTree {
    Absent,
    AngleBracketed(Seq<ArgumentTree>),
    Parenthesized,
}

/// The mathematical value of an [`Argument`].
#[verifier::ext_equal]
pub enum ArgumentTree {
    Lifetime(Seq<char>),
    Type(TypeTree),
}

/// The tree that `ty` stands for.
pub open spec fn type_tree(ty: TypeExpr) -> TypeTree
    decreases ty,
{
    match ty {
        TypeExpr::Named(segments) => TypeTree::Named(
            Seq::new(
                segments.len() as nat,
                |i: int|
                    if 0 <= i < segments.len() {
                        segment_tree(segments[i])
                    } else {
                        arbitrary()
                    },
            ),
        ),
        TypeExpr::Reference(mutable, lifetime, inner) => TypeTree::Reference(
            mutable,
            match lifetime {
                Some(name) => Some(name@),
                None => None,
            },
            Box::new(type_tree(*inner)),
        ),
        TypeExpr::Pointer(inner) => TypeTree::Pointer(Box::new(type_tree(*inner))),
        TypeExpr::Array(inner, len) => TypeTree::Array(Box::new(type_tree(*inner)), len@),
        TypeExpr::Slice(inner) => TypeTree::Slice(Box::new(type_tree(*inner))),
        TypeExpr::Tuple(elems) => TypeTree::Tuple(
            Seq::new(
                elems.len() as nat,
                |i: int|
                    if 0 <= i < elems.len() {
                        type_tree(elems[i])
                    } else {
                        arbitrary()
                    },
            ),
        ),
        TypeExpr::Grouped(inner) => TypeTree::Grouped(Box::new(type_tree(*inner))),
        TypeExpr::Parenthesized(inner) => TypeTree::Parenthesized(Box::new(type_tree(*inner))),
        TypeExpr::Opaque => TypeTree::Opaque,
    }
}

/// The tree that `segment` stands for.
pub open spec fn segment_tree(segment: Segment) -> SegmentTree
    decreases segment,
{
    SegmentTree { ident: segment.ident@, arguments: arguments_tree(segment.arguments) }
}

/// The tree that `arguments` stands for.
pub open spec fn arguments_tree(arguments: Arguments) -> ArgumentsTree
    decreases arguments,
{
    match arguments {
        Arguments::Absent => ArgumentsTree::Absent,
        Arguments::AngleBracketed(list) => ArgumentsTree::AngleBracketed(
            Seq::new(
                list.len() as nat,
                |i: int|
                    if 0 <= i < list.len() {
                        argument_tree(list[i])
                    } else {
                        arbitrary()
                    },
            ),
        ),
        Arguments::Parenthesized => ArgumentsTree::Parenthesized,
    }
}

/// The tree that `argument` stands for.
pub open spec fn argument_tree(argument: Argument) -> ArgumentTree
    decreases argument,
{
    match argument {
        Argument::Lifetime(name) => ArgumentTree::Lifetime(name@),
        Argument::Type(ty) => ArgumentTree::Type(type_tree(ty)),
    }
}

impl View for TypeExpr {
    type V = TypeTree;

    open spec fn view(&self) -> TypeTree {
        type_tree(*self)
    }
}

impl View for Segment {
    type V = SegmentTree;

    open spec fn view(&self) -> SegmentTree {
        segment_tree(*self)
    }
}

impl View for Arguments {
    type V = ArgumentsTree;

    open spec fn view(&self) -> ArgumentsTree {
        arguments_tree(*self)
    }
}

impl View for Argument {
    type V = ArgumentTree;

    open spec fn view(&self) -> ArgumentTree {
        argument_tree(*self)
    }
}

} // verus!
