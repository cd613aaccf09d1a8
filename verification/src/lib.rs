//! Reconciles the generic parameters of a sub struct with those of the super
//! struct it is converted from.
//!
//! The super type is given as text, in which `#` before an identifier marks a
//! parameter that is still free: in `Bar<#T, u32>`, `T` is free and `u32` is
//! a concrete type. [`from_type`] reads that text into a type expression and
//! the list of its free parameters. [`lifetimes`] and [`type_params`] collect
//! the lifetimes and the type parameters that the expression mentions, hold
//! them against the parameters that the sub struct declares, and give those
//! that a conversion between the two has to introduce beside them.
//! [`generics`] composes the parameter list of the conversion, [`reconcile`]
//! does all of this in one call, and [`plan`] settles how each field of the
//! sub struct gets its value. [`laws`] states what holds whatever the input.

pub mod error;
pub mod from_type;
pub mod generics;
pub mod laws;
pub mod lifetimes;
pub mod markers;
pub mod names;
pub mod plan;
pub mod reconcile;
pub mod syntax;
pub mod text;
pub mod type_expr;
pub mod type_params;
pub mod unpack;
