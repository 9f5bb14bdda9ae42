use vstd::prelude::*;

use crate::bound::TypeRef;
use crate::meta::{Meta, Pos};

verus! {

/// The kind of aggregate a capability is derived for.
#[derive(Clone, Copy, Debug, PartialEq, Eq, Structural)]
pub enum AggregateKind {
    /// A record: every field holds a value.
    Record,
    /// A union: one field holds the value at a time.
    Union,
}

/// A field of an aggregate, with its annotations.
#[derive(Debug, PartialEq, Eq)]
pub struct Field {
    pub name: Option<String>,
    pub ty: TypeRef,
    pub attrs: Vec<Meta>,
    pub pos: Pos,
}

/// An aggregate type that a capability is derived for.
#[derive(Debug, PartialEq, Eq)]
pub struct Aggregate {
    pub ident: String,
    /// The names of its generic type parameters.
    pub generics: Vec<String>,
    pub kind: AggregateKind,
    /// Its fields, in declaration order.
    pub fields: Vec<Field>,
    pub pos: Pos,
}

} // verus!
