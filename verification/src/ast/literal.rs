//! Literals of the source language.

use vstd::prelude::*;

use super::types::{NumberKind, NumberType, Type, TypeView};

verus! {

/// A numeric literal: the type it is tagged with and its magnitude.
#[derive(Debug, Clone, Copy, PartialEq, Eq)]
pub struct NumberLiteral {
    pub kind: NumberType,
    pub value: u64,
}

/// A literal expression.
#[derive(Debug, Clone, Copy, PartialEq, Eq)]
pub enum Literal {
    Number(NumberLiteral),
}

impl Literal {
    /// The type the literal is tagged with.
    pub open spec fn spec_ty(self) -> TypeView {
        match self {
            Literal::Number(number) => TypeView::Number(number.kind),
        }
    }

    /// The type of the literal.
    pub fn ty(&self) -> (ty: Type)
        ensures
            ty@ == self.spec_ty(),
    {
        match self {
            Literal::Number(number) => Type::Number(number.kind),
        }
    }
}

impl NumberLiteral {
    /// A literal of the given type and magnitude.
    pub fn new(kind: NumberType, value: u64) -> (literal: NumberLiteral)
        ensures
            literal == (NumberLiteral { kind, value }),
    {
        NumberLiteral { kind, value }
    }

    /// A signed 32-bit literal.
    pub fn int32(value: u64) -> (literal: NumberLiteral)
        ensures
            literal == (NumberLiteral {
                kind: NumberType { kind: NumberKind::Signed, bits: 32 },
                value,
            }),
    {
        NumberLiteral::new(NumberType::int32(), value)
    }
}

} // verus!
