//! Operands of instructions.

use vstd::prelude::*;

use super::{type_text, TempVarId, TempVarIdView, Type};
use crate::text::{decimal, push_decimal};

verus! {

/// An operand: a constant or a temporary. It carries its type, so that no
/// reader has to look it up.
#[derive(Debug)]
pub enum Operand {
    Immediate { ty: Type, value: u64 },
    TempVar { ty: Type, id: TempVarId },
}

/// The mathematical value of an [`Operand`].
pub enum OperandView {
    Immediate { ty: Type, value: u64 },
    TempVar { ty: Type, id: TempVarIdView },
}

impl View for Operand {
    type V = OperandView;

    open spec fn view(&self) -> OperandView {
        match self {
            Operand::Immediate { ty, value } => OperandView::Immediate { ty: *ty, value: *value },
            Operand::TempVar { ty, id } => OperandView::TempVar { ty: *ty, id: id@ },
        }
    }
}

impl Clone for Operand {
    fn clone(&self) -> (copy: Operand)
        ensures
            copy@ == self@,
    {
        match self {
            Operand::Immediate { ty, value } => Operand::Immediate {
                ty: ty.clone(),
                value: *value,
            },
            Operand::TempVar { ty, id } => Operand::TempVar { ty: ty.clone(), id: id.clone() },
        }
    }
}

impl OperandView {
    /// The type that the operand carries.
    pub open spec fn ty(self) -> Type {
        match self {
            OperandView::Immediate { ty, value } => ty,
            OperandView::TempVar { ty, id } => ty,
        }
    }

    /// The textual form: a constant as its value and its type, a temporary as its name.
    pub open spec fn text(self) -> Seq<char> {
        match self {
            OperandView::Immediate { ty, value } => decimal(value as nat) + type_text(ty),
            OperandView::TempVar { ty, id } => id.text(),
        }
    }
}

impl Operand {
    /// The type that the operand carries.
    pub fn ty(&self) -> (ty: Type)
        ensures
            ty == self@.ty(),
    {
        match self {
            Operand::Immediate { ty, .. } => ty.clone(),
            Operand::TempVar { ty, .. } => ty.clone(),
        }
    }

    /// Appends the textual form to the text.
    pub fn write(&self, text: &mut String)
        ensures
            final(text)@ == old(text)@ + self@.text(),
    {
        match self {
            Operand::Immediate { ty, value } => {
                push_decimal(text, *value);
                ty.write(text);
                assert(text@ =~= old(text)@ + self@.text());
            },
            Operand::TempVar { ty, id } => id.write(text),
        }
    }

    /// The textual form.
    pub fn to_string(&self) -> (text: String)
        ensures
            text@ == self@.text(),
    {
        let mut text = String::new();
        self.write(&mut text);
        assert(text@ =~= self@.text());
        text
    }
}

} // verus!
