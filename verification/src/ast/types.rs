//! Source-language types.

use vstd::prelude::*;
use vstd::string::StringExecFns;

verus! {

/// The family a numeric type belongs to.
#[derive(Debug, Clone, Copy, PartialEq, Eq)]
pub enum NumberKind {
    Signed,
    Unsigned,
    Float,
}

/// A numeric type: its family and its width in bits.
#[derive(Debug, Clone, Copy, PartialEq, Eq)]
pub struct NumberType {
    pub kind: NumberKind,
    pub bits: u32,
}

impl NumberType {
    /// The signed 32-bit integer type, `i32`.
    pub fn int32() -> (ty: NumberType)
        ensures
            ty == (NumberType { kind: NumberKind::Signed, bits: 32 }),
    {
        NumberType { kind: NumberKind::Signed, bits: 32 }
    }

    /// The signed 64-bit integer type, `i64`.
    pub fn int64() -> (ty: NumberType)
        ensures
            ty == (NumberType { kind: NumberKind::Signed, bits: 64 }),
    {
        NumberType { kind: NumberKind::Signed, bits: 64 }
    }

    /// The unsigned 32-bit integer type, `u32`.
    pub fn uint32() -> (ty: NumberType)
        ensures
            ty == (NumberType { kind: NumberKind::Unsigned, bits: 32 }),
    {
        NumberType { kind: NumberKind::Unsigned, bits: 32 }
    }

    /// The unsigned 64-bit integer type, `u64`.
    pub fn uint64() -> (ty: NumberType)
        ensures
            ty == (NumberType { kind: NumberKind::Unsigned, bits: 64 }),
    {
        NumberType { kind: NumberKind::Unsigned, bits: 64 }
    }

    /// The 32-bit floating-point type, `f32`.
    pub fn float32() -> (ty: NumberType)
        ensures
            ty == (NumberType { kind: NumberKind::Float, bits: 32 }),
    {
        NumberType { kind: NumberKind::Float, bits: 32 }
    }

    /// The 64-bit floating-point type, `f64`.
    pub fn float64() -> (ty: NumberType)
        ensures
            ty == (NumberType { kind: NumberKind::Float, bits: 64 }),
    {
        NumberType { kind: NumberKind::Float, bits: 64 }
    }
}

/// A source-language type. The empty tuple is the unit type.
#[derive(Debug, PartialEq, Eq)]
pub enum Type {
    Tuple(Vec<Type>),
    Number(NumberType),
}

/// The mathematical value of a [`Type`].
pub enum TypeView {
    Tuple(Seq<TypeView>),
    Number(NumberType),
}

/// The value of one type.
pub open spec fn type_view(ty: Type) -> TypeView
    decreases ty,
{
    match ty {
        Type::Tuple(items) => TypeView::Tuple(
            Seq::new(
                items@.len(),
                |i: int|
                    if 0 <= i < items@.len() {
                        type_view(items@[i])
                    } else {
                        arbitrary()
                    },
            ),
        ),
        Type::Number(number) => TypeView::Number(number),
    }
}

impl View for Type {
    type V = TypeView;

    open spec fn view(&self) -> TypeView {
        type_view(*self)
    }
}

impl Clone for Type {
    fn clone(&self) -> (copy: Type)
        ensures
            copy@ == self@,
        decreases self,
    {
        match self {
            Type::Tuple(items) => {
                let mut copies: Vec<Type> = Vec::new();
                let mut i: usize = 0;
                assert(decreases_to!(self => items));
                while i < items.len()
                    invariant
                        decreases_to!(self => items),
                        i <= items.len(),
                        copies@.len() == i,
                        forall|j: int| 0 <= j < i ==> copies@[j]@ == items@[j]@,
                        self == Type::Tuple(*items),
                    decreases items.len() - i,
                {
                    proof {
                        assert(decreases_to!(items => items[i as int]));
                    }
                    let item = items[i].clone();
                    copies.push(item);
                    i += 1;
                }
                let copy = Type::Tuple(copies);
                assert(copy@->Tuple_0.len() == self@->Tuple_0.len());
                assert(copy@->Tuple_0 =~= self@->Tuple_0);
                copy
            },
            Type::Number(number) => Type::Number(*number),
        }
    }
}

/// The type that a name denotes: `i32`, `i64`, `u32`, `u64`, `f32` and `f64` are known.
pub open spec fn named_type(name: Seq<char>) -> Option<TypeView> {
    if name == seq!['i', '3', '2'] {
        Some(TypeView::Number(NumberType { kind: NumberKind::Signed, bits: 32 }))
    } else if name == seq!['i', '6', '4'] {
        Some(TypeView::Number(NumberType { kind: NumberKind::Signed, bits: 64 }))
    } else if name == seq!['u', '3', '2'] {
        Some(TypeView::Number(NumberType { kind: NumberKind::Unsigned, bits: 32 }))
    } else if name == seq!['u', '6', '4'] {
        Some(TypeView::Number(NumberType { kind: NumberKind::Unsigned, bits: 64 }))
    } else if name == seq!['f', '3', '2'] {
        Some(TypeView::Number(NumberType { kind: NumberKind::Float, bits: 32 }))
    } else if name == seq!['f', '6', '4'] {
        Some(TypeView::Number(NumberType { kind: NumberKind::Float, bits: 64 }))
    } else {
        None
    }
}

/// The unit type.
pub open spec fn unit_type() -> TypeView {
    TypeView::Tuple(Seq::empty())
}

/// The value of an optional type.
pub open spec fn option_type_view(ty: Option<Type>) -> Option<TypeView> {
    match ty {
        Some(ty) => Some(ty@),
        None => None,
    }
}

impl std::str::FromStr for Type {
    type Err = String;

    fn from_str(name: &str) -> (parsed: Result<Type, String>)
        ensures
            match named_type(name@) {
                Some(ty) => parsed matches Ok(found) && found@ == ty,
                None => parsed matches Err(message) && message@ == unknown_type_message(),
            },
    {
        // A name of a type gives the type; every other name is an error.
        match Type::from_name(name) {
            Some(ty) => Ok(ty),
            None => Err("Struct types are not yet supported".to_owned()),
        }
    }
}

/// What is said of a name that denotes no type.
pub open spec fn unknown_type_message() -> Seq<char> {
    "Struct types are not yet supported"@
}

impl Type {
    /// The type that a name denotes, if it is the name of a type.
    pub fn from_name(name: &str) -> (ty: Option<Type>)
        ensures
            option_type_view(ty) == named_type(name@),
    {
        proof {
            reveal_strlit("i32");
            reveal_strlit("i64");
            reveal_strlit("u32");
            reveal_strlit("u64");
            reveal_strlit("f32");
            reveal_strlit("f64");
        }
        let name = String::from_str(name);
        if name == String::from_str("i32") {
            assert(name@ =~= seq!['i', '3', '2']);
            Some(Type::Number(NumberType::int32()))
        } else if name == String::from_str("i64") {
            assert(name@ =~= seq!['i', '6', '4']);
            Some(Type::Number(NumberType::int64()))
        } else if name == String::from_str("u32") {
            assert(name@ =~= seq!['u', '3', '2']);
            Some(Type::Number(NumberType::uint32()))
        } else if name == String::from_str("u64") {
            assert(name@ =~= seq!['u', '6', '4']);
            Some(Type::Number(NumberType::uint64()))
        } else if name == String::from_str("f32") {
            assert(name@ =~= seq!['f', '3', '2']);
            Some(Type::Number(NumberType::float32()))
        } else if name == String::from_str("f64") {
            assert(name@ =~= seq!['f', '6', '4']);
            Some(Type::Number(NumberType::float64()))
        } else {
            assert(name@ != seq!['i', '3', '2']) by {
                assert("i32"@ =~= seq!['i', '3', '2']);
            }
            assert(name@ != seq!['i', '6', '4']) by {
                assert("i64"@ =~= seq!['i', '6', '4']);
            }
            assert(name@ != seq!['u', '3', '2']) by {
                assert("u32"@ =~= seq!['u', '3', '2']);
            }
            assert(name@ != seq!['u', '6', '4']) by {
                assert("u64"@ =~= seq!['u', '6', '4']);
            }
            assert(name@ != seq!['f', '3', '2']) by {
                assert("f32"@ =~= seq!['f', '3', '2']);
            }
            assert(name@ != seq!['f', '6', '4']) by {
                assert("f64"@ =~= seq!['f', '6', '4']);
            }
            None
        }
    }

    /// The unit type.
    pub fn empty() -> (ty: Type)
        ensures
            ty@ == unit_type(),
    {
        let ty = Type::Tuple(Vec::new());
        assert(ty@->Tuple_0 =~= Seq::empty());
        ty
    }

    /// Whether this is the unit type.
    pub fn is_empty(&self) -> (unit: bool)
        ensures
            unit == (self@ == unit_type()),
    {
        match self {
            Type::Tuple(items) => {
                assert(self@->Tuple_0.len() == items@.len());
                assert(items@.len() == 0 ==> self@->Tuple_0 =~= Seq::empty());
                items.len() == 0
            },
            Type::Number(_) => false,
        }
    }
}

} // verus!
