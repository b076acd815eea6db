//! Signature model of built-in operations: the declared input and output
//! types of a gadget, and the resolution key that binds a call site to a
//! catalogue entry.

use vstd::prelude::*;
use vstd::string::StringExecFns;

verus! {

/// A declared input or output type of a built-in operation.
#[derive(Debug, PartialEq, Eq, Hash)]
pub enum Type {
    FieldElement,
    Boolean,
    Uint(usize),
    Array(Box<Type>, usize),
}

impl Type {
    /// A fixed-width unsigned integer type.
    pub fn uint(width: usize) -> (r: Self)
        ensures
            r == Type::Uint(width),
    {
        Type::Uint(width)
    }

    /// An array type over the given element type and size.
    pub fn array(ty: Type, size: usize) -> (r: Self)
        ensures
            r == Type::Array(Box::new(ty), size),
    {
        Type::Array(Box::new(ty), size)
    }
}

/// An ordered list of input types and an ordered list of output types;
/// equality is structural, type by type, which is what disambiguates
/// identically named built-ins.
#[derive(Debug, PartialEq, Eq, Hash)]
pub struct Signature {
    pub inputs: Vec<Type>,
    pub outputs: Vec<Type>,
}

impl Signature {
    /// The empty signature.
    pub fn new() -> (r: Self)
        ensures
            r.inputs@.len() == 0,
            r.outputs@.len() == 0,
    {
        Signature { inputs: Vec::new(), outputs: Vec::new() }
    }

    /// This signature with its input list replaced.
    pub fn inputs(self, inputs: Vec<Type>) -> (r: Self)
        ensures
            r.inputs@ == inputs@,
            r.outputs@ == self.outputs@,
    {
        Signature { inputs, outputs: self.outputs }
    }

    /// This signature with its output list replaced.
    pub fn outputs(self, outputs: Vec<Type>) -> (r: Self)
        ensures
            r.inputs@ == self.inputs@,
            r.outputs@ == outputs@,
    {
        Signature { inputs: self.inputs, outputs }
    }
}

/// A resolution key: identifier and signature together. The surrounding
/// compiler's symbol table binds a call site to a built-in by both parts, so
/// entries sharing an identifier still resolve apart when their signatures
/// differ.
#[derive(Debug, PartialEq, Eq, Hash)]
pub struct FunctionKey {
    pub id: String,
    pub signature: Signature,
}

impl FunctionKey {
    /// A key over the given identifier and the empty signature.
    pub fn with_id(id: &str) -> (r: Self)
        ensures
            r.id@ == id@,
            r.signature.inputs@.len() == 0,
            r.signature.outputs@.len() == 0,
    {
        FunctionKey { id: String::from_str(id), signature: Signature::new() }
    }

    /// This key with its signature replaced.
    pub fn signature(self, signature: Signature) -> (r: Self)
        ensures
            r.id@ == self.id@,
            r.signature == signature,
    {
        FunctionKey { id: self.id, signature }
    }
}

} // verus!
