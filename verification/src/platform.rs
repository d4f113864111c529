//! Per-platform options: which native type a representation is stored under, and how
//! its bytes are packaged.

use vstd::prelude::*;

verus! {

/// The platform whose clipboard is being addressed.
#[derive(Clone, Copy, Debug, PartialEq, Eq, Structural)]
pub enum Platform {
    MacOs,
    Windows,
    /// Any other platform. The descriptors of this library have no representation
    /// there, so that only plain text is exchanged.
    Other,
}

/// How the bytes of a custom representation are packaged for the native clipboard.
#[derive(Clone, Copy, Debug, PartialEq, Eq, Structural)]
pub enum DataType {
    /// The bytes are text, stored as a native string.
    String,
    /// The bytes are stored as they are.
    Data,
    /// The bytes are a binary property list, stored in the platform's structured encoding.
    BinaryPlist,
}

/// The name of a native clipboard type, meaningful within one platform's namespace.
#[derive(Clone, Copy, Debug, PartialEq, Eq)]
pub enum Identifier {
    Uti(&'static str),
}

/// Platform-specific options for reading a representation.
#[derive(Clone, Copy, Debug, PartialEq, Eq)]
pub struct ReadOpts {
    pub identifier: Identifier,
}

/// Platform-specific options for writing a representation.
#[derive(Clone, Copy, Debug, PartialEq, Eq)]
pub struct WriteOpts {
    pub identifier: Identifier,
    pub data_type: DataType,
}

impl Identifier {
    /// The characters of the name.
    pub open spec fn name(self) -> Seq<char> {
        match self {
            Identifier::Uti(id) => id@,
        }
    }

    pub fn uti(id: &'static str) -> (ident: Self)
        ensures
            ident == Identifier::Uti(id),
    {
        Identifier::Uti(id)
    }

    /// The name as an owned string.
    pub fn to_string(&self) -> (name: String)
        ensures
            name@ == self.name(),
    {
        match self {
            Identifier::Uti(id) => (*id).to_owned(),
        }
    }
}

} // verus!
