//! The parsed API reference that the generator reads: objects, methods and
//! the value types of their fields and arguments.
use vstd::prelude::*;

verus! {

/// The type of a field, an argument or a method result.
#[derive(Debug, PartialEq)]
pub enum ParserType {
    Bool { default: Option<bool> },
    Integer { default: Option<i64>, min: Option<i64>, max: Option<i64>, one_of: Vec<i64> },
    String { default: Option<String>, min_len: Option<u64>, max_len: Option<u64>, one_of: Vec<String> },
    Float,
    Array(Box<ParserType>),
    Or(Vec<ParserType>),
    /// A reference to another object, by name.
    Object(String),
}

/// A field of an object.
#[derive(Debug, PartialEq)]
pub struct Field {
    pub name: String,
    pub description: String,
    pub required: bool,
    pub kind: ParserType,
}

/// An argument of a method.
#[derive(Debug, PartialEq)]
pub struct Argument {
    pub name: String,
    pub description: String,
    pub required: bool,
    pub kind: ParserType,
}

/// What an object is made of.
#[derive(Debug, PartialEq)]
pub enum ObjectData {
    /// A record of named fields.
    Fields(Vec<Field>),
    /// One of several types.
    Elements(Vec<ParserType>),
    Unknown,
}

/// An object of the API reference.
#[derive(Debug, PartialEq)]
pub struct Object {
    pub name: String,
    pub description: String,
    pub docs_link: String,
    pub data: ObjectData,
}

/// The arguments of a method, and whether they may carry uploaded files.
#[derive(Debug, PartialEq)]
pub enum MethodArgs {
    No,
    Yes(Vec<Argument>),
    WithMultipart(Vec<Argument>),
}

/// A method of the API reference.
#[derive(Debug, PartialEq)]
pub struct Method {
    pub name: String,
    pub description: String,
    pub docs_link: String,
    pub args: MethodArgs,
    pub return_type: ParserType,
}

/// The whole parsed reference.
#[derive(Debug, PartialEq)]
pub struct Parsed {
    /// The API version, as it is to be written into the document.
    pub version: String,
    pub objects: Vec<Object>,
    pub methods: Vec<Method>,
}

} // verus!
