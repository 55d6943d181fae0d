//! The typed syntax model shared by the three generators.

use vstd::prelude::*;

verus! {

/// Why a generation run was aborted. No partial output is ever produced:
/// a generator either succeeds on the whole unit or returns one of these.
#[derive(Clone, Copy, Debug, PartialEq, Eq, Structural)]
pub enum GenerationError {
    /// A function signature carries a receiver-style first parameter.
    ReceiverParameter,
    /// A parameter pattern is not a simple identifier.
    UnsupportedPattern,
    /// A generic parameter list is present where generation does not support one.
    GenericsUnsupported,
    /// Two functions or variants of one description share a name.
    DuplicateName,
    /// A configuration attribute is not a well-formed `key = "value"` pair.
    MalformedKeyValue,
    /// A configuration attribute ends before its value or misses its `=`.
    MissingSeparator,
}

/// Visibility carried from the surface syntax to the generated items.
#[derive(Clone, Copy, Debug, PartialEq, Eq, Structural)]
pub enum Visibility {
    Public,
    Inherited,
}

/// A type descriptor: the surface text of a type, together with its leading
/// path segment when the type is a plain path (for `host::State` the leading
/// segment is `host`; a non-path type such as `&str` has none).
#[derive(Debug, PartialEq)]
pub struct TypeDesc {
    pub leading: Option<String>,
    pub text: String,
}

impl Clone for TypeDesc {
    fn clone(&self) -> (res: Self)
        ensures
            res == *self,
    {
        TypeDesc {
            leading: match &self.leading {
                Some(s) => Some(s.clone()),
                None => None,
            },
            text: self.text.clone(),
        }
    }
}

/// A parsed parameter: a simple identifier bound to a type.
#[derive(Debug, PartialEq)]
pub struct Parameter {
    pub name: String,
    pub ty: TypeDesc,
}

impl Clone for Parameter {
    fn clone(&self) -> (res: Self)
        ensures
            res == *self,
    {
        Parameter { name: self.name.clone(), ty: self.ty.clone() }
    }
}

/// The surface pattern of a parameter, before parsing.
#[derive(Debug, PartialEq)]
pub enum ParamPattern {
    /// A receiver-style first parameter.
    Receiver,
    /// A simple identifier pattern.
    Ident { name: String },
    /// Any other pattern (destructuring, wildcard, ...).
    Unsupported,
}

/// A parameter as it appears in the surface syntax.
#[derive(Debug, PartialEq)]
pub struct RawParam {
    pub pattern: ParamPattern,
    pub ty: TypeDesc,
}

/// A function signature as it appears in the surface syntax, before the
/// signature parser has validated its parameters.
#[derive(Debug, PartialEq)]
pub struct RawSignature {
    pub name: String,
    pub inputs: Vec<RawParam>,
    /// The declared success type of the function's result.
    pub success: TypeDesc,
    /// The declared error type, where the result is fallible.
    pub error: Option<TypeDesc>,
    pub is_async: bool,
    pub has_generics: bool,
}

/// A validated function signature: every parameter is a simple identifier,
/// no receiver is present, and no generics remain.
#[derive(Debug, PartialEq)]
pub struct FunctionSignature {
    pub name: String,
    pub params: Vec<Parameter>,
    pub success: TypeDesc,
    pub error: Option<TypeDesc>,
    pub is_async: bool,
}

/// An interface as it appears in the surface syntax.
#[derive(Debug, PartialEq)]
pub struct RawInterface {
    pub name: String,
    pub vis: Visibility,
    pub has_generics: bool,
    pub fns: Vec<RawSignature>,
}

/// A validated interface description: validated signatures with unique names.
#[derive(Debug, PartialEq)]
pub struct InterfaceDescription {
    pub name: String,
    pub vis: Visibility,
    pub fns: Vec<FunctionSignature>,
}

impl InterfaceDescription {
    /// Function names are unique within one description.
    pub open spec fn wf(&self) -> bool {
        forall|i: int, j: int|
            0 <= i < j < self.fns@.len() ==> self.fns@[i].name@ != self.fns@[j].name@
    }
}

/// Options recognized by the invocation stub generator. The command-name
/// prefix is prepended to each function name to form the wire command
/// identifier; absent, the function name alone is used.
#[derive(Debug, PartialEq)]
pub struct GenerationConfig {
    pub cmd_prefix: Option<String>,
}

impl GenerationConfig {
    /// The effective prefix: the configured one, or empty.
    pub open spec fn prefix_chars(&self) -> Seq<char> {
        match self.cmd_prefix {
            Some(p) => p@,
            None => Seq::<char>::empty(),
        }
    }
}

/// The payload shape of one tagged-union variant.
#[derive(Debug, PartialEq)]
pub enum PayloadShape {
    Unit,
    Positional { tys: Vec<TypeDesc> },
    Named { fields: Vec<Parameter> },
}

/// One variant of a tagged-union event description.
#[derive(Debug, PartialEq)]
pub struct Variant {
    pub name: String,
    pub payload: PayloadShape,
}

/// A tagged-union event description as it appears in the surface syntax.
#[derive(Debug, PartialEq)]
pub struct RawEvent {
    pub name: String,
    pub vis: Visibility,
    pub has_generics: bool,
    pub variants: Vec<Variant>,
}

/// A validated event description: variant names are unique, no generics.
#[derive(Debug, PartialEq)]
pub struct EventDescription {
    pub name: String,
    pub vis: Visibility,
    pub variants: Vec<Variant>,
}

impl EventDescription {
    /// Variant names are unique within one description.
    pub open spec fn wf(&self) -> bool {
        forall|i: int, j: int|
            0 <= i < j < self.variants@.len()
                ==> self.variants@[i].name@ != self.variants@[j].name@
    }
}

/// A template function for skeleton generation: a surface signature (which
/// may still carry generics) and its body, kept only to be re-emitted
/// verbatim beside the generated skeleton.
#[derive(Debug, PartialEq)]
pub struct ImplementationCandidate {
    pub sig: RawSignature,
    pub body: String,
}

} // verus!
