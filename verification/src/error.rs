//! The errors of the library, one variant for each way a step can fail.
use vstd::prelude::*;

verus! {

#[derive(Debug, PartialEq, Eq)]
pub enum Error {
    /// "Could not find arr: {}" (the array's name)
    ArrayNotFound(String),
    /// "could not find {}" (the name of a table that a source must hold)
    TableNotFound(String),
    /// "invalid type enum name: {}"
    InvalidTypeEnumName(String),
    /// A number in a source did not parse (the text).
    InvalidNumber(String),
    /// "type table contained non-existant type" (the name)
    UnknownType(String),
    /// "gc table contained non-existant generic class" (the name)
    UnknownGenericClass(String),
    /// "unable to handle function usage: {}"
    UnhandledFunctionUsage(String),
    /// "weird fn def" (the line)
    WeirdFnDef(String),
    /// "malformed generic method pointer table" (the row)
    MalformedTable(String),
    /// A range of a byte string reaches past its end (the offset).
    IndexOutOfRange(usize),
    /// The bytes of a string are not UTF-8.
    InvalidUtf8,
    /// "il2cpp xref roots has not been initialized yet"
    RootsNotInitialized,
    /// "could not find root"
    RootNotFound,
    /// "root does not have method pointer" / "root does not have invoker
    /// pointer" (which of the two)
    MissingRootPointer(String),
    /// A count of a trace did not parse.
    InvalidTraceCount,
    /// "bl had wrong operand", "b had wrong operand", "adrp had wrong
    /// operands" (the instruction's name)
    WrongOperands(String),
    /// "file ended reading {}" (the table, and `(skip '{')` where its
    /// opening brace is missing)
    FileEnded(String),
    /// "value in s_rgctxValues has wrong word count"
    WrongWordCount,
    /// "unsupported runtime generic context data type: {}"
    UnsupportedRgctxType(i32),
    /// "metadata usage out of range"
    MetadataUsageOutOfRange,
    /// "could not resolve image reference: {}" (the image's name)
    UnresolvedImage(String),
    /// "unresolved type reference: {}.{}" (the namespace and the name)
    UnresolvedTypeReference(String, String),
    /// "could not find cpp type: {}"
    CppTypeNotFound(String),
    /// "could not find end of ALIGN_FIELD in '{}'" (the line)
    AlignFieldEnd(String),
}

/// An `Error` with its texts taken as character sequences.
pub ghost enum Fault {
    ArrayNotFound(Seq<char>),
    TableNotFound(Seq<char>),
    InvalidTypeEnumName(Seq<char>),
    InvalidNumber(Seq<char>),
    UnknownType(Seq<char>),
    UnknownGenericClass(Seq<char>),
    UnhandledFunctionUsage(Seq<char>),
    WeirdFnDef(Seq<char>),
    MalformedTable(Seq<char>),
    IndexOutOfRange(usize),
    InvalidUtf8,
    RootsNotInitialized,
    RootNotFound,
    MissingRootPointer(Seq<char>),
    InvalidTraceCount,
    WrongOperands(Seq<char>),
    FileEnded(Seq<char>),
    WrongWordCount,
    UnsupportedRgctxType(i32),
    MetadataUsageOutOfRange,
    UnresolvedImage(Seq<char>),
    UnresolvedTypeReference(Seq<char>, Seq<char>),
    CppTypeNotFound(Seq<char>),
    AlignFieldEnd(Seq<char>),
}

impl View for Error {
    type V = Fault;

    open spec fn view(&self) -> Fault {
        match self {
            Error::ArrayNotFound(s) => Fault::ArrayNotFound(s@),
            Error::TableNotFound(s) => Fault::TableNotFound(s@),
            Error::InvalidTypeEnumName(s) => Fault::InvalidTypeEnumName(s@),
            Error::InvalidNumber(s) => Fault::InvalidNumber(s@),
            Error::UnknownType(s) => Fault::UnknownType(s@),
            Error::UnknownGenericClass(s) => Fault::UnknownGenericClass(s@),
            Error::UnhandledFunctionUsage(s) => Fault::UnhandledFunctionUsage(s@),
            Error::WeirdFnDef(s) => Fault::WeirdFnDef(s@),
            Error::MalformedTable(s) => Fault::MalformedTable(s@),
            Error::IndexOutOfRange(i) => Fault::IndexOutOfRange(*i),
            Error::InvalidUtf8 => Fault::InvalidUtf8,
            Error::RootsNotInitialized => Fault::RootsNotInitialized,
            Error::RootNotFound => Fault::RootNotFound,
            Error::MissingRootPointer(s) => Fault::MissingRootPointer(s@),
            Error::InvalidTraceCount => Fault::InvalidTraceCount,
            Error::WrongOperands(s) => Fault::WrongOperands(s@),
            Error::FileEnded(s) => Fault::FileEnded(s@),
            Error::WrongWordCount => Fault::WrongWordCount,
            Error::UnsupportedRgctxType(t) => Fault::UnsupportedRgctxType(*t),
            Error::MetadataUsageOutOfRange => Fault::MetadataUsageOutOfRange,
            Error::UnresolvedImage(s) => Fault::UnresolvedImage(s@),
            Error::UnresolvedTypeReference(ns, n) => Fault::UnresolvedTypeReference(ns@, n@),
            Error::CppTypeNotFound(s) => Fault::CppTypeNotFound(s@),
            Error::AlignFieldEnd(s) => Fault::AlignFieldEnd(s@),
        }
    }
}

/// What a step that can panic or fail comes to.
pub ghost enum Outcome<T> {
    /// The step panics (an index out of range, an `unwrap` of nothing).
    Panic,
    /// The step returns this error.
    Fail(Fault),
    /// The step succeeds with this value.
    Done(T),
}

} // verus!
