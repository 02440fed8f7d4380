use vstd::prelude::*;
use vstd::string::StringExecFns;

verus! {

/// Spec-level image of an error: the kind together with its message text.
#[verifier::ext_equal]
pub enum ErrorV {
    Io(Seq<char>),
    Utf8(Seq<char>),
    XmlWrite(Seq<char>),
    XmlRead(Seq<char>),
    XmlReference(Seq<char>),
}

/// The errors of inclusion resolution. All five kinds are terminal: an error
/// anywhere aborts the whole resolution, there is no partial output.
///
/// - `IoError`: a file could not be opened, read or canonicalized.
/// - `Utf8Error`: the serialized bytes were not valid text.
/// - `XmlWriteError`: the serializer rejected an event.
/// - `XmlReadError`: a parser found malformed XML, at any nesting depth.
/// - `XmlReferenceError`: a directive was unusable (relative href without a
///   reference context, or no href attribute at all).
#[derive(Debug)]
pub enum IncludeError {
    IoError(String),
    Utf8Error(String),
    XmlWriteError(String),
    XmlReadError(String),
    XmlReferenceError(String),
}

impl DeepView for IncludeError {
    type V = ErrorV;

    open spec fn deep_view(&self) -> ErrorV {
        match self {
            IncludeError::IoError(m) => ErrorV::Io(m@),
            IncludeError::Utf8Error(m) => ErrorV::Utf8(m@),
            IncludeError::XmlWriteError(m) => ErrorV::XmlWrite(m@),
            IncludeError::XmlReadError(m) => ErrorV::XmlRead(m@),
            IncludeError::XmlReferenceError(m) => ErrorV::XmlReference(m@),
        }
    }
}

/// The message of the reference error raised by a directive with no href.
pub open spec fn msg_missing_href() -> Seq<char> {
    "xi:include without href attribute"@
}

/// The message of the reference error raised by a relative href when no
/// reference context was supplied.
pub open spec fn msg_missing_reference() -> Seq<char> {
    "xi:include with a relative path without a specified reference dir"@
}

pub fn missing_href_error() -> (r: IncludeError)
    ensures
        r.deep_view() == ErrorV::XmlReference(msg_missing_href()),
{
    IncludeError::XmlReferenceError(String::from_str("xi:include without href attribute"))
}

pub fn missing_reference_error() -> (r: IncludeError)
    ensures
        r.deep_view() == ErrorV::XmlReference(msg_missing_reference()),
{
    IncludeError::XmlReferenceError(
        String::from_str("xi:include with a relative path without a specified reference dir"),
    )
}

impl IncludeError {
    /// A short description of the error, usable by callers that print it.
    pub fn message(&self) -> (r: &String)
        ensures
            match self.deep_view() {
                ErrorV::Io(m) => r@ == m,
                ErrorV::Utf8(m) => r@ == m,
                ErrorV::XmlWrite(m) => r@ == m,
                ErrorV::XmlRead(m) => r@ == m,
                ErrorV::XmlReference(m) => r@ == m,
            },
    {
        match self {
            IncludeError::IoError(m) => m,
            IncludeError::Utf8Error(m) => m,
            IncludeError::XmlWriteError(m) => m,
            IncludeError::XmlReadError(m) => m,
            IncludeError::XmlReferenceError(m) => m,
        }
    }
}

} // verus!
