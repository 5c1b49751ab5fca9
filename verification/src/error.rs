use vstd::prelude::*;
use vstd::std_specs::convert::FromSpecImpl;

verus! {

/// `std::str::Utf8Error`, carried through as an opaque value.
#[verifier::external_type_specification]
#[verifier::external_body]
pub struct ExUtf8Error(std::str::Utf8Error);

/// `std::io::Error`, carried through as an opaque value.
#[verifier::external_type_specification]
#[verifier::external_body]
pub struct ExIoError(std::io::Error);

/// Errors returned from `module_info` APIs.
#[derive(Debug)]
#[non_exhaustive]
pub enum ModuleInfoError {
    /// Module info is unavailable on this build or platform; the string
    /// carries context.
    NotAvailable(String),
    /// A null pointer was handed to the runtime reader.
    NullPointer,
    /// The embedded bytes were not valid UTF-8.
    Utf8Error(std::str::Utf8Error),
    /// The JSON could not be parsed, a required field is missing or empty,
    /// or `moduleVersion` is not four `u16`-sized parts.
    MalformedJson(String),
    /// The serialized metadata exceeded `MAX_JSON_SIZE`.
    MetadataTooLarge(String),
    /// I/O failure while reading inputs or writing artifacts.
    IoError(std::io::Error),
    /// Any other failure, described by its message.
    Other(String),
}

/// `<Utf8Error as ToString>::to_string`: the text of a UTF-8 decoding
/// error (its `Display` rendering); nothing is stated of the text.
#[verifier::external_body]
fn utf8_error_text(e: &std::str::Utf8Error) -> (r: String) {
    e.to_string()
}

/// `<io::Error as ToString>::to_string`: the text of an I/O error (its
/// `Display` rendering, which may come from the operating system); nothing
/// is stated of the text.
#[verifier::external_body]
fn io_error_text(e: &std::io::Error) -> (r: String) {
    e.to_string()
}

/// The human-readable message of each error kind: a fixed prefix, then
/// the carried text.
pub open spec fn message_prefix(e: ModuleInfoError) -> Seq<char> {
    match e {
        ModuleInfoError::NotAvailable(_) => "Module info not available: "@,
        ModuleInfoError::NullPointer => "Pointer is null"@,
        ModuleInfoError::Utf8Error(_) => "UTF-8 conversion error: "@,
        ModuleInfoError::MalformedJson(_) => "Malformed JSON string: "@,
        ModuleInfoError::MetadataTooLarge(_) => "Metadata size exceeds limit: "@,
        ModuleInfoError::IoError(_) => "IO error: "@,
        ModuleInfoError::Other(_) => "Other error: "@,
    }
}

impl ModuleInfoError {
    /// The error's message, as it is displayed.
    pub fn message(&self) -> (r: String)
        ensures
            r@.len() >= message_prefix(*self).len(),
            r@.take(message_prefix(*self).len() as int) == message_prefix(*self),
            match self {
                ModuleInfoError::NotAvailable(m) => r@ == message_prefix(*self) + m@,
                ModuleInfoError::NullPointer => r@ == message_prefix(*self),
                ModuleInfoError::MalformedJson(m) => r@ == message_prefix(*self) + m@,
                ModuleInfoError::MetadataTooLarge(m) => r@ == message_prefix(*self) + m@,
                ModuleInfoError::Other(m) => r@ == message_prefix(*self) + m@,
                _ => true,
            },
    {
        let (prefix, tail) = match self {
            ModuleInfoError::NotAvailable(m) => ("Module info not available: ", m.clone()),
            ModuleInfoError::NullPointer => ("Pointer is null", String::new()),
            ModuleInfoError::Utf8Error(e) => ("UTF-8 conversion error: ", utf8_error_text(e)),
            ModuleInfoError::MalformedJson(m) => ("Malformed JSON string: ", m.clone()),
            ModuleInfoError::MetadataTooLarge(m) => ("Metadata size exceeds limit: ", m.clone()),
            ModuleInfoError::IoError(e) => ("IO error: ", io_error_text(e)),
            ModuleInfoError::Other(m) => ("Other error: ", m.clone()),
        };
        let mut r = String::from_str(prefix);
        r.append(tail.as_str());
        proof {
            assert(r@.take(prefix@.len() as int) =~= prefix@);
        }
        r
    }
}

impl From<std::str::Utf8Error> for ModuleInfoError {
    fn from(err: std::str::Utf8Error) -> (r: Self) {
        ModuleInfoError::Utf8Error(err)
    }
}

impl FromSpecImpl<std::str::Utf8Error> for ModuleInfoError {
    open spec fn obeys_from_spec() -> bool {
        true
    }

    open spec fn from_spec(err: std::str::Utf8Error) -> ModuleInfoError {
        ModuleInfoError::Utf8Error(err)
    }
}

impl From<std::io::Error> for ModuleInfoError {
    fn from(err: std::io::Error) -> (r: Self) {
        ModuleInfoError::IoError(err)
    }
}

impl FromSpecImpl<std::io::Error> for ModuleInfoError {
    open spec fn obeys_from_spec() -> bool {
        true
    }

    open spec fn from_spec(err: std::io::Error) -> ModuleInfoError {
        ModuleInfoError::IoError(err)
    }
}

/// A type alias for results that use `ModuleInfoError`.
pub type ModuleInfoResult<T> = Result<T, ModuleInfoError>;

} // verus!
