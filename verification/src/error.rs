//! What can go wrong while a mesh description is read.

use std::num::ParseFloatError;
use std::num::ParseIntError;
use vstd::prelude::*;

verus! {

/// The error that `str::parse` gives for a malformed integer.
#[verifier::external_type_specification]
#[verifier::external_body]
pub struct ExParseIntError(ParseIntError);

/// The error that `str::parse` gives for a malformed decimal number.
#[verifier::external_type_specification]
#[verifier::external_body]
pub struct ExParseFloatError(ParseFloatError);

/// The error of a failed read.
#[verifier::external_type_specification]
#[verifier::external_body]
pub struct ExIoError(std::io::Error);

/// `ParseFloatError::clone`: the copy is the error itself.
pub assume_specification[ <ParseFloatError as Clone>::clone ](e: &ParseFloatError) -> (r:
    ParseFloatError)
    ensures
        r == *e,
;

/// The different kinds of errors that can happen while a mesh description is
/// read and parsed.
#[derive(Debug)]
pub enum Error {
    /// The source could not be read.
    Io(std::io::Error),
    /// The leading token of the line names no directive.
    UnkownLine(String),
    /// A required field is missing.
    UnexpectedEoL,
    /// A field is no decimal number.
    ParseF(ParseFloatError),
    /// An index is no integer.
    ParseI(ParseIntError),
    /// A material directive names no material.
    EmptyMtl,
    /// A second material library for the named object.
    OjectMultipleMtl(String),
    /// A second material use for the named group.
    GroupMultipleMTl(String),
    /// A vertex line gives some colour components but not all three.
    NonUniformColors,
    /// The line is understood but asks for what is not provided: a smoothing
    /// group, a face of more than four corners, or a face whose corners do not
    /// all carry the same attributes.
    Unsupported(String),
}

/// What an [`Error`] says, with text as character sequences and without the
/// payload of a failed integer conversion or read.
pub ghost enum Fault {
    Io,
    UnknownLine(Seq<char>),
    UnexpectedEol,
    ParseF(ParseFloatError),
    ParseI,
    EmptyMtl,
    ObjectMultipleMtl(Seq<char>),
    GroupMultipleMtl(Seq<char>),
    NonUniformColors,
    Unsupported(Seq<char>),
}

impl View for Error {
    type V = Fault;

    open spec fn view(&self) -> Fault {
        match *self {
            Error::Io(_) => Fault::Io,
            Error::UnkownLine(line) => Fault::UnknownLine(line@),
            Error::UnexpectedEoL => Fault::UnexpectedEol,
            Error::ParseF(e) => Fault::ParseF(e),
            Error::ParseI(_) => Fault::ParseI,
            Error::EmptyMtl => Fault::EmptyMtl,
            Error::OjectMultipleMtl(name) => Fault::ObjectMultipleMtl(name@),
            Error::GroupMultipleMTl(name) => Fault::GroupMultipleMtl(name@),
            Error::NonUniformColors => Fault::NonUniformColors,
            Error::Unsupported(line) => Fault::Unsupported(line@),
        }
    }
}

impl From<std::io::Error> for Error {
    fn from(value: std::io::Error) -> (r: Self) {
        Error::Io(value)
    }
}

impl vstd::std_specs::convert::FromSpecImpl<std::io::Error> for Error {
    open spec fn obeys_from_spec() -> bool {
        true
    }

    open spec fn from_spec(value: std::io::Error) -> Self {
        Error::Io(value)
    }
}

impl From<ParseFloatError> for Error {
    fn from(value: ParseFloatError) -> (r: Self) {
        Error::ParseF(value)
    }
}

impl vstd::std_specs::convert::FromSpecImpl<ParseFloatError> for Error {
    open spec fn obeys_from_spec() -> bool {
        true
    }

    open spec fn from_spec(value: ParseFloatError) -> Self {
        Error::ParseF(value)
    }
}

impl From<ParseIntError> for Error {
    fn from(value: ParseIntError) -> (r: Self) {
        Error::ParseI(value)
    }
}

impl vstd::std_specs::convert::FromSpecImpl<ParseIntError> for Error {
    open spec fn obeys_from_spec() -> bool {
        true
    }

    open spec fn from_spec(value: ParseIntError) -> Self {
        Error::ParseI(value)
    }
}

/// The text that `Display::fmt` writes for a `std::io::Error`.
#[verifier::external_body]
fn io_error_text(e: &std::io::Error) -> String {
    format!("{e}")
}

/// The text that `Display::fmt` writes for a `ParseFloatError`.
#[verifier::external_body]
fn float_error_text(e: &ParseFloatError) -> String {
    format!("{e}")
}

/// The text that `Display::fmt` writes for a `ParseIntError`.
#[verifier::external_body]
fn int_error_text(e: &ParseIntError) -> String {
    format!("{e}")
}

/// `before`, then `text`, then `after`.
fn framed(before: &str, text: &str, after: &str) -> (r: String)
    ensures
        r@ == before@ + text@ + after@,
{
    let mut r = String::from_str(before);
    r.append(text);
    r.append(after);
    r
}

/// The message of a fault: one line of text. For a fault that stands for an
/// error of the standard library, only the line break that ends the line.
pub open spec fn message_of(f: Fault) -> Seq<char> {
    match f {
        Fault::UnknownLine(line) => "Encounterd a unknown line: ["@ + line + "]\n"@,
        Fault::UnexpectedEol => "Unexpected end-of-line\n"@,
        Fault::EmptyMtl => "Empty material [lib/use]\n"@,
        Fault::ObjectMultipleMtl(name) => "Multiple material lib defined for object ["@ + name
            + "]\n"@,
        Fault::GroupMultipleMtl(name) => "Multiple material uses defined for group ["@ + name
            + "]\n"@,
        Fault::NonUniformColors => "Vertex colors are specified for some vertices, but not all\n"@,
        Fault::Unsupported(line) => "Unsupported line: ["@ + line + "]\n"@,
        Fault::Io | Fault::ParseF(_) | Fault::ParseI => "\n"@,
    }
}

impl Error {
    /// The error in words, as one line of text that ends with a line break.
    /// Where the error carries an error of the standard library, the line is
    /// what that error prints for itself.
    pub fn message(&self) -> (text: String)
        ensures
            match self@ {
                Fault::Io | Fault::ParseF(_) | Fault::ParseI => exists|inner: Seq<char>|
                    text@ == inner + "\n"@,
                other => text@ == message_of(other),
            },
    {
        match self {
            Error::Io(e) => {
                let inner = io_error_text(e);
                let text = framed("", inner.as_str(), "\n");
                proof {
                    reveal_strlit("");
                    assert(text@ == inner@ + "\n"@);
                }
                text
            },
            Error::ParseF(e) => {
                let inner = float_error_text(e);
                let text = framed("", inner.as_str(), "\n");
                proof {
                    reveal_strlit("");
                    assert(text@ == inner@ + "\n"@);
                }
                text
            },
            Error::ParseI(e) => {
                let inner = int_error_text(e);
                let text = framed("", inner.as_str(), "\n");
                proof {
                    reveal_strlit("");
                    assert(text@ == inner@ + "\n"@);
                }
                text
            },
            Error::UnkownLine(line) => framed("Encounterd a unknown line: [", line.as_str(), "]\n"),
            Error::UnexpectedEoL => String::from_str("Unexpected end-of-line\n"),
            Error::EmptyMtl => String::from_str("Empty material [lib/use]\n"),
            Error::OjectMultipleMtl(object) => framed(
                "Multiple material lib defined for object [",
                object.as_str(),
                "]\n",
            ),
            Error::GroupMultipleMTl(group) => framed(
                "Multiple material uses defined for group [",
                group.as_str(),
                "]\n",
            ),
            Error::NonUniformColors => String::from_str(
                "Vertex colors are specified for some vertices, but not all\n",
            ),
            Error::Unsupported(line) => framed("Unsupported line: [", line.as_str(), "]\n"),
        }
    }
}

} // verus!
