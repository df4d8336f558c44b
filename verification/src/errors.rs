//! Errors of the markup codec.
use vstd::prelude::*;

verus! {

/// The writer's own error, carried through untouched.
#[verifier::external_type_specification]
#[verifier::external_body]
pub struct ExEmitterError(::xml::writer::Error);

/// A failed write of one markup event, with the element that was being
/// written when the sink refused it.
#[derive(Debug)]
pub enum XmlWriteError {
    XmlElementWriteError { error: ::xml::writer::Error, element: String },
}

impl XmlWriteError {
    /// The name of the element that was being written.
    pub open spec fn element(self) -> Seq<char> {
        match self {
            XmlWriteError::XmlElementWriteError { element, .. } => element@,
        }
    }

    /// The name of the element that was being written.
    pub fn element_name(&self) -> (name: &str)
        ensures
            name@ == self.element(),
    {
        match self {
            XmlWriteError::XmlElementWriteError { element, .. } => element.as_str(),
        }
    }
}

/// Attaches the element being written to the outcome of one write: success
/// stays success, a failure keeps the writer's error and gains `element`.
pub fn to_xml_write_error(element: &str, outcome: Result<(), ::xml::writer::Error>) -> (r: Result<
    (),
    XmlWriteError,
>)
    ensures
        r is Ok <==> outcome is Ok,
        r matches Err(e) ==> e.element() == element@ && e == (XmlWriteError::XmlElementWriteError {
            error: outcome->Err_0,
            element: e->element,
        }),
{
    match outcome {
        Ok(()) => Ok(()),
        Err(error) => Err(
            XmlWriteError::XmlElementWriteError { error, element: String::from_str(element) },
        ),
    }
}

/// Why markup could not be read back.
#[derive(Debug, Clone, PartialEq, Eq)]
pub enum ParseError {
    /// The bytes are no well-formed document; the text says what the reader
    /// met and where.
    Syntax { message: String },
    /// The events are not those of one element: a tag is left open, an end
    /// tag closes nothing, or text or a second element stands beside the
    /// root.
    Unbalanced,
    /// The element is not the one that was asked for.
    UnexpectedElement { expected: String, found: String },
    /// A child that the element must have is missing.
    MissingElement { parent: String, name: String },
    /// An attribute that the element must have is missing.
    MissingAttribute { element: String, name: String },
    /// The text of the element is neither `true` nor `false`.
    InvalidBoolean { element: String, text: String },
}

pub enum ParseErrorView {
    Syntax { message: Seq<char> },
    Unbalanced,
    UnexpectedElement { expected: Seq<char>, found: Seq<char> },
    MissingElement { parent: Seq<char>, name: Seq<char> },
    MissingAttribute { element: Seq<char>, name: Seq<char> },
    InvalidBoolean { element: Seq<char>, text: Seq<char> },
}

impl View for ParseError {
    type V = ParseErrorView;

    open spec fn view(&self) -> ParseErrorView {
        match self {
            ParseError::Syntax { message } => ParseErrorView::Syntax { message: message@ },
            ParseError::Unbalanced => ParseErrorView::Unbalanced,
            ParseError::UnexpectedElement { expected, found } => ParseErrorView::UnexpectedElement {
                expected: expected@,
                found: found@,
            },
            ParseError::MissingElement { parent, name } => ParseErrorView::MissingElement {
                parent: parent@,
                name: name@,
            },
            ParseError::MissingAttribute { element, name } => ParseErrorView::MissingAttribute {
                element: element@,
                name: name@,
            },
            ParseError::InvalidBoolean { element, text } => ParseErrorView::InvalidBoolean {
                element: element@,
                text: text@,
            },
        }
    }
}

/// What a reading came to, as the value or the error that it stands for.
pub open spec fn result_view<T: View>(r: Result<T, ParseError>) -> Result<T::V, ParseErrorView> {
    match r {
        Ok(x) => Ok(x@),
        Err(e) => Err(e@),
    }
}

} // verus!
