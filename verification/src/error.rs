//! Why the generation for a declaration was given up.

use vstd::prelude::*;

verus! {

/// What is wrong with a declaration or its directives.
#[derive(Debug, PartialEq, Eq)]
pub enum Fault {
    /// A token of a payload stands where no key is open; the text is the
    /// token's.
    UnexpectedToken(String),
    /// An annotation, or a payload given as text, holds no readable sequence
    /// of directives.
    MalformedAnnotation,
    /// A key that a generator needs is absent.
    MissingKey(String),
    /// A key is present with a value that is not of the kind it needs.
    InvalidValue(String),
    /// The declaration is not a record with named fields.
    UnsupportedShape,
}

/// The mathematical value of a [`Fault`].
pub ghost enum FaultView {
    UnexpectedToken(Seq<char>),
    MalformedAnnotation,
    MissingKey(Seq<char>),
    InvalidValue(Seq<char>),
    UnsupportedShape,
}

impl View for Fault {
    type V = FaultView;

    open spec fn view(&self) -> FaultView {
        match *self {
            Fault::UnexpectedToken(token) => FaultView::UnexpectedToken(token@),
            Fault::MalformedAnnotation => FaultView::MalformedAnnotation,
            Fault::MissingKey(key) => FaultView::MissingKey(key@),
            Fault::InvalidValue(key) => FaultView::InvalidValue(key@),
            Fault::UnsupportedShape => FaultView::UnsupportedShape,
        }
    }
}

impl FaultView {
    /// The fault in words.
    pub open spec fn message(self) -> Seq<char> {
        match self {
            FaultView::UnexpectedToken(token) => "unexpected token `"@ + token + "`"@,
            FaultView::MalformedAnnotation => "malformed directive token sequence"@,
            FaultView::MissingKey(key) => "missing mandatory key `"@ + key + "`"@,
            FaultView::InvalidValue(key) => "invalid value for key `"@ + key + "`"@,
            FaultView::UnsupportedShape =>
                "unsupported declaration shape for companion-type derivation."@,
        }
    }
}

impl Fault {
    /// The fault in words.
    pub fn message(&self) -> (text: String)
        ensures
            text@ == self@.message(),
    {
        match self {
            Fault::UnexpectedToken(token) => {
                let mut text = String::from_str("unexpected token `");
                text.append(token.as_str());
                text.append("`");
                text
            },
            Fault::MalformedAnnotation => String::from_str("malformed directive token sequence"),
            Fault::MissingKey(key) => {
                let mut text = String::from_str("missing mandatory key `");
                text.append(key.as_str());
                text.append("`");
                text
            },
            Fault::InvalidValue(key) => {
                let mut text = String::from_str("invalid value for key `");
                text.append(key.as_str());
                text.append("`");
                text
            },
            Fault::UnsupportedShape => String::from_str(
                "unsupported declaration shape for companion-type derivation.",
            ),
        }
    }
}

/// A fault together with the name of the declaration it was found in.
#[derive(Debug, PartialEq, Eq)]
pub struct GenerationError {
    pub declaration: String,
    pub fault: Fault,
}

/// The mathematical value of a [`GenerationError`].
pub ghost struct GenerationErrorView {
    pub declaration: Seq<char>,
    pub fault: FaultView,
}

impl View for GenerationError {
    type V = GenerationErrorView;

    open spec fn view(&self) -> GenerationErrorView {
        GenerationErrorView { declaration: self.declaration@, fault: self.fault@ }
    }
}

impl GenerationErrorView {
    /// The error in words: the declaration's name, then the fault.
    pub open spec fn message(self) -> Seq<char> {
        self.declaration + ": "@ + self.fault.message()
    }
}

impl GenerationError {
    /// The error in words.
    pub fn message(&self) -> (text: String)
        ensures
            text@ == self@.message(),
    {
        let mut text = self.declaration.clone();
        text.append(": ");
        let fault = self.fault.message();
        text.append(fault.as_str());
        text
    }
}

} // verus!
