use vstd::prelude::*;
use vstd::string::*;

verus! {

/// What can go wrong while options are resolved.
#[derive(Debug, Clone)]
pub enum Error {
    /// A required value is missing, or a validator rejected a value.
    Validation(String),
    /// A token could not be converted, or an option cannot be named at all.
    Parsing(String),
}

impl Error {
    /// The message that the error carries.
    pub open spec fn message(&self) -> Seq<char> {
        match self {
            Error::Validation(m) => m@,
            Error::Parsing(m) => m@,
        }
    }

    /// How the error reads: its kind, then its message.
    pub open spec fn rendered(&self) -> Seq<char> {
        match self {
            Error::Validation(m) => "Validation error: "@ + m@,
            Error::Parsing(m) => "Parsing error: "@ + m@,
        }
    }

    /// A copy of the error.
    pub fn duplicate(&self) -> (r: Error)
        ensures
            r == *self,
    {
        match self {
            Error::Validation(m) => Error::Validation(m.clone()),
            Error::Parsing(m) => Error::Parsing(m.clone()),
        }
    }

    /// Renders the error as `"<kind> error: <message>"`.
    pub fn to_string(&self) -> (r: String)
        ensures
            r@ == self.rendered(),
    {
        match self {
            Error::Validation(m) => {
                let mut s = String::new();
                s.append("Validation error: ");
                s.append(m.as_str());
                s
            },
            Error::Parsing(m) => {
                let mut s = String::new();
                s.append("Parsing error: ");
                s.append(m.as_str());
                s
            },
        }
    }
}

} // verus!
