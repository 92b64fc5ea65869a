//! The one error of the library: a message.
use vstd::prelude::*;
use vstd::string::*;

verus! {

/// An error that carries its description.
#[derive(Debug)]
pub struct OmmaErr {
    body: String,
}

impl View for OmmaErr {
    type V = Seq<char>;

    /// The description, character by character.
    closed spec fn view(&self) -> Seq<char> {
        self.body@
    }
}

impl OmmaErr {
    /// An error with the given description.
    pub fn new(body: &str) -> (e: OmmaErr)
        ensures
            e@ == body@,
    {
        OmmaErr { body: String::from_str(body) }
    }

    /// An error that takes over a description built elsewhere.
    pub fn from_string(body: String) -> (e: OmmaErr)
        ensures
            e@ == body@,
    {
        OmmaErr { body }
    }

    /// The description.
    pub fn body(&self) -> (s: &str)
        ensures
            s@ == self@,
    {
        self.body.as_str()
    }

    /// The error as it is shown to a user: the description behind the word
    /// `OmmaErr` and a colon.
    pub fn to_string(&self) -> (s: String)
        ensures
            s@ == "OmmaErr: "@ + self@,
    {
        let mut s = String::from_str("OmmaErr: ");
        s.append(self.body.as_str());
        s
    }
}

} // verus!
