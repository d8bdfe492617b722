//! The protocol version of a request or a response.

use vstd::prelude::*;

verus! {

/// What a [`Version`] holds, as plain text.
pub struct VersionView {
    pub name: Seq<char>,
    pub number: Seq<char>,
}

impl VersionView {
    /// The version as it stands on the wire: the name, a slash, the number.
    pub open spec fn wire(self) -> Seq<char> {
        self.name + seq!['/'] + self.number
    }

    /// Both parts are present. Every version that the request parser yields
    /// is complete.
    pub open spec fn complete(self) -> bool {
        self.name.len() > 0 && self.number.len() > 0
    }
}

/// A protocol name and a version number, such as `HTTP` and `1.1`.
#[derive(Debug, PartialEq, Eq)]
pub struct Version {
    pub name: String,
    pub number: String,
}

impl View for Version {
    type V = VersionView;

    open spec fn view(&self) -> VersionView {
        VersionView { name: self.name@, number: self.number@ }
    }
}

impl Version {
    pub fn new(name: String, number: String) -> (version: Version)
        ensures
            version@ == (VersionView { name: name@, number: number@ }),
    {
        Version { name, number }
    }

    /// The version in its wire form, `<name>/<number>`.
    pub fn to_string(&self) -> (text: String)
        ensures
            text@ == self@.wire(),
    {
        let mut text = self.name.clone();
        proof {
            reveal_strlit("/");
        }
        text.append("/");
        text.append(self.number.as_str());
        text
    }
}

} // verus!
