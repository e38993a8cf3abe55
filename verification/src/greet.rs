//! The greeting core: a name and the greeting it produces.

use vstd::prelude::*;
use vstd::string::StringExecFns;

verus! {

/// The greeting for a name: a fixed salutation around the name's
/// characters.
pub open spec fn greeting_chars(name: Seq<char>) -> Seq<char> {
    "Hello, "@ + name + "!"@
}

/// Anything that can be greeted.
pub trait Greetable {
    /// The characters the greeting is built from.
    spec fn name_chars(&self) -> Seq<char>;

    /// The greeting for this value.
    fn greet(&self) -> (r: String)
        ensures
            r@ == greeting_chars(self.name_chars()),
    ;
}

/// A person's name.
#[derive(Debug, Clone)]
pub struct Name(String);

impl Name {
    /// The characters of the name.
    pub closed spec fn spec_chars(&self) -> Seq<char> {
        self.0@
    }

    /// A name made of the given characters.
    pub fn new(s: &str) -> (r: Name)
        ensures
            r.spec_chars() == s@,
    {
        Name(s.to_owned())
    }
}

impl Greetable for Name {
    open spec fn name_chars(&self) -> Seq<char> {
        self.spec_chars()
    }

    fn greet(&self) -> (r: String) {
        let r = String::from_str("Hello, ");
        let r = r.concat(self.0.as_str());
        let r = r.concat("!");
        r
    }
}

impl Greetable for str {
    open spec fn name_chars(&self) -> Seq<char> {
        self@
    }

    fn greet(&self) -> (r: String) {
        let r = String::from_str("Hello, ");
        let r = r.concat(self);
        let r = r.concat("!");
        r
    }
}

impl Greetable for String {
    open spec fn name_chars(&self) -> Seq<char> {
        self@
    }

    fn greet(&self) -> (r: String) {
        let r = String::from_str("Hello, ");
        let r = r.concat(self.as_str());
        let r = r.concat("!");
        r
    }
}

} // verus!
