use vstd::prelude::*;

use crate::errors::{Error, ErrorV};
use crate::names::Names;
use crate::parsable::Parsable;
use crate::text::clone_strings;
use crate::value::FromText;

verus! {

/// An option that carries a single value, parsed from the following
/// argument text by `T`'s parsing rule.
pub struct Arg<T: FromText> {
    pub names: Names,
    pub value: Option<T>,
    pub default: Option<T>,
}

/// What feeding a value-argument does: it parses the supplied text into a
/// `T` and stores it, and fails — carrying the offending text — when the
/// text denotes no value or when no text was supplied at all.
pub open spec fn arg_feed<T: FromText>(
    a: Arg<T>,
    name: Seq<char>,
    input: Option<Seq<char>>,
) -> Result<Arg<T>, ErrorV> {
    match input {
        Some(v) => match T::spec_parse(v) {
            Some(val) => Ok(Arg { names: a.names, value: Some(val), default: a.default }),
            None => Err(ErrorV::ArgumentParseFailure(v)),
        },
        None => Err(ErrorV::ArgumentParseFailure(Seq::empty())),
    }
}

impl<T: FromText> Arg<T> {
    /// A value-argument with the given aliases and default, and no stored
    /// value yet.
    pub fn new(names: Names, default: T) -> (a: Arg<T>)
        ensures
            a.names == names,
            a.value is None,
            a.default == Some(default),
    {
        Arg { value: None, default: Some(default), names }
    }
}

impl<T: FromText> Parsable for Arg<T> {
    open spec fn spec_short_names(&self) -> Seq<Seq<char>> {
        self.names.spec_short()
    }

    open spec fn spec_long_names(&self) -> Seq<Seq<char>> {
        self.names.spec_long()
    }

    /// A value-argument always consumes a following value.
    open spec fn spec_accept_arg(&self) -> bool {
        true
    }

    open spec fn spec_feed(&self, name: Seq<char>, input: Option<Seq<char>>) -> Result<
        Arg<T>,
        ErrorV,
    > {
        arg_feed(*self, name, input)
    }

    fn short_names(&self) -> (r: Vec<String>) {
        clone_strings(&self.names.short_names)
    }

    fn long_names(&self) -> (r: Vec<String>) {
        clone_strings(&self.names.long_names)
    }

    fn accept_arg(&self) -> (r: bool) {
        true
    }

    fn feed_arg(&mut self, name: &str, input: Option<&str>) -> (r: Result<(), Error>) {
        match input {
            Some(v) => match T::parse_text(v) {
                Some(val) => {
                    self.value = Some(val);
                    Ok(())
                },
                None => Err(Error::ArgumentParseFailure(v.to_owned())),
            },
            None => Err(Error::ArgumentParseFailure(String::new())),
        }
    }
}

} // verus!
