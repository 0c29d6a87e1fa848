use vstd::prelude::*;
use vstd::string::StrSliceExecFns;

use crate::errors::{Error, ErrorV};
use crate::names::Names;
use crate::parsable::{feed_result_matches, opt_str_view, Parsable};
use crate::text::{concat_strings, contains_string};

verus! {

/// A boolean option. The matched name decides the polarity: a name from the
/// positive alias set stores `true`, one from the negative alias set stores
/// `false`. A flag never consumes a value and may be set only once.
pub struct Flag {
    pub positive_names: Names,
    pub negative_names: Names,
    pub default: bool,
    pub value: Option<bool>,
}

/// What feeding a flag does: it refuses any supplied value, refuses a second
/// feed, and otherwise stores the polarity of the alias set that contains
/// the matched name, failing when neither set contains it.
pub open spec fn flag_feed(f: Flag, name: Seq<char>, input: Option<Seq<char>>) -> Result<
    Flag,
    ErrorV,
> {
    if input is Some {
        Err(ErrorV::FlagMisuse)
    } else if f.value is Some {
        Err(ErrorV::FlagMisuse)
    } else if name.len() == 1 {
        if f.positive_names.spec_short().contains(name) {
            Ok(
                Flag {
                    positive_names: f.positive_names,
                    negative_names: f.negative_names,
                    default: f.default,
                    value: Some(true),
                },
            )
        } else if f.negative_names.spec_short().contains(name) {
            Ok(
                Flag {
                    positive_names: f.positive_names,
                    negative_names: f.negative_names,
                    default: f.default,
                    value: Some(false),
                },
            )
        } else {
            Err(ErrorV::FlagMisuse)
        }
    } else {
        if f.positive_names.spec_long().contains(name) {
            Ok(
                Flag {
                    positive_names: f.positive_names,
                    negative_names: f.negative_names,
                    default: f.default,
                    value: Some(true),
                },
            )
        } else if f.negative_names.spec_long().contains(name) {
            Ok(
                Flag {
                    positive_names: f.positive_names,
                    negative_names: f.negative_names,
                    default: f.default,
                    value: Some(false),
                },
            )
        } else {
            Err(ErrorV::FlagMisuse)
        }
    }
}

impl Flag {
    /// The stored value, or the default while no feed has set one.
    pub open spec fn spec_value(self) -> bool {
        match self.value {
            Some(v) => v,
            None => self.default,
        }
    }

    /// A flag with the given positive aliases, no negative aliases, and no
    /// stored value yet.
    pub fn new(positive: Names, default: bool) -> (f: Flag)
        ensures
            f.positive_names == positive,
            f.negative_names.spec_short() == Seq::<Seq<char>>::empty(),
            f.negative_names.spec_long() == Seq::<Seq<char>>::empty(),
            f.value is None,
            f.default == default,
    {
        Flag {
            positive_names: positive,
            negative_names: Names::empty(),
            value: None,
            default,
        }
    }

    /// The stored value, or the default while no feed has set one.
    pub fn value(&self) -> (r: bool)
        ensures
            r == self.spec_value(),
    {
        match self.value {
            Some(v) => v,
            None => self.default,
        }
    }
}

impl Parsable for Flag {
    /// All short aliases: the positive ones, then the negative ones.
    open spec fn spec_short_names(&self) -> Seq<Seq<char>> {
        self.positive_names.spec_short() + self.negative_names.spec_short()
    }

    /// All long aliases: the positive ones, then the negative ones.
    open spec fn spec_long_names(&self) -> Seq<Seq<char>> {
        self.positive_names.spec_long() + self.negative_names.spec_long()
    }

    /// A flag never consumes a following value.
    open spec fn spec_accept_arg(&self) -> bool {
        false
    }

    open spec fn spec_feed(&self, name: Seq<char>, input: Option<Seq<char>>) -> Result<
        Flag,
        ErrorV,
    > {
        flag_feed(*self, name, input)
    }

    fn short_names(&self) -> (r: Vec<String>) {
        concat_strings(&self.positive_names.short_names, &self.negative_names.short_names)
    }

    fn long_names(&self) -> (r: Vec<String>) {
        concat_strings(&self.positive_names.long_names, &self.negative_names.long_names)
    }

    fn accept_arg(&self) -> (r: bool) {
        false
    }

    fn feed_arg(&mut self, name: &str, input: Option<&str>) -> (r: Result<(), Error>) {
        match input {
            Some(_) => Err(Error::FlagMisuse),
            None => {
                if self.value.is_some() {
                    return Err(Error::FlagMisuse);
                }
                if name.unicode_len() == 1 {
                    if contains_string(&self.positive_names.short_names, name) {
                        self.value = Some(true);
                        Ok(())
                    } else if contains_string(&self.negative_names.short_names, name) {
                        self.value = Some(false);
                        Ok(())
                    } else {
                        Err(Error::FlagMisuse)
                    }
                } else {
                    if contains_string(&self.positive_names.long_names, name) {
                        self.value = Some(true);
                        Ok(())
                    } else if contains_string(&self.negative_names.long_names, name) {
                        self.value = Some(false);
                        Ok(())
                    } else {
                        Err(Error::FlagMisuse)
                    }
                }
            },
        }
    }
}

} // verus!
