use vstd::prelude::*;

use crate::errors::{Error, ErrorV};

verus! {

/// The view of an optional borrowed string, as an optional character
/// sequence.
pub open spec fn opt_str_view(input: Option<&str>) -> Option<Seq<char>> {
    match input {
        Some(s) => Some(s@),
        None => None,
    }
}

/// Relates an executable feed result and handler state to the
/// specification-level outcome `s`: on success the handler becomes the
/// specified next state, on failure it reports the specified error and is
/// left unchanged.
pub open spec fn feed_result_matches<P>(
    r: Result<(), Error>,
    post: P,
    pre: P,
    s: Result<P, ErrorV>,
) -> bool {
    match s {
        Ok(next) => r is Ok && post == next,
        Err(ev) => match r {
            Ok(_) => false,
            Err(e) => e@ == ev && post == pre,
        },
    }
}

/// The capability contract every registered option handler implements: it
/// reports which short and long names it recognizes, whether it consumes a
/// following value, and accepts a fed value.
pub trait Parsable: Sized {
    /// The short (single-character) names this handler matches.
    spec fn spec_short_names(&self) -> Seq<Seq<char>>;

    /// The long names this handler matches.
    spec fn spec_long_names(&self) -> Seq<Seq<char>>;

    /// Whether the handler expects a following value.
    spec fn spec_accept_arg(&self) -> bool;

    /// What feeding `name` with `input` does: the next handler state on
    /// success, or the error on failure (the state is then unchanged).
    spec fn spec_feed(&self, name: Seq<char>, input: Option<Seq<char>>) -> Result<Self, ErrorV>;

    fn short_names(&self) -> (r: Vec<String>)
        ensures
            r.deep_view() == self.spec_short_names(),
    ;

    fn long_names(&self) -> (r: Vec<String>)
        ensures
            r.deep_view() == self.spec_long_names(),
    ;

    fn accept_arg(&self) -> (r: bool)
        ensures
            r == self.spec_accept_arg(),
    ;

    fn feed_arg(&mut self, name: &str, input: Option<&str>) -> (r: Result<(), Error>)
        ensures
            feed_result_matches(
                r,
                *final(self),
                *old(self),
                old(self).spec_feed(name@, opt_str_view(input)),
            ),
    ;
}

} // verus!
