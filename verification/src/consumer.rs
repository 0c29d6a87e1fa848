use vstd::prelude::*;

use crate::errors::{Error, ErrorV};
use crate::parsable::Parsable;
use crate::text::contains_string;
use crate::tokenizer::{LeftoverV, Name, NameV, TokView, Tokenizer};

verus! {

/// Whether handler `h` recognizes name `n`: a short flag is looked up in
/// the handler's short names, a long flag in its long names; a positional
/// word is recognized by no handler.
pub open spec fn handler_matches<P: Parsable>(h: P, n: NameV) -> bool {
    match n {
        NameV::Short(s) => h.spec_short_names().contains(s),
        NameV::Long(s) => h.spec_long_names().contains(s),
        NameV::Command(_) => false,
    }
}

/// Index of the first handler, in registration order, that recognizes `n`.
pub open spec fn find_handler<P: Parsable>(options: Seq<P>, n: NameV) -> Option<int>
    decreases options.len(),
{
    if options.len() == 0 {
        None
    } else if handler_matches(options[0], n) {
        Some(0)
    } else {
        match find_handler(options.skip(1), n) {
            Some(j) => Some(j + 1),
            None => None,
        }
    }
}

/// `find_handler` yields exactly the first matching index, and `None`
/// exactly when no handler matches.
pub proof fn lemma_find_handler<P: Parsable>(options: Seq<P>, n: NameV)
    ensures
        match find_handler(options, n) {
            Some(i) => 0 <= i < options.len() && handler_matches(options[i], n) && (forall|
                j: int,
            |
                0 <= j < i ==> !handler_matches(options[j], n)),
            None => forall|j: int| 0 <= j < options.len() ==> !handler_matches(options[j], n),
        },
    decreases options.len(),
{
    if options.len() > 0 && !handler_matches(options[0], n) {
        lemma_find_handler(options.skip(1), n);
        assert(forall|j: int| 1 <= j < options.len() ==> options[j] == options.skip(1)[j - 1]);
    }
}

/// The outcome of driving the whole dispatch cycle from state `tok` with
/// the registered handlers `options`: the final result, and the handlers as
/// they stand when the cycle ends. Each round reads one name, routes it to
/// the first matching handler, and feeds that handler its value (when it
/// expects one and one can still be read) or no value. The first error
/// aborts the cycle; handlers already fed keep their fed values.
pub open spec fn consume_from<P: Parsable>(options: Seq<P>, tok: TokView) -> (Result<
    (),
    ErrorV,
>, Seq<P>)
    decreases tok.input.len() - tok.pos, tok.leftover.size(),
{
    if !tok.wf() {
        (Ok(()), options)
    } else if tok.over() {
        (Ok(()), options)
    } else {
        let nr = tok.next_name();
        match nr.0 {
            Err(e) => (Err(e), options),
            Ok(n) => match n {
                NameV::Command(c) => (Err(ErrorV::UnsupportedConstruct(c)), options),
                _ => match find_handler(options, n) {
                    None => (Err(ErrorV::UnrecognizedOption(n.text())), options),
                    Some(i) => {
                        let h = options[i];
                        if h.spec_accept_arg() && !nr.1.over() {
                            let vl = nr.1.next_value();
                            match h.spec_feed(n.text(), Some(vl.0)) {
                                Ok(h2) => consume_from(options.update(i, h2), vl.1),
                                Err(e) => (Err(e), options),
                            }
                        } else {
                            match h.spec_feed(n.text(), None) {
                                Ok(h2) => consume_from(options.update(i, h2), nr.1),
                                Err(e) => (Err(e), options),
                            }
                        }
                    },
                },
            },
        }
    }
}

/// Finds the first handler that recognizes `name`, by a linear scan in
/// registration order.
fn find_option<P: Parsable>(options: &Vec<P>, name: &Name) -> (r: Option<usize>)
    ensures
        match r {
            Some(i) => 0 <= i < options@.len() && find_handler(options@, name@) == Some(i as int),
            None => find_handler(options@, name@) is None,
        },
{
    let mut i: usize = 0;
    while i < options.len()
        invariant
            0 <= i <= options@.len(),
            forall|j: int| 0 <= j < i ==> !handler_matches(options@[j], name@),
        decreases options@.len() - i,
    {
        let h = &options[i];
        let matched: bool = match name {
            Name::ShortArg(s) => {
                let names = h.short_names();
                contains_string(&names, s.as_str())
            },
            Name::LongArg(s) => {
                let names = h.long_names();
                contains_string(&names, s.as_str())
            },
            Name::Command(_) => false,
        };
        if matched {
            proof {
                lemma_find_handler(options@, name@);
            }
            return Some(i);
        }
        i = i + 1;
    }
    proof {
        lemma_find_handler(options@, name@);
    }
    None
}

/// Drives the full cycle until the tokenizer reports completion: reads a
/// name, rejects positional words, routes the name to the first registered
/// handler that recognizes it, and feeds that handler one value when it
/// expects one. The first error aborts the remaining loop.
pub fn consume<P: Parsable>(options: &mut Vec<P>, args: Vec<String>) -> (r: Result<(), Error>)
    ensures
        ({
            let o = consume_from(
                old(options)@,
                TokView { input: args.deep_view(), pos: 0, leftover: LeftoverV::Empty },
            );
            &&& final(options)@ == o.1
            &&& match (r, o.0) {
                (Ok(_), Ok(_)) => true,
                (Err(e), Err(ev)) => e@ == ev,
                _ => false,
            }
        }),
{
    let mut tok = Tokenizer::new(args);
    let ghost orig = consume_from(options@, tok@);
    while !tok.is_over()
        invariant
            tok@.wf(),
            consume_from(options@, tok@) == orig,
            orig == consume_from(
                old(options)@,
                TokView { input: args.deep_view(), pos: 0, leftover: LeftoverV::Empty },
            ),
        decreases tok@.input.len() - tok@.pos, tok@.leftover.size(),
    {
        let ghost pre_opts = options@;
        let ghost pre_tok = tok@;
        let name = match tok.get_name() {
            Ok(n) => n,
            Err(e) => {
                return Err(e);
            },
        };
        if let Name::Command(_) = &name {
            let text = name.value().to_owned();
            return Err(Error::UnsupportedConstruct(text));
        }
        let idx: usize = match find_option(options, &name) {
            Some(i) => i,
            None => {
                let text = name.value().to_owned();
                return Err(Error::UnrecognizedOption(text));
            },
        };
        let mut h = options.remove(idx);
        let accepts = h.accept_arg();
        let fed: Result<(), Error> = if accepts && !tok.is_over() {
            let value = match tok.get_value() {
                Ok(v) => v,
                Err(_) => {
                    // a live tokenizer always yields a value
                    proof {
                        assert(false);
                    }
                    String::new()
                },
            };
            h.feed_arg(name.value(), Some(value.as_str()))
        } else {
            h.feed_arg(name.value(), None)
        };
        let ghost h_post = h;
        options.insert(idx, h);
        proof {
            assert(pre_opts.remove(idx as int).insert(idx as int, pre_opts[idx as int])
                =~= pre_opts);
            assert(pre_opts.remove(idx as int).insert(idx as int, h_post) =~= pre_opts.update(
                idx as int,
                h_post,
            ));
        }
        match fed {
            Ok(_) => {},
            Err(e) => {
                return Err(e);
            },
        }
    }
    Ok(())
}

} // verus!
