use vstd::prelude::*;
use vstd::string::StrSliceExecFns;

use crate::errors::{Error, ErrorV};
use crate::text::{find_char, find_char_in, lemma_find_char};

verus! {

/// A recognized token: a short flag such as `-f`, a long flag such as
/// `--name`, or a bare positional word.
#[derive(Debug)]
pub enum Name {
    ShortArg(String),
    LongArg(String),
    Command(String),
}

/// The mathematical image of a [`Name`].
pub enum NameV {
    Short(Seq<char>),
    Long(Seq<char>),
    Command(Seq<char>),
}

impl NameV {
    /// The bare text of the name, whatever its kind.
    pub open spec fn text(self) -> Seq<char> {
        match self {
            NameV::Short(s) => s,
            NameV::Long(s) => s,
            NameV::Command(s) => s,
        }
    }
}

impl View for Name {
    type V = NameV;

    open spec fn view(&self) -> NameV {
        match self {
            Name::ShortArg(s) => NameV::Short(s@),
            Name::LongArg(s) => NameV::Long(s@),
            Name::Command(s) => NameV::Command(s@),
        }
    }
}

impl Name {
    /// The bare text of the name, whatever its kind.
    pub fn value(&self) -> (r: &str)
        ensures
            r@ == self@.text(),
    {
        match self {
            Name::ShortArg(v) => v.as_str(),
            Name::LongArg(v) => v.as_str(),
            Name::Command(v) => v.as_str(),
        }
    }
}

/// The residual, not-yet-consumed portion of a single compound token:
/// the remaining characters of a combined short-flag token, or the inline
/// `=value` suffix of a long flag.
#[derive(Debug)]
pub enum Leftover {
    SingleDash(String),
    DoubleDash(String),
    Empty,
}

/// The mathematical image of a [`Leftover`].
pub enum LeftoverV {
    Single(Seq<char>),
    Double(Seq<char>),
    Empty,
}

impl View for Leftover {
    type V = LeftoverV;

    open spec fn view(&self) -> LeftoverV {
        match self {
            Leftover::SingleDash(s) => LeftoverV::Single(s@),
            Leftover::DoubleDash(s) => LeftoverV::Double(s@),
            Leftover::Empty => LeftoverV::Empty,
        }
    }
}

impl LeftoverV {
    /// A leftover is never constructed empty: a single-dash remainder always
    /// has a character, and a double-dash remainder always starts with the
    /// `=` read marker.
    pub open spec fn wf(self) -> bool {
        match self {
            LeftoverV::Single(s) => s.len() > 0,
            LeftoverV::Double(s) => s.len() > 0 && s[0] == '=',
            LeftoverV::Empty => true,
        }
    }

    /// How many characters are still buffered.
    pub open spec fn size(self) -> nat {
        match self {
            LeftoverV::Single(s) => s.len(),
            LeftoverV::Double(s) => s.len(),
            LeftoverV::Empty => 0,
        }
    }

    /// What reading a name from this leftover yields, and the leftover that
    /// remains. Only a single-dash remainder can yield a name; a double-dash
    /// remainder holds a value that the caller has not read yet.
    pub open spec fn read_name_spec(self) -> (Result<NameV, ErrorV>, LeftoverV) {
        match self {
            LeftoverV::Single(s) => (
                Ok(NameV::Short(seq![s[0]])),
                if s.len() > 1 {
                    LeftoverV::Single(s.skip(1))
                } else {
                    LeftoverV::Empty
                },
            ),
            LeftoverV::Double(s) => (Err(ErrorV::LeftoverMismatch), self),
            LeftoverV::Empty => (Err(ErrorV::LeftoverMismatch), self),
        }
    }

    /// What reading a value from this leftover yields: the whole single-dash
    /// remainder, or the double-dash remainder with its `=` marker stripped.
    pub open spec fn read_value_spec(self) -> (Seq<char>, LeftoverV) {
        match self {
            LeftoverV::Single(s) => (s, LeftoverV::Empty),
            LeftoverV::Double(s) => (s.skip(1), LeftoverV::Empty),
            LeftoverV::Empty => (Seq::empty(), self),
        }
    }
}

/// Relates an executable name-read result to its specification-level image.
pub open spec fn name_result_matches(r: Result<Name, Error>, s: Result<NameV, ErrorV>) -> bool {
    match (r, s) {
        (Ok(n), Ok(nv)) => n@ == nv,
        (Err(e), Err(ev)) => e@ == ev,
        _ => false,
    }
}

impl Leftover {
    /// Whether nothing is buffered.
    pub fn is_empty(&self) -> (r: bool)
        ensures
            r == (self@ is Empty),
    {
        match self {
            Leftover::Empty => true,
            _ => false,
        }
    }

    /// Pops the next short-flag character of a single-dash remainder, or
    /// reports that a pending value cannot be read as a name.
    pub fn read_name(&mut self) -> (r: Result<Name, Error>)
        requires
            old(self)@.wf(),
            !(old(self)@ is Empty),
        ensures
            final(self)@.wf(),
            final(self)@ == old(self)@.read_name_spec().1,
            name_result_matches(r, old(self)@.read_name_spec().0),
    {
        match &*self {
            Leftover::Empty => {
                // excluded by the precondition
                proof {
                    assert(false);
                }
                Err(Error::LeftoverMismatch)
            },
            Leftover::DoubleDash(_) => Err(Error::LeftoverMismatch),
            Leftover::SingleDash(v) => {
                let n: usize = v.as_str().unicode_len();
                let first = v.as_str().substring_char(0, 1).to_owned();
                let remaining = v.as_str().substring_char(1, n).to_owned();
                proof {
                    assert(first@ =~= seq![v@[0]]);
                }
                let next = if n > 1 {
                    Leftover::SingleDash(remaining)
                } else {
                    Leftover::Empty
                };
                *self = next;
                Ok(Name::ShortArg(first))
            },
        }
    }

    /// Takes the whole buffered remainder as a value, clearing the buffer.
    pub fn read_value(&mut self) -> (r: String)
        requires
            old(self)@.wf(),
            !(old(self)@ is Empty),
        ensures
            final(self)@.wf(),
            final(self)@ == old(self)@.read_value_spec().1,
            r@ == old(self)@.read_value_spec().0,
    {
        match &*self {
            Leftover::Empty => {
                // excluded by the precondition
                proof {
                    assert(false);
                }
                String::new()
            },
            Leftover::DoubleDash(v) => {
                let n: usize = v.as_str().unicode_len();
                let value = v.as_str().substring_char(1, n).to_owned();
                *self = Leftover::Empty;
                value
            },
            Leftover::SingleDash(v) => {
                let value = v.clone();
                *self = Leftover::Empty;
                value
            },
        }
    }
}

/// How a single raw token is classified: a long flag (possibly with an
/// inline `=value` remainder), a short flag (possibly with further combined
/// characters), a bare positional word, or a malformed lone dash.
pub open spec fn token_name(t: Seq<char>) -> Result<(NameV, LeftoverV), ErrorV> {
    if t.len() >= 2 && t[0] == '-' && t[1] == '-' {
        let rest = t.skip(2);
        let f = find_char(rest, '=');
        if f >= 0 {
            Ok((NameV::Long(rest.take(f)), LeftoverV::Double(rest.skip(f))))
        } else {
            Ok((NameV::Long(rest), LeftoverV::Empty))
        }
    } else if t.len() >= 1 && t[0] == '-' {
        if t.len() == 1 {
            Err(ErrorV::MalformedToken)
        } else {
            Ok(
                (
                    NameV::Short(seq![t[1]]),
                    if t.len() > 2 {
                        LeftoverV::Single(t.skip(2))
                    } else {
                        LeftoverV::Empty
                    },
                ),
            )
        }
    } else {
        Ok((NameV::Command(t), LeftoverV::Empty))
    }
}

/// The mathematical state of a [`Tokenizer`]: the input tokens, the cursor,
/// and the live leftover.
pub struct TokView {
    pub input: Seq<Seq<char>>,
    pub pos: int,
    pub leftover: LeftoverV,
}

impl TokView {
    pub open spec fn wf(self) -> bool {
        0 <= self.pos <= self.input.len() && self.leftover.wf()
    }

    /// The tokenizer is exhausted exactly when the cursor has consumed all
    /// raw tokens and the leftover is empty.
    pub open spec fn over(self) -> bool {
        self.pos == self.input.len() && self.leftover is Empty
    }

    /// What one name read yields, and the state that remains. With an empty
    /// leftover the next raw token is read and classified; otherwise the
    /// leftover is read.
    pub open spec fn next_name(self) -> (Result<NameV, ErrorV>, TokView) {
        if self.leftover is Empty {
            match token_name(self.input[self.pos]) {
                Ok(nl) => (
                    Ok(nl.0),
                    TokView { input: self.input, pos: self.pos + 1, leftover: nl.1 },
                ),
                Err(e) => (
                    Err(e),
                    TokView { input: self.input, pos: self.pos + 1, leftover: LeftoverV::Empty },
                ),
            }
        } else {
            let rl = self.leftover.read_name_spec();
            (rl.0, TokView { input: self.input, pos: self.pos, leftover: rl.1 })
        }
    }

    /// What one value read yields, and the state that remains. With an empty
    /// leftover the next raw token is taken verbatim; otherwise the leftover
    /// is consumed.
    pub open spec fn next_value(self) -> (Seq<char>, TokView) {
        if self.leftover is Empty {
            (
                self.input[self.pos],
                TokView { input: self.input, pos: self.pos + 1, leftover: LeftoverV::Empty },
            )
        } else {
            let vl = self.leftover.read_value_spec();
            (vl.0, TokView { input: self.input, pos: self.pos, leftover: vl.1 })
        }
    }
}

/// Turns a flat sequence of pre-split string tokens into a stream of names
/// and on-demand values, carrying the unread remainder of a compound token
/// across calls.
#[derive(Debug)]
pub struct Tokenizer {
    pub input: Vec<String>,
    pub position: usize,
    pub leftover: Leftover,
}

impl View for Tokenizer {
    type V = TokView;

    open spec fn view(&self) -> TokView {
        TokView {
            input: self.input.deep_view(),
            pos: self.position as int,
            leftover: self.leftover@,
        }
    }
}

impl Tokenizer {
    /// A fresh tokenizer over `input`, with the cursor at the start and
    /// nothing buffered.
    pub fn new(input: Vec<String>) -> (t: Tokenizer)
        ensures
            t@ == (TokView { input: input.deep_view(), pos: 0, leftover: LeftoverV::Empty }),
            t@.wf(),
    {
        Tokenizer { leftover: Leftover::Empty, position: 0, input }
    }

    /// True exactly when no raw token remains and no leftover remains.
    pub fn is_over(&self) -> (r: bool)
        ensures
            r == self@.over(),
    {
        self.position == self.input.len() && self.leftover.is_empty()
    }

    /// Takes the raw token under the cursor and advances the cursor.
    pub fn read_token(&mut self) -> (r: String)
        requires
            old(self)@.pos < old(self)@.input.len(),
        ensures
            r@ == old(self)@.input[old(self)@.pos],
            final(self)@ == (TokView {
                input: old(self)@.input,
                pos: old(self)@.pos + 1,
                leftover: old(self)@.leftover,
            }),
    {
        let len: usize = self.input.len();
        proof {
            assert(old(self)@.input.len() == self.input@.len());
            assert(self.position < len);
        }
        let token = self.input[self.position].clone();
        self.position = self.position + 1;
        token
    }

    /// Reads one name: from the leftover when one is buffered, else by
    /// classifying the next raw token. Fails on a lone dash, and when the
    /// buffered leftover holds a value rather than further flag characters.
    pub fn get_name(&mut self) -> (r: Result<Name, Error>)
        requires
            old(self)@.wf(),
            !old(self)@.over(),
        ensures
            final(self)@.wf(),
            final(self)@ == old(self)@.next_name().1,
            name_result_matches(r, old(self)@.next_name().0),
    {
        if self.leftover.is_empty() {
            let token = self.read_token();
            let n: usize = token.as_str().unicode_len();
            if n >= 2 && token.as_str().get_char(0) == '-' && token.as_str().get_char(1) == '-' {
                let rest: &str = token.as_str().substring_char(2, n);
                match find_char_in(rest, '=') {
                    Some(f) => {
                        proof {
                            lemma_find_char(rest@, '=');
                        }
                        let name = rest.substring_char(0, f).to_owned();
                        let marked = rest.substring_char(f, n - 2).to_owned();
                        self.leftover = Leftover::DoubleDash(marked);
                        Ok(Name::LongArg(name))
                    },
                    None => Ok(Name::LongArg(rest.to_owned())),
                }
            } else if n >= 1 && token.as_str().get_char(0) == '-' {
                if n == 1 {
                    Err(Error::MalformedToken)
                } else {
                    let first = token.as_str().substring_char(1, 2).to_owned();
                    proof {
                        assert(first@ =~= seq![token@[1]]);
                    }
                    if n > 2 {
                        let remaining = token.as_str().substring_char(2, n).to_owned();
                        self.leftover = Leftover::SingleDash(remaining);
                    }
                    Ok(Name::ShortArg(first))
                }
            } else {
                Ok(Name::Command(token))
            }
        } else {
            self.leftover.read_name()
        }
    }

    /// Reads one value: the buffered leftover when one is live (with the
    /// double-dash `=` marker stripped), else the next raw token verbatim.
    pub fn get_value(&mut self) -> (r: Result<String, Error>)
        requires
            old(self)@.wf(),
            !old(self)@.over(),
        ensures
            final(self)@.wf(),
            final(self)@ == old(self)@.next_value().1,
            r matches Ok(v) && v@ == old(self)@.next_value().0,
    {
        if self.leftover.is_empty() {
            Ok(self.read_token())
        } else {
            Ok(self.leftover.read_value())
        }
    }
}

/// The results of `k` successive successful name reads from `tok`, with the
/// state that remains; `None` when one of the reads fails.
pub open spec fn read_names(tok: TokView, k: nat) -> Option<(Seq<NameV>, TokView)>
    decreases k,
{
    if k == 0 {
        Some((Seq::empty(), tok))
    } else {
        let nr = tok.next_name();
        match nr.0 {
            Ok(n) => match read_names(nr.1, (k - 1) as nat) {
                Some(rest) => Some((seq![n] + rest.0, rest.1)),
                None => None,
            },
            Err(_) => None,
        }
    }
}

/// Reading `k` names from a buffered single-dash remainder `s` yields the
/// first `k` characters of `s` as short flags, in order, and leaves the
/// rest of `s` buffered.
pub proof fn lemma_single_dash_names(input: Seq<Seq<char>>, pos: int, s: Seq<char>, k: int)
    requires
        s.len() >= 1,
        1 <= k <= s.len(),
    ensures
        ({
            let tok = TokView { input, pos, leftover: LeftoverV::Single(s) };
            match read_names(tok, k as nat) {
                Some(r) => {
                    &&& r.0 =~= Seq::new(k as nat, |i: int| NameV::Short(seq![s[i]]))
                    &&& r.1 == (TokView {
                        input,
                        pos,
                        leftover: if k < s.len() {
                            LeftoverV::Single(s.skip(k))
                        } else {
                            LeftoverV::Empty
                        },
                    })
                },
                None => false,
            }
        }),
    decreases k,
{
    let tok = TokView { input, pos, leftover: LeftoverV::Single(s) };
    let nr = tok.next_name();
    if k == 1 {
        assert(read_names(nr.1, 0) == Some((Seq::<NameV>::empty(), nr.1)));
    } else {
        lemma_single_dash_names(input, pos, s.skip(1), k - 1);
        assert(s.skip(1).skip(k - 1) =~= s.skip(k));
        let rest = read_names(nr.1, (k - 1) as nat);
        assert(seq![NameV::Short(seq![s[0]])] + rest->Some_0.0 =~= Seq::new(
            k as nat,
            |i: int| NameV::Short(seq![s[i]]),
        ));
    }
}

/// Reading names one at a time from a combined short-flag token `-s` yields
/// the characters of `s` as short flags, in order; reading a value instead,
/// after `k` of them, yields the remaining characters verbatim.
pub proof fn lemma_combined_short_flags(s: Seq<char>, k: int)
    requires
        s.len() >= 1,
        s[0] != '-',
        1 <= k <= s.len(),
    ensures
        ({
            let tok = TokView {
                input: seq![seq!['-'] + s],
                pos: 0,
                leftover: LeftoverV::Empty,
            };
            match read_names(tok, k as nat) {
                Some(r) => {
                    &&& r.0 =~= Seq::new(k as nat, |i: int| NameV::Short(seq![s[i]]))
                    &&& r.1 == (TokView {
                        input: tok.input,
                        pos: 1,
                        leftover: if k < s.len() {
                            LeftoverV::Single(s.skip(k))
                        } else {
                            LeftoverV::Empty
                        },
                    })
                    &&& k < s.len() ==> r.1.next_value() == (
                        (
                            s.skip(k),
                            TokView { input: tok.input, pos: 1, leftover: LeftoverV::Empty },
                        )
                    )
                },
                None => false,
            }
        }),
{
    let t = seq!['-'] + s;
    let tok = TokView { input: seq![t], pos: 0, leftover: LeftoverV::Empty };
    assert(t[0] == '-');
    assert(t[1] == s[0]);
    assert(t.len() == s.len() + 1);
    let nr = tok.next_name();
    assert(t.skip(2) =~= s.skip(1));
    assert(nr.0 == Ok::<NameV, ErrorV>(NameV::Short(seq![s[0]])));
    if k == 1 {
        assert(read_names(nr.1, 0) == Some((Seq::<NameV>::empty(), nr.1)));
        assert(seq![NameV::Short(seq![s[0]])] + Seq::<NameV>::empty() =~= Seq::new(
            1nat,
            |i: int| NameV::Short(seq![s[i]]),
        ));
    } else {
        lemma_single_dash_names(seq![t], 1, s.skip(1), k - 1);
        assert(s.skip(1).skip(k - 1) =~= s.skip(k));
        let rest = read_names(nr.1, (k - 1) as nat);
        assert(seq![NameV::Short(seq![s[0]])] + rest->Some_0.0 =~= Seq::new(
            k as nat,
            |i: int| NameV::Short(seq![s[i]]),
        ));
    }
}

/// A token `--key=val` (with no `=` inside `key`) yields the long flag
/// `key`; before its value is read, asking for a name again is an error
/// that leaves the state unchanged; reading the value yields `val` verbatim
/// and, with no further token, exhausts the tokenizer.
pub proof fn lemma_long_flag_inline_value(key: Seq<char>, val: Seq<char>)
    requires
        forall|i: int| 0 <= i < key.len() ==> key[i] != '=',
    ensures
        ({
            let t = seq!['-', '-'] + key + seq!['='] + val;
            let tok = TokView { input: seq![t], pos: 0, leftover: LeftoverV::Empty };
            let n1 = tok.next_name();
            &&& n1.0 == Ok::<NameV, ErrorV>(NameV::Long(key))
            &&& n1.1 == (TokView {
                input: seq![t],
                pos: 1,
                leftover: LeftoverV::Double(seq!['='] + val),
            })
            &&& n1.1.next_name().0 == Err::<NameV, ErrorV>(ErrorV::LeftoverMismatch)
            &&& n1.1.next_name().1 == n1.1
            &&& n1.1.next_value().0 == val
            &&& n1.1.next_value().1.over()
        }),
{
    let t = seq!['-', '-'] + key + seq!['='] + val;
    let tok = TokView { input: seq![t], pos: 0, leftover: LeftoverV::Empty };
    let rest = t.skip(2);
    assert(rest =~= key + seq!['='] + val);
    assert(rest[key.len() as int] == '=');
    lemma_find_char(rest, '=');
    assert(find_char(rest, '=') == key.len() as int);
    assert(rest.take(key.len() as int) =~= key);
    assert(rest.skip(key.len() as int) =~= seq!['='] + val);
    assert((seq!['='] + val).skip(1) =~= val);
}

} // verus!
