use vstd::prelude::*;
use vstd::string::StrSliceExecFns;

verus! {

/// An immutable partition of a list of configured alias strings into short
/// names (exactly one character) and long names (any other length), computed
/// once at construction.
pub struct Names {
    pub short_names: Vec<String>,
    pub long_names: Vec<String>,
}

impl Names {
    /// The short aliases, as character sequences, in their original order.
    pub open spec fn spec_short(self) -> Seq<Seq<char>> {
        self.short_names.deep_view()
    }

    /// The long aliases, as character sequences, in their original order.
    pub open spec fn spec_long(self) -> Seq<Seq<char>> {
        self.long_names.deep_view()
    }

    /// A partition with no aliases at all.
    pub fn empty() -> (r: Names)
        ensures
            r.spec_short() == Seq::<Seq<char>>::empty(),
            r.spec_long() == Seq::<Seq<char>>::empty(),
    {
        let r = Names { short_names: Vec::new(), long_names: Vec::new() };
        proof {
            assert(r.spec_short() =~= Seq::<Seq<char>>::empty());
            assert(r.spec_long() =~= Seq::<Seq<char>>::empty());
        }
        r
    }

    /// Splits `names` into short and long aliases, keeping the original
    /// order within each side.
    pub fn new(names: Vec<String>) -> (r: Names)
        ensures
            r.spec_short() == names.deep_view().filter(|s: Seq<char>| s.len() == 1),
            r.spec_long() == names.deep_view().filter(|s: Seq<char>| s.len() != 1),
    {
        let ghost all: Seq<Seq<char>> = names.deep_view();
        let mut short_names: Vec<String> = Vec::new();
        let mut long_names: Vec<String> = Vec::new();
        let mut i: usize = 0;
        while i < names.len()
            invariant
                0 <= i <= names.len(),
                all == names.deep_view(),
                short_names.deep_view() =~= all.take(i as int).filter(
                    |s: Seq<char>| s.len() == 1,
                ),
                long_names.deep_view() =~= all.take(i as int).filter(
                    |s: Seq<char>| s.len() != 1,
                ),
            decreases names.len() - i,
        {
            proof {
                lemma_filter_take_step(all, (|s: Seq<char>| s.len() == 1), i as int);
                lemma_filter_take_step(all, (|s: Seq<char>| s.len() != 1), i as int);
                assert(all[i as int] == names@[i as int]@);
            }
            let name = &names[i];
            if name.as_str().unicode_len() == 1 {
                short_names.push(name.clone());
            } else {
                long_names.push(name.clone());
            }
            i = i + 1;
        }
        proof {
            assert(all.take(names@.len() as int) =~= all);
        }
        Names { short_names, long_names }
    }
}

/// Filtering one more element of a sequence appends that element to the
/// filtered prefix exactly when it satisfies the predicate.
pub proof fn lemma_filter_take_step<A>(s: Seq<A>, pred: spec_fn(A) -> bool, i: int)
    requires
        0 <= i < s.len(),
    ensures
        s.take(i + 1).filter(pred) == if pred(s[i]) {
            s.take(i).filter(pred).push(s[i])
        } else {
            s.take(i).filter(pred)
        },
{
    reveal(Seq::filter);
    assert(s.take(i + 1).drop_last() =~= s.take(i));
    assert(s.take(i + 1).last() == s[i]);
}

} // verus!
