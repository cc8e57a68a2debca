//! The variables of one program run.

use vstd::prelude::*;

verus! {

/// `<str as PartialEq>::eq`: two string slices are equal exactly when they
/// hold the same characters.
pub assume_specification[ <str as PartialEq>::eq ](a: &str, b: &str) -> (equal: bool)
    ensures
        equal == (a@ == b@),
;

/// The mapping that the first `n` entries of an assignment log describe: a
/// later entry for a name replaces an earlier one.
spec fn bound_by(log: Seq<(String, i32)>, n: nat) -> Map<Seq<char>, i32>
    decreases n,
{
    if n == 0 {
        Map::empty()
    } else {
        bound_by(log, (n - 1) as nat).insert(log[n - 1].0@, log[n - 1].1)
    }
}

/// A mapping from variable name to value, filled by assignments.
///
/// It lives for one run of a program. A program has no loops, so the log of
/// assignments that backs the mapping is never longer than the program.
pub struct Bindings {
    log: Vec<(String, i32)>,
}

impl View for Bindings {
    type V = Map<Seq<char>, i32>;

    closed spec fn view(&self) -> Map<Seq<char>, i32> {
        bound_by(self.log@, self.log@.len())
    }
}

/// Entries of the log from `from` on do not name `key`.
spec fn absent_from(log: Seq<(String, i32)>, from: int, key: Seq<char>) -> bool {
    forall|j: int| from <= j < log.len() ==> (#[trigger] log[j]).0@ != key
}

/// What the log binds `key` to is decided by the last entry that names it.
proof fn lemma_bound_by(log: Seq<(String, i32)>, n: nat, i: int, key: Seq<char>)
    requires
        n <= log.len(),
        0 <= i <= n,
        forall|j: int| i <= j < n ==> (#[trigger] log[j]).0@ != key,
    ensures
        i == 0 ==> !bound_by(log, n).contains_key(key),
        i > 0 && log[i - 1].0@ == key ==> bound_by(log, n).contains_key(key) && bound_by(log, n)[key]
            == log[i - 1].1,
    decreases n,
{
    if n > i {
        lemma_bound_by(log, (n - 1) as nat, i, key);
    } else if n > 0 {
        if log[i - 1].0@ != key {
            lemma_bound_by(log, (n - 1) as nat, i - 1, key);
        }
    }
}

impl Bindings {
    /// The mapping that binds nothing.
    pub fn new() -> (vars: Bindings)
        ensures
            vars@ == Map::<Seq<char>, i32>::empty(),
    {
        Bindings { log: Vec::new() }
    }

    /// The value of `key`, if something was assigned to it.
    pub fn get(&self, key: &str) -> (value: Option<i32>)
        ensures
            value == if self@.contains_key(key@) {
                Some(self@[key@])
            } else {
                None
            },
    {
        let mut i = self.log.len();
        while i > 0
            invariant
                i <= self.log@.len(),
                absent_from(self.log@, i as int, key@),
            decreases i,
        {
            if self.log[i - 1].0.as_str().eq(key) {
                proof {
                    lemma_bound_by(self.log@, self.log@.len(), i as int, key@);
                }
                return Some(self.log[i - 1].1);
            }
            i -= 1;
        }
        proof {
            lemma_bound_by(self.log@, self.log@.len(), 0, key@);
        }
        None
    }

    /// Assigns `value` to `key`.
    pub fn insert(&mut self, key: String, value: i32)
        ensures
            final(self)@ == old(self)@.insert(key@, value),
    {
        let ghost before = self.log@;
        self.log.push((key, value));
        proof {
            lemma_bound_by_prefix(before, self.log@, before.len());
        }
    }
}

/// Two logs that agree on their first `n` entries bind the same there.
proof fn lemma_bound_by_prefix(a: Seq<(String, i32)>, b: Seq<(String, i32)>, n: nat)
    requires
        n <= a.len(),
        n <= b.len(),
        forall|j: int| 0 <= j < n ==> a[j] == b[j],
    ensures
        bound_by(a, n) == bound_by(b, n),
    decreases n,
{
    if n > 0 {
        lemma_bound_by_prefix(a, b, (n - 1) as nat);
    }
}

} // verus!
