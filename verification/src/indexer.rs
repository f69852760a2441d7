//! Aggregation of the per-directory plugin scans.  The scans themselves are
//! a black box run outside, one per configured directory and in whatever
//! order they finish; their outcomes come back here in the directory order,
//! and this module decides what the whole indexing operation returns.

use vstd::prelude::*;

use crate::config::Config;
use crate::order::strict_sorted;

verus! {

/// The directory of each directory-to-results pair.
pub open spec fn pair_keys<T>(s: Seq<(String, T)>) -> Seq<Seq<char>> {
    Seq::new(s.len(), |k: int| s[k].0@)
}

impl Config {
    /// Combine the per-directory scan outcomes, given in the order of
    /// `plugin_dirs`, into the directory-to-results mapping, keyed in the
    /// set's sorted order.  If any scan failed, the whole operation fails
    /// with the first failure in that order and every result is discarded.
    /// (The scans run concurrently outside; aggregating them here keeps the
    /// outcome independent of which scan finishes first.)
    #[verifier::loop_isolation(false)]
    pub fn index_directories<T, E>(&self, outcomes: Vec<Result<T, E>>) -> (r: Result<
        Vec<(String, T)>,
        E,
    >)
        requires
            self.wf(),
            outcomes@.len() == self.plugin_dirs@.len(),
        ensures
            (match r {
                Ok(pairs) => {
                    &&& forall|k: int| 0 <= k < outcomes@.len() ==> outcomes@[k] is Ok
                    &&& pairs@.len() == outcomes@.len()
                    &&& forall|k: int|
                        0 <= k < pairs@.len() ==> pairs@[k].0@ == self.plugin_dirs@[k]
                            && pairs@[k].1 == outcomes@[k]->Ok_0
                    &&& strict_sorted(pair_keys(pairs@))
                },
                Err(e) => exists|k: int|
                    {
                        &&& 0 <= k < outcomes@.len()
                        &&& outcomes@[k] is Err
                        &&& e == outcomes@[k]->Err_0
                        &&& forall|j: int| 0 <= j < k ==> outcomes@[j] is Ok
                    },
            }),
    {
        let ghost original = outcomes@;
        let mut rest = outcomes;
        let mut pairs: Vec<(String, T)> = Vec::new();
        let n = self.plugin_dirs.len();
        let mut i: usize = 0;
        proof {
            assert(original.skip(0) =~= original);
        }
        while i < n
            invariant
                i <= n,
                n == self.plugin_dirs@.len(),
                original.len() == n,
                rest@ == original.skip(i as int),
                pairs@.len() == i,
                forall|j: int| 0 <= j < i ==> original[j] is Ok,
                forall|j: int|
                    0 <= j < i ==> pairs@[j].0@ == self.plugin_dirs@[j] && pairs@[j].1
                        == original[j]->Ok_0,
            decreases n - i,
        {
            let oc = rest.remove(0);
            proof {
                assert(original.skip(i as int)[0] == original[i as int]);
                assert(rest@ =~= original.skip(i + 1));
            }
            match oc {
                Ok(t) => {
                    let dir = self.plugin_dirs.get(i).clone();
                    pairs.push((dir, t));
                    i = i + 1;
                },
                Err(e) => {
                    proof {
                        let k = i as int;
                        assert(0 <= k < original.len() && original[k] is Err && e
                            == original[k]->Err_0 && (forall|j: int|
                            0 <= j < k ==> original[j] is Ok));
                    }
                    return Err(e);
                },
            }
        }
        proof {
            assert(pair_keys(pairs@) =~= self.plugin_dirs@);
        }
        Ok(pairs)
    }
}

} // verus!
