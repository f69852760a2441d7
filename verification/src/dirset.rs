//! The ordered set of plugin directories: a vector of paths kept in strictly
//! ascending lexicographic order, so that the set can hold no duplicates and
//! always iterates in the same sorted order, however it was built.

use vstd::prelude::*;

use crate::order::lemma_lex_connected;
use crate::order::lemma_lex_irreflexive;
use crate::order::lemma_lex_transitive;
use crate::order::lex_lt;
use crate::order::str_eq;
use crate::order::str_lt;
use crate::order::strict_sorted;

verus! {

/// Directories to search for plugin binaries.  The paths are kept strictly
/// sorted, which both rules out duplicates and makes every iteration and
/// every serialization of the set come out in the same order.
#[derive(Debug)]
pub struct DirSet {
    dirs: Vec<String>,
}

impl View for DirSet {
    type V = Seq<Seq<char>>;

    closed spec fn view(&self) -> Seq<Seq<char>> {
        self.dirs.deep_view()
    }
}

impl DirSet {
    /// The paths stand in strictly ascending order.
    pub open spec fn wf(&self) -> bool {
        strict_sorted(self@)
    }

    pub fn new() -> (s: DirSet)
        ensures
            s.wf(),
            s@ == Seq::<Seq<char>>::empty(),
    {
        let s = DirSet { dirs: Vec::new() };
        proof {
            assert(s@ =~= Seq::<Seq<char>>::empty());
        }
        s
    }

    pub fn len(&self) -> (n: usize)
        ensures
            n == self@.len(),
    {
        self.dirs.len()
    }

    pub fn get(&self, i: usize) -> (r: &String)
        requires
            i < self@.len(),
        ensures
            r@ == self@[i as int],
    {
        &self.dirs[i]
    }

    pub fn contains(&self, path: &str) -> (r: bool)
        ensures
            r == self@.contains(path@),
    {
        let n = self.dirs.len();
        let mut i: usize = 0;
        while i < n
            invariant
                i <= n,
                n == self@.len(),
                forall|j: int| 0 <= j < i ==> self@[j] != path@,
            decreases n - i,
        {
            if str_eq(self.dirs[i].as_str(), path) {
                proof {
                    assert(self@[i as int] == path@);
                }
                return true;
            }
            i = i + 1;
        }
        proof {
            if self@.contains(path@) {
                let k = choose|k: int| 0 <= k < self@.len() && self@[k] == path@;
                assert(false);
            }
        }
        false
    }

    /// Add a path, keeping the sorted order; a path already present is left
    /// alone, so the set never picks up a duplicate.
    pub fn insert(&mut self, path: &str)
        requires
            old(self).wf(),
        ensures
            final(self).wf(),
            final(self)@.to_set() == old(self)@.to_set().insert(path@),
            final(self)@.contains(path@),
            old(self)@.contains(path@) ==> final(self)@ == old(self)@,
    {
        let n = self.dirs.len();
        let mut i: usize = 0;
        loop
            invariant
                i <= n,
                n == self@.len(),
                *self == *old(self),
                forall|j: int| 0 <= j < i ==> lex_lt(self@[j], path@),
            ensures
                i <= n,
                *self == *old(self),
                forall|j: int| 0 <= j < i ==> lex_lt(self@[j], path@),
                i < n ==> !lex_lt(self@[i as int], path@),
            decreases n - i,
        {
            if i >= n {
                break ;
            }
            if !str_lt(self.dirs[i].as_str(), path) {
                proof {
                    assert(self@[i as int] == self.dirs@[i as int]@);
                }
                break ;
            }
            proof {
                assert(self@[i as int] == self.dirs@[i as int]@);
            }
            i = i + 1;
        }
        if i < n {
            let same = str_eq(self.dirs[i].as_str(), path);
            proof {
                assert(self@[i as int] == self.dirs@[i as int]@);
            }
            if same {
                proof {
                    assert(self@[i as int] == path@);
                    assert(self@.contains(path@));
                    assert(self@.to_set().contains(path@));
                    assert(self@.to_set().insert(path@) =~= self@.to_set());
                }
                return ;
            }
            proof {
                if !lex_lt(path@, self@[i as int]) {
                    lemma_lex_connected(path@, self@[i as int]);
                }
                assert(lex_lt(path@, self@[i as int]));
            }
        }
        let ghost prior = self@;
        proof {
            assert(strict_sorted(prior));
            if prior.contains(path@) {
                let k = choose|k: int| 0 <= k < prior.len() && prior[k] == path@;
                if k < i {
                    lemma_lex_irreflexive(path@);
                } else {
                    assert(lex_lt(path@, prior[i as int]));
                    if k > i {
                        assert(lex_lt(prior[i as int], prior[k]));
                        lemma_lex_transitive(path@, prior[i as int], prior[k]);
                    }
                    lemma_lex_irreflexive(path@);
                }
            }
            assert(!prior.contains(path@));
        }
        let ghost vec_prior = self.dirs@;
        let owned = path.to_owned();
        let ghost elem: String = owned;
        self.dirs.insert(i, owned);
        proof {
            let now = self@;
            vec_prior.insert_ensures(i as int, elem);
            prior.insert_ensures(i as int, path@);
            assert(now =~= prior.insert(i as int, path@)) by {
                assert forall|j: int| 0 <= j < now.len() implies now[j] == prior.insert(
                    i as int,
                    path@,
                )[j] by {
                    assert(now[j] == self.dirs@[j]@);
                    if j < i {
                        assert(self.dirs@[j] == vec_prior[j]);
                        assert(prior[j] == vec_prior[j]@);
                    } else if j > i {
                        assert(self.dirs@[j] == vec_prior[j - 1]);
                        assert(prior[j - 1] == vec_prior[j - 1]@);
                    }
                }
            }
            assert(now[i as int] == path@);
            assert(now.contains(path@));
            assert forall|p: int, q: int| 0 <= p < q < now.len() implies lex_lt(
                now[p],
                now[q],
            ) by {
                lemma_sorted_after_insert(prior, path@, i as int, p, q);
            }
            assert(now.to_set() =~= prior.to_set().insert(path@)) by {
                assert forall|x: Seq<char>| now.to_set().contains(x) implies prior.to_set().insert(
                    path@,
                ).contains(x) by {
                    let k = choose|k: int| 0 <= k < now.len() && now[k] == x;
                    if k < i {
                        assert(prior[k] == x);
                        assert(prior.contains(x));
                    } else if k > i {
                        assert(prior[k - 1] == x);
                        assert(prior.contains(x));
                    }
                }
                assert forall|x: Seq<char>|
                    prior.to_set().insert(path@).contains(x) implies now.to_set().contains(x) by {
                    if x == path@ {
                        assert(now[i as int] == x);
                    } else {
                        let k = choose|k: int| 0 <= k < prior.len() && prior[k] == x;
                        if k < i {
                            assert(now[k] == x);
                        } else {
                            assert(now[k + 1] == x);
                        }
                    }
                }
            }
        }
    }

    /// Take a path out of the set; a path that is not present leaves the set
    /// as it was.
    pub fn remove(&mut self, path: &str)
        requires
            old(self).wf(),
        ensures
            final(self).wf(),
            final(self)@.to_set() == old(self)@.to_set().remove(path@),
            !final(self)@.contains(path@),
    {
        let n = self.dirs.len();
        let mut i: usize = 0;
        while i < n
            invariant
                i <= n,
                n == self@.len(),
                *self == *old(self),
                old(self).wf(),
                forall|j: int| 0 <= j < i ==> self@[j] != path@,
            decreases n - i,
        {
            if str_eq(self.dirs[i].as_str(), path) {
                let ghost prior = self@;
                proof {
                    assert(strict_sorted(prior));
                    assert(prior[i as int] == path@);
                }
                let ghost vec_prior = self.dirs@;
                self.dirs.remove(i);
                proof {
                    let now = self@;
                    vec_prior.remove_ensures(i as int);
                    prior.remove_ensures(i as int);
                    assert(now =~= prior.remove(i as int)) by {
                        assert forall|j: int| 0 <= j < now.len() implies now[j] == prior.remove(
                            i as int,
                        )[j] by {
                            assert(now[j] == self.dirs@[j]@);
                            if j < i {
                                assert(self.dirs@[j] == vec_prior[j]);
                                assert(prior[j] == vec_prior[j]@);
                            } else {
                                assert(self.dirs@[j] == vec_prior[j + 1]);
                                assert(prior[j + 1] == vec_prior[j + 1]@);
                            }
                        }
                    }
                    assert forall|p: int, q: int| 0 <= p < q < now.len() implies lex_lt(
                        now[p],
                        now[q],
                    ) by {
                        let p0: int = if p < i { p } else { p + 1 };
                        let q0: int = if q < i { q } else { q + 1 };
                        assert(prior.remove(i as int)[p] == prior[p0]);
                        assert(prior.remove(i as int)[q] == prior[q0]);
                        assert(lex_lt(prior[p0], prior[q0]));
                    }
                    lemma_no_other_occurrence(prior, i as int);
                    assert(now.to_set() =~= prior.to_set().remove(path@)) by {
                        assert forall|x: Seq<char>|
                            now.to_set().contains(x) implies prior.to_set().remove(path@).contains(
                            x,
                        ) by {
                            let k = choose|k: int| 0 <= k < now.len() && now[k] == x;
                            let k0: int = if k < i { k } else { k + 1 };
                            assert(prior.remove(i as int)[k] == prior[k0]);
                            assert(prior[k0] == x);
                            assert(prior.contains(x));
                        }
                        assert forall|x: Seq<char>|
                            prior.to_set().remove(path@).contains(x) implies now.to_set().contains(
                            x,
                        ) by {
                            let k = choose|k: int| 0 <= k < prior.len() && prior[k] == x;
                            if k < i {
                                assert(prior.remove(i as int)[k] == prior[k]);
                                assert(now[k] == x);
                            } else {
                                assert(k > i);
                                assert(prior.remove(i as int)[k - 1] == prior[k]);
                                assert(now[k - 1] == x);
                            }
                        }
                    }
                    if now.contains(path@) {
                        let k = choose|k: int| 0 <= k < now.len() && now[k] == path@;
                        let k0: int = if k < i { k } else { k + 1 };
                        assert(prior.remove(i as int)[k] == prior[k0]);
                        assert(prior[k0] == path@);
                    }
                }
                return ;
            }
            proof {
                assert(self@[i as int] == self.dirs@[i as int]@);
            }
            i = i + 1;
        }
        proof {
            if self@.contains(path@) {
                let k = choose|k: int| 0 <= k < self@.len() && self@[k] == path@;
                assert(false);
            }
            assert(self@.to_set() =~= self@.to_set().remove(path@));
        }
    }

    /// Build the set from paths in any order: the result is the same sorted
    /// set whatever the order of arrival.
    pub fn from_vec(paths: &Vec<String>) -> (s: DirSet)
        ensures
            s.wf(),
            s@.to_set() == paths.deep_view().to_set(),
    {
        let ghost all = paths.deep_view();
        let mut s = DirSet::new();
        let n = paths.len();
        let mut i: usize = 0;
        proof {
            assert(s@.to_set() =~= all.subrange(0, 0).to_set()) by {
                lemma_empty_to_set(s@);
                lemma_empty_to_set(all.subrange(0, 0));
            }
        }
        while i < n
            invariant
                i <= n,
                n == paths@.len(),
                all == paths.deep_view(),
                s.wf(),
                s@.to_set() == all.subrange(0, i as int).to_set(),
            decreases n - i,
        {
            proof {
                assert(all[i as int] == paths@[i as int]@);
            }
            s.insert(paths[i].as_str());
            proof {
                lemma_subrange_extend_to_set(all, i as int);
            }
            i = i + 1;
        }
        proof {
            assert(all.subrange(0, n as int) =~= all);
        }
        s
    }

    /// The paths as a plain vector, in their sorted order.
    pub fn to_vec(&self) -> (r: Vec<String>)
        ensures
            r.deep_view() == self@,
    {
        let mut r: Vec<String> = Vec::new();
        let n = self.dirs.len();
        let mut i: usize = 0;
        while i < n
            invariant
                i <= n,
                n == self@.len(),
                r.deep_view() == self@.subrange(0, i as int),
            decreases n - i,
        {
            let ghost before = r.deep_view();
            r.push(self.dirs[i].clone());
            proof {
                assert(r.deep_view() =~= before.push(self@[i as int])) by {
                    assert forall|j: int| 0 <= j < r.deep_view().len() implies r.deep_view()[j]
                        == before.push(self@[i as int])[j] by {
                        assert(r.deep_view()[j] == r@[j]@);
                    }
                }
                assert(before.push(self@[i as int]) =~= self@.subrange(0, i + 1));
            }
            i = i + 1;
        }
        proof {
            assert(self@.subrange(0, n as int) =~= self@);
        }
        r
    }
}

/// An element put into its sorted place between smaller and larger neighbours
/// leaves the sequence strictly sorted.
proof fn lemma_sorted_after_insert(s: Seq<Seq<char>>, x: Seq<char>, i: int, p: int, q: int)
    requires
        strict_sorted(s),
        0 <= i <= s.len(),
        forall|j: int| 0 <= j < i ==> lex_lt(s[j], x),
        i < s.len() ==> lex_lt(x, s[i]),
        0 <= p < q < s.insert(i, x).len(),
    ensures
        lex_lt(s.insert(i, x)[p], s.insert(i, x)[q]),
{
    let t = s.insert(i, x);
    s.insert_ensures(i, x);
    let p0: int = if p < i { p } else { p - 1 };
    let q0: int = if q < i { q } else { q - 1 };
    if p == i {
        assert(t[p] == x);
        assert(t[q] == s[q0]);
        assert(q0 >= i);
        assert(lex_lt(x, s[i]));
        if q0 > i {
            lemma_lex_transitive(x, s[i], s[q0]);
        }
    } else if q == i {
        assert(t[q] == x);
        assert(p0 == p && p < i);
        assert(t[p] == s[p0]);
    } else {
        assert(t[p] == s[p0]);
        assert(t[q] == s[q0]);
        if p < i && q > i {
            assert(p0 == p && q0 == q - 1 && q0 >= i);
            assert(lex_lt(s[p0], x));
            if q0 == i {
                lemma_lex_transitive(s[p0], x, s[q0]);
            } else {
                lemma_lex_transitive(x, s[i], s[q0]);
                lemma_lex_transitive(s[p0], x, s[q0]);
            }
        } else {
            assert(p0 < q0);
        }
    }
}

/// In a strictly sorted sequence a value occurs at one index at most.
proof fn lemma_no_other_occurrence(s: Seq<Seq<char>>, i: int)
    requires
        strict_sorted(s),
        0 <= i < s.len(),
    ensures
        forall|j: int| 0 <= j < s.len() && j != i ==> s[j] != s[i],
{
    assert forall|j: int| 0 <= j < s.len() && j != i implies s[j] != s[i] by {
        if s[j] == s[i] {
            if j < i {
                assert(lex_lt(s[j], s[i]));
            } else {
                assert(lex_lt(s[i], s[j]));
            }
            lemma_lex_irreflexive(s[i]);
        }
    }
}

proof fn lemma_empty_to_set(s: Seq<Seq<char>>)
    requires
        s.len() == 0,
    ensures
        s.to_set() =~= Set::<Seq<char>>::empty(),
{
    assert forall|x: Seq<char>| !s.to_set().contains(x) by {
        if s.contains(x) {
            let k = choose|k: int| 0 <= k < s.len() && s[k] == x;
        }
    }
}

/// Extending a prefix by its next element adds exactly that element to the
/// prefix's set.
proof fn lemma_subrange_extend_to_set(s: Seq<Seq<char>>, i: int)
    requires
        0 <= i < s.len(),
    ensures
        s.subrange(0, i + 1).to_set() == s.subrange(0, i).to_set().insert(s[i]),
{
    let a = s.subrange(0, i + 1);
    let b = s.subrange(0, i);
    assert(a.to_set() =~= b.to_set().insert(s[i])) by {
        assert forall|x: Seq<char>| a.to_set().contains(x) implies b.to_set().insert(
            s[i],
        ).contains(x) by {
            let k = choose|k: int| 0 <= k < a.len() && a[k] == x;
            if k < i {
                assert(b[k] == x);
                assert(b.contains(x));
            } else {
                assert(a[k] == s[i]);
            }
        }
        assert forall|x: Seq<char>| b.to_set().insert(s[i]).contains(x) implies a.to_set().contains(
            x,
        ) by {
            if x == s[i] {
                assert(a[i] == x);
            } else {
                let k = choose|k: int| 0 <= k < b.len() && b[k] == x;
                assert(a[k] == x);
            }
        }
    }
}

} // verus!
