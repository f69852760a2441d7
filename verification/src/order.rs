//! Lexicographic ordering of paths, the basis of the sorted plugin-directory
//! set: a strict order on character sequences by code point, an executable
//! comparison proved against it, and the facts about strictly sorted
//! sequences that the rest of the crate leans on.

use vstd::prelude::*;

verus! {

/// Strict lexicographic order on character sequences, by code point:
/// a proper prefix precedes its extensions.
pub open spec fn lex_lt(a: Seq<char>, b: Seq<char>) -> bool
    decreases a.len() + b.len(),
{
    if b.len() == 0 {
        false
    } else if a.len() == 0 {
        true
    } else if (a[0] as u32) < (b[0] as u32) {
        true
    } else if (b[0] as u32) < (a[0] as u32) {
        false
    } else {
        lex_lt(a.drop_first(), b.drop_first())
    }
}

/// The code-point view of a character determines it.
proof fn lemma_char_code_injective(x: char, y: char)
    requires
        x as u32 == y as u32,
    ensures
        x == y,
{
}

pub proof fn lemma_lex_irreflexive(a: Seq<char>)
    ensures
        !lex_lt(a, a),
    decreases a.len(),
{
    if a.len() > 0 {
        lemma_lex_irreflexive(a.drop_first());
    }
}

/// Two sequences that neither precede the other are equal.
pub proof fn lemma_lex_connected(a: Seq<char>, b: Seq<char>)
    requires
        !lex_lt(a, b),
        !lex_lt(b, a),
    ensures
        a == b,
    decreases a.len() + b.len(),
{
    if b.len() == 0 {
        assert(a.len() == 0);
        assert(a =~= b);
    } else {
        assert(a.len() > 0);
        assert(!((a[0] as u32) < (b[0] as u32)));
        assert(!((b[0] as u32) < (a[0] as u32)));
        assert((a[0] as u32) == (b[0] as u32));
        lemma_char_code_injective(a[0], b[0]);
        assert(a[0] == b[0]);
        lemma_lex_connected(a.drop_first(), b.drop_first());
        assert(a.len() == b.len());
        assert forall|i: int| 0 <= i < a.len() implies a[i] == b[i] by {
            if i > 0 {
                assert(a[i] == a.drop_first()[i - 1]);
                assert(b[i] == b.drop_first()[i - 1]);
            }
        }
        assert(a =~= b);
    }
}

pub proof fn lemma_lex_transitive(a: Seq<char>, b: Seq<char>, c: Seq<char>)
    requires
        lex_lt(a, b),
        lex_lt(b, c),
    ensures
        lex_lt(a, c),
    decreases a.len() + b.len() + c.len(),
{
    if a.len() == 0 {
        assert(c.len() > 0);
    } else {
        assert(b.len() > 0);
        assert(c.len() > 0);
        if (a[0] as u32) < (c[0] as u32) {
        } else {
            if (b[0] as u32) < (a[0] as u32) {
                assert(!lex_lt(a, b));
            }
            if (c[0] as u32) < (b[0] as u32) {
                assert(!lex_lt(b, c));
            }
            assert((a[0] as u32) == (b[0] as u32) && (b[0] as u32) == (c[0] as u32));
            lemma_char_code_injective(a[0], b[0]);
            lemma_char_code_injective(b[0], c[0]);
            assert(a[0] == b[0] && b[0] == c[0]);
            lemma_lex_transitive(a.drop_first(), b.drop_first(), c.drop_first());
        }
    }
}

/// Executable lexicographic comparison, the order `lex_lt` describes.
pub fn str_lt(a: &str, b: &str) -> (r: bool)
    ensures
        r == lex_lt(a@, b@),
{
    let a_len = a.unicode_len();
    let b_len = b.unicode_len();
    let mut i: usize = 0;
    proof {
        assert(a@.skip(0) =~= a@);
        assert(b@.skip(0) =~= b@);
    }
    loop
        invariant
            i <= a_len,
            i <= b_len,
            a_len == a@.len(),
            b_len == b@.len(),
            lex_lt(a@, b@) == lex_lt(a@.skip(i as int), b@.skip(i as int)),
        decreases a_len - i,
    {
        if i >= b_len {
            proof {
                assert(b@.skip(i as int).len() == 0);
            }
            return false;
        }
        if i >= a_len {
            proof {
                assert(a@.skip(i as int).len() == 0);
                assert(b@.skip(i as int).len() > 0);
            }
            return true;
        }
        let ca = a.get_char(i);
        let cb = b.get_char(i);
        proof {
            assert(a@.skip(i as int)[0] == a@[i as int]);
            assert(b@.skip(i as int)[0] == b@[i as int]);
        }
        if (ca as u32) < (cb as u32) {
            return true;
        }
        if (cb as u32) < (ca as u32) {
            return false;
        }
        proof {
            assert(a@.skip(i as int).drop_first() =~= a@.skip(i + 1));
            assert(b@.skip(i as int).drop_first() =~= b@.skip(i + 1));
        }
        i = i + 1;
    }
}

/// Executable string equality, decided through the two one-sided comparisons.
pub fn str_eq(a: &str, b: &str) -> (r: bool)
    ensures
        r == (a@ == b@),
{
    let ab = str_lt(a, b);
    let ba = str_lt(b, a);
    proof {
        if !ab && !ba {
            lemma_lex_connected(a@, b@);
        }
        if a@ == b@ {
            lemma_lex_irreflexive(a@);
        }
    }
    !ab && !ba
}

/// A sequence of paths in strictly ascending order: sorted and free of
/// duplicates at once.
pub open spec fn strict_sorted(s: Seq<Seq<char>>) -> bool {
    forall|i: int, j: int| 0 <= i < j < s.len() ==> lex_lt(s[i], s[j])
}

/// A strictly sorted sequence is the canonical form of its set of elements:
/// two of them with the same elements are the same sequence.
pub proof fn lemma_strict_sorted_canonical(a: Seq<Seq<char>>, b: Seq<Seq<char>>)
    requires
        strict_sorted(a),
        strict_sorted(b),
        a.to_set() == b.to_set(),
    ensures
        a == b,
    decreases a.len(),
{
    if a.len() == 0 {
        if b.len() > 0 {
            assert(b.to_set().contains(b[0]));
            assert(a.contains(b[0]));
        }
        assert(a =~= b);
    } else if b.len() == 0 {
        assert(a.to_set().contains(a[0]));
        assert(b.contains(a[0]));
    } else {
        lemma_heads_equal(a, b);
        lemma_head_not_in_tail(a);
        lemma_head_not_in_tail(b);
        assert(a.drop_first().to_set() =~= b.drop_first().to_set()) by {
            lemma_tail_set(a);
            lemma_tail_set(b);
        }
        lemma_strict_sorted_canonical(a.drop_first(), b.drop_first());
        assert(a.len() == b.len());
        assert forall|i: int| 0 <= i < a.len() implies a[i] == b[i] by {
            if i > 0 {
                assert(a[i] == a.drop_first()[i - 1]);
                assert(b[i] == b.drop_first()[i - 1]);
            }
        }
        assert(a =~= b);
    }
}

proof fn lemma_heads_equal(a: Seq<Seq<char>>, b: Seq<Seq<char>>)
    requires
        strict_sorted(a),
        strict_sorted(b),
        a.to_set() == b.to_set(),
        a.len() > 0,
        b.len() > 0,
    ensures
        a[0] == b[0],
{
    assert(a.to_set().contains(a[0]));
    assert(b.contains(a[0]));
    let k = choose|k: int| 0 <= k < b.len() && b[k] == a[0];
    assert(b.to_set().contains(b[0]));
    assert(a.contains(b[0]));
    let m = choose|m: int| 0 <= m < a.len() && a[m] == b[0];
    if a[0] != b[0] {
        assert(k > 0);
        assert(m > 0);
        assert(lex_lt(b[0], b[k]));
        assert(lex_lt(a[0], a[m]));
        lemma_lex_transitive(a[0], b[0], a[0]);
        lemma_lex_irreflexive(a[0]);
    }
}

proof fn lemma_head_not_in_tail(a: Seq<Seq<char>>)
    requires
        strict_sorted(a),
        a.len() > 0,
    ensures
        !a.drop_first().contains(a[0]),
{
    if a.drop_first().contains(a[0]) {
        let k = choose|k: int| 0 <= k < a.drop_first().len() && a.drop_first()[k] == a[0];
        assert(a[k + 1] == a[0]);
        assert(lex_lt(a[0], a[k + 1]));
        lemma_lex_irreflexive(a[0]);
    }
}

/// Dropping the head of a duplicate-free sequence removes exactly it from
/// the set of elements.
proof fn lemma_tail_set(a: Seq<Seq<char>>)
    requires
        a.len() > 0,
        !a.drop_first().contains(a[0]),
    ensures
        a.drop_first().to_set() =~= a.to_set().remove(a[0]),
{
    let tail = a.drop_first();
    assert forall|x: Seq<char>| tail.to_set().contains(x) implies a.to_set().remove(
        a[0],
    ).contains(x) by {
        let k = choose|k: int| 0 <= k < tail.len() && tail[k] == x;
        assert(a[k + 1] == x);
        assert(a.contains(x));
    }
    assert forall|x: Seq<char>| a.to_set().remove(a[0]).contains(x) implies tail.to_set().contains(
        x,
    ) by {
        let k = choose|k: int| 0 <= k < a.len() && a[k] == x;
        assert(k > 0);
        assert(tail[k - 1] == x);
        assert(tail.contains(x));
    }
}

} // verus!

