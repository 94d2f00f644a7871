use vstd::prelude::*;
use vstd::string::StrSliceExecFns;

verus! {

/// Lexicographic "less or equal" over character sequences, by code point.
/// This is the order in which persisted package lists are kept.
pub open spec fn seq_str_le(a: Seq<char>, b: Seq<char>) -> bool
    decreases a.len(),
{
    if a.len() == 0 {
        true
    } else if b.len() == 0 {
        false
    } else if a[0] != b[0] {
        a[0] < b[0]
    } else {
        seq_str_le(a.drop_first(), b.drop_first())
    }
}

pub proof fn lemma_seq_str_le_refl(a: Seq<char>)
    ensures
        seq_str_le(a, a),
    decreases a.len(),
{
    if a.len() > 0 {
        lemma_seq_str_le_refl(a.drop_first());
    }
}

pub proof fn lemma_seq_str_le_total(a: Seq<char>, b: Seq<char>)
    ensures
        seq_str_le(a, b) || seq_str_le(b, a),
    decreases a.len(),
{
    if a.len() == 0 || b.len() == 0 {
    } else if a[0] != b[0] {
    } else {
        lemma_seq_str_le_total(a.drop_first(), b.drop_first());
    }
}

pub proof fn lemma_seq_str_le_antisym(a: Seq<char>, b: Seq<char>)
    requires
        seq_str_le(a, b),
        seq_str_le(b, a),
    ensures
        a == b,
    decreases a.len(),
{
    if a.len() == 0 {
        assert(b.len() == 0);
        assert(a =~= b);
    } else {
        assert(b.len() > 0);
        assert(a[0] == b[0]);
        lemma_seq_str_le_antisym(a.drop_first(), b.drop_first());
        assert(a =~= seq![a[0]] + a.drop_first());
        assert(b =~= seq![b[0]] + b.drop_first());
    }
}

pub proof fn lemma_seq_str_le_trans(a: Seq<char>, b: Seq<char>, c: Seq<char>)
    requires
        seq_str_le(a, b),
        seq_str_le(b, c),
    ensures
        seq_str_le(a, c),
    decreases a.len(),
{
    if a.len() == 0 || b.len() == 0 || c.len() == 0 {
    } else if a[0] == b[0] && b[0] == c[0] {
        lemma_seq_str_le_trans(a.drop_first(), b.drop_first(), c.drop_first());
    }
}

/// Compares two strings in the order of `seq_str_le`.
pub fn str_le(a: &str, b: &str) -> (r: bool)
    ensures
        r == seq_str_le(a@, b@),
{
    let alen = a.unicode_len();
    let blen = b.unicode_len();
    let mut i: usize = 0;
    proof {
        assert(a@.skip(0) =~= a@);
        assert(b@.skip(0) =~= b@);
    }
    while i < alen && i < blen
        invariant
            0 <= i <= alen,
            0 <= i <= blen,
            alen == a@.len(),
            blen == b@.len(),
            seq_str_le(a@, b@) == seq_str_le(a@.skip(i as int), b@.skip(i as int)),
        decreases alen - i,
    {
        let ca = a.get_char(i);
        let cb = b.get_char(i);
        proof {
            assert(a@.skip(i as int)[0] == a@[i as int]);
            assert(b@.skip(i as int)[0] == b@[i as int]);
            assert(a@.skip(i as int).drop_first() =~= a@.skip(i + 1));
            assert(b@.skip(i as int).drop_first() =~= b@.skip(i + 1));
        }
        if ca != cb {
            return ca < cb;
        }
        i = i + 1;
    }
    proof {
        if i == alen {
            assert(a@.skip(i as int).len() == 0);
        } else {
            assert(b@.skip(i as int).len() == 0);
            assert(a@.skip(i as int).len() > 0);
        }
    }
    alen <= blen
}

/// True when `suffix` ends `s`: the view of `suffix` is a suffix of the
/// view of `s`.
pub fn str_ends_with(s: &str, suffix: &str) -> (r: bool)
    ensures
        r == suffix@.is_suffix_of(s@),
{
    let slen = s.unicode_len();
    let flen = suffix.unicode_len();
    if flen > slen {
        proof {
            assert(!suffix@.is_suffix_of(s@));
        }
        return false;
    }
    let start = slen - flen;
    let mut i: usize = 0;
    while i < flen
        invariant
            0 <= i <= flen,
            flen <= slen,
            start == slen - flen,
            slen == s@.len(),
            flen == suffix@.len(),
            forall|j: int| 0 <= j < i ==> s@[start + j] == suffix@[j],
        decreases flen - i,
    {
        if s.get_char(start + i) != suffix.get_char(i) {
            proof {
                assert(s@.skip(start as int)[i as int] != suffix@[i as int]);
                assert(!suffix@.is_suffix_of(s@));
            }
            return false;
        }
        i = i + 1;
    }
    proof {
        assert(s@.skip(start as int) =~= suffix@);
    }
    true
}

/// True when the views of the two strings are equal.
pub fn str_eq(a: &str, b: &str) -> (r: bool)
    ensures
        r == (a@ == b@),
{
    let alen = a.unicode_len();
    let blen = b.unicode_len();
    if alen != blen {
        return false;
    }
    let mut i: usize = 0;
    while i < alen
        invariant
            0 <= i <= alen,
            alen == a@.len(),
            alen == b@.len(),
            forall|j: int| 0 <= j < i ==> a@[j] == b@[j],
        decreases alen - i,
    {
        if a.get_char(i) != b.get_char(i) {
            return false;
        }
        i = i + 1;
    }
    proof {
        assert(a@ =~= b@);
    }
    true
}

} // verus!
