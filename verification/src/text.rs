//! Byte-level text operations of the query pipeline: ASCII case folding,
//! substring search, the free-text row filter, and the direction token taken
//! from a row's term label.
//!
//! All labels and filters are carried as byte strings; case folding and the
//! whitespace classes are the ASCII ones.
use vstd::prelude::*;

verus! {

/// ASCII case folding of one byte: upper-case letters map to lower case,
/// every other byte is unchanged.
pub open spec fn lower_byte(b: u8) -> u8 {
    if 65 <= b && b <= 90 {
        (b + 32) as u8
    } else {
        b
    }
}

/// ASCII case folding of a byte string.
pub open spec fn lower_seq(s: Seq<u8>) -> Seq<u8> {
    Seq::new(s.len(), |i: int| lower_byte(s[i]))
}

/// Fold `s` to ASCII lower case.
pub fn to_lowercase(s: &Vec<u8>) -> (r: Vec<u8>)
    ensures
        r@ == lower_seq(s@),
{
    let mut r: Vec<u8> = Vec::new();
    let mut i: usize = 0;
    while i < s.len()
        invariant
            i <= s@.len(),
            r@.len() == i,
            forall|t: int| 0 <= t < i ==> r@[t] == lower_byte(s@[t]),
        decreases s@.len() - i,
    {
        let b: u8 = s[i];
        if 65 <= b && b <= 90 {
            r.push(b + 32);
        } else {
            r.push(b);
        }
        i = i + 1;
    }
    proof {
        assert(r@ =~= lower_seq(s@));
    }
    r
}

/// Whether the needle `n` occurs in `h` starting at position `i`.
pub open spec fn match_at(h: Seq<u8>, n: Seq<u8>, i: int) -> bool {
    &&& 0 <= i
    &&& i + n.len() <= h.len()
    &&& forall|j: int| 0 <= j < n.len() ==> h[i + j] == n[j]
}

/// Whether the needle `n` occurs anywhere in `h`. The empty needle occurs in
/// every string.
pub open spec fn contains_seq(h: Seq<u8>, n: Seq<u8>) -> bool {
    exists|i: int| match_at(h, n, i)
}

/// Substring search: whether `n` occurs contiguously in `h`.
pub fn contains_sub(h: &Vec<u8>, n: &Vec<u8>) -> (r: bool)
    ensures
        r == contains_seq(h@, n@),
{
    if n.len() > h.len() {
        proof {
            assert forall|i: int| !match_at(h@, n@, i) by {}
        }
        return false;
    }
    if n.len() == 0 {
        proof {
            assert(match_at(h@, n@, 0));
        }
        return true;
    }
    let bound: usize = h.len() - n.len();
    let mut i: usize = 0;
    while i <= bound
        invariant
            1 <= n@.len() <= h@.len(),
            h@.len() <= usize::MAX,
            bound == h@.len() - n@.len(),
            i <= bound + 1,
            forall|t: int| 0 <= t < i ==> !match_at(h@, n@, t),
        decreases bound - i + 1,
    {
        let mut j: usize = 0;
        let mut miss = false;
        while j < n.len() && !miss
            invariant
                n@.len() <= h@.len(),
                h@.len() <= usize::MAX,
                i <= h@.len() - n@.len(),
                j <= n@.len(),
                !miss ==> forall|t: int| 0 <= t < j ==> h@[i + t] == n@[t],
                miss ==> !match_at(h@, n@, i as int),
            decreases n@.len() - j,
        {
            assert(i + j < h@.len());
            if h[i + j] != n[j] {
                proof {
                    assert(h@[i + j] != n@[j as int]);
                }
                miss = true;
            }
            j = j + 1;
        }
        if !miss {
            proof {
                assert(match_at(h@, n@, i as int));
            }
            return true;
        }
        i = i + 1;
    }
    proof {
        assert forall|t: int| !match_at(h@, n@, t) by {
            if t >= i {
                assert(t + n@.len() > h@.len());
            }
        }
    }
    false
}

/// The case-insensitive free-text row filter: the folded filter term occurs
/// in the folded title, term label, attributes or significant-term text.
pub open spec fn row_matches(
    title: Seq<u8>,
    term: Seq<u8>,
    attrs: Seq<u8>,
    sig: Seq<u8>,
    filter: Seq<u8>,
) -> bool {
    ||| contains_seq(lower_seq(title), lower_seq(filter))
    ||| contains_seq(lower_seq(term), lower_seq(filter))
    ||| contains_seq(lower_seq(attrs), lower_seq(filter))
    ||| contains_seq(lower_seq(sig), lower_seq(filter))
}

/// Apply the case-insensitive free-text filter to one row's four text fields.
pub fn matches_filter(
    title: &Vec<u8>,
    term: &Vec<u8>,
    attrs: &Vec<u8>,
    sig: &Vec<u8>,
    filter: &Vec<u8>,
) -> (r: bool)
    ensures
        r == row_matches(title@, term@, attrs@, sig@, filter@),
{
    let f = to_lowercase(filter);
    let t = to_lowercase(title);
    if contains_sub(&t, &f) {
        return true;
    }
    let te = to_lowercase(term);
    if contains_sub(&te, &f) {
        return true;
    }
    let at = to_lowercase(attrs);
    if contains_sub(&at, &f) {
        return true;
    }
    let sg = to_lowercase(sig);
    contains_sub(&sg, &f)
}

/// ASCII whitespace: space, tab, line feed, vertical tab, form feed,
/// carriage return.
pub open spec fn is_ws(b: u8) -> bool {
    b == 32 || (9 <= b && b <= 13)
}

fn is_ws_byte(b: u8) -> (r: bool)
    ensures
        r == is_ws(b),
{
    b == 32 || (9 <= b && b <= 13)
}

/// The maximal run of non-whitespace bytes at the end of `s`; empty if `s`
/// ends in whitespace or is empty.
pub open spec fn tail_token(s: Seq<u8>) -> Seq<u8>
    decreases s.len(),
{
    if s.len() == 0 || is_ws(s.last()) {
        Seq::empty()
    } else {
        tail_token(s.drop_last()).push(s.last())
    }
}

/// The last whitespace-delimited token of `s`: trailing whitespace is
/// ignored, and the token before it is taken whole; empty if `s` holds no
/// non-whitespace byte.
pub open spec fn last_token(s: Seq<u8>) -> Seq<u8>
    decreases s.len(),
{
    if s.len() == 0 {
        Seq::empty()
    } else if is_ws(s.last()) {
        last_token(s.drop_last())
    } else {
        tail_token(s)
    }
}

/// The direction of a row: the last whitespace-delimited token of its term
/// label, empty when the label holds no token.
pub fn direction_of(term: &Vec<u8>) -> (r: Vec<u8>)
    ensures
        r@ == last_token(term@),
{
    let ghost s = term@;
    let mut j: usize = term.len();
    proof {
        assert(s.take(s.len() as int) =~= s);
    }
    while j > 0 && is_ws_byte(term[j - 1])
        invariant
            j <= s.len(),
            term@ == s,
            last_token(s) == last_token(s.take(j as int)),
        decreases j,
    {
        proof {
            assert(s.take(j as int).drop_last() =~= s.take(j as int - 1));
            assert(s.take(j as int).last() == s[j as int - 1]);
        }
        j = j - 1;
    }
    if j == 0 {
        proof {
            assert(s.take(0) =~= Seq::<u8>::empty());
        }
        return Vec::new();
    }
    proof {
        assert(s.take(j as int).last() == s[j as int - 1]);
        assert(last_token(s.take(j as int)) == tail_token(s.take(j as int)));
    }
    let mut i: usize = j;
    proof {
        assert(s.subrange(j as int, j as int) =~= Seq::<u8>::empty());
        assert(tail_token(s.take(j as int)) + s.subrange(j as int, j as int) =~= tail_token(
            s.take(j as int),
        ));
    }
    while i > 0 && !is_ws_byte(term[i - 1])
        invariant
            i <= j,
            j <= s.len(),
            term@ == s,
            tail_token(s.take(j as int)) == tail_token(s.take(i as int)) + s.subrange(
                i as int,
                j as int,
            ),
        decreases i,
    {
        proof {
            assert(s.take(i as int).drop_last() =~= s.take(i as int - 1));
            assert(s.take(i as int).last() == s[i as int - 1]);
            assert(tail_token(s.take(i as int)) == tail_token(s.take(i as int - 1)).push(
                s[i as int - 1],
            ));
            assert(tail_token(s.take(i as int - 1)) + s.subrange(i as int - 1, j as int)
                =~= tail_token(s.take(i as int)) + s.subrange(i as int, j as int));
        }
        i = i - 1;
    }
    proof {
        if i == 0 {
            assert(s.take(0) =~= Seq::<u8>::empty());
            assert(tail_token(s.take(0)) == Seq::<u8>::empty());
        } else {
            assert(s.take(i as int).last() == s[i as int - 1]);
            assert(tail_token(s.take(i as int)) == Seq::<u8>::empty());
        }
        assert(tail_token(s.take(j as int)) =~= s.subrange(i as int, j as int));
    }
    let mut out: Vec<u8> = Vec::new();
    let mut k: usize = i;
    while k < j
        invariant
            i <= k <= j,
            j <= s.len(),
            term@ == s,
            out@ == s.subrange(i as int, k as int),
        decreases j - k,
    {
        out.push(term[k]);
        proof {
            assert(out@ =~= s.subrange(i as int, k as int + 1));
        }
        k = k + 1;
    }
    out
}

} // verus!
