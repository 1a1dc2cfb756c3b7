//! Character-level helpers shared by the manifest codec and the string
//! formatting routines: conversions between `str`/`String` and `Vec<char>`,
//! prefix tests, and searching.

use vstd::prelude::*;
use vstd::string::StrSliceExecFns;

verus! {

/// `pat` stands at the front of `s`.
pub open spec fn has_prefix(s: Seq<char>, pat: Seq<char>) -> bool {
    pat.len() <= s.len() && s.take(pat.len() as int) == pat
}

/// Index of the first occurrence of `c` in `s`, or `None`.
pub open spec fn find_char(s: Seq<char>, c: char) -> Option<int>
    decreases s.len(),
{
    if s.len() == 0 {
        None
    } else if s[0] == c {
        Some(0int)
    } else {
        match find_char(s.skip(1), c) {
            Some(i) => Some(i + 1),
            None => None,
        }
    }
}

pub proof fn lemma_find_char_props(s: Seq<char>, c: char)
    ensures
        match find_char(s, c) {
            Some(i) => 0 <= i < s.len() && s[i] == c && forall|j: int| 0 <= j < i ==> s[j] != c,
            None => forall|j: int| 0 <= j < s.len() ==> s[j] != c,
        },
    decreases s.len(),
{
    if s.len() != 0 && s[0] != c {
        lemma_find_char_props(s.skip(1), c);
        assert(forall|j: int| 0 <= j < s.skip(1).len() ==> s.skip(1)[j] == s[j + 1]);
        match find_char(s.skip(1), c) {
            Some(i) => {
                assert(s[i + 1] == s.skip(1)[i]);
                assert forall|j: int| 0 <= j < i + 1 implies s[j] != c by {
                    if j > 0 {
                        assert(s.skip(1)[j - 1] != c);
                    }
                }
            },
            None => {
                assert forall|j: int| 0 <= j < s.len() implies s[j] != c by {
                    if j > 0 {
                        assert(s.skip(1)[j - 1] != c);
                    }
                }
            },
        }
    }
}

/// The first occurrence fully determines what `find_char` yields.
pub proof fn lemma_find_char_at(s: Seq<char>, c: char, i: int)
    requires
        0 <= i < s.len(),
        s[i] == c,
        forall|j: int| 0 <= j < i ==> s[j] != c,
    ensures
        find_char(s, c) == Some(i),
{
    lemma_find_char_props(s, c);
    match find_char(s, c) {
        Some(k) => {
            if k < i {
                assert(s[k] != c);
            } else if k > i {
                assert(s[i] != c);
            }
        },
        None => {
            assert(s[i] != c);
        },
    }
}

/// Collects the characters of a string slice into a vector.
pub fn str_to_chars(s: &str) -> (v: Vec<char>)
    ensures
        v@ == s@,
{
    let n = s.unicode_len();
    let mut v: Vec<char> = Vec::new();
    let mut i: usize = 0;
    while i < n
        invariant
            i <= n,
            n == s@.len(),
            v@ == s@.take(i as int),
        decreases n - i,
    {
        v.push(s.get_char(i));
        i = i + 1;
        proof {
            assert(s@.take(i as int) =~= s@.take(i - 1).push(s@[i - 1]));
        }
    }
    proof {
        assert(s@.take(n as int) =~= s@);
    }
    v
}

/// Relies on `String`'s `FromIterator<char>` implementation: collecting
/// characters yields the string whose characters are exactly those collected.
#[verifier::external_body]
pub fn chars_to_string(v: &Vec<char>) -> (s: String)
    ensures
        s@ == v@,
{
    v.iter().collect()
}

/// Appends every character of `s` to `out`.
pub fn append_str(out: &mut Vec<char>, s: &str)
    ensures
        final(out)@ == old(out)@ + s@,
{
    let n = s.unicode_len();
    let mut i: usize = 0;
    while i < n
        invariant
            i <= n,
            n == s@.len(),
            out@ == old(out)@ + s@.take(i as int),
        decreases n - i,
    {
        out.push(s.get_char(i));
        i = i + 1;
        proof {
            assert(old(out)@ + s@.take(i as int) =~= (old(out)@ + s@.take(i - 1)).push(s@[i - 1]));
        }
    }
    proof {
        assert(old(out)@ + s@.take(n as int) =~= old(out)@ + s@);
    }
}

/// Appends every character of `v` to `out`.
pub fn append_chars(out: &mut Vec<char>, v: &Vec<char>)
    ensures
        final(out)@ == old(out)@ + v@,
{
    let n = v.len();
    let mut i: usize = 0;
    while i < n
        invariant
            i <= n,
            n == v@.len(),
            out@ == old(out)@ + v@.take(i as int),
        decreases n - i,
    {
        out.push(v[i]);
        i = i + 1;
        proof {
            assert(old(out)@ + v@.take(i as int) =~= (old(out)@ + v@.take(i - 1)).push(v@[i - 1]));
        }
    }
    proof {
        assert(old(out)@ + v@.take(n as int) =~= old(out)@ + v@);
    }
}

/// Whether the characters of `pat` stand in `v` at position `pos`.
pub fn starts_with_at(v: &Vec<char>, pos: usize, pat: &str) -> (b: bool)
    requires
        pos <= v@.len(),
    ensures
        b == has_prefix(v@.skip(pos as int), pat@),
{
    let m = pat.unicode_len();
    let n = v.len();
    if n - pos < m {
        return false;
    }
    let mut i: usize = 0;
    while i < m
        invariant
            i <= m,
            m == pat@.len(),
            n == v@.len(),
            pos + m <= n,
            forall|j: int| 0 <= j < i ==> v@[pos + j] == pat@[j],
        decreases m - i,
    {
        if v[pos + i] != pat.get_char(i) {
            proof {
                assert(v@.skip(pos as int)[i as int] != pat@[i as int]);
                assert(!has_prefix(v@.skip(pos as int), pat@)) by {
                    if v@.skip(pos as int).take(m as int) == pat@ {
                        assert(v@.skip(pos as int).take(m as int)[i as int] == pat@[i as int]);
                    }
                }
            }
            return false;
        }
        i = i + 1;
    }
    proof {
        assert(v@.skip(pos as int).take(m as int) =~= pat@);
    }
    true
}

/// A field value the manifest can quote on one line: it holds no quote
/// character, so writing it between quotes and scanning back to the next
/// quote recovers it exactly.
pub open spec fn plain_str(s: Seq<char>) -> bool {
    forall|j: int| 0 <= j < s.len() ==> s[j] != '"'
}

/// `pat` occurs somewhere in `s`.
pub open spec fn contains_sub(s: Seq<char>, pat: Seq<char>) -> bool {
    exists|i: int| 0 <= i <= s.len() - pat.len() && #[trigger] s.subrange(i, i + pat.len()) == pat
}

/// Whether `pat` occurs in the first `limit` characters of `v`.
pub fn contains_within(v: &Vec<char>, limit: usize, pat: &str) -> (b: bool)
    requires
        limit <= v@.len(),
    ensures
        b == contains_sub(v@.subrange(0int, limit as int), pat@),
{
    let ghost s = v@.subrange(0int, limit as int);
    let m = pat.unicode_len();
    if m == 0 {
        proof {
            assert(s.subrange(0int, 0int + pat@.len() as int) =~= pat@);
        }
        return true;
    }
    let mut i: usize = 0;
    while limit >= m && i <= limit - m
        invariant
            limit <= v@.len(),
            m == pat@.len(),
            m >= 1,
            s == v@.subrange(0int, limit as int),
            i <= limit,
            forall|k: int| 0 <= k < i ==> #[trigger] s.subrange(k, k + pat@.len() as int) != pat@,
        decreases limit - i,
    {
        if starts_with_at(v, i, pat) {
            proof {
                assert(v@.skip(i as int).take(m as int) =~= v@.subrange(i as int, i + m));
                assert(s.subrange(i as int, i as int + pat@.len() as int) =~= v@.subrange(
                    i as int,
                    i + m,
                ));
            }
            return true;
        }
        proof {
            assert(v@.skip(i as int).take(m as int) =~= v@.subrange(i as int, i + m));
            if s.subrange(i as int, i as int + pat@.len() as int) == pat@ {
                assert(s.subrange(i as int, i as int + pat@.len() as int) =~= v@.subrange(
                    i as int,
                    i + m,
                ));
                assert(has_prefix(v@.skip(i as int), pat@));
            }
        }
        i = i + 1;
    }
    proof {
        assert(s.len() == limit);
        if contains_sub(s, pat@) {
            let k = choose|k: int|
                0 <= k <= s.len() - pat@.len() && #[trigger] s.subrange(k, k + pat@.len()) == pat@;
            assert(s.subrange(k, k + pat@.len() as int) == pat@);
            assert(0 <= k < i);
            assert(s.subrange(k, k + pat@.len() as int) != pat@);
        }
    }
    false
}

/// Index of the first occurrence of `c` in `v`, if any.
pub fn find_char_vec(v: &Vec<char>, c: char) -> (r: Option<usize>)
    ensures
        match r {
            Some(i) => find_char(v@, c) == Some(i as int),
            None => find_char(v@, c) is None,
        },
{
    let n = v.len();
    let mut i: usize = 0;
    while i < n
        invariant
            i <= n,
            n == v@.len(),
            forall|j: int| 0 <= j < i ==> v@[j] != c,
        decreases n - i,
    {
        if v[i] == c {
            proof {
                lemma_find_char_props(v@, c);
                match find_char(v@, c) {
                    Some(k) => {
                        if k < i {
                            assert(v@[k] != c);
                        } else if k > i {
                            assert(v@[i as int] != c);
                        }
                    },
                    None => {
                        assert(v@[i as int] != c);
                    },
                }
            }
            return Some(i);
        }
        i = i + 1;
    }
    proof {
        lemma_find_char_props(v@, c);
        if let Some(k) = find_char(v@, c) {
            assert(v@[k] != c);
        }
    }
    None
}

/// Appends `v[from..to]` to `out`.
pub fn append_range(out: &mut Vec<char>, v: &Vec<char>, from: usize, to: usize)
    requires
        from <= to <= v@.len(),
    ensures
        final(out)@ == old(out)@ + v@.subrange(from as int, to as int),
{
    let mut i: usize = from;
    while i < to
        invariant
            from <= i <= to <= v@.len(),
            out@ == old(out)@ + v@.subrange(from as int, i as int),
        decreases to - i,
    {
        out.push(v[i]);
        i = i + 1;
        proof {
            assert(old(out)@ + v@.subrange(from as int, i as int) =~= (old(out)@ + v@.subrange(
                from as int,
                i - 1,
            )).push(v@[i - 1]));
        }
    }
}

/// Character-for-character equality of two string slices.
pub fn str_eq(a: &str, b: &str) -> (r: bool)
    ensures
        r == (a@ == b@),
{
    let n = a.unicode_len();
    let m = b.unicode_len();
    if n != m {
        return false;
    }
    let mut i: usize = 0;
    while i < n
        invariant
            i <= n,
            n == a@.len() == b@.len(),
            forall|j: int| 0 <= j < i ==> a@[j] == b@[j],
        decreases n - i,
    {
        if a.get_char(i) != b.get_char(i) {
            return false;
        }
        i = i + 1;
    }
    proof {
        assert(a@ =~= b@);
    }
    true
}

/// Whether the characters in `f` are exactly those of `lit`.
pub fn chars_eq_str(f: &Vec<char>, lit: &str) -> (b: bool)
    ensures
        b == (f@ == lit@),
{
    let n = f.len();
    let m = lit.unicode_len();
    if n != m {
        proof {
            if f@ == lit@ {
                assert(f@.len() == lit@.len());
            }
        }
        return false;
    }
    let r = starts_with_at(f, 0, lit);
    proof {
        assert(f@.skip(0int) =~= f@);
        if r {
            assert(f@.take(m as int) =~= f@);
        } else {
            if f@ == lit@ {
                assert(f@.take(m as int) =~= lit@);
            }
        }
    }
    r
}

/// Two strings have the same characters exactly when `==` says so; this is
/// `String` equality restated for contracts.
pub fn string_eq(a: &String, b: &String) -> (r: bool)
    ensures
        r == (a@ == b@),
{
    *a == *b
}

/// Equality of two byte vectors, element by element.
pub fn bytes_eq(a: &Vec<u8>, b: &Vec<u8>) -> (r: bool)
    ensures
        r == (a@ == b@),
{
    if a.len() != b.len() {
        return false;
    }
    let n = a.len();
    let mut i: usize = 0;
    while i < n
        invariant
            i <= n,
            n == a@.len() == b@.len(),
            forall|j: int| 0 <= j < i ==> a@[j] == b@[j],
        decreases n - i,
    {
        if a[i] != b[i] {
            return false;
        }
        i = i + 1;
    }
    proof {
        assert(a@ =~= b@);
    }
    true
}

/// Copies a byte vector.
pub fn bytes_clone(a: &Vec<u8>) -> (r: Vec<u8>)
    ensures
        r@ == a@,
{
    let n = a.len();
    let mut r: Vec<u8> = Vec::new();
    let mut i: usize = 0;
    while i < n
        invariant
            i <= n,
            n == a@.len(),
            r@ == a@.take(i as int),
        decreases n - i,
    {
        r.push(a[i]);
        i = i + 1;
        proof {
            assert(a@.take(i as int) =~= a@.take(i - 1).push(a@[i - 1]));
        }
    }
    proof {
        assert(a@.take(n as int) =~= a@);
    }
    r
}

} // verus!
