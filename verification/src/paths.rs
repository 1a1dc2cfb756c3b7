//! Path-string helpers: inserting a marker between a file's base name and its
//! extension, and the newtype for a downloaded archive's location.

use vstd::prelude::*;
use crate::errors::Error;
use vstd::string::StringExecFns;
use crate::text::{append_range, append_str, chars_to_string, has_prefix, starts_with_at, str_to_chars};

verus! {

/// Where a downloaded source archive sits on disk.
#[derive(Debug, Clone)]
pub struct TarDownloadPath(pub String);

/// Index of the last `/` in `s`, if any.
pub open spec fn last_slash(s: Seq<char>) -> Option<int>
    decreases s.len(),
{
    if s.len() == 0 {
        None
    } else if s[s.len() - 1] == '/' {
        Some(s.len() - 1)
    } else {
        last_slash(s.drop_last())
    }
}

pub proof fn lemma_last_slash_props(s: Seq<char>)
    ensures
        match last_slash(s) {
            Some(i) => 0 <= i < s.len() && s[i] == '/' && forall|j: int|
                i < j < s.len() ==> s[j] != '/',
            None => forall|j: int| 0 <= j < s.len() ==> s[j] != '/',
        },
    decreases s.len(),
{
    if s.len() != 0 && s[s.len() - 1] != '/' {
        lemma_last_slash_props(s.drop_last());
        assert(forall|j: int| 0 <= j < s.len() - 1 ==> s.drop_last()[j] == s[j]);
    }
}

/// Where the file name starts: just after the last `/`, or the whole string.
pub open spec fn name_start(s: Seq<char>) -> int {
    match last_slash(s) {
        Some(i) => i + 1,
        None => 0,
    }
}

/// `suf` stands at the end of `s`.
pub open spec fn has_suffix(s: Seq<char>, suf: Seq<char>) -> bool {
    suf.len() <= s.len() && s.skip(s.len() - suf.len()) == suf
}

/// `s` with every trailing repetition of `suf` removed.
pub open spec fn trim_end_all(s: Seq<char>, suf: Seq<char>) -> Seq<char>
    decreases s.len(),
{
    if suf.len() > 0 && has_suffix(s, suf) {
        trim_end_all(s.take(s.len() - suf.len()), suf)
    } else {
        s
    }
}

/// Inserts `append` between a file's base name and its `ends_with` suffix:
/// `/tmp/file.txt` with `-lol` and `.txt` becomes `/tmp/file-lol.txt`.
/// Fails when the path has no file name or the file name does not end with
/// `ends_with`. The base name is the file name with every trailing
/// repetition of `ends_with` removed.
pub fn append_filename_with(path: &str, append: &str, ends_with: &str) -> (r: Result<String, Error>)
    ensures
        ({
            let cut = name_start(path@);
            let name = path@.skip(cut);
            &&& (r is Ok <==> (name.len() != 0 && has_suffix(name, ends_with@)))
            &&& (r matches Ok(out) ==> out@ == path@.take(cut) + trim_end_all(name, ends_with@)
                + append@ + ends_with@)
            &&& (r matches Err(e) ==> e matches Error::Other(_))
        }),
{
    let v = str_to_chars(path);
    let n = v.len();
    let cut = rfind_slash_end(&v);
    let ghost name = path@.skip(cut as int);
    if cut == n {
        let mut msg: Vec<char> = Vec::new();
        append_str(&mut msg, "Cannot determine file name from ");
        append_str(&mut msg, path);
        return Err(Error::Other(chars_to_string(&msg)));
    }
    let m = ends_with.unicode_len();
    if n - cut < m || (m > 0 && !starts_with_at(&v, n - m, ends_with)) {
        proof {
            if n - cut >= m {
                assert(v@.skip(n - m as int) =~= name.skip(name.len() - m as int));
                if has_suffix(name, ends_with@) {
                    assert(v@.skip(n - m as int).take(m as int) =~= v@.skip(n - m as int));
                }
            }
        }
        let mut msg: Vec<char> = Vec::new();
        append_str(&mut msg, "File name ");
        append_range(&mut msg, &v, cut, n);
        append_str(&mut msg, " does not end with ");
        append_str(&mut msg, ends_with);
        return Err(Error::Other(chars_to_string(&msg)));
    }
    proof {
        if m > 0 {
            assert(v@.skip(n - m as int) =~= name.skip(name.len() - m as int));
            assert(v@.skip(n - m as int).take(m as int) =~= v@.skip(n - m as int));
        } else {
            assert(name.skip(name.len() as int) =~= Seq::<char>::empty());
            assert(ends_with@ =~= Seq::<char>::empty());
        }
        assert(has_suffix(name, ends_with@));
    }
    // Trim trailing repetitions of the suffix off the file name.
    proof {
        assert(v@.subrange(cut as int, n as int) =~= path@.skip(cut as int));
    }
    let mut end: usize = n;
    while m > 0 && end - cut >= m && starts_with_at(&v, end - m, ends_with)
        invariant
            cut <= end <= n,
            n == v@.len(),
            m == ends_with@.len(),
            cut + 1 <= n,
            name == path@.skip(cut as int),
            v@ == path@,
            trim_end_all(name, ends_with@) == trim_end_all(
                v@.subrange(cut as int, end as int),
                ends_with@,
            ),
        decreases end,
    {
        proof {
            let region = v@.subrange(cut as int, end as int);
            assert(region.skip(region.len() - m as int) =~= v@.skip(end - m as int).take(m as int));
            assert(v@.skip(end - m as int).take(m as int) == ends_with@);
            assert(has_suffix(region, ends_with@));
            assert(region.take(region.len() - m as int) =~= v@.subrange(
                cut as int,
                end - m as int,
            ));
        }
        end = end - m;
    }
    proof {
        let region = v@.subrange(cut as int, end as int);
        if m > 0 && end - cut >= m {
            assert(!has_prefix(v@.skip(end - m as int), ends_with@));
            if has_suffix(region, ends_with@) {
                assert(region.skip(region.len() - m as int) =~= v@.skip(end - m as int).take(
                    m as int,
                ));
                assert(has_prefix(v@.skip(end - m as int), ends_with@));
            }
        }
        assert(trim_end_all(region, ends_with@) == region);
    }
    let mut out: Vec<char> = Vec::new();
    append_range(&mut out, &v, 0, cut);
    append_range(&mut out, &v, cut, end);
    append_str(&mut out, append);
    append_str(&mut out, ends_with);
    proof {
        assert(v@.subrange(0int, cut as int) =~= path@.take(cut as int));
    }
    Ok(chars_to_string(&out))
}

/// One past the last `/` in `v`, or zero when there is none.
fn rfind_slash_end(v: &Vec<char>) -> (cut: usize)
    ensures
        cut as int == name_start(v@),
        cut <= v@.len(),
{
    let n = v.len();
    let mut i: usize = n;
    while i > 0
        invariant
            i <= n,
            n == v@.len(),
            forall|j: int| i <= j < n ==> v@[j] != '/',
        decreases i,
    {
        i = i - 1;
        if v[i] == '/' {
            proof {
                lemma_last_slash_props(v@);
                match last_slash(v@) {
                    Some(k) => {
                        if k < i {
                            assert(v@[i as int] != '/');
                        } else if k > i {
                            assert(v@[k] != '/');
                        }
                    },
                    None => {
                        assert(v@[i as int] != '/');
                    },
                }
            }
            return i + 1;
        }
    }
    proof {
        lemma_last_slash_props(v@);
        if let Some(k) = last_slash(v@) {
            assert(v@[k] != '/');
        }
    }
    0
}

} // verus!
