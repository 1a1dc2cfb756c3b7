//! Shebang rewriting: binstubs whose first line points at an absolute
//! interpreter path are rewritten to the portable `#!/usr/bin/env ruby`.

use vstd::prelude::*;
use crate::text::{
    append_range, append_str, chars_to_string, contains_sub, contains_within, find_char,
    find_char_vec, has_prefix, lemma_find_char_props, str_to_chars,
};

verus! {

/// Characters before the first newline (the whole string when there is
/// none).
pub open spec fn first_line_len(s: Seq<char>) -> int {
    match find_char(s, '\n') {
        Some(i) => i,
        None => s.len() as int,
    }
}

/// The first line as `str::lines` yields it: up to the first newline, with a
/// trailing carriage return stripped.
pub open spec fn first_line(s: Seq<char>) -> Seq<char> {
    let l = s.take(first_line_len(s));
    if l.len() > 0 && l[l.len() - 1] == '\r' {
        l.drop_last()
    } else {
        l
    }
}

/// A shebang line naming a `ruby` interpreter.
pub open spec fn is_ruby_shebang(line: Seq<char>) -> bool {
    has_prefix(line, "#!"@) && contains_sub(line, "/ruby"@)
}

/// The rewritten contents, when the first line is a ruby shebang: the
/// portable shebang followed by everything after the first line.
pub open spec fn spec_update_shebang(s: Seq<char>) -> Option<Seq<char>> {
    if s.len() == 0 {
        None
    } else if is_ruby_shebang(first_line(s)) {
        Some("#!/usr/bin/env ruby"@ + s.skip(first_line(s).len() as int))
    } else {
        None
    }
}

/// Replaces a leading ruby shebang line with `#!/usr/bin/env ruby`; yields
/// nothing when the contents are empty or do not start with one.
pub fn update_shebang(contents: String) -> (r: Option<String>)
    ensures
        match r {
            Some(out) => spec_update_shebang(contents@) == Some(out@),
            None => spec_update_shebang(contents@) is None,
        },
{
    let v = str_to_chars(contents.as_str());
    let n = v.len();
    if n == 0 {
        return None;
    }
    proof {
        lemma_find_char_props(v@, '\n');
    }
    let line_end: usize = match find_char_vec(&v, '\n') {
        Some(i) => i,
        None => n,
    };
    let line_len: usize = if line_end > 0 && v[line_end - 1] == '\r' {
        line_end - 1
    } else {
        line_end
    };
    let ghost line = first_line(contents@);
    proof {
        assert(line =~= v@.subrange(0int, line_len as int));
    }
    // The line must start with `#!`.
    proof {
        reveal_strlit("#!");
    }
    if line_len < 2 || !(v[0] == '#' && v[1] == '!') {
        proof {
            if has_prefix(line, "#!"@) {
                assert(line.take(2)[0] == '#' && line.take(2)[1] == '!');
                assert(line[0] == '#' && line[1] == '!');
            }
        }
        return None;
    }
    proof {
        assert(line.take(2) =~= "#!"@);
    }
    // The line must mention `/ruby`.
    if !contains_within(&v, line_len, "/ruby") {
        return None;
    }
    let mut out: Vec<char> = Vec::new();
    append_str(&mut out, "#!/usr/bin/env ruby");
    append_range(&mut out, &v, line_len, n);
    proof {
        assert(v@.subrange(line_len as int, n as int) =~= contents@.skip(line.len() as int));
    }
    Some(chars_to_string(&out))
}

} // verus!
