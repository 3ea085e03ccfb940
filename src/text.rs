use vstd::prelude::*;

verus! {

/// Whether `pattern` occurs in `text` at position `i`.
pub open spec fn occurs_at(text: Seq<char>, pattern: Seq<char>, i: int) -> bool {
    0 <= i && i + pattern.len() <= text.len() && text.subrange(i, i + pattern.len()) == pattern
}

/// Whether `pattern` occurs anywhere in `text`.
pub open spec fn has_substring(text: Seq<char>, pattern: Seq<char>) -> bool {
    exists|i: int| occurs_at(text, pattern, i)
}

fn matches_at(text: &str, pattern: &str, i: usize, n: usize, m: usize) -> (r: bool)
    requires
        n == text@.len(),
        m == pattern@.len(),
        i + m <= n,
    ensures
        r == occurs_at(text@, pattern@, i as int),
{
    let mut j: usize = 0;
    while j < m
        invariant
            n == text@.len(),
            m == pattern@.len(),
            i + m <= n,
            j <= m,
            forall|k: int| 0 <= k < j ==> text@[i + k] == pattern@[k],
        decreases m - j,
    {
        if text.get_char(i + j) != pattern.get_char(j) {
            assert(text@.subrange(i as int, i + m)[j as int] != pattern@[j as int]);
            return false;
        }
        j = j + 1;
    }
    assert(text@.subrange(i as int, i + m) =~= pattern@);
    true
}

/// Whether `pattern` occurs in `text`.
pub fn contains(text: &str, pattern: &str) -> (r: bool)
    ensures
        r == has_substring(text@, pattern@),
{
    let n = text.unicode_len();
    let m = pattern.unicode_len();
    if m > n {
        return false;
    }
    if m == 0 {
        assert(text@.subrange(0, 0) =~= pattern@);
        assert(occurs_at(text@, pattern@, 0));
        return true;
    }
    let mut i: usize = 0;
    while i <= n - m
        invariant
            n == text@.len(),
            m == pattern@.len(),
            0 < m <= n,
            i <= n - m + 1,
            forall|k: int| 0 <= k < i ==> !occurs_at(text@, pattern@, k),
        decreases n - m + 1 - i,
    {
        if matches_at(text, pattern, i, n, m) {
            return true;
        }
        i = i + 1;
    }
    assert forall|k: int| !occurs_at(text@, pattern@, k) by {
        if occurs_at(text@, pattern@, k) {
            assert(k < i);
        }
    }
    false
}

/// The message of a rejected email address.
pub open spec fn missing_at_message() -> Seq<char> {
    "emails must have an @"@
}

/// Accepts an email address exactly when it contains `@`.
pub fn validate_email(email: String) -> (r: Result<(), String>)
    ensures
        r is Ok <==> has_substring(email@, seq!['@']),
        r matches Err(msg) ==> msg@ == missing_at_message(),
{
    proof {
        reveal_strlit("@");
        reveal_strlit("emails must have an @");
        assert("@"@ =~= seq!['@']);
    }
    if contains(email.as_str(), "@") {
        Ok(())
    } else {
        Err(String::from_str("emails must have an @"))
    }
}

/// The number of characters from `i` up to the next newline or the end.
pub open spec fn line_len(s: Seq<char>, i: int) -> nat
    decreases s.len() - i,
{
    if i < 0 || i >= s.len() || s[i] == '\n' {
        0
    } else {
        1 + line_len(s, i + 1)
    }
}

/// Whether `line` begins with `ERROR`.
pub open spec fn is_error_line(line: Seq<char>) -> bool {
    occurs_at(line, "ERROR"@, 0)
}

/// The lines of `s` that begin with `ERROR`, among those from position `i`
/// on, in order. Lines are separated by `\n`; a text ending in `\n` ends
/// with an empty line.
pub open spec fn error_lines_from(s: Seq<char>, i: int) -> Seq<Seq<char>>
    decreases s.len() - i,
{
    if i < 0 || i > s.len() {
        Seq::empty()
    } else {
        let e = i + line_len(s, i);
        let line = s.subrange(i, e);
        let rest = if e < s.len() {
            error_lines_from(s, e + 1)
        } else {
            Seq::empty()
        };
        if is_error_line(line) {
            seq![line] + rest
        } else {
            rest
        }
    }
}

/// The lines of `text` that begin with `ERROR`, in order.
pub open spec fn error_lines(text: Seq<char>) -> Seq<Seq<char>> {
    error_lines_from(text, 0)
}

proof fn lemma_line_len_bound(s: Seq<char>, i: int)
    requires
        0 <= i <= s.len(),
    ensures
        i + line_len(s, i) <= s.len(),
    decreases s.len() - i,
{
    if i < s.len() && s[i] != '\n' {
        lemma_line_len_bound(s, i + 1);
    }
}

/// The lines of `text` that begin with `ERROR`, in order.
pub fn extract_errors(text: &str) -> (r: Vec<String>)
    ensures
        r@.map_values(|l: String| l@) == error_lines(text@),
{
    let n = text.unicode_len();
    let mut out: Vec<String> = Vec::new();
    let mut i: usize = 0;
    let mut done = false;
    assert(out@.map_values(|l: String| l@) + error_lines_from(text@, 0) =~= error_lines(text@));
    while !done
        invariant
            n == text@.len(),
            i <= n,
            !done ==> out@.map_values(|l: String| l@) + error_lines_from(text@, i as int)
                == error_lines(text@),
            done ==> out@.map_values(|l: String| l@) == error_lines(text@),
        decreases (if done { 0 } else { n + 1 - i }),
    {
        let ghost before = out@.map_values(|l: String| l@);
        let mut j: usize = i;
        while j < n && text.get_char(j) != '\n'
            invariant
                n == text@.len(),
                i <= j <= n,
                i + line_len(text@, i as int) == j + line_len(text@, j as int),
            decreases n - j,
        {
            j = j + 1;
        }
        proof {
            lemma_line_len_bound(text@, i as int);
        }
        let line = text.substring_char(i, j);
        let m = line.unicode_len();
        proof {
            reveal_strlit("ERROR");
        }
        let keep = m >= 5 && matches_at(line, "ERROR", 0, m, 5);
        assert(keep == is_error_line(line@));
        if keep {
            out.push(String::from_str(line));
        }
        proof {
            let f = |l: String| l@;
            if keep {
                assert(out@.map_values(f) =~= before.push(line@));
            } else {
                assert(out@.map_values(f) =~= before);
            }
        }
        if j < n {
            assert(out@.map_values(|l: String| l@) + error_lines_from(text@, j + 1)
                =~= before + error_lines_from(text@, i as int));
            i = j + 1;
        } else {
            assert(out@.map_values(|l: String| l@) =~= before + error_lines_from(text@, i as int));
            done = true;
        }
    }
    out
}

/// Takes text in its three common forms and does nothing with them.
pub fn string_test(a: String, b: &String, c: &str) {
}

} // verus!
