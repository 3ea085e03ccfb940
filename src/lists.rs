use vstd::prelude::*;
use crate::text::{contains, has_substring};

verus! {

/// What `str::to_uppercase` makes of a text.
pub uninterp spec fn upper_of(s: Seq<char>) -> Seq<char>;

/// Relies on `str::to_uppercase`: its result depends on the characters alone,
/// and an empty text stays empty.
#[verifier::external_body]
fn uppercase(s: &str) -> (r: String)
    ensures
        r@ == upper_of(s@),
        s@.len() == 0 ==> r@.len() == 0,
{
    s.to_uppercase()
}

/// At most the first character of `s`.
pub open spec fn first_char(s: Seq<char>) -> Seq<char> {
    if s.len() == 0 {
        s
    } else {
        s.subrange(0, 1)
    }
}

/// Cuts every text down to its first character.
pub fn shorten_strings(elements: &mut [String])
    ensures
        final(elements)@.len() == old(elements)@.len(),
        forall|i: int|
            0 <= i < old(elements)@.len() ==> #[trigger] final(elements)@[i]@ == first_char(
                old(elements)@[i]@,
            ),
{
    let n = elements.len();
    let mut i: usize = 0;
    while i < n
        invariant
            n == elements@.len(),
            n == old(elements)@.len(),
            i <= n,
            forall|k: int| 0 <= k < i ==> #[trigger] elements@[k]@ == first_char(old(elements)@[k]@),
            forall|k: int| i <= k < n ==> #[trigger] elements@[k] == old(elements)@[k],
        decreases n - i,
    {
        let len = elements[i].as_str().unicode_len();
        let keep: usize = if len == 0 { 0 } else { 1 };
        let short = String::from_str(elements[i].as_str().substring_char(0, keep));
        elements[i] = short;
        i = i + 1;
    }
}

/// Each text in upper case.
pub fn to_uppercase(elements: &[String]) -> (r: Vec<String>)
    ensures
        r@.len() == elements@.len(),
        forall|i: int| 0 <= i < r@.len() ==> #[trigger] r@[i]@ == upper_of(elements@[i]@),
{
    let mut out: Vec<String> = Vec::new();
    let mut i: usize = 0;
    while i < elements.len()
        invariant
            i <= elements@.len(),
            out@.len() == i,
            forall|k: int| 0 <= k < i ==> #[trigger] out@[k]@ == upper_of(elements@[k]@),
        decreases elements@.len() - i,
    {
        out.push(uppercase(elements[i].as_str()));
        i = i + 1;
    }
    out
}

/// Moves every element of `vec_a` to the end of `vec_b`, in order.
pub fn move_elements(vec_a: Vec<String>, vec_b: &mut Vec<String>)
    ensures
        final(vec_b)@ == old(vec_b)@ + vec_a@,
{
    let mut a = vec_a;
    vec_b.append(&mut a);
}

/// Each text split into one-character texts.
pub fn explode(elements: &[String]) -> (r: Vec<Vec<String>>)
    ensures
        r@.len() == elements@.len(),
        forall|i: int|
            0 <= i < r@.len() ==> (#[trigger] r@[i])@.len() == elements@[i]@.len(),
        forall|i: int, j: int|
            0 <= i < r@.len() && 0 <= j < r@[i]@.len() ==> (#[trigger] r@[i]@[j])@ == seq![
                elements@[i]@[j],
            ],
{
    let mut out: Vec<Vec<String>> = Vec::new();
    let mut i: usize = 0;
    while i < elements.len()
        invariant
            i <= elements@.len(),
            out@.len() == i,
            forall|k: int| 0 <= k < i ==> (#[trigger] out@[k])@.len() == elements@[k]@.len(),
            forall|k: int, j: int|
                0 <= k < i && 0 <= j < out@[k]@.len() ==> (#[trigger] out@[k]@[j])@ == seq![
                    elements@[k]@[j],
                ],
        decreases elements@.len() - i,
    {
        let s = elements[i].as_str();
        let n = s.unicode_len();
        let mut chars: Vec<String> = Vec::new();
        let mut j: usize = 0;
        while j < n
            invariant
                n == s@.len(),
                s@ == elements@[i as int]@,
                j <= n,
                chars@.len() == j,
                forall|t: int| 0 <= t < j ==> (#[trigger] chars@[t])@ == seq![s@[t]],
            decreases n - j,
        {
            let c = s.substring_char(j, j + 1);
            assert(c@ =~= seq![s@[j as int]]);
            chars.push(String::from_str(c));
            j = j + 1;
        }
        out.push(chars);
        i = i + 1;
    }
    out
}

/// The first element that contains `search`, or `fallback` when none does.
pub fn find_color_or(elements: &[String], search: &str, fallback: &str) -> (r: String)
    ensures
        (exists|i: int| 0 <= i < elements@.len() && has_substring(elements@[i]@, search@))
            ==> exists|i: int|
            0 <= i < elements@.len() && has_substring(elements@[i]@, search@) && r@
                == elements@[i]@ && forall|k: int|
                0 <= k < i ==> !has_substring(#[trigger] elements@[k]@, search@),
        !(exists|i: int| 0 <= i < elements@.len() && has_substring(elements@[i]@, search@))
            ==> r@ == fallback@,
{
    let mut i: usize = 0;
    while i < elements.len()
        invariant
            i <= elements@.len(),
            forall|k: int| 0 <= k < i ==> !has_substring(#[trigger] elements@[k]@, search@),
        decreases elements@.len() - i,
    {
        if contains(elements[i].as_str(), search) {
            return elements[i].clone();
        }
        i = i + 1;
    }
    String::from_str(fallback)
}

/// Whether two texts are equal.
fn same_text(a: &str, b: &str) -> (r: bool)
    ensures
        r == (a@ == b@),
{
    let n = a.unicode_len();
    if n != b.unicode_len() {
        return false;
    }
    let mut j: usize = 0;
    while j < n
        invariant
            n == a@.len(),
            n == b@.len(),
            j <= n,
            forall|k: int| 0 <= k < j ==> a@[k] == b@[k],
        decreases n - j,
    {
        if a.get_char(j) != b.get_char(j) {
            return false;
        }
        j = j + 1;
    }
    assert(a@ =~= b@);
    true
}

/// The index that `next_language` answers with: the one after the first
/// element equal to `current`, or the last index when no element equals it
/// or the first equal one is last.
pub open spec fn next_index(languages: Seq<String>, current: Seq<char>) -> int {
    if exists|i: int| 0 <= i < languages.len() - 1 && languages[i]@ == current {
        let i = choose|i: int|
            0 <= i < languages.len() - 1 && languages[i]@ == current && forall|k: int|
                0 <= k < i ==> languages[k]@ != current;
        i + 1
    } else {
        languages.len() - 1
    }
}

/// The element after the first one equal to `current`; the last element when
/// there is none after it or none equals `current`.
pub fn next_language<'a>(languages: &'a [String], current: &str) -> (r: &'a str)
    requires
        languages@.len() > 0,
    ensures
        r@ == languages@[next_index(languages@, current@)]@,
{
    let n = languages.len();
    let mut i: usize = 0;
    while i + 1 < n
        invariant
            n == languages@.len(),
            n > 0,
            i < n,
            forall|k: int| 0 <= k < i ==> #[trigger] languages@[k]@ != current@,
        decreases n - i,
    {
        if same_text(languages[i].as_str(), current) {
            proof {
                let seq = languages@;
                let cur = current@;
                let j = choose|j: int|
                    0 <= j < seq.len() - 1 && seq[j]@ == cur && forall|k: int|
                        0 <= k < j ==> seq[k]@ != cur;
                assert(j == i) by {
                    if j < i {
                        assert(seq[j]@ != cur);
                    } else if j > i {
                    }
                }
            }
            return languages[i + 1].as_str();
        }
        i = i + 1;
    }
    languages[n - 1].as_str()
}

/// The last element.
pub fn last_language(languages: &[String]) -> (r: &str)
    requires
        languages@.len() > 0,
    ensures
        r@ == languages@.last()@,
{
    languages[languages.len() - 1].as_str()
}

/// The longer of two texts by their length in bytes; `lang_a` on a tie.
pub fn longest_language<'a>(lang_a: &'a str, lang_b: &'a str) -> (r: &'a str)
    ensures
        lang_a.len() >= lang_b.len() ==> r == lang_a,
        lang_a.len() < lang_b.len() ==> r == lang_b,
{
    if lang_a.len() >= lang_b.len() {
        lang_a
    } else {
        lang_b
    }
}

} // verus!
