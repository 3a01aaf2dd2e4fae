//! Character-level utilities: turning strings into character vectors and
//! back, equality, whitespace splitting, and joining.

use vstd::prelude::*;
use vstd::string::StrSliceExecFns;

verus! {

/// The whitespace characters a command line is split on.
pub open spec fn is_space(c: char) -> bool {
    c == ' ' || c == '\t' || c == '\r' || c == '\n'
}

/// The first index at or after `i` whose character is not whitespace,
/// or the length of `s` if only whitespace follows.
pub open spec fn skip_spaces(s: Seq<char>, i: int) -> int
    decreases s.len() - i,
{
    if i >= s.len() {
        s.len() as int
    } else if i >= 0 && is_space(s[i]) {
        skip_spaces(s, i + 1)
    } else {
        i
    }
}

/// The first index at or after `i` whose character is whitespace,
/// or the length of `s` if no whitespace follows.
pub open spec fn token_end(s: Seq<char>, i: int) -> int
    decreases s.len() - i,
{
    if i >= s.len() {
        s.len() as int
    } else if i >= 0 && !is_space(s[i]) {
        token_end(s, i + 1)
    } else {
        i
    }
}

pub proof fn lemma_skip_spaces(s: Seq<char>, i: int)
    requires
        0 <= i <= s.len(),
    ensures
        i <= skip_spaces(s, i) <= s.len(),
        forall|j: int| i <= j < skip_spaces(s, i) ==> is_space(s[j]),
        skip_spaces(s, i) < s.len() ==> !is_space(s[skip_spaces(s, i)]),
    decreases s.len() - i,
{
    if i < s.len() && is_space(s[i]) {
        lemma_skip_spaces(s, i + 1);
    }
}

pub proof fn lemma_token_end(s: Seq<char>, i: int)
    requires
        0 <= i <= s.len(),
    ensures
        i <= token_end(s, i) <= s.len(),
        forall|j: int| i <= j < token_end(s, i) ==> !is_space(s[j]),
        token_end(s, i) < s.len() ==> is_space(s[token_end(s, i)]),
    decreases s.len() - i,
{
    if i < s.len() && !is_space(s[i]) {
        lemma_token_end(s, i + 1);
    }
}

/// The whitespace-separated tokens of `s` from index `i` on.
pub open spec fn split_ws_at(s: Seq<char>, i: int) -> Seq<Seq<char>>
    decreases s.len() - i,
{
    if !(0 <= i <= s.len()) {
        Seq::empty()
    } else {
        let j = skip_spaces(s, i);
        if j >= s.len() {
            Seq::empty()
        } else {
            let k = token_end(s, j);
            let bounded = if k > s.len() { s.len() as int } else { k };
            let next = if bounded > i { bounded } else { i + 1 };
            seq![s.subrange(j, bounded)] + split_ws_at(s, next)
        }
    }
}

/// The whitespace-separated tokens of `s`.
pub open spec fn split_ws(s: Seq<char>) -> Seq<Seq<char>> {
    split_ws_at(s, 0)
}

/// Unfolds one step of `split_ws_at` with the clamps resolved.
pub proof fn lemma_split_ws_at_step(s: Seq<char>, i: int)
    requires
        0 <= i <= s.len(),
        skip_spaces(s, i) < s.len(),
    ensures
        split_ws_at(s, i) == seq![
            s.subrange(skip_spaces(s, i), token_end(s, skip_spaces(s, i))),
        ] + split_ws_at(s, token_end(s, skip_spaces(s, i))),
{
    let j = skip_spaces(s, i);
    lemma_skip_spaces(s, i);
    let k = token_end(s, j);
    lemma_token_end(s, j);
    assert(k > j);
}

/// Splitting is unchanged by stepping over a leading whitespace character.
pub proof fn lemma_split_ws_skip_space(s: Seq<char>, i: int)
    requires
        0 <= i < s.len(),
        is_space(s[i]),
    ensures
        split_ws_at(s, i) == split_ws_at(s, i + 1),
{
    assert(skip_spaces(s, i) == skip_spaces(s, i + 1));
    let j = skip_spaces(s, i + 1);
    lemma_skip_spaces(s, i + 1);
    if j < s.len() {
        lemma_token_end(s, j);
    }
}

/// Joined with single spaces: empty for no tokens, and one space between
/// neighbouring tokens otherwise.
pub open spec fn join_spaces(parts: Seq<Seq<char>>) -> Seq<char>
    decreases parts.len(),
{
    if parts.len() == 0 {
        Seq::empty()
    } else if parts.len() == 1 {
        parts[0]
    } else {
        join_spaces(parts.take(parts.len() - 1)) + " "@ + parts.last()
    }
}

/// The characters of `s`, in order.
pub fn chars_of(s: &str) -> (chars: Vec<char>)
    ensures
        chars@ == s@,
{
    let n = s.unicode_len();
    let mut chars: Vec<char> = Vec::new();
    let mut i: usize = 0;
    while i < n
        invariant
            i <= n,
            n == s@.len(),
            chars@ == s@.subrange(0, i as int),
        decreases n - i,
    {
        chars.push(s.get_char(i));
        i = i + 1;
        proof {
            assert(chars@ =~= s@.subrange(0, i as int));
        }
    }
    proof {
        assert(chars@ =~= s@);
    }
    chars
}

/// Relies on String::push: it appends exactly the given character
/// to the end of the string.
#[verifier::external_body]
pub(crate) fn string_from_chars(chars: &Vec<char>) -> (s: String)
    ensures
        s@ == chars@,
{
    let mut s = String::new();
    for c in chars.iter() {
        s.push(*c);
    }
    s
}

/// The characters of `v` from `from` (inclusive) to `to` (exclusive).
pub fn chars_range(v: &Vec<char>, from: usize, to: usize) -> (out: Vec<char>)
    requires
        from <= to <= v@.len(),
    ensures
        out@ == v@.subrange(from as int, to as int),
{
    let mut out: Vec<char> = Vec::new();
    let mut i: usize = from;
    while i < to
        invariant
            from <= i <= to <= v@.len(),
            out@ == v@.subrange(from as int, i as int),
        decreases to - i,
    {
        out.push(v[i]);
        i = i + 1;
        proof {
            assert(out@ =~= v@.subrange(from as int, i as int));
        }
    }
    out
}

/// Whether two string slices hold the same characters.
pub fn str_eq(a: &str, b: &str) -> (eq: bool)
    ensures
        eq == (a@ == b@),
{
    let n = a.unicode_len();
    let m = b.unicode_len();
    if n != m {
        proof {
            assert(a@ != b@);
        }
        return false;
    }
    let mut i: usize = 0;
    while i < n
        invariant
            i <= n,
            n == a@.len(),
            n == b@.len(),
            forall|j: int| 0 <= j < i ==> a@[j] == b@[j],
        decreases n - i,
    {
        if a.get_char(i) != b.get_char(i) {
            proof {
                assert(a@[i as int] != b@[i as int]);
            }
            return false;
        }
        i = i + 1;
    }
    proof {
        assert(a@ =~= b@);
    }
    true
}

/// Whether the string holds nothing but whitespace.
pub fn is_blank(s: &str) -> (blank: bool)
    ensures
        blank == (skip_spaces(s@, 0) == s@.len()),
{
    let n = s.unicode_len();
    let mut i: usize = 0;
    while i < n
        invariant
            i <= n,
            n == s@.len(),
            skip_spaces(s@, 0) == skip_spaces(s@, i as int),
        decreases n - i,
    {
        if !is_space_char(s.get_char(i)) {
            proof {
                assert(skip_spaces(s@, i as int) == i);
            }
            return false;
        }
        i = i + 1;
    }
    true
}

/// Whether the character counts as whitespace.
pub fn is_space_char(c: char) -> (space: bool)
    ensures
        space == is_space(c),
{
    c == ' ' || c == '\t' || c == '\r' || c == '\n'
}

/// The first non-whitespace index at or after `i`.
pub fn ws_from(chars: &Vec<char>, i: usize) -> (end: usize)
    requires
        i <= chars@.len(),
    ensures
        i <= end <= chars@.len(),
        end as int == skip_spaces(chars@, i as int),
{
    let n = chars.len();
    let mut j = i;
    while j < n
        invariant
            i <= j <= n,
            n == chars@.len(),
            skip_spaces(chars@, i as int) == skip_spaces(chars@, j as int),
        decreases n - j,
    {
        if !is_space_char(chars[j]) {
            proof {
                assert(skip_spaces(chars@, j as int) == j);
            }
            return j;
        }
        j = j + 1;
    }
    j
}

/// The whitespace-separated tokens of `s`, in order.
pub fn tokens_of(s: &str) -> (parts: Vec<String>)
    ensures
        parts.deep_view() == split_ws(s@),
{
    let chars = chars_of(s);
    let n = chars.len();
    let mut parts: Vec<String> = Vec::new();
    let mut i: usize = 0;
    while i < n
        invariant
            i <= n,
            n == chars@.len(),
            chars@ == s@,
            parts.deep_view() + split_ws_at(s@, i as int) == split_ws(s@),
        decreases n - i,
    {
        if is_space_char(chars[i]) {
            proof {
                lemma_split_ws_skip_space(s@, i as int);
            }
            i = i + 1;
        } else {
            proof {
                assert(skip_spaces(s@, i as int) == i);
                lemma_token_end(s@, i as int);
                lemma_split_ws_at_step(s@, i as int);
            }
            let mut k: usize = i + 1;
            while k < n
                invariant
                    i < k <= n,
                    n == chars@.len(),
                    chars@ == s@,
                    token_end(s@, i as int) == token_end(s@, k as int),
                ensures
                    i < k <= n,
                    token_end(s@, i as int) == k,
                decreases n - k,
            {
                if is_space_char(chars[k]) {
                    proof {
                        assert(token_end(s@, k as int) == k);
                    }
                    break;
                }
                k = k + 1;
            }
            let token_chars = chars_range(&chars, i, k);
            let token = string_from_chars(&token_chars);
            let ghost prior = parts.deep_view();
            parts.push(token);
            proof {
                assert(skip_spaces(s@, i as int) == i);
                lemma_split_ws_at_step(s@, i as int);
                assert(parts.deep_view() =~= prior.push(token@));
                assert(prior.push(token@) + split_ws_at(s@, k as int) =~= prior + (seq![
                    s@.subrange(i as int, k as int),
                ] + split_ws_at(s@, k as int)));
            }
            i = k;
        }
    }
    proof {
        assert(split_ws_at(s@, n as int).len() == 0);
        assert(parts.deep_view() =~= split_ws(s@));
    }
    parts
}

/// The tokens of `parts` from `from` on, joined with single spaces.
pub fn join_from(parts: &Vec<String>, from: usize) -> (joined: String)
    requires
        from <= parts@.len(),
    ensures
        joined@ == join_spaces(parts.deep_view().skip(from as int)),
{
    let n = parts.len();
    let mut joined = String::new();
    let mut i: usize = from;
    while i < n
        invariant
            from <= i <= n,
            n == parts@.len(),
            joined@ == join_spaces(parts.deep_view().subrange(from as int, i as int)),
        decreases n - i,
    {
        if i > from {
            joined.append(" ");
        }
        joined.append(parts[i].as_str());
        i = i + 1;
        proof {
            let view = parts.deep_view();
            assert(view.subrange(from as int, i as int).take(
                view.subrange(from as int, i as int).len() - 1,
            ) =~= view.subrange(from as int, i - 1));
            assert(view.subrange(from as int, i as int).last() == view[i - 1]);
        }
    }
    proof {
        assert(parts.deep_view().subrange(from as int, n as int) =~= parts.deep_view().skip(
            from as int,
        ));
    }
    joined
}

} // verus!
