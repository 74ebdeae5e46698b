//! Character-level helpers shared by the stream decoder, the tool-call
//! extractor and the model-list parser: whitespace tests, first/last
//! occurrence of a character, and string equality.

use vstd::prelude::*;

verus! {

/// Whitespace as the decoder understands it.
pub open spec fn is_ws(c: char) -> bool {
    c == ' ' || c == '\t' || c == '\r' || c == '\n'
}

/// A line that is empty after trimming: every character is whitespace.
pub open spec fn is_blank(line: Seq<char>) -> bool {
    forall|i: int| 0 <= i < line.len() ==> is_ws(line[i])
}

/// `i` is the index of the first occurrence of `c` in `s`.
pub open spec fn is_first_at(s: Seq<char>, c: char, i: int) -> bool {
    &&& 0 <= i < s.len()
    &&& s[i] == c
    &&& forall|k: int| 0 <= k < i ==> s[k] != c
}

/// `i` is the index of the last occurrence of `c` in `s`.
pub open spec fn is_last_at(s: Seq<char>, c: char, i: int) -> bool {
    &&& 0 <= i < s.len()
    &&& s[i] == c
    &&& forall|k: int| i < k < s.len() ==> s[k] != c
}

/// Index of the first occurrence of `c` in `s`, if any.
pub open spec fn find_char(s: Seq<char>, c: char) -> Option<int>
    decreases s.len(),
{
    if s.len() == 0 {
        None
    } else if s[0] == c {
        Some(0)
    } else {
        match find_char(s.drop_first(), c) {
            Some(i) => Some(i + 1),
            None => None,
        }
    }
}

/// `find_char` returns exactly the first occurrence, or nothing when the
/// character is absent.
pub proof fn lemma_find_char_spec(s: Seq<char>, c: char)
    ensures
        match find_char(s, c) {
            None => forall|k: int| 0 <= k < s.len() ==> s[k] != c,
            Some(i) => is_first_at(s, c, i),
        },
    decreases s.len(),
{
    if s.len() != 0 && s[0] != c {
        let rest = s.drop_first();
        lemma_find_char_spec(rest, c);
        assert(forall|k: int| 0 <= k < rest.len() ==> rest[k] == s[k + 1]);
        match find_char(rest, c) {
            None => {
                assert forall|k: int| 0 <= k < s.len() implies s[k] != c by {
                    if k > 0 {
                        assert(rest[k - 1] != c);
                    }
                }
            },
            Some(i) => {
                assert(s[i + 1] == rest[i]);
                assert forall|k: int| 0 <= k < i + 1 implies s[k] != c by {
                    if k > 0 {
                        assert(rest[k - 1] != c);
                    }
                }
            },
        }
    }
}

/// A first occurrence is unique, so `find_char` agrees with any index that
/// satisfies `is_first_at`.
pub proof fn lemma_first_at_find(s: Seq<char>, c: char, i: int)
    requires
        is_first_at(s, c, i),
    ensures
        find_char(s, c) == Some(i),
{
    lemma_find_char_spec(s, c);
    match find_char(s, c) {
        None => {
            assert(s[i] == c);
        },
        Some(j) => {
            if i < j {
                assert(s[i] != c);
            }
            if j < i {
                assert(s[j] != c);
            }
        },
    }
}

/// `find_char` on a suffix fails exactly when the character is absent there.
pub proof fn lemma_no_char_find(s: Seq<char>, c: char)
    requires
        forall|k: int| 0 <= k < s.len() ==> s[k] != c,
    ensures
        find_char(s, c) is None,
{
    lemma_find_char_spec(s, c);
    if let Some(i) = find_char(s, c) {
        assert(s[i] != c);
    }
}

/// First occurrence of `c` in `s` at or after `from`, reported both for `s`
/// and, through `find_char`, for the suffix `s@.skip(from)`.
pub fn scan_char(s: &str, from: usize, c: char) -> (r: Option<usize>)
    requires
        from <= s@.len(),
    ensures
        match r {
            Some(j) => {
                &&& from <= j < s@.len()
                &&& s@[j as int] == c
                &&& forall|k: int| from <= k < j ==> s@[k] != c
                &&& find_char(s@.skip(from as int), c) == Some(j - from)
            },
            None => {
                &&& (forall|k: int| from <= k < s@.len() ==> s@[k] != c)
                &&& find_char(s@.skip(from as int), c) is None
            },
        },
{
    let n = s.unicode_len();
    let mut j = from;
    while j < n && s.get_char(j) != c
        invariant
            from <= j <= n,
            n == s@.len(),
            forall|k: int| from <= k < j ==> s@[k] != c,
        decreases n - j,
    {
        j = j + 1;
    }
    proof {
        let suffix = s@.skip(from as int);
        assert(forall|m: int| 0 <= m < suffix.len() ==> suffix[m] == s@[m + from]);
        if j < n {
            assert(is_first_at(suffix, c, j - from));
            lemma_first_at_find(suffix, c, j - from);
        } else {
            lemma_no_char_find(suffix, c);
        }
    }
    if j < n {
        Some(j)
    } else {
        None
    }
}

/// Last occurrence of `c` in `s`, if any.
pub fn rscan_char(s: &str, c: char) -> (r: Option<usize>)
    ensures
        match r {
            Some(j) => is_last_at(s@, c, j as int),
            None => forall|k: int| 0 <= k < s@.len() ==> s@[k] != c,
        },
{
    let n = s.unicode_len();
    let mut j = n;
    while j > 0
        invariant
            j <= n,
            n == s@.len(),
            forall|k: int| j <= k < n ==> s@[k] != c,
        decreases j,
    {
        j = j - 1;
        if s.get_char(j) == c {
            return Some(j);
        }
    }
    None
}

/// Whether `c` is whitespace, as `is_ws` says.
pub fn ws_char(c: char) -> (b: bool)
    ensures
        b == is_ws(c),
{
    c == ' ' || c == '\t' || c == '\r' || c == '\n'
}

/// Whether every character of `line` is whitespace.
pub fn line_is_blank(line: &str) -> (b: bool)
    ensures
        b == is_blank(line@),
{
    let n = line.unicode_len();
    let mut i: usize = 0;
    while i < n
        invariant
            i <= n,
            n == line@.len(),
            forall|k: int| 0 <= k < i ==> is_ws(line@[k]),
        decreases n - i,
    {
        let ch = line.get_char(i);
        if !(ch == ' ' || ch == '\t' || ch == '\r' || ch == '\n') {
            return false;
        }
        i = i + 1;
    }
    true
}

/// Character-wise string equality, stated over the views.
pub fn str_eq(a: &str, b: &str) -> (r: bool)
    ensures
        r == (a@ == b@),
{
    let n = a.unicode_len();
    if n != b.unicode_len() {
        return false;
    }
    let mut i: usize = 0;
    while i < n
        invariant
            i <= n,
            n == a@.len(),
            n == b@.len(),
            forall|k: int| 0 <= k < i ==> a@[k] == b@[k],
        decreases n - i,
    {
        if a.get_char(i) != b.get_char(i) {
            return false;
        }
        i = i + 1;
    }
    proof {
        assert(a@ =~= b@);
    }
    true
}

} // verus!
