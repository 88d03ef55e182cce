//! Plain-text machinery behind the store's search: ASCII lowercasing,
//! whitespace tokenization and substring containment, each stated over
//! sequences of characters.
use vstd::prelude::*;
use vstd::string::StrSliceExecFns;

verus! {

/// The character with upper-case ASCII letters folded to lower case.
pub open spec fn lower_char_spec(c: char) -> char {
    if 'A' <= c && c <= 'Z' {
        ((c as u32) + 32) as char
    } else {
        c
    }
}

/// The text with upper-case ASCII letters folded to lower case.
pub open spec fn lower_spec(s: Seq<char>) -> Seq<char> {
    s.map_values(|c: char| lower_char_spec(c))
}

/// ASCII whitespace: space, tab, line feed, form feed, carriage return.
pub open spec fn is_ascii_ws(c: char) -> bool {
    c == ' ' || c == '\t' || c == '\n' || c == '\u{c}' || c == '\r'
}

/// `needle` occurs in `hay` starting at position `i`.
pub open spec fn contains_at(hay: Seq<char>, needle: Seq<char>, i: int) -> bool {
    &&& 0 <= i
    &&& i + needle.len() <= hay.len()
    &&& hay.subrange(i, i + needle.len() as int) == needle
}

/// `needle` occurs somewhere in `hay`.
pub open spec fn contains_seq(hay: Seq<char>, needle: Seq<char>) -> bool {
    exists|i: int| contains_at(hay, needle, i)
}

/// `q[i..j)` is one maximal whitespace-delimited token of `q`: nonempty,
/// free of whitespace, and bounded by whitespace or an end of the text.
pub open spec fn is_token_at(q: Seq<char>, i: int, j: int) -> bool {
    &&& 0 <= i < j <= q.len()
    &&& (forall|k: int| i <= k < j ==> !is_ascii_ws(#[trigger] q[k]))
    &&& (i == 0 || is_ascii_ws(q[i - 1]))
    &&& (j == q.len() || is_ascii_ws(q[j]))
}

/// Every whitespace-delimited token of `q` occurs somewhere in `text`.
/// A `q` of pure whitespace has no token and matches every text.
pub open spec fn matches_query(text: Seq<char>, q: Seq<char>) -> bool {
    forall|i: int, j: int| is_token_at(q, i, j) ==> contains_seq(text, q.subrange(i, j))
}

/// The character with an upper-case ASCII letter folded to lower case.
pub fn lower_char(c: char) -> (r: char)
    ensures
        r == lower_char_spec(c),
{
    if 'A' <= c && c <= 'Z' {
        (((c as u32) + 32) as u8) as char
    } else {
        c
    }
}

/// The text with upper-case ASCII letters folded to lower case.
pub fn lower_vec(v: &Vec<char>) -> (r: Vec<char>)
    ensures
        r@ == lower_spec(v@),
{
    let mut out: Vec<char> = Vec::new();
    let mut i: usize = 0;
    while i < v.len()
        invariant
            i <= v.len(),
            out@.len() == i,
            forall|j: int| 0 <= j < i ==> out@[j] == lower_char_spec(#[trigger] v@[j]),
        decreases v.len() - i,
    {
        out.push(lower_char(v[i]));
        i += 1;
    }
    proof {
        assert(out@ =~= lower_spec(v@));
    }
    out
}

/// Whether the character is ASCII whitespace.
pub fn is_ws(c: char) -> (r: bool)
    ensures
        r == is_ascii_ws(c),
{
    c == ' ' || c == '\t' || c == '\n' || c == '\u{c}' || c == '\r'
}

/// The characters of the text, in order.
pub fn chars_of(s: &str) -> (r: Vec<char>)
    ensures
        r@ == s@,
{
    let n = s.unicode_len();
    let mut out: Vec<char> = Vec::new();
    let mut i: usize = 0;
    while i < n
        invariant
            i <= n,
            n == s@.len(),
            out@.len() == i,
            forall|j: int| 0 <= j < i ==> out@[j] == s@[j],
        decreases n - i,
    {
        out.push(s.get_char(i));
        i += 1;
    }
    proof {
        assert(out@ =~= s@);
    }
    out
}

/// Whether `q[a..b)` occurs somewhere in `hay`.
pub fn contains_range(hay: &Vec<char>, q: &Vec<char>, a: usize, b: usize) -> (r: bool)
    requires
        a <= b <= q@.len(),
    ensures
        r == contains_seq(hay@, q@.subrange(a as int, b as int)),
{
    let ghost needle = q@.subrange(a as int, b as int);
    let m = b - a;
    if m > hay.len() {
        proof {
            assert(forall|i: int| !contains_at(hay@, needle, i));
        }
        return false;
    }
    let last_start = hay.len() - m;
    let mut i: usize = 0;
    loop
        invariant
            i <= last_start,
            m == needle.len(),
            m <= hay@.len(),
            hay@.len() <= usize::MAX,
            last_start == hay@.len() - m,
            a + m == b,
            b <= q@.len(),
            needle == q@.subrange(a as int, b as int),
            forall|p: int| 0 <= p < i ==> !contains_at(hay@, needle, p),
        decreases last_start - i,
    {
        let mut j: usize = 0;
        let mut all_eq = true;
        while j < m
            invariant
                j <= m,
                i + m <= hay@.len(),
                hay@.len() <= usize::MAX,
                m == needle.len(),
                a + m == b,
                b <= q@.len(),
                needle == q@.subrange(a as int, b as int),
                all_eq ==> forall|k: int| 0 <= k < j ==> hay@[i + k] == needle[k],
                !all_eq ==> hay@.subrange(i as int, i + m as int) != needle,
            decreases m - j,
        {
            if hay[i + j] != q[a + j] {
                proof {
                    assert(needle[j as int] == q@[a + j]);
                    assert(hay@.subrange(i as int, i + m as int)[j as int] == hay@[i + j]);
                }
                all_eq = false;
                j = m;
            } else {
                proof {
                    assert(needle[j as int] == q@[a + j]);
                }
                j += 1;
            }
        }
        if all_eq {
            proof {
                assert(hay@.subrange(i as int, i + needle.len() as int) =~= needle);
                assert(contains_at(hay@, needle, i as int));
            }
            return true;
        }
        if i == last_start {
            proof {
                assert(hay@.subrange(i as int, i + m as int) != needle);
                assert forall|p: int| !contains_at(hay@, needle, p) by {
                    if 0 <= p < i {
                    } else if p > last_start {
                        assert(p + needle.len() > hay@.len());
                    }
                }
            }
            return false;
        }
        proof {
            assert(hay@.subrange(i as int, i + m as int) != needle);
        }
        i += 1;
    }
}

/// Whether every whitespace-delimited token of `q` occurs in `text`.
pub fn matches_tokens(text: &Vec<char>, q: &Vec<char>) -> (r: bool)
    ensures
        r == matches_query(text@, q@),
{
    let n = q.len();
    let mut i: usize = 0;
    while i < n
        invariant
            i <= n,
            n == q@.len(),
            i == 0 || i == n || is_ascii_ws(q@[i - 1]) || is_ascii_ws(q@[i as int]),
            forall|x: int, y: int|
                is_token_at(q@, x, y) && y <= i ==> contains_seq(text@, q@.subrange(x, y)),
        decreases n - i,
    {
        if is_ws(q[i]) {
            proof {
                assert forall|x: int, y: int|
                    is_token_at(q@, x, y) && y <= i + 1 implies contains_seq(
                    text@,
                    q@.subrange(x, y),
                ) by {
                    if y == i + 1 {
                        assert(!is_ascii_ws(q@[y - 1]));
                    }
                }
            }
            i += 1;
        } else {
            let start = i;
            let mut end = i;
            while end < n && !is_ws(q[end])
                invariant
                    start <= end <= n,
                    n == q@.len(),
                    forall|k: int| start <= k < end ==> !is_ascii_ws(#[trigger] q@[k]),
                decreases n - end,
            {
                end += 1;
            }
            proof {
                assert(end == n || is_ascii_ws(q@[end as int]));
                assert(start == 0 || is_ascii_ws(q@[start - 1]));
                assert(is_token_at(q@, start as int, end as int));
            }
            if !contains_range(text, q, start, end) {
                proof {
                    assert(!matches_query(text@, q@));
                }
                return false;
            }
            proof {
                assert forall|x: int, y: int|
                    is_token_at(q@, x, y) && y <= end implies contains_seq(
                    text@,
                    q@.subrange(x, y),
                ) by {
                    if y <= start {
                    } else {
                        if y < end {
                            assert(is_ascii_ws(q@[y]));
                            assert(!is_ascii_ws(q@[y]));
                        }
                        if x > start {
                            assert(is_ascii_ws(q@[x - 1]));
                            assert(!is_ascii_ws(q@[x - 1]));
                        }
                        if x < start {
                            assert(!is_ascii_ws(q@[start - 1]));
                            assert(is_ascii_ws(q@[start - 1]));
                        }
                        assert(x == start && y == end);
                    }
                }
            }
            i = end;
        }
    }
    proof {
        assert forall|x: int, y: int| is_token_at(q@, x, y) implies contains_seq(
            text@,
            q@.subrange(x, y),
        ) by {
            assert(y <= n);
        }
    }
    true
}

} // verus!
