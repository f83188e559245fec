use vstd::prelude::*;
use vstd::string::{StrSliceExecFns, StringExecFns};

verus! {

/// Unicode white space, as `char::is_whitespace` defines it.
pub open spec fn is_space_spec(c: char) -> bool {
    ('\u{9}' <= c && c <= '\u{d}') || c == ' ' || c == '\u{85}' || c == '\u{a0}' || c
        == '\u{1680}' || ('\u{2000}' <= c && c <= '\u{200a}') || c == '\u{2028}' || c
        == '\u{2029}' || c == '\u{202f}' || c == '\u{205f}' || c == '\u{3000}'
}

pub fn is_space(c: char) -> (r: bool)
    ensures
        r == is_space_spec(c),
{
    ('\u{9}' <= c && c <= '\u{d}') || c == ' ' || c == '\u{85}' || c == '\u{a0}' || c
        == '\u{1680}' || ('\u{2000}' <= c && c <= '\u{200a}') || c == '\u{2028}' || c
        == '\u{2029}' || c == '\u{202f}' || c == '\u{205f}' || c == '\u{3000}'
}

/// The characters that trimming removes: white space, or `"` when `quotes` is set.
pub open spec fn trimmed_char(c: char, quotes: bool) -> bool {
    if quotes {
        c == '"'
    } else {
        is_space_spec(c)
    }
}

/// `s` without its leading trimmed characters.
pub open spec fn trim_start_spec(s: Seq<char>, quotes: bool) -> Seq<char>
    decreases s.len(),
{
    if s.len() > 0 && trimmed_char(s[0], quotes) {
        trim_start_spec(s.drop_first(), quotes)
    } else {
        s
    }
}

/// `s` without its trailing trimmed characters.
pub open spec fn trim_end_spec(s: Seq<char>, quotes: bool) -> Seq<char>
    decreases s.len(),
{
    if s.len() > 0 && trimmed_char(s.last(), quotes) {
        trim_end_spec(s.drop_last(), quotes)
    } else {
        s
    }
}

/// `s` without its leading and trailing trimmed characters.
pub open spec fn trim_spec(s: Seq<char>, quotes: bool) -> Seq<char> {
    trim_end_spec(trim_start_spec(s, quotes), quotes)
}

fn is_trimmed_char(c: char, quotes: bool) -> (r: bool)
    ensures
        r == trimmed_char(c, quotes),
{
    if quotes {
        c == '"'
    } else {
        is_space(c)
    }
}

fn trim_by(s: &str, quotes: bool) -> (r: String)
    ensures
        r@ == trim_spec(s@, quotes),
{
    let n = s.unicode_len();
    let mut a: usize = 0;
    assert(s@.subrange(0, n as int) =~= s@);
    while a < n && is_trimmed_char(s.get_char(a), quotes)
        invariant
            n == s@.len(),
            a <= n,
            trim_start_spec(s@, quotes) == trim_start_spec(s@.subrange(a as int, n as int), quotes),
        decreases n - a,
    {
        assert(s@.subrange(a as int, n as int).drop_first() =~= s@.subrange(a + 1, n as int));
        a = a + 1;
    }
    let ghost mid = s@.subrange(a as int, n as int);
    assert(trim_start_spec(mid, quotes) == mid);
    let mut b: usize = n;
    while b > a && is_trimmed_char(s.get_char(b - 1), quotes)
        invariant
            n == s@.len(),
            a <= b <= n,
            mid == s@.subrange(a as int, n as int),
            trim_end_spec(mid, quotes) == trim_end_spec(s@.subrange(a as int, b as int), quotes),
        decreases b - a,
    {
        assert(s@.subrange(a as int, b as int).drop_last() =~= s@.subrange(a as int, b - 1));
        b = b - 1;
    }
    String::from_str(s.substring_char(a, b))
}

/// `s` without leading or trailing white space.
pub fn trim_text(s: &str) -> (r: String)
    ensures
        r@ == trim_spec(s@, false),
{
    trim_by(s, false)
}

/// `s` without leading or trailing `"` characters.
pub fn strip_quotes(s: &str) -> (r: String)
    ensures
        r@ == trim_spec(s@, true),
{
    trim_by(s, true)
}

/// `s[i..j]` is a maximal run of characters that are not white space.
pub open spec fn is_token(s: Seq<char>, i: int, j: int) -> bool {
    &&& 0 <= i < j <= s.len()
    &&& i == 0 || is_space_spec(s[i - 1])
    &&& j == s.len() || is_space_spec(s[j])
    &&& forall|k: int| i <= k < j ==> !is_space_spec(#[trigger] s[k])
}

/// `m` is the text after the `@` of a white-space separated token of `s` that
/// starts with `@`, and that token ends at or before `limit`.
pub open spec fn is_mention_before(s: Seq<char>, m: Seq<char>, limit: int) -> bool {
    exists|i: int, j: int|
        is_token(s, i, j) && j <= limit && s[i] == '@' && m == #[trigger] s.subrange(i + 1, j)
}

/// `m` is a handle mentioned in `s`: a white-space separated token of `s` that
/// starts with `@`, without that `@`. Punctuation after the handle is kept.
pub open spec fn is_mention(s: Seq<char>, m: Seq<char>) -> bool {
    is_mention_before(s, m, s.len() as int)
}

/// Whether one of `v` holds the same text as `s`.
pub fn contains_text(v: &Vec<String>, s: &String) -> (r: bool)
    ensures
        r <==> exists|k: int| 0 <= k < v@.len() && #[trigger] v@[k]@ == s@,
{
    let mut i: usize = 0;
    while i < v.len()
        invariant
            i <= v@.len(),
            forall|k: int| 0 <= k < i ==> #[trigger] v@[k]@ != s@,
        decreases v@.len() - i,
    {
        if v[i].eq(s) {
            return true;
        }
        i = i + 1;
    }
    false
}

/// The handles mentioned in `text`, each once, in the order in which they
/// first appear.
pub fn mentioned_names(text: &str) -> (r: Vec<String>)
    ensures
        forall|x: int, y: int| 0 <= x < y < r@.len() ==> r@[x]@ != r@[y]@,
        forall|k: int| 0 <= k < r@.len() ==> is_mention(text@, #[trigger] r@[k]@),
        forall|m: Seq<char>| #[trigger] is_mention(text@, m) ==> exists|k: int| 0 <= k < r@.len() && #[trigger] r@[k]@ == m,
{
    let ghost s = text@;
    let n = text.unicode_len();
    let mut out: Vec<String> = Vec::new();
    let mut i: usize = 0;
    while i < n
        invariant
            n == s.len(),
            s == text@,
            i <= n,
            i == 0 || i == n || is_space_spec(s[i - 1]) || is_space_spec(s[i as int]),
            forall|k: int| 0 <= k < out@.len() ==> is_mention_before(s, #[trigger] out@[k]@, i as int),
            forall|m: Seq<char>| is_mention_before(s, m, i as int) ==> exists|k: int| 0 <= k < out@.len() && #[trigger] out@[k]@ == m,
            forall|x: int, y: int| 0 <= x < y < out@.len() ==> out@[x]@ != out@[y]@,
        decreases n - i,
    {
        let i0 = i;
        while i < n && is_space(text.get_char(i))
            invariant
                n == s.len(),
                s == text@,
                i0 <= i <= n,
                forall|k: int| i0 <= k < i ==> is_space_spec(#[trigger] s[k]),
            decreases n - i,
        {
            i = i + 1;
        }
        if i < n {
            let start = i;
            while i < n && !is_space(text.get_char(i))
                invariant
                    n == s.len(),
                    s == text@,
                    start <= i <= n,
                    forall|k: int| start <= k < i ==> !is_space_spec(#[trigger] s[k]),
                decreases n - i,
            {
                i = i + 1;
            }
            let end = i;
            assert(start < end);
            assert(is_token(s, start as int, end as int)) by {
                if start > 0 {
                    if start == i0 {
                        assert(is_space_spec(s[start - 1]) || is_space_spec(s[start as int]));
                    } else {
                        assert(is_space_spec(s[start - 1]));
                    }
                }
            }
            assert forall|a: int, b: int| is_token(s, a, b) && i0 < b <= end implies a == start && b == end by {
                if b <= start {
                    assert(!is_space_spec(s[b - 1]));
                    if b - 1 < i0 {
                        assert(b - 1 == i0 - 1);
                        assert(is_space_spec(s[i0 - 1]) || is_space_spec(s[i0 as int]));
                        assert(a <= i0 - 1);
                    }
                    assert(false);
                } else if b < end {
                    assert(!is_space_spec(s[b]));
                    assert(false);
                }
                if a < start {
                    assert(!is_space_spec(s[start - 1]));
                    if start == i0 {
                        assert(is_space_spec(s[start - 1]) || is_space_spec(s[start as int]));
                    }
                    assert(false);
                } else if a > start {
                    assert(is_space_spec(s[a - 1]));
                    assert(false);
                }
            }
            let first = text.get_char(start);
            if first == '@' {
                let m = String::from_str(text.substring_char(start + 1, end));
                let ghost prev = out@;
                let ghost mv = m@;
                let seen = contains_text(&out, &m);
                if !seen {
                    out.push(m);
                }
                assert(mv == s.subrange(start + 1, end as int));
                assert forall|k: int| 0 <= k < out@.len() implies is_mention_before(s, #[trigger] out@[k]@, i as int) by {
                    if k < prev.len() {
                        assert(out@[k] == prev[k]);
                        let (a, b) = choose|a: int, b: int| is_token(s, a, b) && b <= i0 && s[a] == '@' && prev[k]@ == #[trigger] s.subrange(a + 1, b);
                        assert(is_token(s, a, b) && b <= i && s[a] == '@' && out@[k]@ == s.subrange(a + 1, b));
                    } else {
                        assert(out@[k]@ == s.subrange(start + 1, end as int));
                    }
                }
                assert forall|mm: Seq<char>| is_mention_before(s, mm, i as int) implies exists|k: int| 0 <= k < out@.len() && #[trigger] out@[k]@ == mm by {
                    let (a, b) = choose|a: int, b: int| is_token(s, a, b) && b <= i && s[a] == '@' && mm == #[trigger] s.subrange(a + 1, b);
                    if b <= i0 {
                        assert(is_mention_before(s, mm, i0 as int));
                        let k = choose|k: int| 0 <= k < prev.len() && #[trigger] prev[k]@ == mm;
                        assert(out@[k] == prev[k]);
                    } else if seen {
                        assert(mm == mv);
                        let k = choose|k: int| 0 <= k < prev.len() && #[trigger] prev[k]@ == mv;
                        assert(out@[k] == prev[k]);
                    } else {
                        assert(out@[prev.len() as int]@ == mm);
                    }
                }
            } else {
                assert forall|mm: Seq<char>| is_mention_before(s, mm, i as int) implies is_mention_before(s, mm, i0 as int) by {
                    let (a, b) = choose|a: int, b: int| is_token(s, a, b) && b <= i && s[a] == '@' && mm == #[trigger] s.subrange(a + 1, b);
                    if b > i0 {
                        assert(a == start);
                        assert(false);
                    }
                }
                assert forall|k: int| 0 <= k < out@.len() implies is_mention_before(s, #[trigger] out@[k]@, i as int) by {
                    let (a, b) = choose|a: int, b: int| is_token(s, a, b) && b <= i0 && s[a] == '@' && out@[k]@ == #[trigger] s.subrange(a + 1, b);
                }
            }
        } else {
            assert forall|mm: Seq<char>| is_mention_before(s, mm, i as int) implies is_mention_before(s, mm, i0 as int) by {
                let (a, b) = choose|a: int, b: int| is_token(s, a, b) && b <= i && s[a] == '@' && mm == #[trigger] s.subrange(a + 1, b);
                if b > i0 {
                    assert(!is_space_spec(s[b - 1]));
                    assert(false);
                }
            }
            assert forall|k: int| 0 <= k < out@.len() implies is_mention_before(s, #[trigger] out@[k]@, i as int) by {
                let (a, b) = choose|a: int, b: int| is_token(s, a, b) && b <= i0 && s[a] == '@' && out@[k]@ == #[trigger] s.subrange(a + 1, b);
            }
        }
    }
    out
}

/// The longest post the platform takes, in characters.
pub const MAX_TWEET_LENGTH: usize = 280;

/// The `k`-th piece of `s` cut into pieces of `max` characters.
pub open spec fn chunk_spec(s: Seq<char>, max: int, k: int) -> Seq<char> {
    let lo = k * max;
    let hi = (k + 1) * max;
    s.subrange(lo, if hi < s.len() { hi } else { s.len() as int })
}

/// Cuts `text` into pieces of `max` characters, counted as characters; the
/// last piece holds what is left.
pub fn split_chunks(text: &str, max: usize) -> (r: Vec<String>)
    requires
        max > 0,
    ensures
        r@.len() * max >= text@.len(),
        (r@.len() - 1) * max < text@.len(),
        forall|k: int| 0 <= k < r@.len() ==> #[trigger] r@[k]@ == chunk_spec(text@, max as int, k),
{
    let n = text.unicode_len();
    let mut out: Vec<String> = Vec::new();
    let mut start: usize = 0;
    assert(0 * max == 0) by (nonlinear_arith);
    while start < n
        invariant
            n == text@.len(),
            max > 0,
            start <= n,
            start < n ==> start as int == out@.len() * max,
            start == n ==> out@.len() * max >= n,
            (out@.len() - 1) * max < n,
            forall|k: int| 0 <= k < out@.len() ==> #[trigger] out@[k]@ == chunk_spec(text@, max as int, k),
        decreases n - start,
    {
        let end = if n - start > max {
            start + max
        } else {
            n
        };
        let ghost l = out@.len() as int;
        let piece = String::from_str(text.substring_char(start, end));
        proof {
            assert((l + 1) * max == l * max + max) by (nonlinear_arith);
            assert(piece@ == chunk_spec(text@, max as int, l));
        }
        out.push(piece);
        assert(out@[l]@ == chunk_spec(text@, max as int, l));
        start = end;
    }
    out
}

/// A generated reply made ready to post: trimmed, then cut into pieces that
/// each fit in one post.
pub fn reply_chunks(response: &str) -> (r: Vec<String>)
    ensures
        r@.len() * MAX_TWEET_LENGTH >= trim_spec(response@, false).len(),
        (r@.len() - 1) * MAX_TWEET_LENGTH < trim_spec(response@, false).len(),
        forall|k: int|
            0 <= k < r@.len() ==> #[trigger] r@[k]@ == chunk_spec(
                trim_spec(response@, false),
                MAX_TWEET_LENGTH as int,
                k,
            ),
{
    let t = trim_text(response);
    split_chunks(t.as_str(), MAX_TWEET_LENGTH)
}

} // verus!
