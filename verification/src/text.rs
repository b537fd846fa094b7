use vstd::prelude::*;

verus! {

/// What `String::from_utf8_lossy` decodes a byte sequence to; the result is a
/// function of the bytes alone.
pub uninterp spec fn utf8_lossy_of(bytes: Seq<u8>) -> Seq<char>;

/// A byte below 0x80 stands for itself as a character.
pub open spec fn ascii_byte(b: u8) -> bool {
    b < 0x80
}

pub open spec fn all_ascii(bytes: Seq<u8>) -> bool {
    forall|i: int| 0 <= i < bytes.len() ==> ascii_byte(#[trigger] bytes[i])
}

/// Relies on `String::from_utf8_lossy`: decodes UTF-8, replacing invalid
/// sequences; on pure-ASCII input the decoding is the identity on code points.
#[verifier::external_body]
pub(crate) fn utf8_lossy(bytes: &[u8]) -> (r: String)
    ensures
        r@ == utf8_lossy_of(bytes@),
        all_ascii(bytes@) ==> r@ == bytes@.map_values(|b: u8| b as char),
{
    String::from_utf8_lossy(bytes).into_owned()
}

/// Relies on `String::push`: appends one character.
#[verifier::external_body]
pub(crate) fn push_char(s: &mut String, c: char)
    ensures
        final(s)@ == old(s)@ + seq![c],
{
    s.push(c);
}

/// ASCII whitespace, as trimmed from manifest lines and hash strings.
pub open spec fn is_space_char(c: char) -> bool {
    c == ' ' || c == '\t' || c == '\r' || c == '\n'
}

pub fn char_is_space(c: char) -> (r: bool)
    ensures
        r == is_space_char(c),
{
    c == ' ' || c == '\t' || c == '\r' || c == '\n'
}

/// Lower-cases one ASCII letter; every other character is unchanged.
pub open spec fn ascii_lower_char(c: char) -> char {
    if 'A' <= c && c <= 'Z' {
        ((c as u8) + 32) as char
    } else {
        c
    }
}

pub open spec fn ascii_lower(s: Seq<char>) -> Seq<char> {
    s.map_values(|c: char| ascii_lower_char(c))
}

pub fn char_ascii_lower(c: char) -> (r: char)
    ensures
        r == ascii_lower_char(c),
{
    if 'A' <= c && c <= 'Z' {
        ((c as u8) + 32) as char
    } else {
        c
    }
}

/// Index of the first character of `s` that is not ASCII whitespace
/// (`s.len()` when all of it is).
pub open spec fn trim_start_idx(s: Seq<char>) -> int
    decreases s.len(),
{
    if s.len() == 0 {
        0
    } else if is_space_char(s[0]) {
        1 + trim_start_idx(s.skip(1))
    } else {
        0
    }
}

/// Index just past the last character of `s` that is not ASCII whitespace
/// (`0` when all of it is).
pub open spec fn trim_end_idx(s: Seq<char>) -> int
    decreases s.len(),
{
    if s.len() == 0 {
        0
    } else if is_space_char(s[s.len() - 1]) {
        trim_end_idx(s.drop_last())
    } else {
        s.len() as int
    }
}

/// `s` with leading and trailing ASCII whitespace removed.
pub open spec fn spec_trim(s: Seq<char>) -> Seq<char> {
    let lo = trim_start_idx(s);
    let hi = trim_end_idx(s);
    if lo <= hi {
        s.subrange(lo, hi)
    } else {
        Seq::empty()
    }
}

proof fn lemma_trim_start_idx_bounds(s: Seq<char>)
    ensures
        0 <= trim_start_idx(s) <= s.len(),
        forall|i: int| 0 <= i < trim_start_idx(s) ==> is_space_char(#[trigger] s[i]),
        trim_start_idx(s) < s.len() ==> !is_space_char(s[trim_start_idx(s)]),
    decreases s.len(),
{
    if s.len() > 0 && is_space_char(s[0]) {
        lemma_trim_start_idx_bounds(s.skip(1));
        assert forall|i: int| 0 <= i < trim_start_idx(s) implies is_space_char(#[trigger] s[i]) by {
            if i > 0 {
                assert(s.skip(1)[i - 1] == s[i]);
            }
        }
        if trim_start_idx(s) < s.len() {
            assert(s.skip(1)[trim_start_idx(s) - 1] == s[trim_start_idx(s)]);
        }
    }
}

proof fn lemma_trim_end_idx_bounds(s: Seq<char>)
    ensures
        0 <= trim_end_idx(s) <= s.len(),
        forall|i: int| trim_end_idx(s) <= i < s.len() ==> is_space_char(#[trigger] s[i]),
        trim_end_idx(s) > 0 ==> !is_space_char(s[trim_end_idx(s) - 1]),
    decreases s.len(),
{
    if s.len() > 0 && is_space_char(s[s.len() - 1]) {
        lemma_trim_end_idx_bounds(s.drop_last());
        assert forall|i: int| trim_end_idx(s) <= i < s.len() implies is_space_char(
            #[trigger] s[i],
        ) by {
            if i < s.len() - 1 {
                assert(s.drop_last()[i] == s[i]);
            }
        }
        if trim_end_idx(s) > 0 {
            assert(s.drop_last()[trim_end_idx(s) - 1] == s[trim_end_idx(s) - 1]);
        }
    }
}

/// When some character of `s` is not whitespace, the start index lies at or
/// before it and the end index strictly after it.
proof fn lemma_trim_nonempty(s: Seq<char>, k: int)
    requires
        0 <= k < s.len(),
        !is_space_char(s[k]),
    ensures
        trim_start_idx(s) <= k < trim_end_idx(s),
{
    lemma_trim_start_idx_bounds(s);
    lemma_trim_end_idx_bounds(s);
}

/// Copies the characters `s[lo..hi]` into a fresh string.
pub fn substring_chars(s: &str, lo: usize, hi: usize) -> (r: String)
    requires
        lo <= hi <= s@.len(),
    ensures
        r@ == s@.subrange(lo as int, hi as int),
{
    let mut out = String::new();
    let mut i: usize = lo;
    while i < hi
        invariant
            lo <= i <= hi <= s@.len(),
            out@ == s@.subrange(lo as int, i as int),
        decreases hi - i,
    {
        push_char(&mut out, s.get_char(i));
        assert(s@.subrange(lo as int, i + 1 as int) =~= s@.subrange(lo as int, i as int).push(
            s@[i as int],
        ));
        i += 1;
    }
    out
}

/// Removes leading and trailing ASCII whitespace from a string.
pub fn trim_ascii(s: &str) -> (r: String)
    ensures
        r@ == spec_trim(s@),
{
    let n = s.unicode_len();
    let mut lo: usize = 0;
    while lo < n && char_is_space(s.get_char(lo))
        invariant
            0 <= lo <= n,
            n == s@.len(),
            forall|i: int| 0 <= i < lo ==> is_space_char(#[trigger] s@[i]),
        decreases n - lo,
    {
        lo += 1;
    }
    let mut hi: usize = n;
    while hi > lo && char_is_space(s.get_char(hi - 1))
        invariant
            lo <= hi <= n,
            n == s@.len(),
            forall|i: int| 0 <= i < lo ==> is_space_char(#[trigger] s@[i]),
            forall|i: int| hi <= i < n ==> is_space_char(#[trigger] s@[i]),
        decreases hi,
    {
        hi -= 1;
    }
    let mut out = String::new();
    let mut i: usize = lo;
    while i < hi
        invariant
            lo <= i <= hi <= n,
            n == s@.len(),
            out@ == s@.subrange(lo as int, i as int),
        decreases hi - i,
    {
        push_char(&mut out, s.get_char(i));
        assert(s@.subrange(lo as int, i + 1 as int) == s@.subrange(lo as int, i as int) + seq![
            s@[i as int],
        ]);
        i += 1;
    }
    proof {
        lemma_trim_start_idx_bounds(s@);
        lemma_trim_end_idx_bounds(s@);
        if lo < hi {
            lemma_trim_nonempty(s@, lo as int);
            lemma_trim_nonempty(s@, hi - 1);
            assert(trim_start_idx(s@) == lo) by {
                if trim_start_idx(s@) < lo {
                    assert(is_space_char(s@[trim_start_idx(s@)]));
                }
            }
            assert(trim_end_idx(s@) == hi) by {
                if trim_end_idx(s@) > hi {
                    assert(is_space_char(s@[trim_end_idx(s@) - 1]));
                }
            }
        } else {
            assert(forall|i: int| 0 <= i < s@.len() ==> is_space_char(#[trigger] s@[i]));
            if trim_start_idx(s@) < trim_end_idx(s@) {
                lemma_trim_start_idx_bounds(s@);
                assert(!is_space_char(s@[trim_start_idx(s@)]));
            }
            assert(out@ =~= spec_trim(s@));
        }
    }
    out
}

/// Index of the first occurrence of `c` in `s` (`s.len()` when absent).
pub open spec fn find_char(s: Seq<char>, c: char) -> int
    decreases s.len(),
{
    if s.len() == 0 {
        0
    } else if s[0] == c {
        0
    } else {
        1 + find_char(s.skip(1), c)
    }
}

pub proof fn lemma_find_char_at(s: Seq<char>, c: char, k: int)
    requires
        0 <= k <= s.len(),
        forall|t: int| 0 <= t < k ==> s[t] != c,
        k < s.len() ==> s[k] == c,
    ensures
        find_char(s, c) == if k < s.len() {
            k
        } else {
            s.len() as int
        },
    decreases s.len(),
{
    if s.len() == 0 {
    } else if s[0] == c {
        assert(k == 0);
    } else {
        assert(k >= 1);
        lemma_find_char_at(s.skip(1), c, k - 1);
        assert(forall|t: int| 0 <= t < k - 1 ==> s.skip(1)[t] == s[t + 1]);
        if k < s.len() {
            assert(s.skip(1)[k - 1] == s[k]);
        }
    }
}

pub proof fn lemma_find_char_bounds(s: Seq<char>, c: char)
    ensures
        0 <= find_char(s, c) <= s.len(),
    decreases s.len(),
{
    if s.len() > 0 && s[0] != c {
        lemma_find_char_bounds(s.skip(1), c);
    }
}

/// The segments of `s` between occurrences of `c`: a plain split, so a
/// trailing separator opens a final empty segment and the empty string is
/// one empty segment.
pub open spec fn spec_split_char(s: Seq<char>, c: char) -> Seq<Seq<char>>
    decreases s.len(),
    via spec_split_char_decreases
{
    let k = find_char(s, c);
    if k == s.len() {
        seq![s]
    } else {
        seq![s.take(k)] + spec_split_char(s.skip(k + 1), c)
    }
}

#[via_fn]
proof fn spec_split_char_decreases(s: Seq<char>, c: char) {
    lemma_find_char_bounds(s, c);
}

/// Splits a string at a separator character, as `spec_split_char` says.
pub fn split_char_strings(s: &str, c: char) -> (r: Vec<String>)
    ensures
        r@.len() == spec_split_char(s@, c).len(),
        forall|i: int| 0 <= i < r@.len() ==> #[trigger] r@[i]@ == spec_split_char(s@, c)[i],
{
    let n = s.unicode_len();
    let mut out: Vec<String> = Vec::new();
    let mut cur: usize = 0;
    proof {
        assert(s@.skip(0) =~= s@);
    }
    loop
        invariant
            0 <= cur <= n,
            n == s@.len(),
            spec_split_char(s@, c) =~= out@.map_values(|v: String| v@) + spec_split_char(
                s@.skip(cur as int),
                c,
            ),
        decreases n - cur + 1,
    {
        let ghost prev = out@;
        let ghost cur0 = cur as int;
        let ghost rest = s@.skip(cur as int);
        let mut j = cur;
        while j < n && s.get_char(j) != c
            invariant
                cur <= j <= n,
                n == s@.len(),
                forall|t: int| cur <= t < j ==> s@[t] != c,
            decreases n - j,
        {
            j += 1;
        }
        proof {
            lemma_find_char_at(rest, c, j - cur);
            assert(forall|t: int| 0 <= t < j - cur ==> rest[t] == s@[t + cur]);
            if j < n {
                assert(rest[j - cur] == s@[j as int]);
            }
        }
        let mut seg = String::new();
        let mut i: usize = cur;
        while i < j
            invariant
                cur <= i <= j <= n,
                n == s@.len(),
                seg@ == s@.subrange(cur as int, i as int),
            decreases j - i,
        {
            push_char(&mut seg, s.get_char(i));
            assert(s@.subrange(cur as int, i + 1 as int) =~= s@.subrange(
                cur as int,
                i as int,
            ).push(s@[i as int]));
            i += 1;
        }
        proof {
            assert(seg@ =~= rest.take(j - cur));
        }
        out.push(seg);
        proof {
            assert(out@.map_values(|v: String| v@) =~= prev.map_values(|v: String| v@).push(
                rest.take(j - cur),
            ));
        }
        if j < n {
            cur = j + 1;
            proof {
                assert(rest.skip(j - cur0 + 1) =~= s@.skip(cur as int));
            }
        } else {
            proof {
                assert(rest.take(j - cur) =~= rest);
            }
            return out;
        }
    }
}

/// Whether `p` is a prefix of `s`.
pub open spec fn starts_with_spec(s: Seq<char>, p: Seq<char>) -> bool {
    s.len() >= p.len() && s.take(p.len() as int) == p
}

pub fn str_starts_with(s: &str, p: &str) -> (r: bool)
    ensures
        r == starts_with_spec(s@, p@),
{
    let n = s.unicode_len();
    let m = p.unicode_len();
    if n < m {
        return false;
    }
    let mut i: usize = 0;
    while i < m
        invariant
            0 <= i <= m <= n,
            n == s@.len(),
            m == p@.len(),
            forall|t: int| 0 <= t < i ==> s@[t] == p@[t],
        decreases m - i,
    {
        if s.get_char(i) != p.get_char(i) {
            assert(s@.take(m as int)[i as int] != p@[i as int]);
            return false;
        }
        i += 1;
    }
    assert(s@.take(m as int) =~= p@);
    true
}

/// What a character of a cache-directory name may be; anything else is
/// replaced by an underscore.
pub open spec fn sanitize_char(c: char) -> char {
    if ('a' <= c && c <= 'z') || ('A' <= c && c <= 'Z') || ('0' <= c && c <= '9') || c == '.'
        || c == '_' || c == '-' {
        c
    } else {
        '_'
    }
}

/// Maps an identity string (a hash or a version) to a filesystem-safe
/// directory name, one character at a time.
pub fn sanitize_dir_component(s: &str) -> (r: String)
    ensures
        r@ == s@.map_values(|c: char| sanitize_char(c)),
{
    let n = s.unicode_len();
    let mut out = String::new();
    let mut i: usize = 0;
    while i < n
        invariant
            0 <= i <= n,
            n == s@.len(),
            out@ =~= s@.subrange(0, i as int).map_values(|c: char| sanitize_char(c)),
        decreases n - i,
    {
        let c = s.get_char(i);
        let mapped = if ('a' <= c && c <= 'z') || ('A' <= c && c <= 'Z') || ('0' <= c && c
            <= '9') || c == '.' || c == '_' || c == '-' {
            c
        } else {
            '_'
        };
        push_char(&mut out, mapped);
        proof {
            assert(s@.subrange(0, i + 1 as int) =~= s@.subrange(0, i as int).push(s@[i as int]));
            assert(out@ =~= s@.subrange(0, i + 1 as int).map_values(
                |c: char| sanitize_char(c),
            ));
        }
        i += 1;
    }
    proof {
        assert(s@.subrange(0, n as int) =~= s@);
    }
    out
}

/// Case-insensitive (ASCII) equality of two character sequences.
pub open spec fn eq_ignore_ascii_case_spec(a: Seq<char>, b: Seq<char>) -> bool {
    ascii_lower(a) == ascii_lower(b)
}

/// Compares two strings, ignoring ASCII case.
pub fn eq_str_ignore_ascii_case(a: &str, b: &str) -> (r: bool)
    ensures
        r == eq_ignore_ascii_case_spec(a@, b@),
{
    let na = a.unicode_len();
    let nb = b.unicode_len();
    if na != nb {
        assert(ascii_lower(a@).len() != ascii_lower(b@).len());
        return false;
    }
    let mut i: usize = 0;
    while i < na
        invariant
            0 <= i <= na,
            na == a@.len(),
            na == b@.len(),
            forall|j: int|
                0 <= j < i ==> ascii_lower_char(#[trigger] a@[j]) == ascii_lower_char(b@[j]),
        decreases na - i,
    {
        if char_ascii_lower(a.get_char(i)) != char_ascii_lower(b.get_char(i)) {
            assert(ascii_lower(a@)[i as int] != ascii_lower(b@)[i as int]);
            return false;
        }
        i += 1;
    }
    assert(ascii_lower(a@) =~= ascii_lower(b@));
    true
}

} // verus!
