use vstd::prelude::*;

use crate::text::push_char;
use crate::text::spec_trim;
use crate::text::trim_ascii;

verus! {

/// One block of a news post.
pub enum NewsBlock {
    Text { text: String },
    Image { media_id: String, alt: String },
}

/// Whether a character may appear in a media id (UUIDs and similar).
pub open spec fn media_id_char(c: char) -> bool {
    ('a' <= c && c <= 'z') || ('A' <= c && c <= 'Z') || ('0' <= c && c <= '9') || c == '-'
}

/// Whether a media id is safe to splice into the media URL: trimmed it must
/// be non-empty, at most 80 characters, and built only of letters, digits
/// and dashes.
pub open spec fn spec_safe_media_id(s: Seq<char>) -> bool {
    let t = spec_trim(s);
    t.len() > 0 && t.len() <= 80 && forall|i: int| 0 <= i < t.len() ==> media_id_char(
        #[trigger] t[i],
    )
}

/// Accepts only media ids that are safe to splice into a URL.
pub fn is_safe_media_id(media_id: &str) -> (r: bool)
    ensures
        r == spec_safe_media_id(media_id@),
{
    let t = trim_ascii(media_id);
    let n = t.unicode_len();
    if n == 0 || n > 80 {
        return false;
    }
    let mut i: usize = 0;
    while i < n
        invariant
            0 <= i <= n,
            n == t@.len(),
            t@ == spec_trim(media_id@),
            forall|k: int| 0 <= k < i ==> media_id_char(#[trigger] t@[k]),
        decreases n - i,
    {
        let c = t.as_str().get_char(i);
        let ok = ('a' <= c && c <= 'z') || ('A' <= c && c <= 'Z') || ('0' <= c && c <= '9') || c
            == '-';
        if !ok {
            return false;
        }
        i += 1;
    }
    true
}

/// The news server's base URL, trailing slashes removed.
pub open spec fn spec_news_base() -> Seq<char> {
    news_base_trim("https://vzzx.pw"@)
}

/// `s` with trailing slashes removed.
pub open spec fn news_base_trim(s: Seq<char>) -> Seq<char>
    decreases s.len(),
{
    if s.len() > 0 && s.last() == '/' {
        news_base_trim(s.drop_last())
    } else {
        s
    }
}

/// The base URL news requests are made against.
pub fn base_url() -> (r: String)
    ensures
        r@ == spec_news_base(),
{
    let raw = "https://vzzx.pw";
    let n = raw.unicode_len();
    let mut hi: usize = n;
    proof {
        assert(raw@.take(n as int) =~= raw@);
    }
    while hi > 0 && raw.get_char(hi - 1) == '/'
        invariant
            0 <= hi <= n,
            n == raw@.len(),
            news_base_trim(raw@) == news_base_trim(raw@.take(hi as int)),
        decreases hi,
    {
        proof {
            assert(raw@.take(hi as int).drop_last() =~= raw@.take(hi - 1));
        }
        hi -= 1;
    }
    let ghost t = raw@.take(hi as int);
    proof {
        if hi > 0 {
            assert(news_base_trim(t) == t);
        } else {
            assert(t =~= Seq::<char>::empty());
        }
    }
    crate::text::substring_chars(raw, 0, hi)
}

/// The URL a media id is fetched from.
pub fn media_url(media_id: &str) -> (r: String)
    ensures
        r@ == spec_news_base() + "/api/news/media/"@ + media_id@,
{
    let mut out = base_url();
    out.append("/api/news/media/");
    out.append(media_id);
    out
}

} // verus!
