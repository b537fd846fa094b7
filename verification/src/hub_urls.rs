use vstd::prelude::*;

use crate::text::push_char;
use crate::text::spec_trim;
use crate::text::trim_ascii;

verus! {

/// The hub URLs used when none are stored: the main hub and its fallback.
pub fn default_hub_urls() -> (r: Vec<String>)
    ensures
        r@.len() == 2,
        r@[0]@ == "https://hub.spacestation14.com/"@,
        r@[1]@ == "https://hub.fallback.spacestation14.com/"@,
{
    let mut out: Vec<String> = Vec::new();
    out.push("https://hub.spacestation14.com/".to_owned());
    out.push("https://hub.fallback.spacestation14.com/".to_owned());
    out
}

/// One stored URL after normalization: trimmed, with a trailing slash.
pub open spec fn spec_norm_url(s: Seq<char>) -> Seq<char> {
    let t = spec_trim(s);
    if t.len() > 0 && t.last() == '/' {
        t
    } else {
        t + seq!['/']
    }
}

/// Whether one trimmed URL is accepted at all: it must name a scheme the
/// launcher speaks.
pub open spec fn spec_url_accepted(t: Seq<char>) -> bool {
    crate::text::starts_with_spec(t, "https://"@) || crate::text::starts_with_spec(
        t,
        "http://"@,
    )
}

/// The normalized list over the first `n` raw entries: blanks skipped,
/// trailing slash added, duplicates dropped; `None` when some non-blank
/// entry has no accepted scheme.
pub open spec fn spec_normalize_urls(raw: Seq<Seq<char>>, n: int) -> Option<Seq<Seq<char>>>
    decreases n,
{
    if n <= 0 {
        Some(Seq::empty())
    } else {
        match spec_normalize_urls(raw, n - 1) {
            None => None,
            Some(acc) => {
                let t = spec_trim(raw[n - 1]);
                if t.len() == 0 {
                    Some(acc)
                } else if !spec_url_accepted(t) {
                    None
                } else {
                    let u = spec_norm_url(raw[n - 1]);
                    if crate::marsey::contains_str(acc, u) {
                        Some(acc)
                    } else {
                        Some(acc.push(u))
                    }
                }
            },
        }
    }
}

proof fn lemma_normalize_none_sticks(raw: Seq<Seq<char>>, k: int, n: int)
    requires
        0 <= k <= n,
        spec_normalize_urls(raw, k) is None,
    ensures
        spec_normalize_urls(raw, n) is None,
    decreases n - k,
{
    if k < n {
        lemma_normalize_none_sticks(raw, k + 1, n);
    }
}

/// Normalizes and validates a stored hub URL list: trims each entry, skips
/// blanks, demands an http or https scheme, appends the trailing slash and
/// drops duplicates. Fails exactly when an entry has a foreign scheme or
/// nothing usable is left.
pub fn normalize_and_validate_urls(raw: &Vec<String>) -> (r: Result<Vec<String>, String>)
    ensures
        ({
            let norm = spec_normalize_urls(
                raw@.map_values(|s: String| s@),
                raw@.len() as int,
            );
            &&& (r is Ok <==> (norm matches Some(u) && u.len() > 0))
            &&& (r matches Ok(u) ==> u@.map_values(|s: String| s@) == norm->0)
        }),
{
    let ghost rm = raw@.map_values(|s: String| s@);
    let n = raw.len();
    let mut out: Vec<String> = Vec::new();
    let mut i: usize = 0;
    while i < n
        invariant
            0 <= i <= n,
            n == raw@.len(),
            rm == raw@.map_values(|s: String| s@),
            spec_normalize_urls(rm, i as int) matches Some(acc) && acc == out@.map_values(
                |s: String| s@,
            ),
        decreases n - i,
    {
        let ghost prev = out@.map_values(|s: String| s@);
        let t = trim_ascii(raw[i].as_str());
        if t.unicode_len() > 0 {
            let https_ok = crate::text::str_starts_with(t.as_str(), "https://");
            let http_ok = crate::text::str_starts_with(t.as_str(), "http://");
            if !(https_ok || http_ok) {
                proof {
                    assert(spec_normalize_urls(rm, i + 1 as int) is None);
                    lemma_normalize_none_sticks(rm, i + 1 as int, n as int);
                }
                let mut msg = String::new();
                msg.append("bad hub url (http or https needed): ");
                msg.append(t.as_str());
                return Err(msg);
            }
            let mut u = t;
            if u.as_str().get_char(u.unicode_len() - 1) != '/' {
                push_char(&mut u, '/');
            }
            proof {
                assert(u@ =~= spec_norm_url(rm[i as int]));
            }
            if !crate::marsey::contains_str_exec(&out, u.as_str()) {
                out.push(u);
                proof {
                    assert(out@.map_values(|s: String| s@) =~= prev.push(
                        spec_norm_url(rm[i as int]),
                    ));
                }
            }
        }
        i += 1;
    }
    if out.len() == 0 {
        return Err("the hub url list is empty".to_owned());
    }
    Ok(out)
}

/// Picks the hub URLs for a run: the stored list when one was loaded,
/// normalized and non-empty, else the defaults. `stored` is what the
/// settings file held, `None` when it was absent or unreadable.
pub fn load_hub_urls(stored: Option<Vec<String>>) -> (r: Vec<String>)
    ensures
        ({
            let defaults = stored is None || !(spec_normalize_urls(
                stored->0@.map_values(|s: String| s@),
                stored->0@.len() as int,
            ) matches Some(u) && u.len() >= 1);
            &&& (defaults ==> r@.len() == 2 && r@[0]@ == "https://hub.spacestation14.com/"@
                && r@[1]@ == "https://hub.fallback.spacestation14.com/"@)
            &&& (!defaults ==> r@.map_values(|s: String| s@) == spec_normalize_urls(
                stored->0@.map_values(|s: String| s@),
                stored->0@.len() as int,
            )->0)
        }),
{
    match stored {
        Some(raw) => match normalize_and_validate_urls(&raw) {
            Ok(urls) => urls,
            Err(_) => default_hub_urls(),
        },
        None => default_hub_urls(),
    }
}

} // verus!
