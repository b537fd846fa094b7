use vstd::prelude::*;
use vstd::utf8::encode_utf8;

use crate::hexstr::hex_digit_char_upper;
use crate::hexstr::hex_digit_upper;
use crate::resolver::str_eq;
use crate::text::push_char;
use crate::text::trim_ascii;

verus! {

/// What the loader needs to know about the launch when the patch pipes are
/// prepared.
#[derive(Debug)]
pub struct MarseyLaunchContext {
    pub engine_version: String,
    pub fork_id: String,
    pub hide_level: String,
    pub disable_redial: bool,
}

/// One patch DLL as shown to the user.
#[derive(Debug)]
pub struct PatchEntry {
    pub filename: String,
    pub enabled: bool,
    pub name: String,
    pub description: String,
    pub rdnn: String,
}

/// The four payloads sent to the loader over its named pipes.
#[derive(Debug)]
pub struct MarseyPipeBatch {
    pub marsey_conf: String,
    pub preload: String,
    pub marsey: String,
    pub subverter: String,
}

/// What `str::to_lowercase` yields: the Unicode lower-casing of the
/// characters, a function of the input alone.
pub uninterp spec fn lower_of(s: Seq<char>) -> Seq<char>;

/// Relies on `str::to_lowercase`: the result depends on the characters alone.
#[verifier::external_body]
pub(crate) fn normalize_case(s: &str) -> (r: String)
    ensures
        r@ == lower_of(s@),
        s@.len() == 0 ==> r@.len() == 0,
{
    s.to_lowercase()
}

/// The escaped form of a byte run: `%` and every byte in `esc` become `%XX`
/// (upper-case hex); any other byte stands as the character of its value.
pub open spec fn spec_escape_bytes(bytes: Seq<u8>, esc: Seq<u8>) -> Seq<char>
    decreases bytes.len(),
{
    if bytes.len() == 0 {
        Seq::empty()
    } else {
        let b = bytes.last();
        spec_escape_bytes(bytes.drop_last(), esc) + (if b == 0x25 || esc.contains(b) {
            seq!['%', hex_digit_char_upper(b / 16), hex_digit_char_upper(b % 16)]
        } else {
            seq![b as char]
        })
    }
}

/// Escapes `%` and the given delimiter bytes in a string, byte by byte.
pub fn escape_percent_and_bytes(s: &str, bytes_to_escape: &[u8]) -> (r: String)
    ensures
        r@ == spec_escape_bytes(encode_utf8(s@), bytes_to_escape@),
{
    let bytes = s.as_bytes();
    let n = bytes.len();
    let mut out = String::new();
    let mut i: usize = 0;
    while i < n
        invariant
            0 <= i <= n,
            n == bytes@.len(),
            bytes@ == encode_utf8(s@),
            out@ =~= spec_escape_bytes(bytes@.take(i as int), bytes_to_escape@),
        decreases n - i,
    {
        let b = bytes[i];
        let mut escape = b == 0x25;
        let mut j: usize = 0;
        while j < bytes_to_escape.len()
            invariant
                0 <= j <= bytes_to_escape@.len(),
                escape == (b == 0x25 || exists|t: int|
                    0 <= t < j && bytes_to_escape@[t] == b),
            decreases bytes_to_escape@.len() - j,
        {
            if bytes_to_escape[j] == b {
                escape = true;
            }
            j += 1;
        }
        if escape {
            push_char(&mut out, '%');
            push_char(&mut out, hex_digit_upper(b / 16));
            push_char(&mut out, hex_digit_upper(b % 16));
        } else {
            push_char(&mut out, b as char);
        }
        proof {
            assert(bytes@.take(i + 1 as int).drop_last() =~= bytes@.take(i as int));
            assert(bytes@.take(i + 1 as int).last() == b);
            assert(out@ =~= spec_escape_bytes(bytes@.take(i + 1 as int), bytes_to_escape@));
        }
        i += 1;
    }
    proof {
        assert(bytes@.take(n as int) =~= bytes@);
    }
    out
}

/// The pipe token form of one string: `%` and the `,` delimiter escaped.
pub open spec fn spec_pipe_token(s: Seq<char>) -> Seq<char> {
    spec_escape_bytes(encode_utf8(s), seq![0x2c])
}

/// Escapes one token for the comma-delimited patch pipes.
pub fn pipe_encode_token(s: &str) -> (r: String)
    ensures
        r@ == spec_pipe_token(s@),
{
    let delim: [u8; 1] = [0x2c];
    let r = escape_percent_and_bytes(s, delim.as_slice());
    proof {
        assert(delim@ =~= seq![0x2cu8]);
    }
    r
}

/// The comma-joined, escaped form of a token list.
pub open spec fn spec_join_tokens(items: Seq<Seq<char>>, n: int) -> Seq<char>
    decreases n,
{
    if n <= 0 {
        Seq::empty()
    } else if n == 1 {
        spec_pipe_token(items[0])
    } else {
        spec_join_tokens(items, n - 1) + seq![','] + spec_pipe_token(items[n - 1])
    }
}

/// Joins escaped tokens with commas, the pipes' wire form.
pub fn join_pipe_tokens(items: &Vec<String>) -> (r: String)
    ensures
        r@ == spec_join_tokens(
            items@.map_values(|s: String| s@),
            items@.len() as int,
        ),
{
    let ghost m = items@.map_values(|s: String| s@);
    let n = items.len();
    let mut out = String::new();
    let mut i: usize = 0;
    while i < n
        invariant
            0 <= i <= n,
            n == items@.len(),
            m == items@.map_values(|s: String| s@),
            out@ =~= spec_join_tokens(m, i as int),
        decreases n - i,
    {
        if i > 0 {
            push_char(&mut out, ',');
        }
        let tok = pipe_encode_token(items[i].as_str());
        out.append(tok.as_str());
        i += 1;
    }
    out
}

/// The conf-value form of one string: `%` and the `;` and `=` delimiters
/// escaped.
pub open spec fn spec_conf_value(s: Seq<char>) -> Seq<char> {
    spec_escape_bytes(encode_utf8(s), seq![0x3b, 0x3d])
}

/// Escapes one value for the `key=value;...` conf string.
pub fn conf_encode_value(s: &str) -> (r: String)
    ensures
        r@ == spec_conf_value(s@),
{
    let delims: [u8; 2] = [0x3b, 0x3d];
    let r = escape_percent_and_bytes(s, delims.as_slice());
    proof {
        assert(delims@ =~= seq![0x3bu8, 0x3du8]);
    }
    r
}

/// The key/value one conf segment stands for; `None` for blank segments and
/// segments with a blank key.
pub open spec fn spec_kv_of_segment(seg: Seq<char>) -> Option<(Seq<char>, Seq<char>)> {
    let t = crate::text::spec_trim(seg);
    if t.len() == 0 {
        None
    } else {
        let k = crate::text::find_char(t, '=');
        let key = if k == t.len() {
            t
        } else {
            crate::text::spec_trim(t.take(k))
        };
        let val = if k == t.len() {
            Seq::<char>::empty()
        } else {
            crate::text::spec_trim(t.subrange(k + 1, t.len() as int))
        };
        if key.len() == 0 {
            None
        } else {
            Some((key, val))
        }
    }
}

/// The pairs of the first `n` conf segments with `key` overridden to `value`
/// where it occurs, and whether it occurred.
pub open spec fn spec_override_pairs(
    segs: Seq<Seq<char>>,
    n: int,
    key: Seq<char>,
    value: Seq<char>,
) -> (Seq<(Seq<char>, Seq<char>)>, bool)
    decreases n,
{
    if n <= 0 {
        (Seq::empty(), false)
    } else {
        let (rest, replaced) = spec_override_pairs(segs, n - 1, key, value);
        match spec_kv_of_segment(segs[n - 1]) {
            None => (rest, replaced),
            Some((k, v)) => if k == key {
                (rest.push((k, value)), true)
            } else {
                (rest.push((k, v)), replaced)
            },
        }
    }
}

/// The `key=value;...` form of a pair list.
pub open spec fn spec_join_kv(pairs: Seq<(Seq<char>, Seq<char>)>, n: int) -> Seq<char>
    decreases n,
{
    if n <= 0 {
        Seq::empty()
    } else if n == 1 {
        pairs[0].0 + seq!['='] + pairs[0].1
    } else {
        spec_join_kv(pairs, n - 1) + seq![';'] + pairs[n - 1].0 + seq!['='] + pairs[n - 1].1
    }
}

/// The conf string with `key` set to `value`: every existing occurrence is
/// overridden in place, a missing key is appended, and the string is
/// re-joined as `key=value;...`.
pub open spec fn spec_override_conf(conf: Seq<char>, key: Seq<char>, value: Seq<char>) -> Seq<
    char,
> {
    let segs = crate::text::spec_split_char(conf, ';');
    let (pairs, replaced) = spec_override_pairs(segs, segs.len() as int, key, value);
    let all = if replaced {
        pairs
    } else {
        pairs.push((key, value))
    };
    spec_join_kv(all, all.len() as int)
}

/// Sets `key` to `value` in a `key=value;...` conf string, as
/// `spec_override_conf` says.
pub fn override_conf_kv(conf: &str, key: &str, value: &str) -> (r: String)
    ensures
        r@ == spec_override_conf(conf@, key@, value@),
{
    let segs = crate::text::split_char_strings(conf, ';');
    let ghost gsegs = crate::text::spec_split_char(conf@, ';');
    let n = segs.len();
    let mut pairs: Vec<(String, String)> = Vec::new();
    let mut replaced = false;
    let mut i: usize = 0;
    while i < n
        invariant
            0 <= i <= n,
            n == segs@.len(),
            n == gsegs.len(),
            forall|t: int| 0 <= t < n ==> #[trigger] segs@[t]@ == gsegs[t],
            (pairs@.map_values(|p: (String, String)| (p.0@, p.1@)), replaced)
                == spec_override_pairs(gsegs, i as int, key@, value@),
        decreases n - i,
    {
        let ghost prev = pairs@.map_values(|p: (String, String)| (p.0@, p.1@));
        let t = trim_ascii(segs[i].as_str());
        let tn = t.unicode_len();
        if tn > 0 {
            let mut k: usize = 0;
            while k < tn && t.as_str().get_char(k) != '='
                invariant
                    0 <= k <= tn,
                    tn == t@.len(),
                    forall|u: int| 0 <= u < k ==> t@[u] != '=',
                decreases tn - k,
            {
                k += 1;
            }
            proof {
                crate::text::lemma_find_char_at(t@, '=', k as int);
            }
            let kstr: String;
            let vstr: String;
            if k == tn {
                kstr = t;
                vstr = String::new();
            } else {
                kstr = trim_ascii(crate::text::substring_chars(t.as_str(), 0, k).as_str());
                vstr = trim_ascii(crate::text::substring_chars(t.as_str(), k + 1, tn).as_str());
            }
            if kstr.unicode_len() > 0 {
                if str_eq(kstr.as_str(), key) {
                    let mut vnew = String::new();
                    vnew.append(value);
                    proof {
                        assert(vnew@ =~= value@);
                    }
                    pairs.push((kstr, vnew));
                    replaced = true;
                } else {
                    pairs.push((kstr, vstr));
                }
                proof {
                    assert(pairs@.map_values(|p: (String, String)| (p.0@, p.1@)) =~= prev.push(
                        (pairs@.last().0@, pairs@.last().1@),
                    ));
                }
            }
        }
        i += 1;
    }
    if !replaced {
        let ghost prev = pairs@.map_values(|p: (String, String)| (p.0@, p.1@));
        let mut knew = String::new();
        knew.append(key);
        let mut vnew = String::new();
        vnew.append(value);
        proof {
            assert(knew@ =~= key@);
            assert(vnew@ =~= value@);
        }
        pairs.push((knew, vnew));
        proof {
            assert(pairs@.map_values(|p: (String, String)| (p.0@, p.1@)) =~= prev.push(
                (key@, value@),
            ));
        }
    }
    let ghost all = pairs@.map_values(|p: (String, String)| (p.0@, p.1@));
    let m = pairs.len();
    let mut out = String::new();
    let mut j: usize = 0;
    while j < m
        invariant
            0 <= j <= m,
            m == pairs@.len(),
            all == pairs@.map_values(|p: (String, String)| (p.0@, p.1@)),
            out@ =~= spec_join_kv(all, j as int),
        decreases m - j,
    {
        if j > 0 {
            push_char(&mut out, ';');
        }
        out.append(pairs[j].0.as_str());
        push_char(&mut out, '=');
        out.append(pairs[j].1.as_str());
        j += 1;
    }
    out
}

/// The conf string handed to the loader for one launch: fixed switches, then
/// the hide level, the engine version and the fork id, each escaped.
pub open spec fn spec_marsey_conf(
    engine: Seq<char>,
    fork: Seq<char>,
    hide: Seq<char>,
    disable_redial: bool,
) -> Seq<char> {
    "MARSEY_LOGGING=true;MARSEY_LOADER_DEBUG=false;MARSEY_LOADER_TRACE=false;MARSEY_THROW_FAIL=false;MARSEY_SEPARATE_LOGGER=false;MARSEY_DISABLE_STRICT=false;MARSEY_AUTODELETE_HWID=false;MARSEY_DISABLE_PRESENCE=false;MARSEY_FAKE_PRESENCE=false;MARSEY_DUMP_ASSEMBLIES=false;MARSEY_JAMMER="@
        + (if disable_redial {
        "true"@
    } else {
        "false"@
    })
        + ";MARSEY_DISABLE_REC=false;MARSEY_BACKPORTS=true;MARSEY_NO_ANY_BACKPORTS=false;MARSEY_HIDE_LEVEL="@
        + spec_conf_value(hide)
        + ";MARSEY_PATCHLESS=false;MARSEY_ENGINE="@ + spec_conf_value(engine) + ";MARSEY_FORKID="@
        + spec_conf_value(fork)
}

/// Builds the loader conf string for one launch.
pub fn build_marsey_conf_string(ctx: &MarseyLaunchContext) -> (r: String)
    ensures
        r@ == spec_marsey_conf(
            ctx.engine_version@,
            ctx.fork_id@,
            ctx.hide_level@,
            ctx.disable_redial,
        ),
{
    let mut out = String::new();
    out.append(
        "MARSEY_LOGGING=true;MARSEY_LOADER_DEBUG=false;MARSEY_LOADER_TRACE=false;MARSEY_THROW_FAIL=false;MARSEY_SEPARATE_LOGGER=false;MARSEY_DISABLE_STRICT=false;MARSEY_AUTODELETE_HWID=false;MARSEY_DISABLE_PRESENCE=false;MARSEY_FAKE_PRESENCE=false;MARSEY_DUMP_ASSEMBLIES=false;MARSEY_JAMMER=",
    );
    if ctx.disable_redial {
        out.append("true");
    } else {
        out.append("false");
    }
    out.append(
        ";MARSEY_DISABLE_REC=false;MARSEY_BACKPORTS=true;MARSEY_NO_ANY_BACKPORTS=false;MARSEY_HIDE_LEVEL=",
    );
    let hide = conf_encode_value(ctx.hide_level.as_str());
    out.append(hide.as_str());
    out.append(";MARSEY_PATCHLESS=false;MARSEY_ENGINE=");
    let engine = conf_encode_value(ctx.engine_version.as_str());
    out.append(engine.as_str());
    out.append(";MARSEY_FORKID=");
    let fork = conf_encode_value(ctx.fork_id.as_str());
    out.append(fork.as_str());
    out
}

/// Turns loader backports on or off in a conf string: sets
/// `MARSEY_BACKPORTS`, and keeps `MARSEY_NO_ANY_BACKPORTS` the exact
/// opposite so disabling backports disables the "any" variant too.
pub fn with_marsey_backports_enabled(conf: &str, enabled: bool) -> (r: String)
    ensures
        r@ == spec_override_conf(
            spec_override_conf(
                conf@,
                "MARSEY_BACKPORTS"@,
                if enabled {
                    "true"@
                } else {
                    "false"@
                },
            ),
            "MARSEY_NO_ANY_BACKPORTS"@,
            if enabled {
                "false"@
            } else {
                "true"@
            },
        ),
{
    let v = if enabled {
        "true"
    } else {
        "false"
    };
    let conf2 = override_conf_kv(conf, "MARSEY_BACKPORTS", v);
    if enabled {
        override_conf_kv(conf2.as_str(), "MARSEY_NO_ANY_BACKPORTS", "false")
    } else {
        override_conf_kv(conf2.as_str(), "MARSEY_NO_ANY_BACKPORTS", "true")
    }
}

/// Whether some string of `set` equals `x` when both are lower-cased.
pub open spec fn in_lower(set: Seq<Seq<char>>, x: Seq<char>) -> bool {
    exists|i: int| 0 <= i < set.len() && lower_of(#[trigger] set[i]) == lower_of(x)
}

/// The file names of `dlls` (first `n`) that the enabled set admits,
/// compared lower-cased; `None` admits everything.
pub open spec fn spec_filter_enabled(
    dlls: Seq<Seq<char>>,
    enabled: Option<Seq<Seq<char>>>,
    n: int,
) -> Seq<Seq<char>>
    decreases n,
{
    if n <= 0 {
        Seq::empty()
    } else {
        let rest = spec_filter_enabled(dlls, enabled, n - 1);
        let keep = match enabled {
            None => true,
            Some(set) => in_lower(set, dlls[n - 1]),
        };
        if keep {
            rest.push(dlls[n - 1])
        } else {
            rest
        }
    }
}

fn in_lower_exec(set: &Vec<String>, x: &str) -> (r: bool)
    ensures
        r == in_lower(set@.map_values(|s: String| s@), x@),
{
    let ghost m = set@.map_values(|s: String| s@);
    let xl = normalize_case(x);
    let n = set.len();
    let mut i: usize = 0;
    while i < n
        invariant
            0 <= i <= n,
            n == set@.len(),
            m == set@.map_values(|s: String| s@),
            xl@ == lower_of(x@),
            forall|t: int| 0 <= t < i ==> lower_of(#[trigger] m[t]) != lower_of(x@),
        decreases n - i,
    {
        let el = normalize_case(set[i].as_str());
        if str_eq(el.as_str(), xl.as_str()) {
            assert(lower_of(m[i as int]) == lower_of(x@));
            return true;
        }
        i += 1;
    }
    false
}

/// Keeps the DLL names the enabled list admits, compared without regard to
/// case; with no list everything is kept.
pub fn filter_enabled_mod_dlls(dlls: Vec<String>, enabled: &Option<Vec<String>>) -> (r: Vec<
    String,
>)
    ensures
        r@.map_values(|s: String| s@) == spec_filter_enabled(
            dlls@.map_values(|s: String| s@),
            match enabled {
                Some(e) => Some(e@.map_values(|s: String| s@)),
                None => None,
            },
            dlls@.len() as int,
        ),
{
    let ghost dm = dlls@.map_values(|s: String| s@);
    let ghost em = match enabled {
        Some(e) => Some(e@.map_values(|s: String| s@)),
        None => None,
    };
    let n = dlls.len();
    let mut out: Vec<String> = Vec::new();
    let mut i: usize = 0;
    while i < n
        invariant
            0 <= i <= n,
            n == dlls@.len(),
            dm == dlls@.map_values(|s: String| s@),
            em == (match enabled {
                Some(e) => Some(e@.map_values(|s: String| s@)),
                None => None,
            }),
            out@.map_values(|s: String| s@) =~= spec_filter_enabled(dm, em, i as int),
        decreases n - i,
    {
        let ghost prev = out@.map_values(|s: String| s@);
        let keep = match enabled {
            None => true,
            Some(set) => in_lower_exec(set, dlls[i].as_str()),
        };
        if keep {
            out.push(dlls[i].clone());
            proof {
                assert(out@.map_values(|s: String| s@) =~= prev.push(dm[i as int]));
            }
        }
        i += 1;
    }
    out
}

/// Whether some string of `xs` equals `x` exactly.
pub open spec fn contains_str(xs: Seq<Seq<char>>, x: Seq<char>) -> bool {
    exists|i: int| 0 <= i < xs.len() && xs[i] == x
}

/// The merged Marsey token list: the classified patches, then every other
/// enabled DLL that is neither a preload nor a subverter patch (compared
/// lower-cased) and not already present.
pub open spec fn spec_merge_marsey(
    marsey: Seq<Seq<char>>,
    preload: Seq<Seq<char>>,
    subverter: Seq<Seq<char>>,
    all: Seq<Seq<char>>,
    n: int,
) -> Seq<Seq<char>>
    decreases n,
{
    if n <= 0 {
        marsey
    } else {
        let rest = spec_merge_marsey(marsey, preload, subverter, all, n - 1);
        let p = all[n - 1];
        if in_lower(preload, p) || in_lower(subverter, p) || contains_str(rest, p) {
            rest
        } else {
            rest.push(p)
        }
    }
}

pub fn contains_str_exec(xs: &Vec<String>, x: &str) -> (r: bool)
    ensures
        r == contains_str(xs@.map_values(|s: String| s@), x@),
{
    let ghost m = xs@.map_values(|s: String| s@);
    let n = xs.len();
    let mut i: usize = 0;
    while i < n
        invariant
            0 <= i <= n,
            n == xs@.len(),
            m == xs@.map_values(|s: String| s@),
            forall|t: int| 0 <= t < i ==> #[trigger] m[t] != x@,
        decreases n - i,
    {
        if str_eq(xs[i].as_str(), x) {
            assert(m[i as int] == x@);
            return true;
        }
        i += 1;
    }
    false
}

/// Prepares the four pipe payloads for one launch from the scanned patch
/// lists: classified preload/marsey/subverter tokens, every other enabled
/// DLL folded into the Marsey list (appended in the given order), and the
/// conf string for the launch context. When the scanner classified nothing,
/// all enabled DLLs are sent over the Marsey pipe.
pub fn prepare_pipes_for_launch(
    preload: &Vec<String>,
    marsey: &Vec<String>,
    subverter: &Vec<String>,
    all_enabled: &Vec<String>,
    ctx: &MarseyLaunchContext,
) -> (r: MarseyPipeBatch)
    ensures
        ({
            let pm = preload@.map_values(|s: String| s@);
            let mm = marsey@.map_values(|s: String| s@);
            let sm = subverter@.map_values(|s: String| s@);
            let am = all_enabled@.map_values(|s: String| s@);
            let merged = if am.len() > 0 {
                spec_merge_marsey(mm, pm, sm, am, am.len() as int)
            } else {
                mm
            };
            let final_marsey = if pm.len() == 0 && merged.len() == 0 && sm.len() == 0 {
                am
            } else {
                merged
            };
            &&& r.marsey_conf@ == spec_marsey_conf(
                ctx.engine_version@,
                ctx.fork_id@,
                ctx.hide_level@,
                ctx.disable_redial,
            )
            &&& r.preload@ == spec_join_tokens(pm, pm.len() as int)
            &&& r.subverter@ == spec_join_tokens(sm, sm.len() as int)
            &&& r.marsey@ == spec_join_tokens(final_marsey, final_marsey.len() as int)
        }),
{
    let ghost pm = preload@.map_values(|s: String| s@);
    let ghost mm = marsey@.map_values(|s: String| s@);
    let ghost sm = subverter@.map_values(|s: String| s@);
    let ghost am = all_enabled@.map_values(|s: String| s@);
    let mut merged: Vec<String> = Vec::new();
    let mut i: usize = 0;
    while i < marsey.len()
        invariant
            0 <= i <= marsey@.len(),
            mm == marsey@.map_values(|s: String| s@),
            merged@.map_values(|s: String| s@) =~= mm.take(i as int),
        decreases marsey@.len() - i,
    {
        let ghost prev = merged@.map_values(|s: String| s@);
        merged.push(marsey[i].clone());
        proof {
            assert(merged@.map_values(|s: String| s@) =~= prev.push(mm[i as int]));
            assert(mm.take(i + 1 as int) =~= mm.take(i as int).push(mm[i as int]));
        }
        i += 1;
    }
    proof {
        assert(mm.take(marsey@.len() as int) =~= mm);
    }
    if all_enabled.len() > 0 {
        let n = all_enabled.len();
        let mut k: usize = 0;
        while k < n
            invariant
                0 <= k <= n,
                n == all_enabled@.len(),
                pm == preload@.map_values(|s: String| s@),
                sm == subverter@.map_values(|s: String| s@),
                am == all_enabled@.map_values(|s: String| s@),
                merged@.map_values(|s: String| s@) =~= spec_merge_marsey(
                    mm,
                    pm,
                    sm,
                    am,
                    k as int,
                ),
            decreases n - k,
        {
            let ghost prev = merged@.map_values(|s: String| s@);
            let p = &all_enabled[k];
            let skip = in_lower_exec(preload, p.as_str()) || in_lower_exec(
                subverter,
                p.as_str(),
            ) || contains_str_exec(&merged, p.as_str());
            if !skip {
                merged.push(p.clone());
                proof {
                    assert(merged@.map_values(|s: String| s@) =~= prev.push(am[k as int]));
                }
            }
            k += 1;
        }
    }
    let use_fallback = preload.len() == 0 && merged.len() == 0 && subverter.len() == 0;
    let marsey_joined = if use_fallback {
        join_pipe_tokens(all_enabled)
    } else {
        join_pipe_tokens(&merged)
    };
    MarseyPipeBatch {
        marsey_conf: build_marsey_conf_string(ctx),
        preload: join_pipe_tokens(preload),
        marsey: marsey_joined,
        subverter: join_pipe_tokens(subverter),
    }
}

} // verus!
