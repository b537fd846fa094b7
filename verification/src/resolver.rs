use vstd::prelude::*;

use crate::text::ascii_lower;
use crate::text::eq_str_ignore_ascii_case;

verus! {

/// Redirect chains longer than this are treated as cycles and rejected, so a
/// malformed manifest cannot make resolution loop forever.
pub const REDIRECT_HOP_LIMIT: u32 = 16;

/// One downloadable engine artifact of a version, for one platform RID.
#[derive(Debug, Clone)]
pub struct PlatformBuild {
    pub rid: String,
    pub url: String,
    pub sha256: String,
    pub signature: String,
}

/// One version record of the engine-build manifest.
#[derive(Debug, Clone)]
pub struct EngineVersionEntry {
    pub version: String,
    pub insecure: bool,
    pub redirect: Option<String>,
    pub platforms: Vec<PlatformBuild>,
}

/// The resolved engine build: where to download it and what it must hash and
/// sign to.
#[derive(Debug, Clone)]
pub struct RobustEngineBuild {
    pub requested_version: String,
    pub resolved_version: String,
    pub url: String,
    pub sha256: String,
    pub signature: String,
}

/// Why resolution failed. Fetching the manifest itself is the caller's step;
/// its failure (`ManifestUnavailable`) is reported there.
#[derive(Debug, Clone, PartialEq, Eq)]
pub enum ResolveError {
    /// The requested version or a redirect target is absent from the manifest.
    UnknownVersion,
    /// The redirect chain did not terminate within the hop limit.
    RedirectCycle,
    /// The resolved entry is flagged insecure.
    InsecureVersion,
    /// The resolved entry has no artifact at all for this platform.
    NoPlatformBuild,
}

/// Index of the first manifest entry for version `v` (`m.len()` when absent).
pub open spec fn find_version(m: Seq<EngineVersionEntry>, v: Seq<char>) -> int
    decreases m.len(),
{
    if m.len() == 0 {
        0
    } else if m[0].version@ == v {
        0
    } else {
        1 + find_version(m.skip(1), v)
    }
}

proof fn lemma_find_version_at(m: Seq<EngineVersionEntry>, v: Seq<char>, k: int)
    requires
        0 <= k <= m.len(),
        forall|t: int| 0 <= t < k ==> (#[trigger] m[t]).version@ != v,
        k < m.len() ==> m[k].version@ == v,
    ensures
        find_version(m, v) == if k < m.len() {
            k
        } else {
            m.len() as int
        },
    decreases m.len(),
{
    if m.len() == 0 {
    } else if m[0].version@ == v {
        assert(k == 0);
    } else {
        assert(k >= 1);
        lemma_find_version_at(m.skip(1), v, k - 1);
        assert(forall|t: int| 0 <= t < k - 1 ==> m.skip(1)[t] == m[t + 1]);
        if k < m.len() {
            assert(m.skip(1)[k - 1] == m[k]);
        }
    }
}

proof fn lemma_find_version_bounds(m: Seq<EngineVersionEntry>, v: Seq<char>)
    ensures
        0 <= find_version(m, v) <= m.len(),
        find_version(m, v) < m.len() ==> m[find_version(m, v)].version@ == v,
    decreases m.len(),
{
    if m.len() > 0 && m[0].version@ != v {
        lemma_find_version_bounds(m.skip(1), v);
        if find_version(m, v) < m.len() {
            assert(m.skip(1)[find_version(m.skip(1), v)] == m[find_version(m, v)]);
        }
    }
}

/// Resolution of version `v` against the manifest, following up to `fuel`
/// redirect hops: the terminal version and its entry's index, or the error.
pub open spec fn spec_follow(m: Seq<EngineVersionEntry>, v: Seq<char>, fuel: nat) -> Result<
    (Seq<char>, int),
    ResolveError,
>
    decreases fuel,
{
    let i = find_version(m, v);
    if i == m.len() {
        Err(ResolveError::UnknownVersion)
    } else if m[i].redirect is None {
        Ok((v, i))
    } else if fuel == 0 {
        Err(ResolveError::RedirectCycle)
    } else {
        spec_follow(m, m[i].redirect->0@, (fuel - 1) as nat)
    }
}

/// Compares two strings for equality.
pub fn str_eq(a: &str, b: &str) -> (r: bool)
    ensures
        r == (a@ == b@),
{
    let sa = a.to_owned();
    let sb = b.to_owned();
    sa == sb
}

fn lookup_version(manifest: &Vec<EngineVersionEntry>, v: &str) -> (r: Option<usize>)
    ensures
        r is Some <==> find_version(manifest@, v@) < manifest@.len(),
        r is Some ==> r->0 == find_version(manifest@, v@),
{
    let n = manifest.len();
    let mut i: usize = 0;
    while i < n
        invariant
            0 <= i <= n,
            n == manifest@.len(),
            forall|t: int| 0 <= t < i ==> (#[trigger] manifest@[t]).version@ != v@,
        decreases n - i,
    {
        if str_eq(manifest[i].version.as_str(), v) {
            proof {
                lemma_find_version_at(manifest@, v@, i as int);
            }
            return Some(i);
        }
        i += 1;
    }
    proof {
        lemma_find_version_at(manifest@, v@, n as int);
    }
    None
}

/// Follows `redirect` references from the requested version until an entry
/// with no redirect is reached. Fails with `UnknownVersion` when the
/// requested or any redirect-target version is absent, and with
/// `RedirectCycle` when the chain does not terminate within the hop limit.
pub fn follow_redirects(manifest: &Vec<EngineVersionEntry>, requested: &str) -> (r: Result<
    (String, usize),
    ResolveError,
>)
    ensures
        match spec_follow(manifest@, requested@, REDIRECT_HOP_LIMIT as nat) {
            Ok((rv, idx)) => r is Ok && r->Ok_0.0@ == rv && r->Ok_0.1 == idx,
            Err(e) => r is Err && r->Err_0 == e,
        },
{
    let mut current: String = requested.to_owned();
    let mut fuel: u32 = REDIRECT_HOP_LIMIT;
    loop
        invariant
            spec_follow(manifest@, requested@, REDIRECT_HOP_LIMIT as nat) == spec_follow(
                manifest@,
                current@,
                fuel as nat,
            ),
        decreases fuel,
    {
        let idx = match lookup_version(manifest, current.as_str()) {
            Some(i) => i,
            None => {
                proof {
                    lemma_find_version_bounds(manifest@, current@);
                }
                return Err(ResolveError::UnknownVersion);
            },
        };
        match &manifest[idx].redirect {
            None => {
                return Ok((current, idx));
            },
            Some(next) => {
                if fuel == 0 {
                    return Err(ResolveError::RedirectCycle);
                }
                current = next.clone();
                fuel = fuel - 1;
            },
        }
    }
}

/// A version with no redirect resolves to itself, whatever the hop budget.
pub proof fn lemma_resolve_no_redirect(m: Seq<EngineVersionEntry>, v: Seq<char>, fuel: nat)
    requires
        find_version(m, v) < m.len(),
        m[find_version(m, v)].redirect is None,
    ensures
        spec_follow(m, v, fuel) == Ok::<_, ResolveError>((v, find_version(m, v))),
{
}

/// A resolved version is terminal: its own entry has no redirect left to
/// follow, so a chain of any admitted length ends at a redirect-free entry.
pub proof fn lemma_resolved_is_terminal(m: Seq<EngineVersionEntry>, v: Seq<char>, fuel: nat)
    ensures
        spec_follow(m, v, fuel) matches Ok((rv, idx)) ==> {
            &&& idx == find_version(m, rv)
            &&& idx < m.len()
            &&& m[idx].redirect is None
        },
    decreases fuel,
{
    lemma_find_version_bounds(m, v);
    let i = find_version(m, v);
    if i == m.len() {
    } else if m[i].redirect is None {
        assert(spec_follow(m, v, fuel) == Ok::<_, ResolveError>((v, i)));
    } else if fuel > 0 {
        lemma_resolved_is_terminal(m, m[i].redirect->0@, (fuel - 1) as nat);
    }
}

/// A version that redirects to itself is rejected, whatever the hop budget.
pub proof fn lemma_self_redirect_rejected(m: Seq<EngineVersionEntry>, v: Seq<char>, fuel: nat)
    requires
        find_version(m, v) < m.len(),
        m[find_version(m, v)].redirect matches Some(next) && next@ == v,
    ensures
        spec_follow(m, v, fuel) == Err::<(Seq<char>, int), _>(ResolveError::RedirectCycle),
    decreases fuel,
{
    if fuel > 0 {
        lemma_self_redirect_rejected(m, v, (fuel - 1) as nat);
    }
}

/// The ordered platform-RID candidates for an OS/architecture pair.
pub open spec fn spec_candidates(os: Seq<char>, arch: Seq<char>) -> Seq<Seq<char>> {
    if os == "windows"@ && arch == "x86_64"@ {
        seq!["win-x64"@, "win-x86"@]
    } else if os == "windows"@ && arch == "x86"@ {
        seq!["win-x86"@, "win-x64"@]
    } else if os == "windows"@ && arch == "aarch64"@ {
        seq!["win-arm64"@, "win-x64"@]
    } else if os == "linux"@ && arch == "x86_64"@ {
        seq!["linux-x64"@]
    } else if os == "linux"@ && arch == "aarch64"@ {
        seq!["linux-arm64"@]
    } else if os == "macos"@ && arch == "aarch64"@ {
        seq!["osx-arm64"@]
    } else if os == "macos"@ && arch == "x86_64"@ {
        seq!["osx-x64"@]
    } else {
        Seq::empty()
    }
}

/// Builds the candidate RID list for the given OS and architecture names (as
/// the compiler's `OS`/`ARCH` constants give them).
pub fn platform_candidates(os: &str, arch: &str) -> (r: Vec<String>)
    ensures
        r@.map_values(|s: String| s@) == spec_candidates(os@, arch@),
{
    let mut out: Vec<String> = Vec::new();
    if str_eq(os, "windows") && str_eq(arch, "x86_64") {
        out.push("win-x64".to_owned());
        out.push("win-x86".to_owned());
    } else if str_eq(os, "windows") && str_eq(arch, "x86") {
        out.push("win-x86".to_owned());
        out.push("win-x64".to_owned());
    } else if str_eq(os, "windows") && str_eq(arch, "aarch64") {
        out.push("win-arm64".to_owned());
        out.push("win-x64".to_owned());
    } else if str_eq(os, "linux") && str_eq(arch, "x86_64") {
        out.push("linux-x64".to_owned());
    } else if str_eq(os, "linux") && str_eq(arch, "aarch64") {
        out.push("linux-arm64".to_owned());
    } else if str_eq(os, "macos") && str_eq(arch, "aarch64") {
        out.push("osx-arm64".to_owned());
    } else if str_eq(os, "macos") && str_eq(arch, "x86_64") {
        out.push("osx-x64".to_owned());
    }
    proof {
        assert(out@.map_values(|s: String| s@) =~= spec_candidates(os@, arch@));
    }
    out
}

/// Index of the first platform whose RID equals `c` up to ASCII case
/// (`platforms.len()` when none does).
pub open spec fn find_rid(platforms: Seq<PlatformBuild>, c: Seq<char>) -> int
    decreases platforms.len(),
{
    if platforms.len() == 0 {
        0
    } else if ascii_lower(platforms[0].rid@) == ascii_lower(c) {
        0
    } else {
        1 + find_rid(platforms.skip(1), c)
    }
}

proof fn lemma_find_rid_at(platforms: Seq<PlatformBuild>, c: Seq<char>, k: int)
    requires
        0 <= k <= platforms.len(),
        forall|t: int|
            0 <= t < k ==> ascii_lower((#[trigger] platforms[t]).rid@) != ascii_lower(c),
        k < platforms.len() ==> ascii_lower(platforms[k].rid@) == ascii_lower(c),
    ensures
        find_rid(platforms, c) == if k < platforms.len() {
            k
        } else {
            platforms.len() as int
        },
    decreases platforms.len(),
{
    if platforms.len() == 0 {
    } else if ascii_lower(platforms[0].rid@) == ascii_lower(c) {
        assert(k == 0);
    } else {
        assert(k >= 1);
        lemma_find_rid_at(platforms.skip(1), c, k - 1);
        assert(forall|t: int| 0 <= t < k - 1 ==> platforms.skip(1)[t] == platforms[t + 1]);
        if k < platforms.len() {
            assert(platforms.skip(1)[k - 1] == platforms[k]);
        }
    }
}

/// The platform picked for a candidate list: the first candidate that some
/// RID matches case-insensitively wins (with the manifest's own casing);
/// when no candidate matches, the first platform in manifest order is the
/// fallback; `None` only when there are no platforms at all.
pub open spec fn spec_pick(platforms: Seq<PlatformBuild>, candidates: Seq<Seq<char>>) -> Option<
    int,
>
    decreases candidates.len(),
{
    if candidates.len() == 0 {
        if platforms.len() > 0 {
            Some(0int)
        } else {
            None
        }
    } else {
        let i = find_rid(platforms, candidates[0]);
        if i < platforms.len() {
            Some(i)
        } else {
            spec_pick(platforms, candidates.skip(1))
        }
    }
}

proof fn lemma_find_rid_bounds(platforms: Seq<PlatformBuild>, c: Seq<char>)
    ensures
        0 <= find_rid(platforms, c) <= platforms.len(),
    decreases platforms.len(),
{
    if platforms.len() > 0 && ascii_lower(platforms[0].rid@) != ascii_lower(c) {
        lemma_find_rid_bounds(platforms.skip(1), c);
    }
}

/// Whatever platform the pick lands on lies inside the entry's list.
pub proof fn lemma_spec_pick_bounds(platforms: Seq<PlatformBuild>, candidates: Seq<Seq<char>>)
    ensures
        spec_pick(platforms, candidates) matches Some(i) ==> 0 <= i < platforms.len(),
    decreases candidates.len(),
{
    if candidates.len() > 0 {
        lemma_find_rid_bounds(platforms, candidates[0]);
        lemma_spec_pick_bounds(platforms, candidates.skip(1));
    }
}

fn find_rid_exec(platforms: &Vec<PlatformBuild>, c: &str) -> (r: Option<usize>)
    ensures
        r is Some <==> find_rid(platforms@, c@) < platforms@.len(),
        r is Some ==> r->0 == find_rid(platforms@, c@),
{
    let n = platforms.len();
    let mut i: usize = 0;
    while i < n
        invariant
            0 <= i <= n,
            n == platforms@.len(),
            forall|t: int|
                0 <= t < i ==> ascii_lower((#[trigger] platforms@[t]).rid@) != ascii_lower(c@),
        decreases n - i,
    {
        if eq_str_ignore_ascii_case(platforms[i].rid.as_str(), c) {
            proof {
                lemma_find_rid_at(platforms@, c@, i as int);
            }
            return Some(i);
        }
        i += 1;
    }
    proof {
        lemma_find_rid_at(platforms@, c@, n as int);
    }
    None
}

/// Picks the artifact for this machine: the candidates in order, matched
/// against the RIDs case-insensitively; the first platform in manifest order
/// as a fallback; `None` when the entry has no platforms.
pub fn pick_best_rid(platforms: &Vec<PlatformBuild>, candidates: &Vec<String>) -> (r: Option<
    usize,
>)
    ensures
        match spec_pick(platforms@, candidates@.map_values(|s: String| s@)) {
            Some(i) => r is Some && r->0 == i,
            None => r is None,
        },
{
    let ghost cs = candidates@.map_values(|s: String| s@);
    proof {
        assert(cs.skip(0) =~= cs);
    }
    let n = candidates.len();
    let mut k: usize = 0;
    while k < n
        invariant
            0 <= k <= n,
            n == candidates@.len(),
            cs == candidates@.map_values(|s: String| s@),
            spec_pick(platforms@, cs) == spec_pick(platforms@, cs.skip(k as int)),
        decreases n - k,
    {
        let ghost pre = cs.skip(k as int);
        assert(pre[0] == cs[k as int]);
        match find_rid_exec(platforms, candidates[k].as_str()) {
            Some(i) => {
                return Some(i);
            },
            None => {},
        }
        k += 1;
        proof {
            assert(pre.skip(1) =~= cs.skip(k as int));
        }
    }
    proof {
        assert(cs.skip(n as int) =~= Seq::<Seq<char>>::empty());
    }
    if platforms.len() > 0 {
        Some(0)
    } else {
        None
    }
}

/// Resolves a requested engine version to a concrete downloadable artifact:
/// follows redirects to the terminal version, rejects entries flagged
/// insecure, and selects the artifact for this platform. The caller fetches
/// the manifest and supplies the running OS and architecture names.
pub fn resolve_engine_build(
    manifest: &Vec<EngineVersionEntry>,
    engine_version: &str,
    os: &str,
    arch: &str,
) -> (r: Result<RobustEngineBuild, ResolveError>)
    ensures
        match spec_follow(manifest@, engine_version@, REDIRECT_HOP_LIMIT as nat) {
            Err(e) => r is Err && r->Err_0 == e,
            Ok((rv, idx)) => {
                let entry = manifest@[idx];
                if entry.insecure {
                    r is Err && r->Err_0 == ResolveError::InsecureVersion
                } else {
                    match spec_pick(
                        entry.platforms@,
                        spec_candidates(os@, arch@),
                    ) {
                        None => r is Err && r->Err_0 == ResolveError::NoPlatformBuild,
                        Some(p) => {
                            let build = entry.platforms@[p];
                            &&& r is Ok
                            &&& r->Ok_0.requested_version@ == engine_version@
                            &&& r->Ok_0.resolved_version@ == rv
                            &&& r->Ok_0.url@ == build.url@
                            &&& r->Ok_0.sha256@ == build.sha256@
                            &&& r->Ok_0.signature@ == build.signature@
                        },
                    }
                }
            },
        },
{
    let (resolved_version, idx) = match follow_redirects(manifest, engine_version) {
        Ok(v) => v,
        Err(e) => {
            return Err(e);
        },
    };
    proof {
        lemma_resolved_is_terminal(manifest@, engine_version@, REDIRECT_HOP_LIMIT as nat);
    }
    let entry = &manifest[idx];
    if entry.insecure {
        return Err(ResolveError::InsecureVersion);
    }
    let candidates = platform_candidates(os, arch);
    let p = match pick_best_rid(&entry.platforms, &candidates) {
        Some(p) => p,
        None => {
            return Err(ResolveError::NoPlatformBuild);
        },
    };
    proof {
        lemma_spec_pick_bounds(entry.platforms@, spec_candidates(os@, arch@));
    }
    let build = &entry.platforms[p];
    Ok(
        RobustEngineBuild {
            requested_version: engine_version.to_owned(),
            resolved_version,
            url: build.url.clone(),
            sha256: build.sha256.clone(),
            signature: build.signature.clone(),
        },
    )
}

} // verus!
