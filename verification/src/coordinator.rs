use vstd::prelude::*;

use crate::errors::AcquireError;
use crate::hexstr::eq_hex_case_insensitive;
use crate::server_info::ServerBuildInformation;
use crate::text::eq_ignore_ascii_case_spec;
use crate::text::sanitize_char;
use crate::text::sanitize_dir_component;
use crate::text::spec_trim;
use crate::text::trim_ascii;

verus! {

/// The trimmed content of an optional field, when it is given and not blank.
pub open spec fn spec_opt_field(o: Option<String>) -> Option<Seq<char>> {
    match o {
        Some(s) => if spec_trim(s@).len() > 0 {
            Some(spec_trim(s@))
        } else {
            None
        },
        None => None,
    }
}

/// The trimmed value of an optional field, `None` when absent or blank.
pub fn opt_field(o: &Option<String>) -> (r: Option<String>)
    ensures
        match spec_opt_field(*o) {
            Some(v) => r matches Some(s) && s@ == v,
            None => r is None,
        },
{
    match o {
        Some(s) => {
            let t = trim_ascii(s.as_str());
            if t.unicode_len() > 0 {
                Some(t)
            } else {
                None
            }
        },
        None => None,
    }
}

/// A sanitized directory name.
pub open spec fn spec_sanitized(s: Seq<char>) -> Seq<char> {
    s.map_values(|c: char| sanitize_char(c))
}

/// The identity key a server's content is cached under: the expected content
/// hash when given, else the manifest hash, else the content version string.
pub open spec fn spec_content_key(b: ServerBuildInformation) -> Seq<char> {
    match spec_opt_field(b.hash) {
        Some(h) => h,
        None => match spec_opt_field(b.manifest_hash) {
            Some(m) => m,
            None => b.version@,
        },
    }
}

/// Derives the content cache key, as `spec_content_key` says.
pub fn content_cache_key(b: &ServerBuildInformation) -> (r: String)
    ensures
        r@ == spec_content_key(*b),
{
    if let Some(h) = opt_field(&b.hash) {
        return h;
    }
    if let Some(m) = opt_field(&b.manifest_hash) {
        return m;
    }
    let mut out = String::new();
    out.append(b.version.as_str());
    proof {
        assert(out@ =~= b.version@);
    }
    out
}

/// Where the monolithic content zip of this build lives, relative to the
/// data directory.
pub open spec fn spec_content_zip_rel(b: ServerBuildInformation) -> Seq<char> {
    "content/"@ + spec_sanitized(spec_content_key(b)) + "/client.zip"@
}

/// The marker beside the content zip saying it was produced by incremental
/// sync (and so is exempt from the monolithic hash check).
pub open spec fn spec_content_marker_rel(b: ServerBuildInformation) -> Seq<char> {
    "content/"@ + spec_sanitized(spec_content_key(b)) + "/client.zip.acz_overlay"@
}

/// Where the incremental-sync overlay of this manifest lives, keyed by the
/// manifest hash; `None` when the build advertises no manifest hash.
pub open spec fn spec_overlay_zip_rel(b: ServerBuildInformation) -> Option<Seq<char>> {
    match spec_opt_field(b.manifest_hash) {
        Some(mh) => Some("content_overlay_cache/"@ + spec_sanitized(mh) + "/client.zip"@),
        None => None,
    }
}

pub open spec fn spec_overlay_marker_rel(b: ServerBuildInformation) -> Option<Seq<char>> {
    match spec_opt_field(b.manifest_hash) {
        Some(mh) => Some(
            "content_overlay_cache/"@ + spec_sanitized(mh) + "/client.zip.acz_overlay"@,
        ),
        None => None,
    }
}

fn content_dir_paths(b: &ServerBuildInformation) -> (r: (String, String))
    ensures
        r.0@ == spec_content_zip_rel(*b),
        r.1@ == spec_content_marker_rel(*b),
{
    let key = content_cache_key(b);
    let safe = sanitize_dir_component(key.as_str());
    let mut zip = String::new();
    zip.append("content/");
    zip.append(safe.as_str());
    zip.append("/client.zip");
    let mut marker = String::new();
    marker.append("content/");
    marker.append(safe.as_str());
    marker.append("/client.zip.acz_overlay");
    proof {
        assert(zip@ =~= spec_content_zip_rel(*b));
        assert(marker@ =~= spec_content_marker_rel(*b));
    }
    (zip, marker)
}

fn overlay_paths(b: &ServerBuildInformation) -> (r: Option<(String, String)>)
    ensures
        r is Some <==> spec_overlay_zip_rel(*b) is Some,
        r matches Some((zip, marker)) ==> zip@ == spec_overlay_zip_rel(*b)->0 && marker@
            == spec_overlay_marker_rel(*b)->0,
{
    match opt_field(&b.manifest_hash) {
        Some(mh) => {
            let safe = sanitize_dir_component(mh.as_str());
            let mut zip = String::new();
            zip.append("content_overlay_cache/");
            zip.append(safe.as_str());
            zip.append("/client.zip");
            let mut marker = String::new();
            marker.append("content_overlay_cache/");
            marker.append(safe.as_str());
            marker.append("/client.zip.acz_overlay");
            proof {
                assert(zip@ =~= spec_overlay_zip_rel(*b)->0);
                assert(marker@ =~= spec_overlay_marker_rel(*b)->0);
            }
            Some((zip, marker))
        },
        None => None,
    }
}

/// An HTTP status that looks like CDN auth protection: the monolithic zip is
/// present but refused, so the manifest pipeline is worth trying.
pub open spec fn spec_auth_like(status: u16) -> bool {
    status == 401 || status == 403
}

/// A status on which the same-origin self-hosted fallback zip is tried:
/// auth-style rejections and plain not-found.
pub open spec fn spec_fallback_status(status: u16) -> bool {
    status == 401 || status == 403 || status == 404
}

/// Whether a failed monolithic download with this status should be retried
/// against the server's own fallback zip URL (only when that URL differs
/// from the primary).
pub fn should_try_self_hosted_fallback(status: u16, primary: &str, fallback: &str) -> (r:
    bool)
    ensures
        r == (spec_fallback_status(status) && !eq_ignore_ascii_case_spec(
            spec_trim(fallback@),
            spec_trim(primary@),
        )),
{
    let status_ok = status == 401 || status == 403 || status == 404;
    if !status_ok {
        return false;
    }
    !eq_hex_case_insensitive(fallback, primary)
}

/// How one monolithic download attempt ended, as the driver reports it.
#[derive(Debug)]
pub enum DownloadOutcome {
    /// The bytes are on disk at the destination.
    Success,
    /// A non-success HTTP status, with the driver's diagnostic line.
    HttpStatus { status: u16, detail: String },
    /// A transport failure (connect, timeout, read), with its diagnostic.
    Transport { detail: String },
}

/// Where the acquisition currently stands.
#[derive(Debug)]
pub enum FlowState {
    /// Waiting for the overlay-cache probe.
    ProbingOverlay,
    /// Waiting for the probe of the keyed content zip and its marker.
    ProbingContent,
    /// Waiting for the digest of a zip found on disk.
    VerifyingExisting,
    /// Waiting for the monolithic download to end.
    Downloading,
    /// Waiting for the digest of the zip just downloaded.
    VerifyingDownloaded,
    /// Waiting for the incremental manifest sync to end.
    Syncing,
    /// Waiting for the marker files to be written.
    Stamping,
    Finished,
    Failed,
}

/// What the driver observed, handed to `step`.
#[derive(Debug)]
pub enum OverlayEvent {
    /// Both the overlay zip and its marker exist.
    OverlayCacheProbe { hit: bool },
    /// Whether the keyed content zip and its sync marker exist.
    ContentProbe { zip_exists: bool, marker_exists: bool },
    /// The hex SHA-256 of the zip under inspection.
    ZipHashed { hex: String },
    /// The zip could not be read back.
    HashFailed { detail: String },
    DownloadFinished { outcome: DownloadOutcome },
    /// Whether the manifest sync populated the target zip; on failure the
    /// driver's combined diagnostic (the zip failure and the sync failure).
    SyncFinished { ok: bool, detail: String },
    MarkersWritten,
}

/// What the driver must do next. Paths are relative to the data directory.
/// Before each action with side effects the driver checks the cancel flag.
#[derive(Debug)]
pub enum OverlayAction {
    /// Check whether both paths exist.
    ProbeOverlayCache { zip_rel: String, marker_rel: String },
    /// Check whether the zip and the marker exist.
    ProbeContentZip { zip_rel: String, marker_rel: String },
    /// Compute the hex SHA-256 of the file.
    HashZip { zip_rel: String },
    /// Download `url` to `dest_rel` (exact bytes, no transfer encoding),
    /// consulting `should_try_self_hosted_fallback` with `fallback_url` on a
    /// failing status. `delete_zip_first` says a stale zip must go first;
    /// `delete_stale_marker` says a leftover sync marker must go.
    DownloadZip {
        url: String,
        fallback_url: Option<String>,
        dest_rel: String,
        delete_zip_first: bool,
        delete_stale_marker: bool,
    },
    /// Remove the partial zip and run the incremental manifest sync into
    /// `out_zip_rel`.
    RunManifestSync { out_zip_rel: String },
    /// Write the given marker files.
    WriteMarkers { content_marker: Option<String>, overlay_marker: Option<String> },
    /// The overlay is ready at this path.
    Finish { zip_rel: String },
    /// The acquisition failed.
    Fail { error: AcquireError },
    /// Remove the zip (its bytes are wrong) and fail.
    FailAndRemoveZip { zip_rel: String, error: AcquireError },
}

/// Which events a state is waiting for.
pub open spec fn event_fits(st: FlowState, ev: OverlayEvent) -> bool {
    match st {
        FlowState::ProbingOverlay => ev is OverlayCacheProbe,
        FlowState::ProbingContent => ev is ContentProbe,
        FlowState::VerifyingExisting => ev is ZipHashed || ev is HashFailed,
        FlowState::Downloading => ev is DownloadFinished,
        FlowState::VerifyingDownloaded => ev is ZipHashed || ev is HashFailed,
        FlowState::Syncing => ev is SyncFinished,
        FlowState::Stamping => ev is MarkersWritten,
        FlowState::Finished => false,
        FlowState::Failed => false,
    }
}

/// The decision core of content acquisition: try the caches, then the
/// monolithic zip, and on an auth-style rejection fall back to the
/// incremental manifest sync. The driver performs each returned action and
/// reports the outcome as the next event; this type decides, it does no I/O.
#[derive(Debug)]
pub struct OverlayFlow {
    pub content_zip: String,
    pub content_marker: String,
    pub overlay_zip: Option<String>,
    pub overlay_marker: Option<String>,
    pub primary_url: String,
    pub fallback_url: Option<String>,
    pub expected_hash: Option<String>,
    pub can_try_manifest: bool,
    pub state: FlowState,
}

impl OverlayFlow {
    pub open spec fn wf(&self) -> bool {
        &&& (self.overlay_zip is Some <==> self.overlay_marker is Some)
        &&& (self.state is ProbingOverlay ==> self.overlay_zip is Some)
        &&& ((self.state is VerifyingExisting || self.state is VerifyingDownloaded)
            ==> self.expected_hash is Some)
    }

    /// Where the finished overlay will live: the manifest-hash-keyed cache
    /// when the build names a manifest hash, else the keyed content zip.
    pub open spec fn target_zip(&self) -> Seq<char> {
        if self.overlay_zip is Some {
            self.overlay_zip->0@
        } else {
            self.content_zip@
        }
    }

    /// Sets the flow up for one build descriptor. Fails exactly when the
    /// descriptor carries no usable download URL. The first action probes
    /// the overlay cache when the build names a manifest hash, else the
    /// keyed content zip.
    pub fn start(b: &ServerBuildInformation, fallback_url: Option<String>) -> (r: Result<
        (OverlayFlow, OverlayAction),
        AcquireError,
    >)
        ensures
            r is Ok <==> spec_opt_field(b.download_url) is Some,
            r is Err ==> r->Err_0 is Protocol,
            r matches Ok((flow, action)) ==> {
                &&& flow.wf()
                &&& flow.content_zip@ == spec_content_zip_rel(*b)
                &&& flow.content_marker@ == spec_content_marker_rel(*b)
                &&& (flow.overlay_zip is Some <==> spec_overlay_zip_rel(*b) is Some)
                &&& (flow.overlay_zip is Some ==> flow.overlay_zip->0@ == spec_overlay_zip_rel(
                    *b,
                )->0 && flow.overlay_marker->0@ == spec_overlay_marker_rel(*b)->0)
                &&& flow.primary_url@ == spec_opt_field(b.download_url)->0
                &&& flow.can_try_manifest == (spec_opt_field(b.manifest_url) is Some
                    && spec_opt_field(b.manifest_download_url) is Some)
                &&& (match spec_opt_field(b.hash) {
                    Some(h) => flow.expected_hash matches Some(e) && e@ == h,
                    None => flow.expected_hash is None,
                })
                &&& (flow.overlay_zip is Some ==> flow.state is ProbingOverlay && (
                    action matches OverlayAction::ProbeOverlayCache { zip_rel, marker_rel }
                        && zip_rel@ == flow.overlay_zip->0@ && marker_rel@
                        == flow.overlay_marker->0@))
                &&& (flow.overlay_zip is None ==> flow.state is ProbingContent && (
                    action matches OverlayAction::ProbeContentZip { zip_rel, marker_rel }
                        && zip_rel@ == flow.content_zip@ && marker_rel@
                        == flow.content_marker@))
            },
    {
        let primary_url = match opt_field(&b.download_url) {
            Some(u) => u,
            None => {
                return Err(
                    AcquireError::Protocol {
                        detail: "server returned no content download URL".to_owned(),
                    },
                );
            },
        };
        let (content_zip, content_marker) = content_dir_paths(b);
        let overlay = overlay_paths(b);
        let expected_hash = opt_field(&b.hash);
        let can_try_manifest = {
            let mu = opt_field(&b.manifest_url);
            let mdu = opt_field(&b.manifest_download_url);
            mu.is_some() && mdu.is_some()
        };
        match overlay {
            Some((ozip, omarker)) => {
                let action = OverlayAction::ProbeOverlayCache {
                    zip_rel: ozip.clone(),
                    marker_rel: omarker.clone(),
                };
                let flow = OverlayFlow {
                    content_zip,
                    content_marker,
                    overlay_zip: Some(ozip),
                    overlay_marker: Some(omarker),
                    primary_url,
                    fallback_url,
                    expected_hash,
                    can_try_manifest,
                    state: FlowState::ProbingOverlay,
                };
                Ok((flow, action))
            },
            None => {
                let action = OverlayAction::ProbeContentZip {
                    zip_rel: content_zip.clone(),
                    marker_rel: content_marker.clone(),
                };
                let flow = OverlayFlow {
                    content_zip,
                    content_marker,
                    overlay_zip: None,
                    overlay_marker: None,
                    primary_url,
                    fallback_url,
                    expected_hash,
                    can_try_manifest,
                    state: FlowState::ProbingContent,
                };
                Ok((flow, action))
            },
        }
    }

    /// One decision step. A cache hit — the overlay cache, a synced zip with
    /// its marker, or an existing zip whose digest matches — finishes the
    /// flow at once, so a repeat launch with unchanged server data downloads
    /// nothing: a `DownloadZip` action arises only out of a miss or a digest
    /// mismatch. An auth-style download rejection (401/403) with both
    /// manifest URLs present moves to the incremental sync aimed at the
    /// overlay-cache location; any other failure is final.
    pub fn step(&mut self, event: OverlayEvent) -> (a: OverlayAction)
        requires
            old(self).wf(),
            event_fits(old(self).state, event),
        ensures
            final(self).wf(),
            final(self).content_zip == old(self).content_zip,
            final(self).content_marker == old(self).content_marker,
            final(self).overlay_zip == old(self).overlay_zip,
            final(self).overlay_marker == old(self).overlay_marker,
            final(self).primary_url == old(self).primary_url,
            final(self).fallback_url == old(self).fallback_url,
            final(self).expected_hash == old(self).expected_hash,
            final(self).can_try_manifest == old(self).can_try_manifest,
            a is DownloadZip ==> (old(self).state is ProbingContent || old(
                self,
            ).state is VerifyingExisting),
            old(self).state is ProbingOverlay ==> (event matches OverlayEvent::OverlayCacheProbe {
                hit,
            } ==> if hit {
                final(self).state is Finished && (a matches OverlayAction::Finish { zip_rel }
                    && zip_rel@ == old(self).overlay_zip->0@)
            } else {
                final(self).state is ProbingContent && (
                a matches OverlayAction::ProbeContentZip { zip_rel, marker_rel } && zip_rel@
                    == old(self).content_zip@ && marker_rel@ == old(self).content_marker@)
            }),
            old(self).state is ProbingContent ==> (event matches OverlayEvent::ContentProbe {
                zip_exists,
                marker_exists,
            } ==> if zip_exists && marker_exists {
                final(self).state is Finished && (a matches OverlayAction::Finish { zip_rel }
                    && zip_rel@ == old(self).content_zip@)
            } else if zip_exists && old(self).expected_hash is Some {
                final(self).state is VerifyingExisting && (
                a matches OverlayAction::HashZip { zip_rel } && zip_rel@ == old(
                    self,
                ).content_zip@)
            } else if zip_exists {
                final(self).state is Finished && (a matches OverlayAction::Finish { zip_rel }
                    && zip_rel@ == old(self).content_zip@)
            } else {
                final(self).state is Downloading && (a matches OverlayAction::DownloadZip {
                    url,
                    fallback_url,
                    dest_rel,
                    delete_zip_first,
                    delete_stale_marker,
                } && url@ == old(self).primary_url@ && fallback_url == old(self).fallback_url
                    && dest_rel@ == old(self).content_zip@ && !delete_zip_first
                    && delete_stale_marker == marker_exists)
            }),
            old(self).state is VerifyingExisting ==> (event matches OverlayEvent::ZipHashed {
                hex,
            } ==> if eq_ignore_ascii_case_spec(
                spec_trim(hex@),
                spec_trim(old(self).expected_hash->0@),
            ) {
                final(self).state is Finished && (a matches OverlayAction::Finish { zip_rel }
                    && zip_rel@ == old(self).content_zip@)
            } else {
                final(self).state is Downloading && (a matches OverlayAction::DownloadZip {
                    url,
                    fallback_url,
                    dest_rel,
                    delete_zip_first,
                    delete_stale_marker,
                } && url@ == old(self).primary_url@ && fallback_url == old(self).fallback_url
                    && dest_rel@ == old(self).content_zip@ && delete_zip_first
                    && !delete_stale_marker)
            }),
            (old(self).state is VerifyingExisting
                || old(self).state is VerifyingDownloaded) && event is HashFailed
                ==> final(self).state is Failed && (a matches OverlayAction::Fail { error }
                && error is CacheIo),
            old(self).state is Downloading ==> (event matches OverlayEvent::DownloadFinished {
                outcome,
            } ==> match outcome {
                DownloadOutcome::Success => {
                    if old(self).expected_hash is Some {
                        final(self).state is VerifyingDownloaded && (
                        a matches OverlayAction::HashZip { zip_rel } && zip_rel@ == old(
                            self,
                        ).content_zip@)
                    } else {
                        final(self).state is Finished && (a matches OverlayAction::Finish {
                            zip_rel,
                        } && zip_rel@ == old(self).content_zip@)
                    }
                },
                DownloadOutcome::HttpStatus { status, .. } => {
                    if spec_auth_like(status) && old(self).can_try_manifest {
                        final(self).state is Syncing && (
                        a matches OverlayAction::RunManifestSync { out_zip_rel } && out_zip_rel@
                            == old(self).target_zip())
                    } else {
                        final(self).state is Failed && (a matches OverlayAction::Fail { error }
                            && error is Network)
                    }
                },
                DownloadOutcome::Transport { .. } => final(self).state is Failed && (
                a matches OverlayAction::Fail { error } && error is Network),
            }),
            old(self).state is VerifyingDownloaded ==> (event matches OverlayEvent::ZipHashed {
                hex,
            } ==> if eq_ignore_ascii_case_spec(
                spec_trim(hex@),
                spec_trim(old(self).expected_hash->0@),
            ) {
                final(self).state is Finished && (a matches OverlayAction::Finish { zip_rel }
                    && zip_rel@ == old(self).content_zip@)
            } else {
                final(self).state is Failed && (a matches OverlayAction::FailAndRemoveZip {
                    zip_rel,
                    error,
                } && zip_rel@ == old(self).content_zip@ && error is Integrity)
            }),
            old(self).state is Syncing ==> (event matches OverlayEvent::SyncFinished {
                ok,
                ..
            } ==> if ok {
                final(self).state is Stamping && (a matches OverlayAction::WriteMarkers {
                    content_marker,
                    overlay_marker,
                } && (match old(self).overlay_marker {
                    Some(om) => overlay_marker matches Some(m) && m@ == om@
                        && content_marker is None,
                    None => overlay_marker is None && (content_marker matches Some(cm) && cm@
                        == old(self).content_marker@),
                }))
            } else {
                final(self).state is Failed && (a matches OverlayAction::Fail { error }
                    && error is Network)
            }),
            old(self).state is Stamping && event is MarkersWritten
                ==> final(self).state is Finished && (a matches OverlayAction::Finish {
                zip_rel,
            } && zip_rel@ == old(self).target_zip()),
    {
        match event {
            OverlayEvent::OverlayCacheProbe { hit } => {
                if hit {
                    self.state = FlowState::Finished;
                    let zip = match &self.overlay_zip {
                        Some(z) => z.clone(),
                        None => self.content_zip.clone(),
                    };
                    OverlayAction::Finish { zip_rel: zip }
                } else {
                    self.state = FlowState::ProbingContent;
                    OverlayAction::ProbeContentZip {
                        zip_rel: self.content_zip.clone(),
                        marker_rel: self.content_marker.clone(),
                    }
                }
            },
            OverlayEvent::ContentProbe { zip_exists, marker_exists } => {
                if zip_exists && marker_exists {
                    self.state = FlowState::Finished;
                    OverlayAction::Finish { zip_rel: self.content_zip.clone() }
                } else if zip_exists && self.expected_hash.is_some() {
                    self.state = FlowState::VerifyingExisting;
                    OverlayAction::HashZip { zip_rel: self.content_zip.clone() }
                } else if zip_exists {
                    self.state = FlowState::Finished;
                    OverlayAction::Finish { zip_rel: self.content_zip.clone() }
                } else {
                    self.state = FlowState::Downloading;
                    OverlayAction::DownloadZip {
                        url: self.primary_url.clone(),
                        fallback_url: self.fallback_url.clone(),
                        dest_rel: self.content_zip.clone(),
                        delete_zip_first: false,
                        delete_stale_marker: marker_exists,
                    }
                }
            },
            OverlayEvent::ZipHashed { hex } => {
                let expected = match &self.expected_hash {
                    Some(e) => e.clone(),
                    None => String::new(),
                };
                let matched = eq_hex_case_insensitive(hex.as_str(), expected.as_str());
                let was_downloaded = match self.state {
                    FlowState::VerifyingDownloaded => true,
                    _ => false,
                };
                if matched {
                    self.state = FlowState::Finished;
                    OverlayAction::Finish { zip_rel: self.content_zip.clone() }
                } else if was_downloaded {
                    self.state = FlowState::Failed;
                    OverlayAction::FailAndRemoveZip {
                        zip_rel: self.content_zip.clone(),
                        error: AcquireError::Integrity { expected, actual: hex },
                    }
                } else {
                    self.state = FlowState::Downloading;
                    OverlayAction::DownloadZip {
                        url: self.primary_url.clone(),
                        fallback_url: self.fallback_url.clone(),
                        dest_rel: self.content_zip.clone(),
                        delete_zip_first: true,
                        delete_stale_marker: false,
                    }
                }
            },
            OverlayEvent::HashFailed { detail } => {
                self.state = FlowState::Failed;
                OverlayAction::Fail { error: AcquireError::CacheIo { detail } }
            },
            OverlayEvent::DownloadFinished { outcome } => {
                match outcome {
                    DownloadOutcome::Success => {
                        if self.expected_hash.is_some() {
                            self.state = FlowState::VerifyingDownloaded;
                            OverlayAction::HashZip { zip_rel: self.content_zip.clone() }
                        } else {
                            self.state = FlowState::Finished;
                            OverlayAction::Finish { zip_rel: self.content_zip.clone() }
                        }
                    },
                    DownloadOutcome::HttpStatus { status, detail } => {
                        if (status == 401 || status == 403) && self.can_try_manifest {
                            self.state = FlowState::Syncing;
                            let out_zip = match &self.overlay_zip {
                                Some(z) => z.clone(),
                                None => self.content_zip.clone(),
                            };
                            OverlayAction::RunManifestSync { out_zip_rel: out_zip }
                        } else {
                            self.state = FlowState::Failed;
                            OverlayAction::Fail { error: AcquireError::Network { detail } }
                        }
                    },
                    DownloadOutcome::Transport { detail } => {
                        self.state = FlowState::Failed;
                        OverlayAction::Fail { error: AcquireError::Network { detail } }
                    },
                }
            },
            OverlayEvent::SyncFinished { ok, detail } => {
                if ok {
                    self.state = FlowState::Stamping;
                    match &self.overlay_marker {
                        Some(om) => OverlayAction::WriteMarkers {
                            content_marker: None,
                            overlay_marker: Some(om.clone()),
                        },
                        None => OverlayAction::WriteMarkers {
                            content_marker: Some(self.content_marker.clone()),
                            overlay_marker: None,
                        },
                    }
                } else {
                    self.state = FlowState::Failed;
                    OverlayAction::Fail { error: AcquireError::Network { detail } }
                }
            },
            OverlayEvent::MarkersWritten => {
                self.state = FlowState::Finished;
                let zip = match &self.overlay_zip {
                    Some(z) => z.clone(),
                    None => self.content_zip.clone(),
                };
                OverlayAction::Finish { zip_rel: zip }
            },
        }
    }
}

} // verus!
