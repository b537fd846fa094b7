use vstd::prelude::*;

use crate::errors::AcquireError;
use crate::hexstr::eq_hex_case_insensitive;
use crate::resolver::RobustEngineBuild;
use crate::text::eq_ignore_ascii_case_spec;
use crate::text::sanitize_char;
use crate::text::sanitize_dir_component;
use crate::text::spec_trim;

verus! {

/// The engine archive on disk, hash-verified, with the signature the engine
/// manifest claims for it.
#[derive(Debug)]
pub struct ClientInstall {
    pub engine_zip: String,
    pub engine_signature_hex: String,
}

/// Where the archive of a resolved engine version lives, relative to the
/// data directory.
pub open spec fn spec_engine_zip_rel(version: Seq<char>) -> Seq<char> {
    "engines/"@ + version.map_values(|c: char| sanitize_char(c)) + "/engine.zip"@
}

/// Builds the cache path of a resolved engine version.
pub fn engine_zip_rel_path(version: &str) -> (r: String)
    ensures
        r@ == spec_engine_zip_rel(version@),
{
    let safe = sanitize_dir_component(version);
    let mut out = String::new();
    out.append("engines/");
    out.append(safe.as_str());
    out.append("/engine.zip");
    proof {
        assert(out@ =~= spec_engine_zip_rel(version@));
    }
    out
}

/// Where the engine installation currently stands. The download is attempted
/// at most twice: once when the archive is absent, and once more when its
/// digest does not match the manifest.
#[derive(Debug)]
pub enum InstallState {
    /// Waiting to hear whether the archive is already on disk.
    ProbingZip,
    /// Waiting for the first download to end.
    DownloadingFirst,
    /// Waiting for the digest of the present archive.
    HashingFirst,
    /// Waiting for the single redownload to end.
    DownloadingSecond,
    /// Waiting for the digest after the redownload.
    HashingSecond,
    Finished,
    Failed,
}

/// What the driver observed, handed to `InstallFlow::step`.
#[derive(Debug)]
pub enum InstallEvent {
    ZipProbe { exists: bool },
    /// Whether the download wrote the archive; on failure the driver's
    /// diagnostic.
    DownloadFinished { ok: bool, detail: String },
    /// The hex SHA-256 of the archive on disk.
    ZipHashed { hex: String },
    /// The archive could not be read back.
    HashFailed { detail: String },
}

/// What the driver must do next. Paths are relative to the data directory;
/// the driver checks the cancel flag before each download.
#[derive(Debug)]
pub enum InstallAction {
    ProbeZip { zip_rel: String },
    /// Download the archive with exact bytes; `delete_zip_first` says the
    /// mismatched copy must go first.
    DownloadZip { url: String, dest_rel: String, delete_zip_first: bool },
    HashZip { zip_rel: String },
    Finish { install: ClientInstall },
    Fail { error: AcquireError },
}

/// Which events a state is waiting for.
pub open spec fn install_event_fits(st: InstallState, ev: InstallEvent) -> bool {
    match st {
        InstallState::ProbingZip => ev is ZipProbe,
        InstallState::DownloadingFirst => ev is DownloadFinished,
        InstallState::HashingFirst => ev is ZipHashed || ev is HashFailed,
        InstallState::DownloadingSecond => ev is DownloadFinished,
        InstallState::HashingSecond => ev is ZipHashed || ev is HashFailed,
        InstallState::Finished => false,
        InstallState::Failed => false,
    }
}

/// The decision core of `ensure_client_installed`: have the resolved engine
/// archive on disk and hash-valid, downloading only when it is absent, and
/// redownloading exactly once on a digest mismatch. A second mismatch is
/// fatal. The driver performs each action and reports the outcome.
#[derive(Debug)]
pub struct InstallFlow {
    pub zip_rel: String,
    pub url: String,
    pub expected_sha256: String,
    pub signature: String,
    pub state: InstallState,
}

impl InstallFlow {
    /// Sets the installation up for one resolved build; the first action
    /// probes the versioned archive path.
    pub fn start(build: &RobustEngineBuild) -> (r: (InstallFlow, InstallAction))
        ensures
            r.0.zip_rel@ == spec_engine_zip_rel(build.resolved_version@),
            r.0.url@ == build.url@,
            r.0.expected_sha256@ == build.sha256@,
            r.0.signature@ == build.signature@,
            r.0.state is ProbingZip,
            r.1 matches InstallAction::ProbeZip { zip_rel } && zip_rel@ == r.0.zip_rel@,
    {
        let zip_rel = engine_zip_rel_path(build.resolved_version.as_str());
        let action = InstallAction::ProbeZip { zip_rel: zip_rel.clone() };
        let flow = InstallFlow {
            zip_rel,
            url: build.url.clone(),
            expected_sha256: build.sha256.clone(),
            signature: build.signature.clone(),
            state: InstallState::ProbingZip,
        };
        (flow, action)
    }

    /// One decision step. An archive already on disk is only hashed, never
    /// redownloaded while its digest matches; a mismatch deletes it and
    /// downloads once more; a mismatch after that redownload is a fatal
    /// integrity error — no third download is ever asked for.
    pub fn step(&mut self, event: InstallEvent) -> (a: InstallAction)
        requires
            install_event_fits(old(self).state, event),
        ensures
            final(self).zip_rel == old(self).zip_rel,
            final(self).url == old(self).url,
            final(self).expected_sha256 == old(self).expected_sha256,
            final(self).signature == old(self).signature,
            a is DownloadZip ==> (old(self).state is ProbingZip || old(
                self,
            ).state is HashingFirst),
            old(self).state is ProbingZip ==> (event matches InstallEvent::ZipProbe { exists }
                ==> if exists {
                final(self).state is HashingFirst && (a matches InstallAction::HashZip {
                    zip_rel,
                } && zip_rel@ == old(self).zip_rel@)
            } else {
                final(self).state is DownloadingFirst && (
                a matches InstallAction::DownloadZip { url, dest_rel, delete_zip_first } && url@
                    == old(self).url@ && dest_rel@ == old(self).zip_rel@ && !delete_zip_first)
            }),
            (old(self).state is DownloadingFirst || old(self).state is DownloadingSecond) ==> (
            event matches InstallEvent::DownloadFinished { ok, .. } ==> if ok {
                (old(self).state is DownloadingFirst ==> final(self).state is HashingFirst) && (
                old(self).state is DownloadingSecond ==> final(self).state is HashingSecond) && (
                a matches InstallAction::HashZip { zip_rel } && zip_rel@ == old(self).zip_rel@)
            } else {
                final(self).state is Failed && (a matches InstallAction::Fail { error }
                    && error is Network)
            }),
            old(self).state is HashingFirst ==> (event matches InstallEvent::ZipHashed { hex }
                ==> if eq_ignore_ascii_case_spec(
                spec_trim(hex@),
                spec_trim(old(self).expected_sha256@),
            ) {
                final(self).state is Finished && (a matches InstallAction::Finish { install }
                    && install.engine_zip@ == old(self).zip_rel@
                    && install.engine_signature_hex@ == old(self).signature@)
            } else {
                final(self).state is DownloadingSecond && (
                a matches InstallAction::DownloadZip { url, dest_rel, delete_zip_first } && url@
                    == old(self).url@ && dest_rel@ == old(self).zip_rel@ && delete_zip_first)
            }),
            old(self).state is HashingSecond ==> (event matches InstallEvent::ZipHashed { hex }
                ==> if eq_ignore_ascii_case_spec(
                spec_trim(hex@),
                spec_trim(old(self).expected_sha256@),
            ) {
                final(self).state is Finished && (a matches InstallAction::Finish { install }
                    && install.engine_zip@ == old(self).zip_rel@
                    && install.engine_signature_hex@ == old(self).signature@)
            } else {
                final(self).state is Failed && (a matches InstallAction::Fail { error }
                    && error is Integrity)
            }),
            (old(self).state is HashingFirst || old(self).state is HashingSecond)
                && event is HashFailed ==> final(self).state is Failed && (
            a matches InstallAction::Fail { error } && error is CacheIo),
    {
        match event {
            InstallEvent::ZipProbe { exists } => {
                if exists {
                    self.state = InstallState::HashingFirst;
                    InstallAction::HashZip { zip_rel: self.zip_rel.clone() }
                } else {
                    self.state = InstallState::DownloadingFirst;
                    InstallAction::DownloadZip {
                        url: self.url.clone(),
                        dest_rel: self.zip_rel.clone(),
                        delete_zip_first: false,
                    }
                }
            },
            InstallEvent::DownloadFinished { ok, detail } => {
                if ok {
                    let second = match self.state {
                        InstallState::DownloadingSecond => true,
                        _ => false,
                    };
                    self.state = if second {
                        InstallState::HashingSecond
                    } else {
                        InstallState::HashingFirst
                    };
                    InstallAction::HashZip { zip_rel: self.zip_rel.clone() }
                } else {
                    self.state = InstallState::Failed;
                    InstallAction::Fail { error: AcquireError::Network { detail } }
                }
            },
            InstallEvent::ZipHashed { hex } => {
                let matched = eq_hex_case_insensitive(hex.as_str(), self.expected_sha256.as_str());
                let second = match self.state {
                    InstallState::HashingSecond => true,
                    _ => false,
                };
                if matched {
                    self.state = InstallState::Finished;
                    InstallAction::Finish {
                        install: ClientInstall {
                            engine_zip: self.zip_rel.clone(),
                            engine_signature_hex: self.signature.clone(),
                        },
                    }
                } else if second {
                    self.state = InstallState::Failed;
                    let expected = self.expected_sha256.clone();
                    InstallAction::Fail {
                        error: AcquireError::Integrity { expected, actual: hex },
                    }
                } else {
                    self.state = InstallState::DownloadingSecond;
                    InstallAction::DownloadZip {
                        url: self.url.clone(),
                        dest_rel: self.zip_rel.clone(),
                        delete_zip_first: true,
                    }
                }
            },
            InstallEvent::HashFailed { detail } => {
                self.state = InstallState::Failed;
                InstallAction::Fail { error: AcquireError::CacheIo { detail } }
            },
        }
    }
}

} // verus!
