//! The desktop auto-update session: its phases, when the shell banner
//! shows, and which version is ready to install.

use vstd::prelude::*;
use crate::text::{clone_opt, opt_seq};
use crate::sizes::{format_update_bytes, update_bytes_text};

verus! {

/// Phases of an update session.
#[derive(Debug, Clone, Copy, PartialEq, Eq, Structural)]
pub enum DesktopUpdatePhase {
    Idle,
    Checking,
    Available,
    Downloading,
    ReadyToInstall,
    Installing,
    Error,
}

/// What the update service reported.
#[derive(Debug)]
pub struct DesktopUpdateStatus {
    pub latest_version: Option<String>,
}

/// What a finished download holds.
#[derive(Debug)]
pub struct DesktopUpdateDownload {
    pub version: Option<String>,
}

/// Bytes of an in-flight download.
#[derive(Debug)]
pub struct DesktopUpdateProgress {
    pub bytes_downloaded: u64,
    pub bytes_total: Option<u64>,
}

/// State of the update session shared by the About page and the shell banner.
#[derive(Debug)]
pub struct DesktopUpdateShared {
    pub phase: DesktopUpdatePhase,
    pub status: Option<DesktopUpdateStatus>,
    pub download: Option<DesktopUpdateDownload>,
    pub progress: Option<DesktopUpdateProgress>,
    pub error: Option<String>,
    /// The banner was dismissed for this session (About can still install).
    pub banner_dismissed: bool,
    /// A check or download job is running.
    pub busy: bool,
}

impl Default for DesktopUpdateShared {
    fn default() -> (r: Self)
        ensures
            r.phase == DesktopUpdatePhase::Idle,
            r.status is None,
            r.download is None,
            r.progress is None,
            r.error is None,
            !r.banner_dismissed,
            !r.busy,
    {
        DesktopUpdateShared {
            phase: DesktopUpdatePhase::Idle,
            status: None,
            download: None,
            progress: None,
            error: None,
            banner_dismissed: false,
            busy: false,
        }
    }
}

impl DesktopUpdateShared {
    /// The banner shows while downloading, ready, installing or failed,
    /// unless it was dismissed.
    pub open spec fn banner_visible_spec(&self) -> bool {
        !self.banner_dismissed && (self.phase is Downloading || self.phase is ReadyToInstall
            || self.phase is Installing || self.phase is Error)
    }

    /// The version ready to install: the downloaded one, else the latest one
    /// the update status reported.
    pub open spec fn ready_version_spec(&self) -> Option<Seq<char>> {
        let from_download = match self.download {
            Some(d) => opt_seq(d.version),
            None => None,
        };
        let from_status = match self.status {
            Some(s) => opt_seq(s.latest_version),
            None => None,
        };
        if from_download is Some {
            from_download
        } else {
            from_status
        }
    }

    /// Whether the shell banner shows (see [`Self::banner_visible_spec`]).
    pub fn banner_visible(&self) -> (r: bool)
        ensures
            r == self.banner_visible_spec(),
    {
        if self.banner_dismissed {
            return false;
        }
        match self.phase {
            DesktopUpdatePhase::Downloading | DesktopUpdatePhase::ReadyToInstall
            | DesktopUpdatePhase::Installing | DesktopUpdatePhase::Error => true,
            _ => false,
        }
    }

    /// The version ready to install (see [`Self::ready_version_spec`]).
    pub fn ready_version(&self) -> (r: Option<String>)
        ensures
            opt_seq(r) == self.ready_version_spec(),
    {
        if let Some(d) = &self.download {
            if d.version.is_some() {
                return clone_opt(&d.version);
            }
        }
        match &self.status {
            Some(s) => clone_opt(&s.latest_version),
            None => None,
        }
    }
}

/// The detail line under an in-flight download.
#[derive(Debug, PartialEq, Eq)]
pub enum DownloadDetail {
    /// No progress reported yet (`shell.update.downloading_detail`).
    Indeterminate,
    /// `shell.update.downloading_progress`: `12.3 MB / 338.9 MB (4%)`.
    Progress { downloaded: String, total: String, percent: u32 },
    /// `shell.update.downloading_bytes`: the bytes downloaded so far.
    Bytes { downloaded: String },
}

/// The detail line of a download. `percent` is the reported completed
/// fraction as a whole percentage, when the service reported a fraction;
/// both sizes and the percentage show only when the total and the fraction
/// are known.
pub fn download_progress_detail(progress: Option<&DesktopUpdateProgress>, percent: Option<u32>) -> (r: DownloadDetail)
    ensures
        match progress {
            None => r is Indeterminate,
            Some(p) => match (p.bytes_total, percent) {
                (Some(total), Some(pc)) => r matches DownloadDetail::Progress { downloaded, total: t, percent: q }
                    && downloaded@ == update_bytes_text(p.bytes_downloaded as nat) && t@ == update_bytes_text(
                    total as nat,
                ) && q == pc,
                _ => r matches DownloadDetail::Bytes { downloaded } && downloaded@ == update_bytes_text(
                    p.bytes_downloaded as nat,
                ),
            },
        },
{
    let p = match progress {
        Some(p) => p,
        None => return DownloadDetail::Indeterminate,
    };
    let downloaded = format_update_bytes(p.bytes_downloaded);
    match (p.bytes_total, percent) {
        (Some(total), Some(pc)) => DownloadDetail::Progress {
            downloaded,
            total: format_update_bytes(total),
            percent: pc,
        },
        _ => DownloadDetail::Bytes { downloaded },
    }
}

/// The import of a Codex provider from a deep link: its preview, the
/// message shown under it, and whether the import runs.
#[derive(Debug)]
pub struct CodexProviderImportModel<P> {
    pub preview: Option<P>,
    pub message: String,
    pub importing: bool,
}

impl<P> CodexProviderImportModel<P> {
    /// No preview, no message, not importing.
    pub fn new() -> (r: Self)
        ensures
            r.preview is None,
            r.message@.len() == 0,
            !r.importing,
    {
        CodexProviderImportModel { preview: None, message: String::new(), importing: false }
    }

    /// Shows a preview, with the message cleared and no import running.
    pub fn open_preview(&mut self, preview: P)
        ensures
            final(self).preview == Some(preview),
            final(self).message@.len() == 0,
            !final(self).importing,
    {
        self.preview = Some(preview);
        self.message = String::new();
        self.importing = false;
    }

    /// Closes the preview, with the message cleared and no import running.
    pub fn close_preview(&mut self)
        ensures
            final(self).preview is None,
            final(self).message@.len() == 0,
            !final(self).importing,
    {
        self.preview = None;
        self.message = String::new();
        self.importing = false;
    }

    /// Sets the message; the rest is kept.
    pub fn set_message(&mut self, message: String)
        ensures
            final(self).message == message,
            final(self).preview == old(self).preview,
            final(self).importing == old(self).importing,
    {
        self.message = message;
    }

    /// Sets whether the import runs; the rest is kept.
    pub fn set_importing(&mut self, importing: bool)
        ensures
            final(self).importing == importing,
            final(self).preview == old(self).preview,
            final(self).message == old(self).message,
    {
        self.importing = importing;
    }

    /// The preview shown, if any.
    pub fn snapshot_preview(&self) -> (r: Option<&P>)
        ensures
            match self.preview {
                Some(p) => r == Some(&p),
                None => r is None,
            },
    {
        match &self.preview {
            Some(p) => Some(p),
            None => None,
        }
    }

    /// A copy of the message.
    pub fn snapshot_message(&self) -> (r: String)
        ensures
            r@ == self.message@,
    {
        self.message.clone()
    }

    /// Whether an import runs.
    pub fn snapshot_importing(&self) -> (r: bool)
        ensures
            r == self.importing,
    {
        self.importing
    }
}

} // verus!
