//! Installing an app on a workspace worker: the provision jobs the local
//! device knows, which one waits for approval, the progress line of the job
//! asked of a remote worker, and opening the file once that job is ready.

use vstd::prelude::*;
use crate::find::{first_where, lemma_first_where_found, lemma_first_where_none};
use crate::sizes::{format_size, size_text};
use crate::text::{decimal, opt_seq, push_decimal, push_str, str_eq, string_from};

verus! {

/// Stages of a provision job that the view tells apart.
#[derive(Debug, Clone, Copy, PartialEq, Eq, Structural)]
pub enum ProvisionStage {
    /// Waiting for this device to approve the install.
    AwaitingLocalApproval,
    /// Any stage while the install runs.
    Running,
    /// The app is installed.
    Ready,
    /// The install failed.
    Failed,
}

/// A provision job.
#[derive(Debug)]
pub struct ProvisionJob {
    pub job_id: String,
    pub stage: ProvisionStage,
    pub detail: String,
    pub bytes_downloaded: u64,
    pub bytes_total: u64,
    /// A virtual machine that could be imported instead was found.
    pub has_import_candidate: bool,
}

/// The job asks for this device's approval: it awaits it, or it failed with
/// a machine to import.
pub open spec fn wants_approval(j: ProvisionJob) -> bool {
    j.stage == ProvisionStage::AwaitingLocalApproval || (j.stage == ProvisionStage::Failed
        && j.has_import_candidate)
}

/// Jobs that ask for approval and were not dismissed.
pub open spec fn approval_shown(jobs: Seq<ProvisionJob>, dismissed: Option<Seq<char>>) -> spec_fn(int) -> bool {
    |i: int| wants_approval(jobs[i]) && dismissed != Some(jobs[i].job_id@)
}

/// Some failed job with a machine to import is the dismissed one.
pub open spec fn dismissed_failed_again(jobs: Seq<ProvisionJob>, dismissed: Option<Seq<char>>) -> bool {
    exists|i: int|
        0 <= i < jobs.len() && (#[trigger] jobs[i]).stage == ProvisionStage::Failed && jobs[i].has_import_candidate
            && dismissed == Some(jobs[i].job_id@)
}

/// The percentage downloaded: `downloaded * 100` (saturating) over the total.
pub open spec fn percent_spec(downloaded: u64, total: u64) -> nat {
    let scaled: nat = if downloaded * 100 > u64::MAX {
        u64::MAX as nat
    } else {
        (downloaded * 100) as nat
    };
    scaled / (total as nat)
}

/// The progress line of a job: its detail, followed once bytes arrive by
/// ` · {percent}% · {downloaded} / {total}`.
pub open spec fn progress_text(j: ProvisionJob) -> Seq<char> {
    if j.bytes_total > 0 && j.bytes_downloaded > 0 {
        j.detail@ + " · "@ + decimal(percent_spec(j.bytes_downloaded, j.bytes_total)) + "% · "@ + size_text(
            j.bytes_downloaded as nat,
        ) + " / "@ + size_text(j.bytes_total as nat)
    } else {
        j.detail@
    }
}

/// The progress line of a job (see [`progress_text`]).
pub fn job_progress(job: &ProvisionJob) -> (r: String)
    ensures
        r@ == progress_text(*job),
{
    let mut r = string_from(job.detail.as_str());
    if job.bytes_total > 0 && job.bytes_downloaded > 0 {
        let d = job.bytes_downloaded;
        let scaled: u64 = if d > u64::MAX / 100 {
            assert(d * 100 > u64::MAX) by (nonlinear_arith)
                requires
                    d > u64::MAX / 100,
            ;
            u64::MAX
        } else {
            assert(d * 100 <= u64::MAX) by (nonlinear_arith)
                requires
                    d <= u64::MAX / 100,
            ;
            d * 100
        };
        let percent = scaled / job.bytes_total;
        push_str(&mut r, " · ");
        push_decimal(&mut r, percent);
        push_str(&mut r, "% · ");
        let d = format_size(job.bytes_downloaded);
        push_str(&mut r, d.as_str());
        push_str(&mut r, " / ");
        let t = format_size(job.bytes_total);
        push_str(&mut r, t.as_str());
    }
    r
}

/// Provision jobs as the Devices tab tracks them.
#[derive(Debug)]
pub struct WorkspaceJobs {
    /// The jobs on this device.
    pub jobs: Vec<ProvisionJob>,
    /// The approval the user dismissed.
    pub dismissed_approval: Option<String>,
    /// The job whose readiness already opened the file.
    pub auto_opened_job: Option<String>,
    /// The job asked of a remote worker, as last reported.
    pub remote_job: Option<ProvisionJob>,
}

impl WorkspaceJobs {
    /// No job known.
    pub fn new() -> (r: Self)
        ensures
            r.jobs@.len() == 0,
            r.dismissed_approval is None,
            r.auto_opened_job is None,
            r.remote_job is None,
    {
        WorkspaceJobs { jobs: Vec::new(), dismissed_approval: None, auto_opened_job: None, remote_job: None }
    }

    /// New jobs listed: a dismissed approval shows again once its job failed
    /// with a machine to import.
    pub fn apply_jobs(&mut self, jobs: Vec<ProvisionJob>)
        ensures
            final(self).jobs@ == jobs@,
            dismissed_failed_again(jobs@, opt_seq(old(self).dismissed_approval)) ==> final(self).dismissed_approval is None,
            !dismissed_failed_again(jobs@, opt_seq(old(self).dismissed_approval)) ==> final(self).dismissed_approval
                == old(self).dismissed_approval,
            final(self).auto_opened_job == old(self).auto_opened_job,
            final(self).remote_job == old(self).remote_job,
    {
        let mut found = false;
        if let Some(d) = &self.dismissed_approval {
            let mut i: usize = 0;
            while i < jobs.len()
                invariant
                    i <= jobs@.len(),
                    opt_seq(self.dismissed_approval) == Some(d@),
                    found == exists|j: int|
                        0 <= j < i && (#[trigger] jobs@[j]).stage == ProvisionStage::Failed && jobs@[j].has_import_candidate
                            && Some(d@) == Some(jobs@[j].job_id@),
                decreases jobs@.len() - i,
            {
                let j = &jobs[i];
                if j.stage == ProvisionStage::Failed && j.has_import_candidate && str_eq(j.job_id.as_str(), d.as_str()) {
                    found = true;
                }
                i = i + 1;
            }
        }
        if found {
            self.dismissed_approval = None;
        }
        self.jobs = jobs;
    }

    /// The first job asking for approval that was not dismissed.
    pub fn pending_approval(&self) -> (r: Option<usize>)
        ensures
            match r {
                Some(k) => k < self.jobs@.len() && first_where(
                    self.jobs@.len(),
                    approval_shown(self.jobs@, opt_seq(self.dismissed_approval)),
                ) == k,
                None => first_where(self.jobs@.len(), approval_shown(self.jobs@, opt_seq(self.dismissed_approval)))
                    == -1,
            },
    {
        let ghost p = approval_shown(self.jobs@, opt_seq(self.dismissed_approval));
        let mut i: usize = 0;
        while i < self.jobs.len()
            invariant
                i <= self.jobs@.len(),
                p == approval_shown(self.jobs@, opt_seq(self.dismissed_approval)),
                forall|j: int| 0 <= j < i ==> !#[trigger] p(j),
            decreases self.jobs@.len() - i,
        {
            let j = &self.jobs[i];
            let wants = j.stage == ProvisionStage::AwaitingLocalApproval || (j.stage == ProvisionStage::Failed
                && j.has_import_candidate);
            let is_dismissed = match &self.dismissed_approval {
                Some(d) => str_eq(d.as_str(), j.job_id.as_str()),
                None => false,
            };
            if wants && !is_dismissed {
                assert(p(i as int));
                proof {
                    lemma_first_where_found(self.jobs@.len(), p, i as int);
                }
                return Some(i);
            }
            i = i + 1;
        }
        proof {
            lemma_first_where_none(self.jobs@.len(), p);
        }
        None
    }

    /// The user dismissed the approval of `job_id`.
    pub fn dismiss(&mut self, job_id: &str)
        ensures
            opt_seq(final(self).dismissed_approval) == Some(job_id@),
            final(self).jobs == old(self).jobs,
            final(self).auto_opened_job == old(self).auto_opened_job,
            final(self).remote_job == old(self).remote_job,
    {
        self.dismissed_approval = Some(string_from(job_id));
    }

    /// The remote job was reported: it is kept, its progress line is
    /// returned, and the file opens (the flag) when it is ready and its
    /// readiness did not open it before.
    pub fn apply_remote_job(&mut self, job: ProvisionJob) -> (r: (String, bool))
        ensures
            r.0@ == progress_text(job),
            r.1 == (job.stage == ProvisionStage::Ready && opt_seq(old(self).auto_opened_job) != Some(job.job_id@)),
            r.1 ==> opt_seq(final(self).auto_opened_job) == Some(job.job_id@),
            !r.1 ==> final(self).auto_opened_job == old(self).auto_opened_job,
            final(self).remote_job == Some(job),
            final(self).jobs == old(self).jobs,
            final(self).dismissed_approval == old(self).dismissed_approval,
    {
        let progress = job_progress(&job);
        let opened_before = match &self.auto_opened_job {
            Some(a) => str_eq(a.as_str(), job.job_id.as_str()),
            None => false,
        };
        let open = job.stage == ProvisionStage::Ready && !opened_before;
        if open {
            self.auto_opened_job = Some(string_from(job.job_id.as_str()));
        }
        self.remote_job = Some(job);
        (progress, open)
    }

    /// The install is asked for again: the remote job and the record of an
    /// earlier opening are forgotten.
    pub fn retry(&mut self)
        ensures
            final(self).remote_job is None,
            final(self).auto_opened_job is None,
            final(self).jobs == old(self).jobs,
            final(self).dismissed_approval == old(self).dismissed_approval,
    {
        self.remote_job = None;
        self.auto_opened_job = None;
    }
}

/// A ready remote job opens the file once: reported again, it does not open
/// it a second time.
pub proof fn law_ready_job_opens_once(auto_opened: Option<Seq<char>>, job_id: Seq<char>, stage: ProvisionStage)
    ensures
        ({
            let first = stage == ProvisionStage::Ready && auto_opened != Some(job_id);
            let after = if first {
                Some(job_id)
            } else {
                auto_opened
            };
            let second = stage == ProvisionStage::Ready && after != Some(job_id);
            !second
        }),
{
}

} // verus!
