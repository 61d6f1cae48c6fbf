//! The Cron settings page: its form, the job a submit sends, and the status
//! line after each list, add, run and remove.

use vstd::prelude::*;
use crate::text::{chars_of, push_char, string_from, string_of, trim, trim_str};
use crate::cluster::StatusTone;

verus! {

/// Actions of the Cron page; `Edit` is the text-field edit the UI toolkit
/// hands over.
#[derive(Debug, Clone)]
pub enum CronAction<Edit> {
    Refresh,
    Add,
    Run(String),
    Remove(String),
    FocusName,
    FocusExpression,
    FocusPrompt,
    NameEdit(Edit),
    ExpressionEdit(Edit),
    PromptEdit(Edit),
}

/// `s` cut to `max` characters, with `'…'` appended when it was longer.
pub open spec fn truncate_spec(s: Seq<char>, max: nat) -> Seq<char> {
    if s.len() > max {
        s.take(max as int).push('…')
    } else {
        s
    }
}

/// `s` cut to `max` characters (see [`truncate_spec`]).
pub fn truncate(s: &str, max: usize) -> (r: String)
    ensures
        r@ == truncate_spec(s@, max as nat),
{
    let cs = chars_of(s);
    let mut out = String::new();
    let mut i: usize = 0;
    while i < cs.len()
        invariant
            i <= cs@.len(),
            i <= max,
            cs@ == s@,
            out@ == cs@.take(i as int),
        decreases cs@.len() - i,
    {
        if i >= max {
            push_char(&mut out, '…');
            return out;
        }
        push_char(&mut out, cs[i]);
        i = i + 1;
        assert(out@ =~= cs@.take(i as int));
    }
    assert(cs@.take(i as int) =~= cs@);
    out
}

/// A field of the form.
#[derive(Debug, Clone, Copy, PartialEq, Eq, Structural)]
pub enum CronField {
    Name,
    Expression,
    Prompt,
}

/// The status line: a translation key, the error or output after it, and
/// its tone.
#[derive(Debug)]
pub struct CronStatus {
    pub key: String,
    pub detail: Option<String>,
    pub tone: StatusTone,
}

/// A job to add.
#[derive(Debug)]
pub struct CronAddParams {
    pub expression: String,
    pub prompt: String,
    pub name: Option<String>,
    pub enabled: bool,
}

/// State of the Cron form.
#[derive(Debug)]
pub struct CronForm {
    pub name_draft: String,
    pub expression_draft: String,
    pub prompt_draft: String,
    pub focused: Option<CronField>,
    pub status: CronStatus,
    pub busy: bool,
}

/// The value of a status line.
pub open spec fn status_view(s: CronStatus) -> (Seq<char>, Option<Seq<char>>, StatusTone) {
    (
        s.key@,
        match s.detail {
            Some(d) => Some(d@),
            None => None,
        },
        s.tone,
    )
}

fn status(key: &str, detail: Option<String>, tone: StatusTone) -> (r: CronStatus)
    ensures
        r.key@ == key@,
        r.detail == detail,
        r.tone == tone,
{
    CronStatus { key: string_from(key), detail, tone }
}

/// The drafts are unchanged.
pub open spec fn same_drafts(a: CronForm, b: CronForm) -> bool {
    a.name_draft == b.name_draft && a.expression_draft == b.expression_draft && a.prompt_draft
        == b.prompt_draft
}

/// What a submit of the form leads to.
#[derive(Debug)]
pub enum CronSubmit {
    /// A job is running: the submit is ignored.
    Busy,
    /// The schedule or the prompt is blank.
    MissingFields,
    /// Send this job.
    Send(CronAddParams),
}

impl CronForm {
    /// A fresh form: hourly schedule, empty name and prompt, nothing focused.
    pub fn new() -> (r: Self)
        ensures
            r.name_draft@.len() == 0,
            r.expression_draft@ == "0 * * * *"@,
            r.prompt_draft@.len() == 0,
            r.focused is None,
            !r.busy,
            status_view(r.status) == (Seq::<char>::empty(), None::<Seq<char>>, StatusTone::Placeholder),
    {
        CronForm {
            name_draft: String::new(),
            expression_draft: string_from("0 * * * *"),
            prompt_draft: String::new(),
            focused: None,
            status: CronStatus { key: String::new(), detail: None, tone: StatusTone::Placeholder },
            busy: false,
        }
    }

    /// Focuses one field; the others lose focus.
    pub fn focus(&mut self, field: CronField)
        ensures
            final(self).focused == Some(field),
            same_drafts(*final(self), *old(self)),
            final(self).busy == old(self).busy,
            final(self).status == old(self).status,
    {
        self.focused = Some(field);
    }

    /// Starts loading the job list.
    pub fn begin_refresh(&mut self)
        ensures
            final(self).busy,
            status_view(final(self).status) == ("settings.cron.loading"@, None::<Seq<char>>, StatusTone::Placeholder),
            same_drafts(*final(self), *old(self)),
            final(self).focused == old(self).focused,
    {
        self.busy = true;
        self.status = status("settings.cron.loading", None, StatusTone::Placeholder);
    }

    /// The job list arrived, or loading failed with an error.
    pub fn finish_refresh(&mut self, result: Result<(), String>)
        ensures
            !final(self).busy,
            same_drafts(*final(self), *old(self)),
            final(self).focused == old(self).focused,
            match result {
                Ok(_) => status_view(final(self).status) == ("settings.cron.ready"@, None::<Seq<char>>, StatusTone::Placeholder),
                Err(e) => status_view(final(self).status) == ("settings.cron.load_failed"@, Some(e@), StatusTone::Danger),
            },
    {
        self.busy = false;
        match result {
            Ok(_) => {
                self.status = status("settings.cron.ready", None, StatusTone::Placeholder);
            },
            Err(e) => {
                self.status = status("settings.cron.load_failed", Some(e), StatusTone::Danger);
            },
        }
    }

    /// A submit: ignored while busy; refused when the trimmed schedule or
    /// prompt is empty; else the form becomes busy and the job to send is
    /// the trimmed schedule and prompt, with the trimmed name unless it is
    /// empty, enabled.
    pub fn begin_add(&mut self) -> (r: CronSubmit)
        ensures
            same_drafts(*final(self), *old(self)),
            final(self).focused == old(self).focused,
            old(self).busy ==> (r is Busy && final(self).status == old(self).status && final(self).busy),
            !old(self).busy && (trim(old(self).expression_draft@).len() == 0 || trim(
                old(self).prompt_draft@,
            ).len() == 0) ==> (r is MissingFields && !final(self).busy && status_view(final(self).status) == (
                "settings.cron.add_need_fields"@,
                None::<Seq<char>>,
                StatusTone::Danger,
            )),
            !old(self).busy && trim(old(self).expression_draft@).len() > 0 && trim(
                old(self).prompt_draft@,
            ).len() > 0 ==> (r matches CronSubmit::Send(p) && {
                &&& p.expression@ == trim(old(self).expression_draft@)
                &&& p.prompt@ == trim(old(self).prompt_draft@)
                &&& p.enabled
                &&& match p.name {
                    Some(n) => trim(old(self).name_draft@).len() > 0 && n@ == trim(old(self).name_draft@),
                    None => trim(old(self).name_draft@).len() == 0,
                }
                &&& final(self).busy
                &&& status_view(final(self).status) == ("settings.cron.adding"@, None::<Seq<char>>, StatusTone::Placeholder)
            }),
    {
        if self.busy {
            return CronSubmit::Busy;
        }
        let expression = trim_str(self.expression_draft.as_str());
        let prompt = trim_str(self.prompt_draft.as_str());
        if expression.len() == 0 || prompt.len() == 0 {
            self.status = status("settings.cron.add_need_fields", None, StatusTone::Danger);
            return CronSubmit::MissingFields;
        }
        self.busy = true;
        self.status = status("settings.cron.adding", None, StatusTone::Placeholder);
        let name_t = trim_str(self.name_draft.as_str());
        let name = if name_t.len() == 0 {
            None
        } else {
            Some(string_of(name_t.as_slice()))
        };
        CronSubmit::Send(
            CronAddParams {
                expression: string_of(expression.as_slice()),
                prompt: string_of(prompt.as_slice()),
                name,
                enabled: true,
            },
        )
    }

    /// The add finished: on success the prompt and name are cleared (the
    /// list is then reloaded); on failure the error is shown.
    pub fn finish_add(&mut self, result: Result<(), String>)
        ensures
            !final(self).busy,
            final(self).focused == old(self).focused,
            final(self).expression_draft == old(self).expression_draft,
            match result {
                Ok(_) => final(self).prompt_draft@.len() == 0 && final(self).name_draft@.len() == 0
                    && status_view(final(self).status) == ("settings.cron.added"@, None::<Seq<char>>, StatusTone::Success),
                Err(e) => final(self).prompt_draft == old(self).prompt_draft && final(self).name_draft
                    == old(self).name_draft && status_view(final(self).status) == (
                    "settings.cron.add_failed"@,
                    Some(e@),
                    StatusTone::Danger,
                ),
            },
    {
        self.busy = false;
        match result {
            Ok(_) => {
                self.prompt_draft = String::new();
                self.name_draft = String::new();
                self.status = status("settings.cron.added", None, StatusTone::Success);
            },
            Err(e) => {
                self.status = status("settings.cron.add_failed", Some(e), StatusTone::Danger);
            },
        }
    }

    /// Starts a run or a remove of a job, unless a job is running; the
    /// result says whether it started.
    pub fn begin_job(&mut self, removing: bool) -> (started: bool)
        ensures
            started == !old(self).busy,
            final(self).busy,
            same_drafts(*final(self), *old(self)),
            final(self).focused == old(self).focused,
            old(self).busy ==> final(self).status == old(self).status,
            !old(self).busy ==> status_view(final(self).status) == (
                if removing { "settings.cron.removing"@ } else { "settings.cron.running"@ },
                None::<Seq<char>>,
                StatusTone::Placeholder,
            ),
    {
        if self.busy {
            return false;
        }
        self.busy = true;
        if removing {
            self.status = status("settings.cron.removing", None, StatusTone::Placeholder);
        } else {
            self.status = status("settings.cron.running", None, StatusTone::Placeholder);
        }
        true
    }

    /// A run finished: `Ok((ok, output))` from the job, or the error of the
    /// call. A failed job shows its output cut to 120 characters.
    pub fn finish_run(&mut self, result: Result<(bool, String), String>)
        ensures
            !final(self).busy,
            same_drafts(*final(self), *old(self)),
            final(self).focused == old(self).focused,
            match result {
                Ok((true, _)) => status_view(final(self).status) == ("settings.cron.run_ok"@, None::<Seq<char>>, StatusTone::Success),
                Ok((false, out)) => status_view(final(self).status) == (
                    "settings.cron.run_failed"@,
                    Some(truncate_spec(out@, 120)),
                    StatusTone::Danger,
                ),
                Err(e) => status_view(final(self).status) == ("settings.cron.run_failed"@, Some(e@), StatusTone::Danger),
            },
    {
        self.busy = false;
        match result {
            Ok((ok, output)) => {
                if ok {
                    self.status = status("settings.cron.run_ok", None, StatusTone::Success);
                } else {
                    let d = truncate(output.as_str(), 120);
                    self.status = status("settings.cron.run_failed", Some(d), StatusTone::Danger);
                }
            },
            Err(e) => {
                self.status = status("settings.cron.run_failed", Some(e), StatusTone::Danger);
            },
        }
    }

    /// A remove finished.
    pub fn finish_remove(&mut self, result: Result<(), String>)
        ensures
            !final(self).busy,
            same_drafts(*final(self), *old(self)),
            final(self).focused == old(self).focused,
            match result {
                Ok(_) => status_view(final(self).status) == ("settings.cron.removed"@, None::<Seq<char>>, StatusTone::Success),
                Err(e) => status_view(final(self).status) == ("settings.cron.remove_failed"@, Some(e@), StatusTone::Danger),
            },
    {
        self.busy = false;
        match result {
            Ok(_) => {
                self.status = status("settings.cron.removed", None, StatusTone::Success);
            },
            Err(e) => {
                self.status = status("settings.cron.remove_failed", Some(e), StatusTone::Danger);
            },
        }
    }
}

} // verus!
