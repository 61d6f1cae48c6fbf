//! Account and device readiness of the gated tabs: whether a tab waits
//! for login or device bootstrap, whether to keep polling, and what the
//! waiting screen says.

use vstd::prelude::*;
use crate::text::{clone_opt, opt_seq, push_str, string_from};
use crate::cluster::{ClusterStatus, StatusTone};

verus! {

/// Account and device readiness as the gated tabs see it.
#[derive(Debug)]
pub struct DeviceGateStatus {
    pub loaded: bool,
    pub auth_required: bool,
    pub device_bootstrap_required: bool,
    pub error: Option<String>,
}

impl Default for DeviceGateStatus {
    fn default() -> (r: Self)
        ensures
            !r.loaded,
            !r.auth_required,
            !r.device_bootstrap_required,
            r.error is None,
    {
        DeviceGateStatus {
            loaded: false,
            auth_required: false,
            device_bootstrap_required: false,
            error: None,
        }
    }
}

impl DeviceGateStatus {
    /// Readiness read from a loaded cluster status.
    pub fn from_cluster(status: &ClusterStatus) -> (r: Self)
        ensures
            r.loaded,
            r.auth_required == status.auth_required,
            r.device_bootstrap_required == status.device_bootstrap_required,
            r.error == status.device_bootstrap_error,
    {
        DeviceGateStatus {
            loaded: true,
            auth_required: status.auth_required,
            device_bootstrap_required: status.device_bootstrap_required,
            error: clone_opt(&status.device_bootstrap_error),
        }
    }

    /// The tab is blocked: loaded, and login or bootstrap pending.
    pub open spec fn blocking_spec(&self) -> bool {
        self.loaded && (self.auth_required || self.device_bootstrap_required)
    }

    /// Polling goes on while login or device bootstrap is pending.
    pub open spec fn needs_poll_spec(&self) -> bool {
        self.auth_required || self.device_bootstrap_required
    }

    /// Whether the tab is blocked (see [`Self::blocking_spec`]).
    pub fn blocking(&self) -> (r: bool)
        ensures
            r == self.blocking_spec(),
    {
        self.loaded && (self.auth_required || self.device_bootstrap_required)
    }

    /// Whether polling goes on (see [`Self::needs_poll_spec`]).
    pub fn needs_poll(&self) -> (r: bool)
        ensures
            r == self.needs_poll_spec(),
    {
        self.auth_required || self.device_bootstrap_required
    }
}

/// Readiness after a status fetch: that of the cluster status, or, when
/// the fetch failed, a loaded status that asks for login.
pub fn gate_from_fetch(fetched: Result<ClusterStatus, String>) -> (r: DeviceGateStatus)
    ensures
        r.loaded,
        match fetched {
            Ok(c) => r.auth_required == c.auth_required && r.device_bootstrap_required
                == c.device_bootstrap_required && r.error == c.device_bootstrap_error,
            Err(_) => r.auth_required && !r.device_bootstrap_required && r.error is None,
        },
{
    match fetched {
        Ok(c) => DeviceGateStatus::from_cluster(&c),
        Err(_) => DeviceGateStatus {
            loaded: true,
            auth_required: true,
            device_bootstrap_required: false,
            error: None,
        },
    }
}

/// A tab shows the waiting screen in place of its content while it is
/// blocked or readiness is not loaded yet.
pub fn shows_gate_screen(gate: &DeviceGateStatus) -> (r: bool)
    ensures
        r == (!gate.loaded || gate.auth_required || gate.device_bootstrap_required),
{
    gate.blocking() || !gate.loaded
}

/// Device bootstrap starts in the background only when readiness checks
/// are not skipped, the device is not ready, and a cloud access token is present.
pub fn should_start_device_bootstrap(skip_gate: bool, device_ready: bool, has_access_token: bool) -> (r: bool)
    ensures
        r == (!skip_gate && !device_ready && has_access_token),
{
    !skip_gate && !device_ready && has_access_token
}

/// One line of the waiting screen.
#[derive(Debug)]
pub struct GateLine {
    /// A section hint rather than a status line.
    pub hint: bool,
    pub text: String,
    pub tone: StatusTone,
}

/// The lines of the waiting screen as `(hint, text, tone)`: loading while not
/// loaded; a login request naming the feature; a restore notice with the
/// bootstrap error or a progress line; nothing once ready.
pub open spec fn gate_lines_spec(
    loaded: bool,
    auth_required: bool,
    bootstrap_required: bool,
    error: Option<Seq<char>>,
    feature: Seq<char>,
) -> Seq<(bool, Seq<char>, StatusTone)> {
    if !loaded {
        seq![(false, "加载账号状态…"@, StatusTone::Placeholder)]
    } else if auth_required {
        seq![
            (true, "ACCOUNT · 需要登录"@, StatusTone::Placeholder),
            (false, "请登录以使用"@ + feature + "。"@, StatusTone::Placeholder),
        ]
    } else if bootstrap_required {
        match error {
            Some(e) => seq![
                (true, "DEVICE · 正在恢复设备身份"@, StatusTone::Placeholder),
                (false, e, StatusTone::Danger),
            ],
            None => seq![
                (true, "DEVICE · 正在恢复设备身份"@, StatusTone::Placeholder),
                (false, "登录成功，正在从云端恢复本机设备身份…"@, StatusTone::Placeholder),
            ],
        }
    } else {
        seq![]
    }
}

/// The views of gate lines.
pub open spec fn gate_lines_view(lines: Seq<GateLine>) -> Seq<(bool, Seq<char>, StatusTone)> {
    lines.map_values(|l: GateLine| (l.hint, l.text@, l.tone))
}

fn line(hint: bool, text: String, tone: StatusTone) -> (r: GateLine)
    ensures
        r.hint == hint,
        r.text == text,
        r.tone == tone,
{
    GateLine { hint, text, tone }
}

/// The lines of the waiting screen (see [`gate_lines_spec`]).
pub fn device_gate_lines(gate: &DeviceGateStatus, feature: &str) -> (r: Vec<GateLine>)
    ensures
        gate_lines_view(r@) == gate_lines_spec(
            gate.loaded,
            gate.auth_required,
            gate.device_bootstrap_required,
            opt_seq(gate.error),
            feature@,
        ),
{
    let mut out: Vec<GateLine> = Vec::new();
    if !gate.loaded {
        out.push(line(false, string_from("加载账号状态…"), StatusTone::Placeholder));
    } else if gate.auth_required {
        out.push(line(true, string_from("ACCOUNT · 需要登录"), StatusTone::Placeholder));
        let mut t = string_from("请登录以使用");
        push_str(&mut t, feature);
        push_str(&mut t, "。");
        out.push(line(false, t, StatusTone::Placeholder));
    } else if gate.device_bootstrap_required {
        out.push(line(true, string_from("DEVICE · 正在恢复设备身份"), StatusTone::Placeholder));
        match &gate.error {
            Some(e) => {
                out.push(line(false, string_from(e.as_str()), StatusTone::Danger));
            },
            None => {
                out.push(
                    line(false, string_from("登录成功，正在从云端恢复本机设备身份…"), StatusTone::Placeholder),
                );
            },
        }
    }
    assert(gate_lines_view(out@) =~= gate_lines_spec(
        gate.loaded,
        gate.auth_required,
        gate.device_bootstrap_required,
        opt_seq(gate.error),
        feature@,
    ));
    out
}

} // verus!
