//! Voice and video call rules: header lines, error toasts, device
//! parameters and the call-history records written around each call step.

use vstd::prelude::*;
use crate::text::{
    chars_of, chars_contains, contains, push_str, str_eq, string_from, to_lowercase,
    unicode_lowercase, opt_seq,
};
use crate::cluster::StatusTone;

verus! {

/// The chat header line for a voice call phase.
pub open spec fn voice_header_spec(phase: Seq<char>, peer_online: bool) -> Seq<char> {
    if phase == "ringing"@ {
        "正在呼叫…"@
    } else if phase == "incoming"@ {
        "来电"@
    } else if phase == "active"@ {
        "通话 · 已连接"@
    } else if peer_online {
        "在线"@
    } else {
        "离线"@
    }
}

/// The chat header line for a video call phase.
pub open spec fn video_header_spec(phase: Seq<char>, peer_online: bool) -> Seq<char> {
    if phase == "ringing"@ {
        "正在视频呼叫…"@
    } else if phase == "incoming"@ {
        "视频来电"@
    } else if phase == "active"@ {
        "视频通话 · 已连接"@
    } else if peer_online {
        "在线"@
    } else {
        "离线"@
    }
}

/// The chat header line for a voice call phase (see [`voice_header_spec`]).
pub fn voice_status_to_header_line(phase: &str, peer_online: bool) -> (r: String)
    ensures
        r@ == voice_header_spec(phase@, peer_online),
{
    if str_eq(phase, "ringing") {
        string_from("正在呼叫…")
    } else if str_eq(phase, "incoming") {
        string_from("来电")
    } else if str_eq(phase, "active") {
        string_from("通话 · 已连接")
    } else if peer_online {
        string_from("在线")
    } else {
        string_from("离线")
    }
}

/// The chat header line for a video call phase (see [`video_header_spec`]).
pub fn video_status_to_header_line(phase: &str, peer_online: bool) -> (r: String)
    ensures
        r@ == video_header_spec(phase@, peer_online),
{
    if str_eq(phase, "ringing") {
        string_from("正在视频呼叫…")
    } else if str_eq(phase, "incoming") {
        string_from("视频来电")
    } else if str_eq(phase, "active") {
        string_from("视频通话 · 已连接")
    } else if peer_online {
        string_from("在线")
    } else {
        string_from("离线")
    }
}

/// The toast for a failed voice call: offline, microphone, codec and busy
/// errors by keyword (English keywords matched in the lower-cased error),
/// else the error itself behind a prefix.
pub open spec fn voice_toast_spec(err: Seq<char>) -> (Seq<char>, StatusTone) {
    let lower = unicode_lowercase(err);
    if contains(lower, "offline"@) || contains(err, "离线"@) {
        ("终端离线，无法发起语音通话"@, StatusTone::Muted)
    } else if contains(lower, "microphone"@) || contains(err, "麦克风"@) {
        ("无法访问麦克风，请检查权限与设备"@, StatusTone::Danger)
    } else if contains(lower, "opus"@) {
        ("Opus 音频不可用，请检查编解码"@, StatusTone::Danger)
    } else if contains(err, "冲突"@) || contains(lower, "busy"@) || contains(lower, "session"@) {
        ("已有进行中的通话或远程会话"@, StatusTone::Danger)
    } else {
        ("语音通话失败: "@ + err, StatusTone::Danger)
    }
}

/// The toast for a failed video call: offline, camera, busy and
/// unconfigured-SFU errors by keyword, else the error behind a prefix.
pub open spec fn video_toast_spec(err: Seq<char>) -> (Seq<char>, StatusTone) {
    let lower = unicode_lowercase(err);
    if contains(lower, "offline"@) || contains(err, "离线"@) {
        ("终端离线，无法发起视频通话"@, StatusTone::Muted)
    } else if contains(lower, "camera"@) || contains(err, "摄像头"@) {
        ("无法访问摄像头，请检查权限与设备"@, StatusTone::Danger)
    } else if contains(err, "冲突"@) || contains(lower, "busy"@) || contains(lower, "session"@) {
        ("已有进行中的通话或远程会话"@, StatusTone::Danger)
    } else if contains(err, "REALTIME_SFU"@) || contains(err, "503"@) || contains(lower, "sfu"@) {
        ("群视频服务未配置（Realtime SFU），请联系管理员"@, StatusTone::Danger)
    } else {
        ("视频通话失败: "@ + err, StatusTone::Danger)
    }
}

fn has(hay: &Vec<char>, needle: &str) -> (r: bool)
    ensures
        r == contains(hay@, needle@),
{
    let n = chars_of(needle);
    chars_contains(hay.as_slice(), n.as_slice())
}

fn prefixed(prefix: &str, err: &str) -> (r: String)
    ensures
        r@ == prefix@ + err@,
{
    let mut s = string_from(prefix);
    push_str(&mut s, err);
    s
}

/// The toast for a failed voice call (see [`voice_toast_spec`]).
pub fn voice_error_toast(err: &str) -> (r: (String, StatusTone))
    ensures
        (r.0@, r.1) == voice_toast_spec(err@),
{
    let lower_s = to_lowercase(err);
    let lower = chars_of(lower_s.as_str());
    let raw = chars_of(err);
    if has(&lower, "offline") || has(&raw, "离线") {
        (string_from("终端离线，无法发起语音通话"), StatusTone::Muted)
    } else if has(&lower, "microphone") || has(&raw, "麦克风") {
        (string_from("无法访问麦克风，请检查权限与设备"), StatusTone::Danger)
    } else if has(&lower, "opus") {
        (string_from("Opus 音频不可用，请检查编解码"), StatusTone::Danger)
    } else if has(&raw, "冲突") || has(&lower, "busy") || has(&lower, "session") {
        (string_from("已有进行中的通话或远程会话"), StatusTone::Danger)
    } else {
        (prefixed("语音通话失败: ", err), StatusTone::Danger)
    }
}

/// The toast for a failed video call (see [`video_toast_spec`]).
pub fn video_error_toast(err: &str) -> (r: (String, StatusTone))
    ensures
        (r.0@, r.1) == video_toast_spec(err@),
{
    let lower_s = to_lowercase(err);
    let lower = chars_of(lower_s.as_str());
    let raw = chars_of(err);
    if has(&lower, "offline") || has(&raw, "离线") {
        (string_from("终端离线，无法发起视频通话"), StatusTone::Muted)
    } else if has(&lower, "camera") || has(&raw, "摄像头") {
        (string_from("无法访问摄像头，请检查权限与设备"), StatusTone::Danger)
    } else if has(&raw, "冲突") || has(&lower, "busy") || has(&lower, "session") {
        (string_from("已有进行中的通话或远程会话"), StatusTone::Danger)
    } else if has(&raw, "REALTIME_SFU") || has(&raw, "503") || has(&lower, "sfu") {
        (string_from("群视频服务未配置（Realtime SFU），请联系管理员"), StatusTone::Danger)
    } else {
        (prefixed("视频通话失败: ", err), StatusTone::Danger)
    }
}

/// The live voice peer after a status update: kept only while the call
/// is active.
pub fn live_peer_after_status(phase: &str, current: Option<String>) -> (r: Option<String>)
    ensures
        phase@ == "active"@ ==> r == current,
        phase@ != "active"@ ==> r is None,
{
    if str_eq(phase, "active") {
        current
    } else {
        None
    }
}

/// Saved voice devices.
#[derive(Debug)]
pub struct VoiceDevicePrefs {
    pub mic_id: String,
    pub muted: bool,
}

/// Saved video devices.
#[derive(Debug)]
pub struct VideoDevicePrefs {
    pub camera_id: String,
    pub mic_id: String,
    pub muted: bool,
}

/// Devices handed to a call invite or accept.
#[derive(Debug)]
pub struct CallDeviceParams {
    pub camera_device_id: Option<String>,
    pub microphone_device_id: Option<String>,
    pub muted: Option<bool>,
}

/// Parameters of a voice invite or accept.
#[derive(Debug)]
pub struct VoiceInviteParams {
    pub conv_id: String,
    pub devices: CallDeviceParams,
}

/// Parameters of a video invite or accept.
#[derive(Debug)]
pub struct VideoInviteParams {
    pub conv_id: String,
    pub devices: CallDeviceParams,
}

/// Parameters that name a conversation only.
#[derive(Debug)]
pub struct ConvParams {
    pub conv_id: String,
}

/// A saved device id, or none when it is empty.
pub open spec fn device_id(id: Seq<char>) -> Option<Seq<char>> {
    if id.len() == 0 {
        None
    } else {
        Some(id)
    }
}

fn nonempty_id(id: &str) -> (r: Option<String>)
    ensures
        opt_seq(r) == device_id(id@),
{
    if id.is_empty() {
        None
    } else {
        Some(string_from(id))
    }
}

/// Call devices from voice prefs: no camera, the microphone unless its id
/// is empty, and the saved mute flag.
pub fn devices_from_voice_prefs(prefs: &VoiceDevicePrefs) -> (r: CallDeviceParams)
    ensures
        r.camera_device_id is None,
        opt_seq(r.microphone_device_id) == device_id(prefs.mic_id@),
        r.muted == Some(prefs.muted),
{
    CallDeviceParams {
        camera_device_id: None,
        microphone_device_id: nonempty_id(prefs.mic_id.as_str()),
        muted: Some(prefs.muted),
    }
}

/// Call devices from video prefs: camera and microphone unless their ids
/// are empty, and the saved mute flag.
pub fn devices_from_video_prefs(prefs: &VideoDevicePrefs) -> (r: CallDeviceParams)
    ensures
        opt_seq(r.camera_device_id) == device_id(prefs.camera_id@),
        opt_seq(r.microphone_device_id) == device_id(prefs.mic_id@),
        r.muted == Some(prefs.muted),
{
    CallDeviceParams {
        camera_device_id: nonempty_id(prefs.camera_id.as_str()),
        microphone_device_id: nonempty_id(prefs.mic_id.as_str()),
        muted: Some(prefs.muted),
    }
}

/// A voice invite with default devices (nothing chosen).
pub fn invite_params(conv_id: &str) -> (r: VoiceInviteParams)
    ensures
        r.conv_id@ == conv_id@,
        r.devices.camera_device_id is None,
        r.devices.microphone_device_id is None,
        r.devices.muted is None,
{
    VoiceInviteParams {
        conv_id: string_from(conv_id),
        devices: CallDeviceParams { camera_device_id: None, microphone_device_id: None, muted: None },
    }
}

/// A voice invite with the devices of the voice prefs.
pub fn invite_params_with_voice(conv_id: &str, prefs: &VoiceDevicePrefs) -> (r: VoiceInviteParams)
    ensures
        r.conv_id@ == conv_id@,
        r.devices.camera_device_id is None,
        opt_seq(r.devices.microphone_device_id) == device_id(prefs.mic_id@),
        r.devices.muted == Some(prefs.muted),
{
    VoiceInviteParams { conv_id: string_from(conv_id), devices: devices_from_voice_prefs(prefs) }
}

/// A video invite with the devices of the video prefs.
pub fn invite_params_with_video(conv_id: &str, prefs: &VideoDevicePrefs) -> (r: VideoInviteParams)
    ensures
        r.conv_id@ == conv_id@,
        opt_seq(r.devices.camera_device_id) == device_id(prefs.camera_id@),
        opt_seq(r.devices.microphone_device_id) == device_id(prefs.mic_id@),
        r.devices.muted == Some(prefs.muted),
{
    VideoInviteParams { conv_id: string_from(conv_id), devices: devices_from_video_prefs(prefs) }
}

/// Parameters naming a conversation.
pub fn conv_params(conv_id: &str) -> (r: ConvParams)
    ensures
        r.conv_id@ == conv_id@,
{
    ConvParams { conv_id: string_from(conv_id) }
}

/// Kind of a call in the history.
#[derive(Debug, Clone, Copy, PartialEq, Eq, Structural)]
pub enum CallHistoryKind {
    Voice,
    Video,
}

/// Direction of a call in the history.
#[derive(Debug, Clone, Copy, PartialEq, Eq, Structural)]
pub enum CallHistoryDirection {
    Incoming,
    Outgoing,
}

/// Status of a call in the history.
#[derive(Debug, Clone, Copy, PartialEq, Eq, Structural)]
pub enum CallHistoryStatus {
    Ringing,
    Active,
    Ended,
    Missed,
    Declined,
    Cancelled,
    Failed,
}

/// A call is over in every status but ringing and active.
pub open spec fn status_ended(s: CallHistoryStatus) -> bool {
    !(s is Ringing || s is Active)
}

/// Whether a call status is final (see [`status_ended`]).
pub fn call_status_ended(status: CallHistoryStatus) -> (r: bool)
    ensures
        r == status_ended(status),
{
    match status {
        CallHistoryStatus::Ended | CallHistoryStatus::Missed | CallHistoryStatus::Declined
        | CallHistoryStatus::Cancelled | CallHistoryStatus::Failed => true,
        _ => false,
    }
}

/// A step the user takes on a call.
#[derive(Debug, Clone, Copy, PartialEq, Eq, Structural)]
pub enum CallStep {
    Invite,
    Accept,
    Decline,
    Cancel,
    End,
}

/// The history status and direction each call step records: an invite
/// rings outgoing, accepting makes an incoming call active, declining
/// declines it, cancelling and ending close an outgoing call.
pub open spec fn step_record_spec(step: CallStep) -> (CallHistoryStatus, CallHistoryDirection) {
    match step {
        CallStep::Invite => (CallHistoryStatus::Ringing, CallHistoryDirection::Outgoing),
        CallStep::Accept => (CallHistoryStatus::Active, CallHistoryDirection::Incoming),
        CallStep::Decline => (CallHistoryStatus::Declined, CallHistoryDirection::Incoming),
        CallStep::Cancel => (CallHistoryStatus::Cancelled, CallHistoryDirection::Outgoing),
        CallStep::End => (CallHistoryStatus::Ended, CallHistoryDirection::Outgoing),
    }
}

/// The history status and direction a call step records (see [`step_record_spec`]).
pub fn call_step_record(step: CallStep) -> (r: (CallHistoryStatus, CallHistoryDirection))
    ensures
        r == step_record_spec(step),
{
    match step {
        CallStep::Invite => (CallHistoryStatus::Ringing, CallHistoryDirection::Outgoing),
        CallStep::Accept => (CallHistoryStatus::Active, CallHistoryDirection::Incoming),
        CallStep::Decline => (CallHistoryStatus::Declined, CallHistoryDirection::Incoming),
        CallStep::Cancel => (CallHistoryStatus::Cancelled, CallHistoryDirection::Outgoing),
        CallStep::End => (CallHistoryStatus::Ended, CallHistoryDirection::Outgoing),
    }
}

/// A row of the call history.
#[derive(Debug)]
pub struct CallHistoryRecord {
    pub call_id: String,
    pub kind: CallHistoryKind,
    pub direction: CallHistoryDirection,
    pub status: CallHistoryStatus,
    pub peer_endpoint: String,
    pub peer_display_name: String,
    pub started_at: u64,
    pub ended_at: Option<u64>,
    pub expires_at: u64,
    pub room_id: Option<String>,
    pub conv_id: Option<String>,
}

fn name_or_empty(name: &Option<String>) -> (r: String)
    ensures
        r@ == match opt_seq(*name) {
            Some(n) => n,
            None => Seq::<char>::empty(),
        },
{
    match name {
        Some(n) => string_from(n.as_str()),
        None => String::new(),
    }
}

/// The record of an outgoing call the user just placed: the call id the
/// server gave, else `fresh_call_id`; started now, ended now when the status
/// is final; the conversation's peer as the participant.
pub fn outgoing_call_record(
    conv_id: &str,
    call_id: Option<&str>,
    fresh_call_id: String,
    kind: CallHistoryKind,
    status: CallHistoryStatus,
    room_id: Option<String>,
    peer_endpoint: &str,
    peer_display_name: &Option<String>,
    now: u64,
    expires_at: u64,
) -> (r: CallHistoryRecord)
    ensures
        r.call_id@ == match call_id {
            Some(c) => c@,
            None => fresh_call_id@,
        },
        r.kind == kind,
        r.direction == CallHistoryDirection::Outgoing,
        r.status == status,
        r.peer_endpoint@ == peer_endpoint@,
        r.peer_display_name@ == match opt_seq(*peer_display_name) {
            Some(n) => n,
            None => Seq::<char>::empty(),
        },
        r.started_at == now,
        r.ended_at == (if status_ended(status) { Some(now) } else { None }),
        r.expires_at == expires_at,
        r.room_id == room_id,
        opt_seq(r.conv_id) == Some(conv_id@),
{
    let id = match call_id {
        Some(c) => string_from(c),
        None => fresh_call_id,
    };
    let ended = call_status_ended(status);
    CallHistoryRecord {
        call_id: id,
        kind,
        direction: CallHistoryDirection::Outgoing,
        status,
        peer_endpoint: string_from(peer_endpoint),
        peer_display_name: name_or_empty(peer_display_name),
        started_at: now,
        ended_at: if ended {
            Some(now)
        } else {
            None
        },
        expires_at,
        room_id,
        conv_id: Some(string_from(conv_id)),
    }
}

/// The record of a status change on an existing call: none without a
/// (non-empty) call id; else started a second before now (saturating at
/// zero), ended now when the status is final.
pub fn call_status_update_record(
    conv_id: &str,
    call_id: Option<&str>,
    kind: CallHistoryKind,
    status: CallHistoryStatus,
    direction: CallHistoryDirection,
    peer_endpoint: &str,
    peer_display_name: &Option<String>,
    now: u64,
    expires_at: u64,
) -> (r: Option<CallHistoryRecord>)
    ensures
        match call_id {
            Some(c) if c@.len() > 0 => r matches Some(rec) && {
                &&& rec.call_id@ == c@
                &&& rec.kind == kind
                &&& rec.direction == direction
                &&& rec.status == status
                &&& rec.peer_endpoint@ == peer_endpoint@
                &&& rec.peer_display_name@ == match opt_seq(*peer_display_name) {
                    Some(n) => n,
                    None => Seq::<char>::empty(),
                }
                &&& rec.started_at == (if now >= 1 { now - 1 } else { 0 })
                &&& rec.ended_at == (if status_ended(status) { Some(now) } else { None })
                &&& rec.expires_at == expires_at
                &&& rec.room_id is None
                &&& opt_seq(rec.conv_id) == Some(conv_id@)
            },
            _ => r is None,
        },
{
    let c = match call_id {
        Some(c) => c,
        None => {
            return None;
        },
    };
    if c.is_empty() {
        return None;
    }
    let ended = call_status_ended(status);
    Some(
        CallHistoryRecord {
            call_id: string_from(c),
            kind,
            direction,
            status,
            peer_endpoint: string_from(peer_endpoint),
            peer_display_name: name_or_empty(peer_display_name),
            started_at: now.saturating_sub(1),
            ended_at: if ended {
                Some(now)
            } else {
                None
            },
            expires_at,
            room_id: None,
            conv_id: Some(string_from(conv_id)),
        },
    )
}

/// `"true"` or `"false"`.
pub open spec fn bool_word(b: bool) -> Seq<char> {
    if b {
        "true"@
    } else {
        "false"@
    }
}

/// The status line of the video panel: the phase and flags of the call, or
/// the error of the status request.
pub open spec fn video_panel_spec(status: Result<(Seq<char>, bool, bool), Seq<char>>) -> Seq<char> {
    match status {
        Ok((phase, hosting, peer_live)) => "视频: "@ + phase + " hosting="@ + bool_word(hosting)
            + " peer_live="@ + bool_word(peer_live),
        Err(e) => "视频错误: "@ + e,
    }
}

/// The status line of the video panel (see [`video_panel_spec`]).
pub fn video_panel_status(status: &Result<(String, bool, bool), String>) -> (r: String)
    ensures
        r@ == video_panel_spec(
            match status {
                Ok((p, h, l)) => Ok((p@, *h, *l)),
                Err(e) => Err(e@),
            },
        ),
{
    match status {
        Ok((phase, hosting, peer_live)) => {
            let mut s = string_from("视频: ");
            push_str(&mut s, phase.as_str());
            push_str(&mut s, " hosting=");
            push_str(&mut s, if *hosting { "true" } else { "false" });
            push_str(&mut s, " peer_live=");
            push_str(&mut s, if *peer_live { "true" } else { "false" });
            s
        },
        Err(e) => prefixed("视频错误: ", e.as_str()),
    }
}

} // verus!
