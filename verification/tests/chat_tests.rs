use wormhole_desktop_ui::asset_map::AssetMap;
use wormhole_desktop_ui::agent_pair::{
    agent_pair_qr_asset_id, decode_agent_pair_qr, AgentPairCode, AgentPairDialog, QrDecodeError,
};
use wormhole_desktop_ui::search_results::{
    jump_step, JumpStep, SearchNav, SearchPage, SearchRequest, ThreadSearchResults,
};
use wormhole_desktop_ui::sidebar_flow::{
    open_chat_after_refresh, open_chat_from_cache, sidebar_select_step, ChatToast, HitsEffect,
    OpenChatStep, SidebarSearch, pending_open_summary, PendingOpen, RefreshGate,
};
use wormhole_desktop_ui::calls::{
    call_status_ended, call_status_update_record, call_step_record, devices_from_video_prefs,
    devices_from_voice_prefs, invite_params, invite_params_with_voice, live_peer_after_status,
    outgoing_call_record, video_error_toast, video_panel_status, video_status_to_header_line,
    voice_error_toast, voice_status_to_header_line, CallHistoryDirection, CallHistoryKind,
    CallHistoryStatus, CallStep, VideoDevicePrefs, VoiceDevicePrefs,
};
use wormhole_desktop_ui::cluster::{ClusterNode, ClusterStatus, StatusTone};
use wormhole_desktop_ui::messages::{
    advance_history_before, merge_messages_by_id, merge_pending_messages, message_is_outgoing,
    message_position_id, messages_snapshot_equal, page_exhausts_history,
    pending_attachment_names, remap_pending_attachment_previews, truncate_preview,
    ChatAttachment, ChatMessage, PendingOutgoingAttachment, PendingOutgoingMessage,
    RECENT_MESSAGE_PAGE, reply_preview, last_outgoing_index, ReplyPreview,
};
use wormhole_desktop_ui::sidebar::{
    contact_row_preview, extra_contact_rows, ChatContact,
    conversation_covers_cluster_node, find_conversation_for_node_ref, hit_avatar_label,
    hit_preview, placeholder_peer_ids, presence_state, resolve_select_target, row_kind,
    row_visible, ChatConversation, SearchCategory, SelectTarget, SidebarRowKind, row_is_active,
    selection_matches, cluster_group_members, GroupMember, GroupProblem,
};
use wormhole_desktop_ui::sticker::{common_emojis, picker_event, StickerPickerAction, StickerPickerEvent};
use wormhole_desktop_ui::thread::{
    thread_hint_text, FetchApplied, FetchFailed, IncomingApplied, ThreadHintState, ThreadState,
    attachments_to_decode,
};

fn sample_message(id: &str, body: &str, sent_at: u64) -> ChatMessage {
    ChatMessage {
        id: id.into(),
        author_endpoint: "local".into(),
        body: body.into(),
        sent_at,
        attachments: Vec::new(),
    }
}

fn shot_attachment(local_path: Option<&str>) -> ChatAttachment {
    ChatAttachment {
        id: "att-1".into(),
        kind: "image".into(),
        name: "shot.png".into(),
        size: 12,
        mime: None,
        source_hash: None,
        local_path: local_path.map(str::to_string),
    }
}

fn pending_shot() -> Vec<PendingOutgoingMessage> {
    vec![PendingOutgoingMessage {
        client_id: "pending:img".into(),
        conv_id: "conv".into(),
        body: String::new(),
        sent_at: 5_100,
        attachments: vec![PendingOutgoingAttachment {
            kind: "image".into(),
            name: "shot.png".into(),
            size: 12,
            local_path: Some("/tmp/shot.png".into()),
        }],
    }]
}

fn sample_conv(id: &str, peer: &str) -> ChatConversation {
    ChatConversation {
        id: id.into(),
        kind: "direct".into(),
        peer_endpoint: peer.into(),
        peer_display_name: None,
        peer_user_id: None,
    }
}

fn sample_node(node_id: &str, endpoint: Option<&str>, online: bool) -> ClusterNode {
    ClusterNode {
        node_id: node_id.into(),
        chat_endpoint_id: endpoint.map(str::to_string),
        chat_bootstrap_addrs: Vec::new(),
        hostname: "host".into(),
        os: "Windows".into(),
        online,
        presence_status: String::new(),
        same_account: false,
        server_member_confirmed: false,
        revoked: false,
        pending_handshake: false,
        user_id: None,
        share_volumes: Vec::new(),
        has_local_share_replicas: false,
        removable: false,
        device_id: None,
    }
}

fn status_with(local: &str, nodes: Vec<ClusterNode>) -> ClusterStatus {
    ClusterStatus {
        configured: true,
        cluster_id: None,
        clusters: Vec::new(),
        local_node_id: local.into(),
        nodes,
        syncing: false,
        auth_required: false,
        device_bootstrap_required: false,
        device_bootstrap_error: None,
        role_stale: false,
    }
}

// ---------------------------------------------------------------------------
// Sidebar
// ---------------------------------------------------------------------------

#[test]
fn presence_mapping_does_not_treat_unknown_as_offline() {
    assert_eq!(presence_state(true, ""), "online");
    assert_eq!(presence_state(false, "signed_in"), "recently_online");
    assert_eq!(presence_state(false, "offline"), "offline");
    assert_eq!(presence_state(false, "handshake_failed"), "unknown");
}

#[test]
fn presence_online_raw_and_recently_seen() {
    assert_eq!(presence_state(false, "online"), "online");
    assert_eq!(presence_state(false, "recently_seen"), "recently_online");
    assert_eq!(presence_state(true, "offline"), "online");
}

#[test]
fn resolve_select_target_uses_existing_conv_id() {
    let convs = vec![sample_conv("conv-hash", "peer-endpoint")];
    let target = resolve_select_target("conv-hash", &convs, None);
    assert_eq!(target, SelectTarget::Conversation("conv-hash".to_string()));
}

#[test]
fn resolve_select_target_maps_peer_endpoint_to_conv_id() {
    let convs = vec![sample_conv("conv-hash", "peer-endpoint")];
    let target = resolve_select_target("peer-endpoint", &convs, None);
    assert_eq!(target, SelectTarget::Conversation("conv-hash".to_string()));
}

#[test]
fn resolve_select_target_cluster_node_starts_conversation() {
    let mut node = sample_node("node-1", Some("chat-endpoint"), true);
    node.chat_bootstrap_addrs = vec!["bootstrap-1".into()];
    let cluster = status_with("", vec![node]);
    let target = resolve_select_target("chat-endpoint", &[], Some(&cluster));
    assert_eq!(
        target,
        SelectTarget::StartWithPeer {
            peer: "chat-endpoint".into(),
            display_name: Some("Windows · host".into()),
            bootstrap_addrs: vec!["bootstrap-1".into()],
        }
    );
}

#[test]
fn resolve_select_target_cluster_node_without_endpoint_is_missing() {
    let cluster = status_with("", vec![sample_node("node-1", None, false)]);
    let target = resolve_select_target("node-1", &[], Some(&cluster));
    assert_eq!(target, SelectTarget::MissingChatEndpoint);
}

#[test]
fn resolve_select_target_unknown_id_starts_with_itself() {
    let target = resolve_select_target("raw-peer", &[], None);
    assert_eq!(
        target,
        SelectTarget::StartWithPeer {
            peer: "raw-peer".into(),
            display_name: None,
            bootstrap_addrs: Vec::new(),
        }
    );
    let cluster = status_with("", vec![sample_node("node-1", Some("   "), true)]);
    assert_eq!(
        resolve_select_target("node-1", &[], Some(&cluster)),
        SelectTarget::MissingChatEndpoint
    );
}

#[test]
fn find_conversation_for_node_ref_matches_endpoint_and_display_name() {
    let mut conv = sample_conv("conv-hash", "chat-endpoint");
    conv.peer_display_name = Some("Windows · DESKTOP-KDSVGM5".into());
    let conversations = vec![conv];
    assert_eq!(
        find_conversation_for_node_ref(&conversations, None, "chat-endpoint").as_deref(),
        Some("conv-hash")
    );
    assert_eq!(
        find_conversation_for_node_ref(&conversations, None, "DESKTOP-KDSVGM5").as_deref(),
        Some("conv-hash")
    );
    let cluster = status_with("", vec![sample_node("node-1", Some("chat-endpoint"), false)]);
    assert_eq!(
        find_conversation_for_node_ref(&conversations, Some(&cluster), "node-1").as_deref(),
        Some("conv-hash")
    );
}

#[test]
fn find_conversation_for_node_ref_uses_hostname_and_misses() {
    let mut conv = sample_conv("conv-x", "other-endpoint");
    conv.peer_display_name = Some("  my HOST laptop ".into());
    let conversations = vec![conv];
    let cluster = status_with("", vec![sample_node("node-9", None, false)]);
    assert_eq!(
        find_conversation_for_node_ref(&conversations, Some(&cluster), "node-9").as_deref(),
        Some("conv-x")
    );
    assert_eq!(find_conversation_for_node_ref(&conversations, None, "nothing"), None);
}

#[test]
fn conversation_covers_cluster_node_by_endpoint_or_node_id() {
    let node = sample_node("node-1", Some("ep-1"), false);
    assert!(conversation_covers_cluster_node(&sample_conv("c1", "ep-1"), &node));
    assert!(conversation_covers_cluster_node(
        &sample_conv("c2", "node-1"),
        &sample_node("node-1", None, false)
    ));
    assert!(!conversation_covers_cluster_node(&sample_conv("c3", "other"), &node));
}

#[test]
fn conversation_covers_cluster_node_by_display_name() {
    let node = sample_node("node-1", None, false);
    let mut conv = sample_conv("c4", "elsewhere");
    conv.peer_display_name = Some(" windows · HOST ".into());
    assert!(conversation_covers_cluster_node(&conv, &node));
    conv.peer_display_name = Some("   ".into());
    assert!(!conversation_covers_cluster_node(&conv, &node));
}

#[test]
fn merge_placeholders_skip_local_and_existing_peers() {
    let conversations = vec![sample_conv("conv-a", "ep-remote-a")];
    let cluster = status_with(
        "node-local",
        vec![
            sample_node("node-local", Some("ep-local"), true),
            sample_node("node-a", Some("ep-remote-a"), false),
            sample_node("node-b", Some("ep-remote-b"), false),
        ],
    );
    let placeholder_ids = placeholder_peer_ids(&conversations, &[], &cluster);
    assert_eq!(placeholder_ids, vec!["ep-remote-b".to_string()]);
}

#[test]
fn hidden_pref_skips_conversation_row_but_not_cover_check_helper() {
    let hidden = vec!["conv-win".to_string()];
    let node = sample_node("n-win", Some("ep-win"), false);
    let covers = conversation_covers_cluster_node(&sample_conv("conv-win", "ep-win"), &node);
    assert!(covers);
    let cluster = status_with("local", vec![node]);
    let ids = placeholder_peer_ids(&[sample_conv("conv-win", "ep-win")], &hidden, &cluster);
    assert_eq!(ids, vec!["ep-win".to_string()]);
    let hidden_placeholder = vec!["ep-win".to_string()];
    let none = placeholder_peer_ids(&[], &hidden_placeholder, &cluster);
    assert!(none.is_empty());
}

#[test]
fn search_category_ids_and_api_names() {
    assert_eq!(SearchCategory::Terminal.automation_id(), "chat:search_cat:terminals");
    assert_eq!(SearchCategory::Post.i18n_key(), "chat.sidebar.tab.posts");
    assert!(SearchCategory::Image.is_media());
    assert!(!SearchCategory::Contact.is_media());
    assert_eq!(SearchCategory::File.sidebar_api_category(), Some("document"));
    assert_eq!(SearchCategory::Group.sidebar_api_category(), None);
}

#[test]
fn media_hit_preview_and_avatar() {
    assert_eq!(hit_preview(&Some("clip.mov".into()), "body"), "clip.mov");
    assert_eq!(hit_preview(&Some("  ".into()), "body"), "body");
    assert_eq!(hit_preview(&None, "body"), "body");
    assert_eq!(hit_avatar_label(Some("video")), "VID");
    assert_eq!(hit_avatar_label(Some("document")), "DOC");
    assert_eq!(hit_avatar_label(None), "POST");
}

#[test]
fn row_kind_and_visibility_filter() {
    assert_eq!(row_kind("contact_direct"), SidebarRowKind::Contact);
    assert_eq!(row_kind("cluster_group"), SidebarRowKind::Group);
    assert_eq!(row_kind("channel"), SidebarRowKind::Channel);
    assert_eq!(row_kind("direct"), SidebarRowKind::Terminal);
    assert!(row_visible(None, SidebarRowKind::Group, "  ", "A", "b"));
    assert!(row_visible(Some(SearchCategory::Terminal), SidebarRowKind::Terminal, " DESK ", "my desktop", ""));
    assert!(!row_visible(Some(SearchCategory::Group), SidebarRowKind::Terminal, "", "x", "y"));
    assert!(row_visible(Some(SearchCategory::Image), SidebarRowKind::Channel, "hello", "t", "say HELLO"));
    assert!(!row_visible(None, SidebarRowKind::Terminal, "zzz", "abc", "def"));
}

// ---------------------------------------------------------------------------
// Thread and messages
// ---------------------------------------------------------------------------

#[test]
fn history_cursor_only_moves_toward_older_messages() {
    let messages = vec![
        sample_message("newest", "three", 30),
        sample_message("oldest", "one", 10),
        sample_message("middle", "two", 20),
    ];
    assert_eq!(advance_history_before(None, &messages), Some(10));
    assert_eq!(advance_history_before(Some(5), &messages), Some(5));
    assert_eq!(advance_history_before(Some(15), &messages), Some(10));
    assert_eq!(advance_history_before(Some(5), &[]), None);
}

#[test]
fn short_history_page_marks_history_exhausted() {
    assert!(page_exhausts_history(0));
    assert!(page_exhausts_history(RECENT_MESSAGE_PAGE - 1));
    assert!(!page_exhausts_history(RECENT_MESSAGE_PAGE));
}

#[test]
fn messages_snapshot_equal_compares_id_sent_at_and_body() {
    let a = sample_message("m1", "hello", 1_731_637_500_000);
    let mut b = sample_message("m1", "hello", 1_731_637_500_000);
    assert!(messages_snapshot_equal(std::slice::from_ref(&a), std::slice::from_ref(&b)));
    b.body = "other".into();
    assert!(!messages_snapshot_equal(std::slice::from_ref(&a), std::slice::from_ref(&b)));
}

#[test]
fn merge_pending_messages_appends_pending_bubble() {
    let base = vec![sample_message("m1", "hello", 1_000)];
    let pending = vec![PendingOutgoingMessage {
        client_id: "pending:1".into(),
        conv_id: "conv".into(),
        body: "optimistic".into(),
        sent_at: 2_000,
        attachments: Vec::new(),
    }];
    let merged = merge_pending_messages(&base, &pending, Some("local"));
    assert_eq!(merged.len(), 2);
    assert_eq!(merged[1].id, "pending:1");
    assert_eq!(merged[1].body, "optimistic");
}

#[test]
fn merge_pending_messages_keeps_empty_caption_image() {
    let base = vec![sample_message("m1", "", 5_000)];
    let merged = merge_pending_messages(&base, &pending_shot(), Some("local"));
    assert_eq!(merged.len(), 2);
    assert_eq!(merged[1].id, "pending:img");
    assert_eq!(merged[1].attachments[0].local_path.as_deref(), Some("/tmp/shot.png"));
}

#[test]
fn merge_pending_messages_dedupes_confirmed_image_by_name() {
    let mut confirmed = sample_message("m2", "", 5_000);
    confirmed.attachments = vec![shot_attachment(Some("/tmp/shot.png"))];
    let merged = merge_pending_messages(&[confirmed], &pending_shot(), Some("local"));
    assert_eq!(merged.len(), 1);
    assert_eq!(merged[0].id, "m2");
}

#[test]
fn merge_pending_messages_fills_missing_local_path() {
    let mut confirmed = sample_message("m2", "", 5_000);
    confirmed.attachments = vec![shot_attachment(None)];
    let merged = merge_pending_messages(&[confirmed], &pending_shot(), Some("local"));
    assert_eq!(merged.len(), 1);
    assert_eq!(merged[0].attachments[0].local_path.as_deref(), Some("/tmp/shot.png"));
}

#[test]
fn remap_pending_attachment_previews_moves_asset_id() {
    let mut confirmed = sample_message("m2", "", 5_000);
    confirmed.attachments = vec![shot_attachment(Some("/tmp/shot.png"))];
    let mut previews: AssetMap<String> = AssetMap::new();
    previews.insert("pending-attach:shot.png".into(), "asset-1".into());
    let mut sizes: AssetMap<(u32, u32)> = AssetMap::new();
    sizes.insert("pending-attach:shot.png".into(), (10u32, 20u32));
    remap_pending_attachment_previews(&mut previews, &mut sizes, &[confirmed], &pending_shot());
    assert_eq!(previews.get("att-1").map(String::as_str), Some("asset-1"));
    assert_eq!(sizes.get("att-1").copied(), Some((10, 20)));
    assert!(!previews.contains_key("pending-attach:shot.png"));
}

#[test]
fn merge_messages_by_id_dedupes_and_sorts() {
    let existing = vec![sample_message("a", "one", 10), sample_message("b", "two", 20)];
    let incoming = vec![sample_message("b", "two-updated", 25), sample_message("c", "three", 30)];
    let merged = merge_messages_by_id(&existing, &incoming);
    assert_eq!(merged.len(), 3);
    assert_eq!(merged[0].id, "a");
    assert_eq!(merged[1].id, "b");
    assert_eq!(merged[1].body, "two-updated");
    assert_eq!(merged[2].id, "c");
}

#[test]
fn merge_messages_by_id_keeps_existing_when_incoming_empty() {
    let existing = vec![sample_message("a", "one", 10)];
    let merged = merge_messages_by_id(&existing, &[]);
    assert_eq!(merged.len(), existing.len());
    assert_eq!(merged[0].id, existing[0].id);
}

#[test]
fn merge_messages_by_id_keeps_newer_stored_copy() {
    let existing = vec![sample_message("a", "new", 50)];
    let incoming = vec![sample_message("a", "old", 40), sample_message("z", "first", 1)];
    let merged = merge_messages_by_id(&existing, &incoming);
    assert_eq!(merged.len(), 2);
    assert_eq!(merged[0].id, "z");
    assert_eq!(merged[1].body, "new");
}

#[test]
fn position_ids_outgoing_and_preview_text() {
    assert_eq!(message_position_id("abc"), "chat-message-abc");
    let mine = sample_message("m1", "x", 1);
    assert!(message_is_outgoing(&mine, Some("local")));
    assert!(!message_is_outgoing(&mine, Some("peer")));
    assert!(message_is_outgoing(&sample_message("pending:9", "x", 1), None));
    assert_eq!(truncate_preview("  hello\nworld  ", 40), "hello world");
    assert_eq!(truncate_preview("abcdef", 4), "abc…");
    assert_eq!(pending_attachment_names(&pending_shot()[0]), vec!["shot.png".to_string()]);
}

#[test]
fn thread_state_drops_stale_fetch_and_merges_current() {
    let mut state = ThreadState::new();
    let first = state.next_fetch_generation("conv");
    let second = state.next_fetch_generation("conv");
    assert_eq!((first, second), (1, 2));
    assert!(!state.fetch_generation_matches("conv", first));
    let stale = state.apply_fetched_messages("conv", first, &[sample_message("a", "x", 1)], None, &[], None);
    assert_eq!(stale, FetchApplied::Stale);
    assert!(state.message_cache.get("conv").is_none());
    state.loaded_for = Some("conv".into());
    let page = vec![sample_message("b", "two", 20), sample_message("a", "one", 10)];
    let applied = state.apply_fetched_messages("conv", second, &page, None, &[], Some("local"));
    assert_eq!(applied, FetchApplied::Merged { visible: true, rebuild: true });
    assert_eq!(state.messages.len(), 2);
    assert_eq!(state.messages[0].id, "a");
    assert_eq!(state.history_before.get("conv").copied(), Some(10));
    assert_eq!(state.history_exhausted.get("conv").copied(), Some(true));
    let again = state.apply_fetched_messages("conv", second, &page, None, &[], Some("local"));
    assert_eq!(again, FetchApplied::Merged { visible: true, rebuild: false });
}

#[test]
fn thread_state_empty_pages_and_incoming() {
    let mut state = ThreadState::new();
    let g = state.next_fetch_generation("c");
    assert_eq!(
        state.apply_fetched_messages("c", g, &[], Some(5), &[], None),
        FetchApplied::Empty { rebuild: false }
    );
    assert_eq!(state.history_exhausted.get("c").copied(), Some(true));
    assert_eq!(
        state.apply_fetched_messages("c", g, &[], None, &[], None),
        FetchApplied::Empty { rebuild: true }
    );
    assert_eq!(state.message_cache.get("c").map(|v| v.len()), Some(0));
    assert_eq!(
        state.apply_incoming_message(sample_message("m", "hi", 3), "c", &[], None),
        IncomingApplied::Ignored
    );
    state.loaded_for = Some("c".into());
    assert_eq!(
        state.apply_incoming_message(sample_message("m", "hi", 3), "c", &[], None),
        IncomingApplied::Merged { rebuild: true }
    );
    assert_eq!(
        state.apply_incoming_message(sample_message("m", "hi again", 4), "c", &[], None),
        IncomingApplied::Duplicate
    );
    assert_eq!(state.messages.len(), 1);
}

#[test]
fn thread_hint_text_follows_state() {
    let mut h = ThreadHintState {
        pending_open: false,
        loaded: false,
        fetch_error: None,
        loading: false,
        loading_older: false,
        search_open: false,
        search_loading: false,
        search_total: 0,
        search_query: String::new(),
        search_from_set: false,
    };
    assert_eq!(thread_hint_text(&h), "选择左侧终端开始聊天");
    h.loaded = true;
    assert_eq!(thread_hint_text(&h), "暂无消息，发送第一条吧");
    h.search_open = true;
    h.search_query = " q ".into();
    assert_eq!(thread_hint_text(&h), "无匹配消息");
    h.loading = true;
    assert_eq!(thread_hint_text(&h), "加载中…");
    h.fetch_error = Some("boom".into());
    assert_eq!(thread_hint_text(&h), "boom");
    h.pending_open = true;
    assert_eq!(thread_hint_text(&h), "正在打开会话…");
}

// ---------------------------------------------------------------------------
// Sticker picker
// ---------------------------------------------------------------------------

#[test]
fn common_emojis_cover_smileys_through_robot() {
    let emojis = common_emojis();
    assert!(emojis.len() >= 100);
    assert_eq!(emojis.first().map(String::as_str), Some("😀"));
    assert_eq!(emojis.last().map(String::as_str), Some("🤖"));
    assert!(emojis.iter().any(|e| e == "🥳"));
    assert!(emojis.iter().any(|e| e == "🤖"));
    assert!(!emojis.iter().any(|e| e == "🥲"));
    assert!(!emojis.iter().any(|e| e == "🥸"));
    assert!(!emojis.iter().any(|e| e == "😶‍🌫️"));
    assert!(!emojis.iter().any(|e| e == "😮‍💨"));
    assert!(!emojis.iter().any(|e| e == "😵‍💫"));
    for emoji in &emojis {
        assert!(
            !emoji.contains('\u{200D}'),
            "picker must not offer ZWJ sequences that split on Windows: {emoji:?}"
        );
    }
}

#[test]
fn common_emojis_are_non_empty_unicode() {
    for emoji in common_emojis() {
        assert!(!emoji.is_empty());
        assert!(emoji.chars().count() >= 1);
    }
}

#[test]
fn sticker_action_emits_same_emoji() {
    let event = picker_event(&StickerPickerAction::InsertEmoji("🤖".into()));
    match event {
        StickerPickerEvent::InsertEmoji(e) => assert_eq!(e, "🤖"),
    }
    assert_eq!(common_emojis().len(), 102);
}

// ---------------------------------------------------------------------------
// Calls
// ---------------------------------------------------------------------------

#[test]
fn call_header_lines() {
    assert_eq!(voice_status_to_header_line("ringing", false), "正在呼叫…");
    assert_eq!(voice_status_to_header_line("active", false), "通话 · 已连接");
    assert_eq!(voice_status_to_header_line("idle", true), "在线");
    assert_eq!(voice_status_to_header_line("idle", false), "离线");
    assert_eq!(video_status_to_header_line("incoming", false), "视频来电");
    assert_eq!(video_status_to_header_line("", true), "在线");
}

#[test]
fn call_error_toasts_by_keyword() {
    assert_eq!(voice_error_toast("peer OFFLINE").1, StatusTone::Muted);
    assert_eq!(voice_error_toast("Microphone denied").0, "无法访问麦克风，请检查权限与设备");
    assert_eq!(voice_error_toast("opus init").0, "Opus 音频不可用，请检查编解码");
    assert_eq!(voice_error_toast("Busy").0, "已有进行中的通话或远程会话");
    assert_eq!(voice_error_toast("weird"), ("语音通话失败: weird".to_string(), StatusTone::Danger));
    assert_eq!(video_error_toast("终端离线").1, StatusTone::Muted);
    assert_eq!(video_error_toast("camera busy").0, "无法访问摄像头，请检查权限与设备");
    assert_eq!(video_error_toast("HTTP 503").0, "群视频服务未配置（Realtime SFU），请联系管理员");
    assert_eq!(video_error_toast("x").0, "视频通话失败: x");
}

#[test]
fn call_device_params_and_records() {
    let voice = devices_from_voice_prefs(&VoiceDevicePrefs { mic_id: String::new(), muted: true });
    assert_eq!(voice.microphone_device_id, None);
    assert_eq!(voice.muted, Some(true));
    let video = devices_from_video_prefs(&VideoDevicePrefs {
        camera_id: "cam".into(),
        mic_id: "mic".into(),
        muted: false,
    });
    assert_eq!(video.camera_device_id.as_deref(), Some("cam"));
    assert_eq!(video.microphone_device_id.as_deref(), Some("mic"));
    let inv = invite_params("conv");
    assert_eq!(inv.conv_id, "conv");
    assert_eq!(inv.devices.muted, None);
    let inv2 = invite_params_with_voice("conv", &VoiceDevicePrefs { mic_id: "m".into(), muted: false });
    assert_eq!(inv2.devices.microphone_device_id.as_deref(), Some("m"));
    assert!(call_status_ended(CallHistoryStatus::Missed));
    assert!(!call_status_ended(CallHistoryStatus::Active));
    assert_eq!(
        call_step_record(CallStep::Decline),
        (CallHistoryStatus::Declined, CallHistoryDirection::Incoming)
    );
    let rec = outgoing_call_record(
        "conv",
        None,
        "fresh".into(),
        CallHistoryKind::Voice,
        CallHistoryStatus::Ringing,
        None,
        "ep",
        &Some("Peer".into()),
        100,
        200,
    );
    assert_eq!(rec.call_id, "fresh");
    assert_eq!(rec.ended_at, None);
    assert_eq!(rec.peer_display_name, "Peer");
    assert!(call_status_update_record(
        "conv",
        Some(""),
        CallHistoryKind::Video,
        CallHistoryStatus::Ended,
        CallHistoryDirection::Outgoing,
        "ep",
        &None,
        0,
        9,
    )
    .is_none());
    let upd = call_status_update_record(
        "conv",
        Some("call-1"),
        CallHistoryKind::Video,
        CallHistoryStatus::Ended,
        CallHistoryDirection::Outgoing,
        "ep",
        &None,
        0,
        9,
    )
    .unwrap();
    assert_eq!(upd.started_at, 0);
    assert_eq!(upd.ended_at, Some(0));
    assert_eq!(upd.peer_display_name, "");
    assert_eq!(live_peer_after_status("active", Some("p".into())), Some("p".to_string()));
    assert_eq!(live_peer_after_status("ended", Some("p".into())), None);
    assert_eq!(
        video_panel_status(&Ok(("active".into(), true, false))),
        "视频: active hosting=true peer_live=false"
    );
    assert_eq!(video_panel_status(&Err("no".into())), "视频错误: no");
}

// ---------------------------------------------------------------------------
// Opening chats and the sidebar search
// ---------------------------------------------------------------------------

#[test]
fn open_chat_from_cache_decisions() {
    let mut node = sample_node("node-1", Some("ep-1"), true);
    node.chat_bootstrap_addrs = vec!["addr".into()];
    let cluster = status_with("local", vec![node, sample_node("node-2", Some("  "), true)]);
    assert_eq!(open_chat_from_cache(true, Some(&cluster), &[], "node-1"), OpenChatStep::Ignore);
    assert_eq!(
        open_chat_from_cache(false, Some(&cluster), &[], "local"),
        OpenChatStep::Toast(ChatToast::CannotMessageSelf)
    );
    assert_eq!(
        open_chat_from_cache(false, Some(&cluster), &[], "ep-1"),
        OpenChatStep::Start {
            peer: "ep-1".into(),
            display_name: "Windows · host".into(),
            bootstrap_addrs: vec!["addr".into()],
        }
    );
    assert_eq!(
        open_chat_from_cache(false, Some(&cluster), &[], "node-2"),
        OpenChatStep::Toast(ChatToast::NoChatEndpoint)
    );
    let convs = vec![sample_conv("conv-9", "gone-node")];
    assert_eq!(
        open_chat_from_cache(false, Some(&cluster), &convs, "gone-node"),
        OpenChatStep::Select("conv-9".into())
    );
    assert_eq!(
        open_chat_from_cache(false, Some(&cluster), &[], "unknown"),
        OpenChatStep::Refresh { stale_peer: None }
    );
    assert_eq!(open_chat_from_cache(false, None, &[], "x"), OpenChatStep::Refresh { stale_peer: None });
}

#[test]
fn open_chat_after_refresh_decisions() {
    let cluster = status_with("local", vec![sample_node("node-1", Some("ep-1"), true)]);
    let convs = vec![sample_conv("conv-1", "ep-1"), sample_conv("conv-old", "old-ep")];
    assert_eq!(
        open_chat_after_refresh(&cluster, &convs, "node-1", None),
        OpenChatStep::Select("conv-1".into())
    );
    assert_eq!(
        open_chat_after_refresh(&cluster, &[], "node-1", None),
        OpenChatStep::Start { peer: "ep-1".into(), display_name: "Windows · host".into(), bootstrap_addrs: vec![] }
    );
    assert_eq!(
        open_chat_after_refresh(&cluster, &convs, "vanished", Some("old-ep")),
        OpenChatStep::Select("conv-old".into())
    );
    assert_eq!(
        open_chat_after_refresh(&cluster, &convs, "vanished", Some("  ")),
        OpenChatStep::Toast(ChatToast::DeviceNotFound)
    );
    assert_eq!(
        open_chat_after_refresh(&cluster, &convs, "local", None),
        OpenChatStep::Toast(ChatToast::CannotMessageSelf)
    );
}

#[test]
fn sidebar_select_steps() {
    let convs = vec![sample_conv("conv-a", "ep-a")];
    assert_eq!(sidebar_select_step(true, false, "conv-a", &convs, None), OpenChatStep::Ignore);
    assert_eq!(
        sidebar_select_step(false, true, "contact-row", &convs, None),
        OpenChatStep::StartContact("contact-row".into())
    );
    assert_eq!(
        sidebar_select_step(false, false, "ep-a", &convs, None),
        OpenChatStep::Select("conv-a".into())
    );
    assert_eq!(
        sidebar_select_step(false, false, "peer-x", &convs, None),
        OpenChatStep::Start { peer: "peer-x".into(), display_name: String::new(), bootstrap_addrs: vec![] }
    );
    let cluster = status_with("l", vec![sample_node("n", None, true)]);
    assert_eq!(
        sidebar_select_step(false, false, "n", &convs, Some(&cluster)),
        OpenChatStep::Toast(ChatToast::NoChatEndpoint)
    );
}

#[test]
fn sidebar_search_hits_generations() {
    let mut s = SidebarSearch::new();
    assert_eq!(s.toggle_focus(), HitsEffect::Clear);
    assert!(s.focused);
    let e = s.select_category(SearchCategory::Image);
    assert_eq!(e, HitsEffect::Fetch { generation: 1, category: "image".into(), query: None });
    assert_eq!(s.select_category(SearchCategory::Image), HitsEffect::Keep);
    let e2 = s.edit_query("cat".into());
    assert_eq!(e2, HitsEffect::Fetch { generation: 2, category: "image".into(), query: Some("cat".into()) });
    assert!(!s.hits_current(1));
    assert!(s.hits_current(2));
    assert_eq!(s.blur(), HitsEffect::Clear);
    assert_eq!(s.category, SearchCategory::Terminal);
    assert_eq!(s.blur(), HitsEffect::Keep);
}

#[test]
fn agent_pair_qr_decodes_standard_base64() {
    assert_eq!(decode_agent_pair_qr("aGk="), Ok(b"hi".to_vec()));
    assert_eq!(decode_agent_pair_qr("aGk"), Err(QrDecodeError::InvalidBase64));
    assert_eq!(decode_agent_pair_qr("@@@@"), Err(QrDecodeError::InvalidBase64));
    assert_eq!(agent_pair_qr_asset_id("C1"), "wormhole-agent-pair-qr-C1");
    let mut d = AgentPairDialog::new();
    d.open();
    assert!(d.begin_request());
    assert!(!d.begin_request());
    d.finish_request(Ok(AgentPairCode {
        code: "C1".into(),
        pair_url: "https://pair".into(),
        qr_png_base64: "iVBORw==".into(),
    }));
    assert!(!d.busy);
    let (id, png) = d.qr.clone().unwrap();
    assert_eq!(id, "wormhole-agent-pair-qr-C1");
    assert_eq!(png, vec![0x89, 0x50, 0x4e, 0x47]);
    d.finish_request(Err("boom".into()));
    assert_eq!(d.error.as_deref(), Some("boom"));
    assert!(d.pair.is_some());
    d.close();
    assert!(!d.open && d.error.is_none());
}

#[test]
fn contact_category_adds_chat_ready_contacts() {
    let contact = |id: &str, uid: Option<&str>, name: &str, can_chat: bool| ChatContact {
        id: id.into(),
        user_id: uid.map(str::to_string),
        display_name: name.into(),
        can_chat,
        device_count: 1,
    };
    let contacts = vec![
        contact("c1", Some("u1"), "Alice", true),
        contact("c2", Some("u2"), "Bob", false),
        contact("c3", None, "Carol", true),
        contact("c4", Some("u4"), "Dave", true),
        contact("c5", Some("u5"), "Eve", true),
        contact("c6", Some("USER-6"), "Frank", true),
    ];
    let mut dm = sample_conv("conv-dm", "ep");
    dm.kind = "contact_direct".into();
    dm.peer_user_id = Some("u5".into());
    let convs = vec![dm];
    let rows = vec!["u4".to_string()];
    assert_eq!(extra_contact_rows(&rows, &convs, &contacts, ""), vec![0, 5]);
    assert_eq!(extra_contact_rows(&rows, &convs, &contacts, "  user-6 "), vec![5]);
    assert_eq!(extra_contact_rows(&rows, &convs, &contacts, "ALI"), vec![0]);
    assert_eq!(contact_row_preview(3).as_deref(), Some("3 devices"));
    assert_eq!(contact_row_preview(1), None);
}

#[test]
fn selected_row_and_its_conversation_are_highlighted() {
    let convs = vec![sample_conv("conv-1", "peer-1"), sample_conv("conv-2", "peer-2")];
    // The selected conversation id highlights the row of its peer.
    assert!(row_is_active(&convs, "peer-1", None, Some("conv-1")));
    assert!(row_is_active(&convs, "conv-1", None, Some("conv-1")));
    assert!(!row_is_active(&convs, "peer-2", None, Some("conv-1")));
    // A selection in progress highlights through a conversation too, by peer or id.
    assert!(row_is_active(&convs, "conv-2", Some("peer-2"), None));
    assert!(row_is_active(&convs, "peer-2", Some("conv-2"), None));
    assert!(!row_is_active(&convs, "peer-1", Some("peer-2"), None));
    // Selecting a peer id does not reach other rows through the selection.
    assert!(!row_is_active(&convs, "conv-1", None, Some("peer-1")));
    assert!(!row_is_active(&convs, "peer-1", None, None));
}

#[test]
fn removing_a_selected_peer_clears_the_selection() {
    let convs = vec![sample_conv("conv-1", "peer-1")];
    assert!(selection_matches(&convs, Some("conv-1"), "peer-1"));
    assert!(selection_matches(&convs, Some("conv-1"), "conv-1"));
    assert!(selection_matches(&convs, Some("other"), "other"));
    assert!(!selection_matches(&convs, Some("conv-1"), "peer-2"));
    assert!(!selection_matches(&convs, None, "peer-1"));
}

fn hits_ids(r: &ThreadSearchResults<u32>) -> Vec<String> {
    r.hits.iter().map(|m| m.id.clone()).collect()
}

fn page(ids: &[&str], next: Option<u32>, total: u64) -> SearchPage<u32> {
    SearchPage {
        messages: ids.iter().enumerate().map(|(i, id)| sample_message(id, "hit", i as u64)).collect(),
        next_cursor: next,
        total,
    }
}

#[test]
fn blank_search_clears_results() {
    let mut r: ThreadSearchResults<u32> = ThreadSearchResults::new();
    r.begin("hello", None, None);
    r.apply_page(1, "c", Some("c"), true, 0, Ok(page(&["a"], None, 1)));
    assert_eq!(r.begin("   ", None, None), SearchRequest::Cleared);
    assert!(r.hits.is_empty());
    assert_eq!((r.current, r.total, r.loading), (0, 0, false));
    assert_eq!(r.generation, 1);
}

#[test]
fn search_request_parameters() {
    let mut r: ThreadSearchResults<u32> = ThreadSearchResults::new();
    assert_eq!(
        r.begin(" hi ", None, Some(9)),
        SearchRequest::Fetch {
            generation: 1,
            query: Some(" hi ".to_string()),
            from_ms: None,
            to_ms: Some(9),
            ascending: false,
            limit: 50,
        }
    );
    assert_eq!(
        r.begin("", Some(1), Some(2)),
        SearchRequest::Fetch { generation: 2, query: None, from_ms: Some(1), to_ms: Some(2), ascending: true, limit: 50 }
    );
    assert!(r.loading);
}

#[test]
fn search_pages_append_without_duplicates_and_drop_stale() {
    let mut r: ThreadSearchResults<u32> = ThreadSearchResults::new();
    r.begin("x", None, None);
    assert_eq!(r.apply_page(1, "c", Some("c"), true, 0, Ok(page(&["a", "b"], Some(7), 4))), Some(0));
    assert_eq!(hits_ids(&r), vec!["a", "b"]);
    assert_eq!(r.next_cursor, Some(7));
    r.begin("x", None, None);
    // A page of the older search is dropped.
    assert_eq!(r.apply_page(1, "c", Some("c"), false, 2, Ok(page(&["z"], None, 4))), None);
    // So is a page for a conversation no longer shown.
    assert_eq!(r.apply_page(2, "c", Some("d"), false, 2, Ok(page(&["z"], None, 4))), None);
    assert_eq!(hits_ids(&r), vec!["a", "b"]);
    assert_eq!(r.apply_page(2, "c", Some("c"), false, 2, Ok(page(&["b", "c", "c", "d"], None, 4))), Some(2));
    assert_eq!(hits_ids(&r), vec!["a", "b", "c", "d"]);
    assert_eq!((r.current, r.total, r.loading), (2, 4, false));
    assert_eq!(r.next_cursor, None);
}

#[test]
fn search_page_caps_current_and_keeps_errors() {
    let mut r: ThreadSearchResults<u32> = ThreadSearchResults::new();
    r.begin("x", None, None);
    assert_eq!(r.apply_page(1, "c", Some("c"), true, 9, Ok(page(&["a", "b"], None, 2))), Some(1));
    r.begin("x", None, None);
    assert_eq!(r.apply_page(2, "c", Some("c"), true, 0, Err("boom".to_string())), None);
    assert_eq!(r.error.as_deref(), Some("boom"));
    assert_eq!((r.current, r.total), (0, 0));
    assert_eq!(hits_ids(&r), vec!["a", "b"]);
}

#[test]
fn search_navigation_moves_and_pages() {
    let mut r: ThreadSearchResults<u32> = ThreadSearchResults::new();
    assert_eq!(r.navigate(true), SearchNav::Stay);
    r.begin("x", None, None);
    r.apply_page(1, "c", Some("c"), true, 0, Ok(page(&["a", "b"], Some(3), 3)));
    assert_eq!(r.navigate(false), SearchNav::Show(0));
    assert_eq!(r.navigate(true), SearchNav::Show(1));
    assert_eq!(r.current, 1);
    assert_eq!(r.navigate(true), SearchNav::FetchMore(2));
    assert_eq!(r.current, 1);
    assert_eq!(r.navigate(false), SearchNav::Show(0));
    assert_eq!(r.navigate(true), SearchNav::Show(1));
    r.next_cursor = None;
    assert_eq!(r.navigate(true), SearchNav::Stay);
}

#[test]
fn jump_scrolls_or_fetches_around() {
    let loaded = vec![sample_message("m1", "a", 1)];
    assert_eq!(jump_step("m1", &loaded, Some("c")), JumpStep::ScrollTo("m1".to_string()));
    assert_eq!(jump_step("m2", &loaded, Some("c")), JumpStep::FetchWindow("m2".to_string()));
    assert_eq!(jump_step("m2", &loaded, None), JumpStep::Nothing);
    let mut r: ThreadSearchResults<u32> = ThreadSearchResults::new();
    r.begin("x", None, None);
    r.apply_page(1, "c", Some("c"), true, 0, Ok(page(&["m2"], None, 1)));
    assert_eq!(r.target_step(0, &loaded, Some("c")), JumpStep::FetchWindow("m2".to_string()));
    assert_eq!(r.target_step(5, &loaded, Some("c")), JumpStep::Nothing);
    assert!(r.window_still_wanted("m2"));
    assert!(!r.window_still_wanted("m1"));
}

#[test]
fn thread_fetch_starts_and_failures() {
    let mut state = ThreadState::new();
    state.fetch_error = Some("old".into());
    let g = state.begin_fetch("c");
    assert_eq!(g, 1);
    assert_eq!(state.loading_conv.as_deref(), Some("c"));
    assert_eq!(state.fetch_error, None);
    // Not on screen: quiet, but the loading marks clear.
    assert_eq!(state.apply_fetch_error("c", g, false, "down"), FetchFailed::Quiet);
    assert_eq!(state.loading_conv, None);
    state.loaded_for = Some("c".into());
    let g2 = state.begin_fetch("c");
    // A superseded fetch stays quiet.
    assert_eq!(state.apply_fetch_error("c", g, false, "down"), FetchFailed::Quiet);
    assert_eq!(state.apply_fetch_error("c", g2, false, "down"), FetchFailed::HintCleared);
    assert_eq!(state.fetch_error.as_deref(), Some("无法加载消息: down"));
    // Older pages: one at a time, none once exhausted.
    let o = state.begin_fetch_older("c");
    assert_eq!(o, Some(3));
    assert_eq!(state.begin_fetch_older("c"), None);
    assert_eq!(state.apply_fetch_error("c", 3, true, "slow"), FetchFailed::Hint);
    assert_eq!(state.fetch_error.as_deref(), Some("无法加载更早消息: slow"));
    assert_eq!(state.loading_older_conv, None);
    state.history_exhausted.insert("c".into(), true);
    assert_eq!(state.begin_fetch_older("c"), None);
}

#[test]
fn thread_fetch_error_with_messages_keeps_them() {
    let mut state = ThreadState::new();
    state.loaded_for = Some("c".into());
    state.messages = vec![sample_message("a", "x", 1)];
    let g = state.begin_fetch("c");
    assert_eq!(state.apply_fetch_error("c", g, false, "down"), FetchFailed::Hint);
    assert_eq!(state.fetch_error, None);
    assert_eq!(state.messages.len(), 1);
}

#[test]
fn thread_selection_switch_and_history_clear() {
    let mut state = ThreadState::new();
    state.message_cache.insert("c".into(), vec![sample_message("a", "x", 1)]);
    assert_eq!(state.select_conversation(None, &[], None), None);
    assert_eq!(state.select_conversation(Some("c"), &[], None), Some(true));
    assert_eq!(state.loaded_for.as_deref(), Some("c"));
    assert_eq!(state.loading_conv, None);
    assert_eq!(state.messages.len(), 1);
    assert_eq!(state.select_conversation(Some("c"), &[], None), None);
    assert_eq!(state.select_conversation(Some("d"), &[], None), Some(true));
    assert_eq!(state.loading_conv.as_deref(), Some("d"));
    assert!(state.messages.is_empty());
    assert!(!state.history_cleared("c"));
    assert_eq!(state.message_cache.get("c").map(|v| v.len()), Some(0));
    assert_eq!(state.select_conversation(Some("c"), &[], None), Some(false));
    state.messages = vec![sample_message("z", "y", 2)];
    assert!(state.history_cleared("c"));
    assert!(state.messages.is_empty());
    assert_eq!(state.select_conversation(None, &[], None), Some(true));
    assert_eq!(state.loaded_for, None);
}

#[test]
fn thread_sync_caches_base_when_shown_changes() {
    let mut state = ThreadState::new();
    state.loaded_for = Some("c".into());
    state.messages = vec![sample_message("a", "x", 1)];
    // No cache: the shown messages are the base; nothing pending, same snapshot.
    assert!(!state.sync_for_conv("c", &[], None));
    assert!(state.message_cache.get("c").is_none());
    state.message_cache.insert("c".into(), vec![sample_message("a", "x", 1), sample_message("b", "y", 2)]);
    assert!(state.sync_for_conv("c", &[], None));
    assert_eq!(state.messages.len(), 2);
}

#[test]
fn default_group_members_need_a_cluster_and_two_endpoints() {
    assert_eq!(cluster_group_members(None), Err(GroupProblem::NeedCluster));
    let mut local = sample_node("me", Some("ep-me"), true);
    local.chat_bootstrap_addrs = vec!["10.0.0.1:9".into()];
    let nodes = vec![local, sample_node("blank", Some("  "), true), sample_node("none", None, true)];
    let mut status = status_with("me", nodes);
    assert_eq!(cluster_group_members(Some(&status)), Err(GroupProblem::NeedCluster));
    status.cluster_id = Some("c1".into());
    assert_eq!(cluster_group_members(Some(&status)), Err(GroupProblem::InsufficientMembers));
    status.nodes.push(sample_node("peer", Some("ep-peer"), false));
    let (id, members) = cluster_group_members(Some(&status)).unwrap();
    assert_eq!(id, "c1");
    assert_eq!(
        members,
        vec![
            GroupMember {
                node_id: "me".into(),
                endpoint: "ep-me".into(),
                display_name: Some("Windows · host".into()),
                bootstrap_addrs: vec!["10.0.0.1:9".into()],
                is_local: true,
            },
            GroupMember {
                node_id: "peer".into(),
                endpoint: "ep-peer".into(),
                display_name: Some("Windows · host".into()),
                bootstrap_addrs: Vec::new(),
                is_local: false,
            },
        ]
    );
}

#[test]
fn sidebar_refreshes_coalesce() {
    let mut g = RefreshGate::new();
    assert!(g.request());
    assert!(!g.request());
    assert!(!g.request());
    assert!(g.pending);
    assert!(g.finish());
    assert!(g.in_flight && !g.pending);
    assert!(!g.finish());
    assert!(!g.in_flight);
    assert!(g.request());
}

#[test]
fn pending_open_summary_uses_peer_node() {
    let mut peer = sample_node("node-2", Some("ep-2"), true);
    peer.os = "macOS".into();
    let mut bare = sample_node("node-3", None, false);
    bare.presence_status = "signed_in".into();
    let status = status_with("me", vec![sample_node("me", Some("ep-me"), true), peer, bare]);
    assert_eq!(
        pending_open_summary("ep-2", Some("Bob"), Some(&status)),
        PendingOpen { title: Some("Bob".into()), os: "macOS".into(), presence: "online".into() }
    );
    assert_eq!(
        pending_open_summary("node-2", Some("  "), Some(&status)),
        PendingOpen { title: None, os: "macOS".into(), presence: "online".into() }
    );
    assert_eq!(
        pending_open_summary("node-3", None, Some(&status)),
        PendingOpen { title: None, os: "Windows".into(), presence: "recently_online".into() }
    );
    assert_eq!(
        pending_open_summary("ghost", None, Some(&status)),
        PendingOpen { title: None, os: String::new(), presence: "unknown".into() }
    );
    assert_eq!(
        pending_open_summary("ep-2", None, None),
        PendingOpen { title: None, os: String::new(), presence: "unknown".into() }
    );
}

#[test]
fn reply_previews_follow_the_answered_message() {
    let mut image = sample_message("img", "  ", 1);
    image.attachments = vec![shot_attachment(None)];
    let file = sample_message("file", "", 2);
    let long = "x".repeat(100);
    let text = sample_message("txt", &format!("  {long}  "), 3);
    let msgs = vec![image, file, text];
    assert_eq!(reply_preview(&msgs, "img"), Some(ReplyPreview::Image));
    assert_eq!(reply_preview(&msgs, "file"), Some(ReplyPreview::File));
    match reply_preview(&msgs, "txt") {
        Some(ReplyPreview::Text(t)) => {
            assert_eq!(t.chars().count(), 80);
            assert!(t.ends_with('…'));
        }
        other => panic!("unexpected {other:?}"),
    }
    assert_eq!(reply_preview(&msgs, "missing"), None);
}

#[test]
fn last_outgoing_bubble() {
    let by = |id: &str, author: &str| {
        let mut m = sample_message(id, "x", 1);
        m.author_endpoint = author.into();
        m
    };
    assert_eq!(last_outgoing_index(&[by("a", "me"), by("b", "peer")], Some("me")), Some(0));
    assert_eq!(
        last_outgoing_index(&[by("a", "me"), by("b", "peer"), by("pending:1", "peer")], Some("me")),
        Some(2)
    );
    assert_eq!(last_outgoing_index(&[by("b", "peer")], Some("me")), None);
    assert_eq!(last_outgoing_index(&[by("a", "me")], None), None);
}

#[test]
fn image_previews_decode_once() {
    let att = |id: &str, kind: &str, path: Option<&str>| ChatAttachment {
        id: id.into(),
        kind: kind.into(),
        name: "f".into(),
        size: 1,
        mime: None,
        source_hash: None,
        local_path: path.map(str::to_string),
    };
    let mut m1 = sample_message("m1", "", 1);
    m1.attachments = vec![att("a", "image", Some("/p/a.png")), att("b", "file", Some("/p/b.bin")), att("c", "image", None)];
    let mut m2 = sample_message("m2", "", 2);
    m2.attachments = vec![att("a", "image", Some("/p/a.png")), att("d", "image", Some("/p/d.png")), att("e", "image", Some("/p/e.png"))];
    let mut previews: AssetMap<String> = AssetMap::new();
    previews.insert("d".into(), "asset-d".into());
    let mut errors: AssetMap<String> = AssetMap::new();
    errors.insert("e".into(), "bad".into());
    let mut inflight: AssetMap<bool> = AssetMap::new();
    let started = attachments_to_decode(&[m1, m2], &previews, &errors, &mut inflight);
    assert_eq!(started, vec![("a".to_string(), "/p/a.png".to_string())]);
    assert!(inflight.contains_key("a"));
    let mut m3 = sample_message("m3", "", 3);
    m3.attachments = vec![att("a", "image", Some("/p/a.png"))];
    assert!(attachments_to_decode(&[m3], &previews, &errors, &mut inflight).is_empty());
}

#[test]
fn load_earlier_needs_a_cursor_and_no_older_fetch() {
    let mut state = ThreadState::new();
    assert_eq!(state.load_earlier(), None);
    state.loaded_for = Some("c".into());
    assert_eq!(state.load_earlier(), None);
    state.history_before.insert("c".into(), 40);
    assert_eq!(state.load_earlier(), Some(("c".to_string(), 40, 1)));
    assert_eq!(state.load_earlier(), None);
    state.loading_older_conv = None;
    state.history_exhausted.insert("c".into(), true);
    assert_eq!(state.load_earlier(), None);
}

#[test]
fn merge_pending_keeps_confirmed_and_adds_bubbles_in_time_order() {
    let mut confirmed = sample_message("m2", "", 5_000);
    confirmed.attachments = vec![shot_attachment(None)];
    let early = sample_message("m1", "early", 1_000);
    let mut pending = pending_shot();
    pending.push(PendingOutgoingMessage {
        client_id: "pending:late".into(),
        conv_id: "conv".into(),
        body: "late".into(),
        sent_at: 9_000,
        attachments: Vec::new(),
    });
    pending.push(PendingOutgoingMessage {
        client_id: "pending:first".into(),
        conv_id: "conv".into(),
        body: "first".into(),
        sent_at: 500,
        attachments: Vec::new(),
    });
    let merged = merge_pending_messages(&[confirmed, early], &pending, Some("me"));
    let ids: Vec<&str> = merged.iter().map(|m| m.id.as_str()).collect();
    assert_eq!(ids, vec!["pending:first", "m1", "m2", "pending:late"]);
    assert_eq!(merged[2].attachments[0].name, "shot.png");
    assert_eq!(merged[2].attachments[0].local_path.as_deref(), Some("/tmp/shot.png"));
    assert_eq!(merged[2].author_endpoint, "local");
    assert_eq!(merged[0].author_endpoint, "me");
    assert_eq!(merged[3].body, "late");
}

#[test]
fn merge_by_id_keeps_newest_copy_and_prefers_incoming_on_ties() {
    let existing = vec![sample_message("a", "stored", 10), sample_message("b", "stored", 20)];
    let incoming = vec![sample_message("a", "fresh", 10), sample_message("b", "older", 15)];
    let merged = merge_messages_by_id(&existing, &incoming);
    assert_eq!(merged.len(), 2);
    assert_eq!(merged[0].body, "fresh");
    assert_eq!(merged[1].body, "stored");
}
