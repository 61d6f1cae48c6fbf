use wormhole_desktop_ui::clock::{unix_now, unix_now_at};
use wormhole_desktop_ui::asset_map::AssetMap;
use chrono::Datelike;
use wormhole_desktop_ui::calendar::{
    calendar_cells, month_title, next_month, previous_month, CalendarMonth, SearchBarEffect,
    ChatThreadSearchAction, ThreadSearchBar,
};
use wormhole_desktop_ui::clipboard::{
    clipboard_image_png,
    clipboard_files_text, clipboard_image_kind_and_ext, clipboard_path_candidates, file_uri_list,
    keep_existing, normalize_clipboard_text, paths_from_clipboard_content,
    paths_from_clipboard_text, read_clipboard_existing_paths,
};
use wormhole_desktop_ui::cluster::{
    cluster_counts, node_remote_desktop_available, node_share_browsable, share_new_menu_mode,
    share_node_can_manage, share_root_fingerprint, short_cluster_id,
    should_reload_share_root_on_cluster_update, ClusterNode, ClusterStatus, JoinedCluster,
    ShareNewMenuMode, ShareVolumeRoster, NODE_PRESENCE_OFFLINE, NODE_PRESENCE_ONLINE,
    NODE_PRESENCE_SIGNED_IN,
};
use wormhole_desktop_ui::cron::{truncate, CronField, CronForm, CronSubmit};
use wormhole_desktop_ui::devices::{
    copy_invite_label_key, grid_node_order, remote_desktop_step, send_message_step, CardHighlight,
    note_bootstrap_pending, note_signed_in_peers, ClickTracker, check_cluster_name, check_join_invite,
    check_share_add, copy_invite_step, join_flash_key, select_cluster_switches, ClusterNameProblem,
    CopyInviteStep, JoinClusterOutcome, ShareAddProblem, delete_cluster_step, remove_device_step,
    reload_listing_after_refresh, DeleteClusterStep, bootstrap_poll_step, cluster_poll_failed_step,
    ClusterPolling, PollStep, node_removable, removal_device_id, node_card_plan, CardBorder, CardPlan,
    DeviceOpenStep, optimistic_remove_cluster, optimistic_remove_node, share_empty_hint_key,
    refresh_flash_text,
};
use wormhole_desktop_ui::device_gate::{device_gate_lines, gate_from_fetch, shows_gate_screen, DeviceGateStatus};
use wormhole_desktop_ui::layout::{anchor_index, grid_cell};
use wormhole_desktop_ui::prefs::{
    format_account_balance, format_balance_display, format_redeem_amount, format_share_modified,
    ledger_entry_time, redeem_history_from_ledger, redeem_history_time, LedgerEntry,
};
use wormhole_desktop_ui::share_nav::ShareNavigation;
use wormhole_desktop_ui::sizes::{format_size, format_update_bytes};
use wormhole_desktop_ui::update::{
    CodexProviderImportModel, DesktopUpdateDownload, DesktopUpdatePhase, DesktopUpdateShared,
    DesktopUpdateStatus,
};
use wormhole_desktop_ui::workspace::{
    workspace_canonical_tool_id, workspace_capability_matches, workspace_catalog_tool,
    workspace_catalog_tools_for_file, workspace_file_extension,
    workspace_source_runtime_tools_from_catalog, workspace_tool_supports_file,
    workspace_worker_mode_key, workspace_worker_supports_app, ToolDescriptor, ToolExecutorKind,
    ToolSummary, WorkerImage, WorkspaceExecutionMode, WorkspaceWorker, workspace_status,
    workspace_worker_for_author, WorkspaceStatus, app_pick_outcome, opening_hint, provision_step,
    AppPickOutcome, ProvisionStep, pick_workspace_app, workspace_app_desc, workspace_app_label,
    AppDescription, CatalogUserApp, UserApp, picker_initial_app, recommended_workspace_app,
    installed_apps_for_file, picker_focus_hint, FocusHint,
};
use wormhole_desktop_ui::share_listing::ShareEntry;
use wormhole_desktop_ui::provision::{job_progress, ProvisionJob, ProvisionStage, WorkspaceJobs};
use wormhole_desktop_ui::cluster::MembershipGate;

fn topo_node(online: bool, presence: &str, endpoint: Option<&str>, share_count: usize) -> ClusterNode {
    ClusterNode {
        node_id: "n1".into(),
        chat_endpoint_id: endpoint.map(str::to_string),
        chat_bootstrap_addrs: Vec::new(),
        hostname: "host".into(),
        os: "windows".into(),
        online,
        presence_status: presence.into(),
        same_account: true,
        server_member_confirmed: true,
        revoked: false,
        pending_handshake: false,
        user_id: None,
        share_volumes: (0..share_count)
            .map(|i| ShareVolumeRoster { volume_id: format!("v{i}"), name: format!("share-{i}") })
            .collect(),
        has_local_share_replicas: false,
        removable: false,
        device_id: None,
    }
}

fn reload_status(node_id: &str, online: bool, volumes: &[(&str, &str)]) -> ClusterStatus {
    let mut node = topo_node(online, if online { "online" } else { NODE_PRESENCE_SIGNED_IN }, None, 0);
    node.node_id = node_id.into();
    node.hostname = "remote".into();
    node.os = "linux".into();
    node.share_volumes = volumes
        .iter()
        .map(|(id, name)| ShareVolumeRoster { volume_id: (*id).into(), name: (*name).into() })
        .collect();
    ClusterStatus {
        configured: true,
        cluster_id: Some("c1".into()),
        clusters: Vec::new(),
        local_node_id: "local".into(),
        nodes: vec![node],
        syncing: false,
        auth_required: false,
        device_bootstrap_required: false,
        device_bootstrap_error: None,
        role_stale: false,
    }
}

fn joined(id: &str, active: bool) -> JoinedCluster {
    JoinedCluster {
        cluster_id: id.into(),
        name: None,
        folder_name: format!("folder-{id}"),
        active,
        role: "owner".into(),
        role_stale: false,
        revoked: false,
        is_default: false,
        membership_epoch: 1,
    }
}

fn sample_tool(id: &str, name: &str, extensions: &[&str]) -> ToolSummary {
    ToolSummary {
        descriptor: ToolDescriptor {
            id: id.into(),
            name: name.into(),
            description: format!("{name} desc"),
            executor: ToolExecutorKind::SourceRuntime,
            extensions: extensions.iter().map(|value| (*value).to_string()).collect(),
        },
    }
}

// ---------------------------------------------------------------------------
// Money and time formatting
// ---------------------------------------------------------------------------

#[test]
fn format_account_balance_groups_digits() {
    assert_eq!(format_account_balance(37_550_000_000), "¥37,550.00");
    assert_eq!(format_account_balance(100_000_000_000), "¥100,000.00");
    assert_eq!(format_account_balance(0), "¥0.00");
    assert_eq!(format_account_balance(-5), "¥0.00");
    assert_eq!(format_account_balance(123_456), "¥0.123456");
    assert_eq!(format_account_balance(1_230_000), "¥1.23");
}

#[test]
fn format_balance_display_prefers_server_yuan() {
    assert_eq!(format_balance_display(Some("12.345678"), 0), "¥12.345678");
    assert_eq!(format_balance_display(None, 5_000_000), "¥5.00");
}

#[test]
fn format_redeem_amount_uses_yuan_credits() {
    assert_eq!(format_redeem_amount(5_000_000), "+¥5.00");
    assert_eq!(format_redeem_amount(5_000_000_000), "+¥5,000.00");
    assert_eq!(format_redeem_amount(0), "+¥0.00");
}

#[test]
fn redeem_history_from_ledger_filters_and_maps() {
    let entries = vec![
        LedgerEntry {
            entry_id: "e1".into(),
            delta_credits: 5,
            balance_after: 5,
            source: "card_key_redeem".into(),
            reference_id: "card_key:abc123".into(),
            metadata: vec![
                ("cardKeyId".into(), Some("abc123".into())),
                ("redeemedAt".into(), Some("2026-07-02T18:24:06Z".into())),
            ],
            created_at: 1_780_000_000,
        },
        LedgerEntry {
            entry_id: "e2".into(),
            delta_credits: -1,
            balance_after: 4,
            source: "agent_platform_usage".into(),
            reference_id: "usage:1".into(),
            metadata: Vec::new(),
            created_at: 1_780_000_100,
        },
    ];
    let mut overrides = AssetMap::new();
    overrides.insert("abc123".to_string(), "WORMHOLE-TEST".to_string());
    let history = redeem_history_from_ledger(&entries, &overrides);
    assert_eq!(history.len(), 1);
    assert_eq!(history[0].code, "WORMHOLE-TEST");
    assert_eq!(history[0].time, "2026-07-02 18:24:06");
    assert_eq!(history[0].amount_credits, 5);
}

#[test]
fn redeem_history_from_ledger_falls_back_to_reference_id() {
    let entries = vec![LedgerEntry {
        entry_id: "e1".into(),
        delta_credits: 10,
        balance_after: 10,
        source: "card_key_redeem".into(),
        reference_id: "card_key:WH-2024".into(),
        metadata: Vec::new(),
        created_at: 1_780_000_000,
    }];
    let history = redeem_history_from_ledger(&entries, &AssetMap::new());
    assert_eq!(history[0].code, "WH-2024");
}

#[test]
fn redeem_history_time_normalizes_iso() {
    assert_eq!(redeem_history_time(Some("2026-07-02T18:24:06Z")), "2026-07-02 18:24:06");
}

#[test]
fn ledger_entry_time_and_share_modified() {
    assert_eq!(ledger_entry_time(0, Some(" 2026-01-02T03:04:05.123Z ")), "2026-01-02 03:04:05");
    assert_eq!(format_share_modified(0), "—");
    assert_eq!(format_share_modified(86_400 * 400 + 3_660), "1971-01-05 01:01");
}

#[test]
fn sizes_match_fixed_point_float_formatting() {
    let samples: Vec<u64> = vec![
        0, 1, 1023, 1024, 1075, 1076, 1126, 1127, 1536, 10_240, 52_429, 1_048_575, 1_048_576,
        1_153_433, 1_258_291, 5_000_000, 1_073_741_823, 1_073_741_824, 1_080_000_000,
        5_368_709_120, 123_456_789_012,
    ];
    for b in samples {
        let expected = if b >= 1_048_576 {
            format!("{:.1} MB", b as f64 / 1_048_576.0)
        } else if b >= 1024 {
            format!("{:.1} KB", b as f64 / 1024.0)
        } else {
            format!("{} B", b)
        };
        assert_eq!(format_size(b), expected, "format_size({b})");
        let bf = b as f64;
        let kib = 1024.0;
        let mib = kib * 1024.0;
        let gib = mib * 1024.0;
        let expected_update = if bf >= gib {
            format!("{:.2} GB", bf / gib)
        } else if bf >= mib {
            format!("{:.1} MB", bf / mib)
        } else if bf >= kib {
            format!("{:.0} KB", bf / kib)
        } else {
            format!("{b} B")
        };
        assert_eq!(format_update_bytes(b), expected_update, "format_update_bytes({b})");
    }
}

#[test]
fn size_ties_round_to_even() {
    assert_eq!(format_size(1_024 + 51), "1.0 KB");
    assert_eq!(format_update_bytes(1_536), "2 KB");
    assert_eq!(format_update_bytes(2_560), "2 KB");
}

// ---------------------------------------------------------------------------
// Device gate and update session
// ---------------------------------------------------------------------------

#[test]
fn needs_poll_while_login_or_bootstrap_pending() {
    let waiting_login = DeviceGateStatus {
        loaded: true,
        auth_required: true,
        device_bootstrap_required: false,
        error: None,
    };
    assert!(waiting_login.needs_poll());
    let waiting_bootstrap = DeviceGateStatus {
        loaded: true,
        auth_required: false,
        device_bootstrap_required: true,
        error: None,
    };
    assert!(waiting_bootstrap.needs_poll());
    let ready = DeviceGateStatus {
        loaded: true,
        auth_required: false,
        device_bootstrap_required: false,
        error: None,
    };
    assert!(!ready.needs_poll());
}

#[test]
fn gate_blocks_and_screens() {
    let unloaded = DeviceGateStatus::default();
    assert!(!unloaded.blocking());
    assert!(shows_gate_screen(&unloaded));
    let failed = gate_from_fetch(Err("down".into()));
    assert!(failed.loaded && failed.auth_required && failed.blocking());
    let lines = device_gate_lines(&failed, "聊天");
    assert_eq!(lines.len(), 2);
    assert_eq!(lines[1].text, "请登录以使用聊天。");
    let restoring = DeviceGateStatus {
        loaded: true,
        auth_required: false,
        device_bootstrap_required: true,
        error: Some("vault".into()),
    };
    assert_eq!(device_gate_lines(&restoring, "x")[1].text, "vault");
    let mut ok = reload_status("n", true, &[]);
    ok.device_bootstrap_error = Some("e".into());
    let gate = gate_from_fetch(Ok(ok));
    assert!(gate.loaded && !gate.blocking());
    assert_eq!(gate.error.as_deref(), Some("e"));
    assert!(device_gate_lines(&gate, "x").is_empty());
}

#[test]
fn update_banner_and_ready_version() {
    let mut s = DesktopUpdateShared::default();
    assert!(!s.banner_visible());
    s.phase = DesktopUpdatePhase::Downloading;
    assert!(s.banner_visible());
    s.banner_dismissed = true;
    assert!(!s.banner_visible());
    assert_eq!(s.ready_version(), None);
    s.status = Some(DesktopUpdateStatus { latest_version: Some("2.0".into()) });
    assert_eq!(s.ready_version().as_deref(), Some("2.0"));
    s.download = Some(DesktopUpdateDownload { version: Some("2.1".into()) });
    assert_eq!(s.ready_version().as_deref(), Some("2.1"));
    s.download = Some(DesktopUpdateDownload { version: None });
    assert_eq!(s.ready_version().as_deref(), Some("2.0"));
}

#[test]
fn codex_import_preview_open_and_close() {
    let mut m: CodexProviderImportModel<u32> = CodexProviderImportModel::new();
    m.set_message("hello".into());
    m.set_importing(true);
    m.open_preview(7);
    assert_eq!(m.preview, Some(7));
    assert!(m.message.is_empty() && !m.importing);
    m.set_message("done".into());
    m.close_preview();
    assert_eq!(m.preview, None);
    assert!(m.message.is_empty());
}

// ---------------------------------------------------------------------------
// Topology and shares
// ---------------------------------------------------------------------------

#[test]
fn local_always_browsable() {
    let node = topo_node(false, NODE_PRESENCE_OFFLINE, None, 0);
    assert!(node_share_browsable(&node, true));
}

#[test]
fn online_remote_browsable() {
    let node = topo_node(true, NODE_PRESENCE_ONLINE, Some("abc"), 1);
    assert!(node_share_browsable(&node, false));
}

#[test]
fn signed_in_with_endpoint_browsable() {
    let node = topo_node(false, NODE_PRESENCE_SIGNED_IN, Some("endpoint-hex"), 2);
    assert!(node_share_browsable(&node, false));
}

#[test]
fn offline_with_share_roster_browsable() {
    let node = topo_node(false, NODE_PRESENCE_OFFLINE, None, 1);
    assert!(node_share_browsable(&node, false));
}

#[test]
fn offline_with_local_replicas_browsable() {
    let mut node = topo_node(false, NODE_PRESENCE_OFFLINE, None, 0);
    node.has_local_share_replicas = true;
    assert!(node_share_browsable(&node, false));
}

#[test]
fn offline_without_roster_or_replicas_not_browsable() {
    let node = topo_node(false, NODE_PRESENCE_OFFLINE, Some("endpoint-hex"), 0);
    assert!(!node_share_browsable(&node, false));
}

#[test]
fn signed_in_without_endpoint_not_browsable_without_roster() {
    let node = topo_node(false, NODE_PRESENCE_SIGNED_IN, None, 0);
    assert!(!node_share_browsable(&node, false));
}

#[test]
fn signed_in_blank_endpoint_not_browsable_without_roster() {
    let node = topo_node(false, NODE_PRESENCE_SIGNED_IN, Some("  "), 0);
    assert!(!node_share_browsable(&node, false));
}

#[test]
fn remote_desktop_requires_remote_online_node_with_endpoint() {
    let ready = topo_node(true, NODE_PRESENCE_ONLINE, Some("endpoint-hex"), 0);
    assert!(node_remote_desktop_available(&ready, false));
    assert!(!node_remote_desktop_available(&ready, true));
    let offline = topo_node(false, NODE_PRESENCE_OFFLINE, Some("endpoint-hex"), 0);
    assert!(!node_remote_desktop_available(&offline, false));
    let missing = topo_node(true, NODE_PRESENCE_ONLINE, None, 0);
    assert!(!node_remote_desktop_available(&missing, false));
}

#[test]
fn reloads_when_remote_share_roster_changes() {
    let prev = reload_status("remote", false, &[]);
    let next = reload_status("remote", false, &[("v1", "图片")]);
    assert!(should_reload_share_root_on_cluster_update(Some(&prev), &next, Some("remote"), true, true));
    assert_ne!(share_root_fingerprint(&prev, "remote"), share_root_fingerprint(&next, "remote"));
}

#[test]
fn does_not_loop_reload_unchanged_empty_remote_root() {
    let status = reload_status("remote", false, &[("v1", "图片")]);
    assert!(!should_reload_share_root_on_cluster_update(Some(&status), &status, Some("remote"), true, true));
}

#[test]
fn skips_reload_for_local_or_nested_path() {
    let status = reload_status("remote", true, &[("v1", "图片")]);
    assert!(!should_reload_share_root_on_cluster_update(None, &status, Some("local"), true, true));
    assert!(!should_reload_share_root_on_cluster_update(None, &status, Some("remote"), false, true));
}

#[test]
fn different_account_remote_hides_new_menu() {
    assert_eq!(share_new_menu_mode(false, true), ShareNewMenuMode::Hidden);
    assert_eq!(share_new_menu_mode(false, false), ShareNewMenuMode::Hidden);
}

#[test]
fn local_and_confirmed_same_account_remote_can_manage() {
    assert!(share_node_can_manage(true, false, false, false));
    assert!(share_node_can_manage(false, true, true, false));
    assert!(!share_node_can_manage(false, false, true, false));
    assert!(!share_node_can_manage(false, true, false, false));
    assert!(!share_node_can_manage(false, true, true, true));
}

#[test]
fn manageable_root_offers_add_shared_folder() {
    assert_eq!(share_new_menu_mode(true, true), ShareNewMenuMode::AddSharedFolder);
}

#[test]
fn manageable_folder_offers_create_entries() {
    assert_eq!(share_new_menu_mode(true, false), ShareNewMenuMode::CreateEntries);
}

#[test]
fn share_navigation_back_and_forward() {
    let mut nav = ShareNavigation::new();
    assert!(!nav.navigate_to(None, "docs".into()));
    assert!(nav.navigate_to(Some("v1".into()), "图片".into()));
    assert!(nav.navigate_to(None, "2024".into()));
    assert_eq!(nav.path, vec!["v1".to_string(), "2024".to_string()]);
    assert!(nav.back());
    assert_eq!(nav.path, vec!["v1".to_string()]);
    assert!(nav.forward());
    assert_eq!(nav.path, vec!["v1".to_string(), "2024".to_string()]);
    assert!(!nav.forward());
}

#[test]
fn cluster_counts_and_short_id() {
    assert_eq!(short_cluster_id("0123456789abcdef"), "0123456789ab");
    assert_eq!(short_cluster_id("short"), "short");
    let mut status = reload_status("a", true, &[]);
    status.nodes.push(topo_node(false, NODE_PRESENCE_SIGNED_IN, None, 0));
    let counts = cluster_counts(&status);
    assert_eq!(counts.nodes, 2);
    assert_eq!(counts.online, 1);
    assert_eq!(counts.signed_in, 1);
}

#[test]
fn optimistic_cluster_and_node_removal() {
    let mut status = reload_status("local", true, &[]);
    status.nodes.push(topo_node(true, NODE_PRESENCE_ONLINE, None, 0));
    status.clusters = vec![joined("c1", true), joined("c2", false)];
    let (next, was_active) = optimistic_remove_cluster(status, "c1");
    assert!(was_active);
    assert_eq!(next.clusters.len(), 1);
    assert!(next.clusters[0].active);
    assert_eq!(next.cluster_id.as_deref(), Some("c2"));
    assert!(next.syncing);
    assert_eq!(next.nodes.len(), 1);
    assert_eq!(next.nodes[0].node_id, "local");
    let (empty, _) = optimistic_remove_cluster(next, "c2");
    assert!(!empty.configured && empty.cluster_id.is_none() && empty.nodes.is_empty() && empty.role_stale);
    let mut other = reload_status("local", true, &[]);
    other.clusters = vec![joined("c1", true), joined("c9", false)];
    let (kept, was) = optimistic_remove_cluster(other, "c9");
    assert!(!was);
    assert_eq!(kept.clusters.len(), 1);
    assert_eq!(kept.cluster_id.as_deref(), Some("c1"));
    let mut two = reload_status("keep", true, &[]);
    two.nodes.push(topo_node(true, NODE_PRESENCE_ONLINE, None, 0));
    let pruned = optimistic_remove_node(two, "n1");
    assert_eq!(pruned.nodes.len(), 1);
    assert_eq!(pruned.nodes[0].node_id, "keep");
}

#[test]
fn share_hint_and_invite_keys() {
    assert_eq!(share_empty_hint_key(true, true, true, true), "devices.share.reading");
    assert_eq!(share_empty_hint_key(false, true, false, true), "devices.share.empty_local");
    assert_eq!(share_empty_hint_key(false, false, false, true), "devices.share.empty_offline_root");
    assert_eq!(share_empty_hint_key(false, false, true, true), "devices.share.empty_remote");
    assert_eq!(share_empty_hint_key(false, false, false, false), "devices.share.empty_offline_path");
    assert_eq!(share_empty_hint_key(false, true, false, false), "common.empty.folder");
    assert_eq!(copy_invite_label_key(true, true), "devices.invite.copied");
    assert_eq!(copy_invite_label_key(false, true), "devices.invite.copying");
    assert_eq!(copy_invite_label_key(false, false), "devices.invite.copy");
}

// ---------------------------------------------------------------------------
// Workspace routing
// ---------------------------------------------------------------------------

#[test]
fn onlyoffice_catalog_entries_canonicalize_to_libreoffice() {
    assert_eq!(workspace_canonical_tool_id("onlyoffice"), "libreoffice");
    assert!(workspace_capability_matches("libreoffice", "onlyoffice"));
    let tools = workspace_source_runtime_tools_from_catalog(
        vec![sample_tool("onlyoffice", "ONLYOFFICE", &["docx"]), sample_tool("paint", "Paint", &["png"])],
        "host-native documents",
    );
    assert_eq!(tools[0].descriptor.id, "libreoffice");
    assert_eq!(tools[0].descriptor.name, "LibreOffice");
    assert!(workspace_tool_supports_file(&tools[0], "report.docx"));
    assert!(!workspace_tool_supports_file(&tools[0], "photo.png"));
    assert!(workspace_tool_supports_file(&tools[1], "photo.png"));
}

#[test]
fn empty_worker_capability_does_not_invent_apps() {
    assert!(!workspace_capability_matches("", "paint"));
    assert!(!workspace_capability_matches(" ", "libreoffice"));
}

#[test]
fn workspace_extensions_catalog_and_workers() {
    assert_eq!(workspace_file_extension("Report.DOCX"), "docx");
    assert_eq!(workspace_file_extension("archive.tar.gz"), "gz");
    assert_eq!(workspace_file_extension("README"), "");
    let tools = vec![
        sample_tool("paint", "Paint", &["png", "JPG"]),
        sample_tool("Word", "Word", &["docx"]),
        sample_tool("viewer", "Viewer", &["png"]),
    ];
    assert_eq!(workspace_catalog_tools_for_file(&tools, "a.jpg"), vec![0]);
    assert_eq!(workspace_catalog_tools_for_file(&tools, "a.png"), vec![0, 2]);
    assert_eq!(workspace_catalog_tool(&tools, " word "), Some(1));
    assert_eq!(workspace_catalog_tool(&tools, "excel"), None);
    let worker = WorkspaceWorker {
        node_id: "w1".into(),
        hostname: "box".into(),
        dispatch_endpoint_id: None,
        available: true,
        vm_ready: true,
        images: vec![WorkerImage {
            installed_apps: vec!["libreoffice".into()],
            execution_mode: WorkspaceExecutionMode::HostNative,
        }],
    };
    assert!(workspace_worker_supports_app(&worker, "onlyoffice"));
    assert!(!workspace_worker_supports_app(&worker, "paint"));
    assert_eq!(workspace_worker_mode_key(&worker, "libreoffice"), "devices.workspace.mode_host_native");
    assert_eq!(workspace_worker_mode_key(&worker, "paint"), "devices.workspace.runner_default");
}

// ---------------------------------------------------------------------------
// Clipboard
// ---------------------------------------------------------------------------

#[test]
fn clipboard_image_kind_routes_raster_and_unknown() {
    assert_eq!(clipboard_image_kind_and_ext("image/png"), ("image", "png"));
    assert_eq!(clipboard_image_kind_and_ext("image/jpeg"), ("image", "jpg"));
    assert_eq!(clipboard_image_kind_and_ext("image/svg+xml"), ("document", "bin"));
}

#[test]
fn clipboard_image_kinds_more() {
    assert_eq!(clipboard_image_kind_and_ext("image/heif"), ("image", "heic"));
    assert_eq!(clipboard_image_kind_and_ext("image/avif"), ("image", "avif"));
    assert_eq!(clipboard_image_kind_and_ext(""), ("document", "bin"));
}

#[test]
fn paths_from_clipboard_text_keeps_existing_files() {
    // The root directory always exists; the third line names a missing file.
    let existing = "/";
    let missing = "/wormhole-ui-no-such-dir/gone.png";
    let text = format!("file://{}\n\"{}\"\n{}", existing, existing, missing);
    let paths = paths_from_clipboard_text(&text);
    assert_eq!(paths.len(), 2);
    assert!(paths.iter().all(|path| path == "/"));
}

#[test]
fn paths_from_clipboard_content_prefers_native_paths() {
    let native = Some(vec!["/".to_string()]);
    let paths = paths_from_clipboard_content(&native, "not-a-path");
    assert_eq!(paths, vec!["/".to_string()]);
    let gone = Some(vec!["/wormhole-ui-no-such-dir/clip.mov".to_string()]);
    assert_eq!(paths_from_clipboard_content(&gone, "file:///"), vec!["/".to_string()]);
}

#[test]
fn clipboard_candidates_and_uri_list() {
    let cands = clipboard_path_candidates("  file:///a/b.txt \r\n\n\"\"\n \"/c d\" \n/e");
    assert_eq!(cands, vec!["/a/b.txt".to_string(), "/c d".to_string(), "/e".to_string()]);
    let kept = keep_existing(&cands, &[true, false, true]);
    assert_eq!(kept, vec!["/a/b.txt".to_string(), "/e".to_string()]);
    assert_eq!(normalize_clipboard_text(Some("  hi \n".into())).as_deref(), Some("hi"));
    assert_eq!(normalize_clipboard_text(Some("   ".into())), None);
    assert!(read_clipboard_existing_paths(None).is_empty());
    assert_eq!(file_uri_list(&["/a".to_string(), "/b".to_string()]), "file:///a\nfile:///b");
    assert_eq!(clipboard_files_text(&[], &[], &[]), Err("没有可复制的文件".to_string()));
    let paths = vec!["/x".to_string(), "/y".to_string()];
    assert_eq!(
        clipboard_files_text(&paths, &[true, false], &paths),
        Err("文件不存在: /y".to_string())
    );
    assert_eq!(clipboard_files_text(&paths, &[true, true], &paths), Ok("file:///x\nfile:///y".to_string()));
}

// ---------------------------------------------------------------------------
// Layout, calendar and cron
// ---------------------------------------------------------------------------

#[test]
fn grid_cells_fill_rows() {
    assert_eq!(grid_cell(0, 3), (0, 0));
    assert_eq!(grid_cell(4, 3), (1, 1));
    assert_eq!(grid_cell(5, 0), (5, 0));
    assert_eq!(anchor_index(3, 7), 2);
    assert_eq!(anchor_index(0, 4), 0);
    assert_eq!(anchor_index(5, 1), 1);
}

#[test]
fn calendar_months_and_cells() {
    let dec = CalendarMonth { year: 2025, month: 12 };
    let jan = next_month(dec);
    assert_eq!(jan, CalendarMonth { year: 2026, month: 1 });
    assert_eq!(previous_month(jan), dec);
    assert_eq!(month_title(jan), "2026 年 1 月");
    assert_eq!(month_title(CalendarMonth { year: -4, month: 2 }), "-4 年 2 月");
    let feb = calendar_cells(CalendarMonth { year: 2024, month: 2 });
    assert_eq!(feb.len(), 42);
    // 2024-02-01 is a Thursday.
    assert_eq!(&feb[..4], &[None, None, None, Some(1)]);
    assert_eq!(feb.iter().filter(|c| c.is_some()).count(), 29);
    let feb23 = calendar_cells(CalendarMonth { year: 2023, month: 2 });
    assert_eq!(feb23.iter().filter(|c| c.is_some()).count(), 28);
}

#[test]
fn thread_search_bar_inputs() {
    let mut bar = ThreadSearchBar::new(CalendarMonth { year: 2026, month: 1 });
    assert_eq!(bar.handle(ChatThreadSearchAction::QueryEdit("hi".into())), SearchBarEffect::Search("hi".into()));
    assert!(bar.focused);
    assert_eq!(bar.handle(ChatThreadSearchAction::NextResult), SearchBarEffect::Navigate(true));
    assert_eq!(bar.handle(ChatThreadSearchAction::ToggleCalendar), SearchBarEffect::Nothing);
    assert!(bar.calendar_open);
    bar.handle(ChatThreadSearchAction::PreviousMonth);
    assert_eq!(bar.calendar_month, CalendarMonth { year: 2025, month: 12 });
    assert_eq!(
        bar.handle(ChatThreadSearchAction::SelectDate { year: 2025, month: 2, day: 29 }),
        SearchBarEffect::Nothing
    );
    assert!(!bar.calendar_open);
    assert_eq!(
        bar.handle(ChatThreadSearchAction::SelectDate { year: 2024, month: 2, day: 29 }),
        SearchBarEffect::SearchDay { year: 2024, month: 2, day: 29 }
    );
    assert_eq!(bar.handle(ChatThreadSearchAction::Close), SearchBarEffect::CloseSearch);
    assert!(bar.query.is_empty() && !bar.focused);
}

#[test]
fn cron_truncate_and_form_flow() {
    assert_eq!(truncate("abcdef", 3), "abc…");
    assert_eq!(truncate("abc", 3), "abc");
    assert_eq!(truncate("", 0), "");
    let mut form = CronForm::new();
    assert_eq!(form.expression_draft, "0 * * * *");
    form.focus(CronField::Prompt);
    assert_eq!(form.focused, Some(CronField::Prompt));
    assert!(matches!(form.begin_add(), CronSubmit::MissingFields));
    assert_eq!(form.status.key, "settings.cron.add_need_fields");
    form.prompt_draft = "  summarize  ".into();
    form.name_draft = "   ".into();
    match form.begin_add() {
        CronSubmit::Send(p) => {
            assert_eq!(p.prompt, "summarize");
            assert_eq!(p.expression, "0 * * * *");
            assert_eq!(p.name, None);
            assert!(p.enabled);
        }
        other => panic!("unexpected submit: {other:?}"),
    }
    assert!(form.busy);
    assert!(matches!(form.begin_add(), CronSubmit::Busy));
    form.finish_add(Ok(()));
    assert!(!form.busy && form.prompt_draft.is_empty());
    assert!(form.begin_job(false));
    form.finish_run(Ok((false, "x".repeat(130))));
    assert_eq!(form.status.key, "settings.cron.run_failed");
    assert_eq!(form.status.detail.as_ref().map(|d| d.chars().count()), Some(121));
    form.begin_refresh();
    form.finish_refresh(Err("io".into()));
    assert_eq!(form.status.key, "settings.cron.load_failed");
    assert_eq!(form.status.detail.as_deref(), Some("io"));
}

#[test]
fn grid_orders_local_first_then_hostname() {
    let mut a = topo_node(true, NODE_PRESENCE_ONLINE, None, 0);
    a.node_id = "a".into();
    a.hostname = "zeta".into();
    let mut b = topo_node(true, NODE_PRESENCE_ONLINE, None, 0);
    b.node_id = "b".into();
    b.hostname = "alpha".into();
    let mut c = topo_node(true, NODE_PRESENCE_ONLINE, None, 0);
    c.node_id = "me".into();
    c.hostname = "mid".into();
    let mut d = topo_node(true, NODE_PRESENCE_ONLINE, None, 0);
    d.node_id = "d".into();
    d.hostname = "alpha".into();
    let nodes = vec![a, b, c, d];
    assert_eq!(grid_node_order(&nodes, "me"), vec![2, 1, 3, 0]);
    assert_eq!(grid_node_order(&nodes, "nobody"), vec![1, 3, 2, 0]);
    assert!(grid_node_order(&[], "me").is_empty());
}

#[test]
fn device_message_and_remote_desktop_steps() {
    let mut status = reload_status("remote", true, &[]);
    status.nodes[0].chat_endpoint_id = Some("ep".into());
    status.nodes.push(topo_node(false, NODE_PRESENCE_OFFLINE, Some("ep2"), 0));
    assert_eq!(send_message_step(Some(&status), "local"), DeviceOpenStep::CannotSelf);
    assert_eq!(send_message_step(Some(&status), "remote"), DeviceOpenStep::Open);
    assert_eq!(send_message_step(None, "local"), DeviceOpenStep::Open);
    assert_eq!(remote_desktop_step(Some(&status), "local"), DeviceOpenStep::CannotSelf);
    assert_eq!(remote_desktop_step(Some(&status), "remote"), DeviceOpenStep::Open);
    assert_eq!(remote_desktop_step(Some(&status), "n1"), DeviceOpenStep::Unavailable);
    assert_eq!(remote_desktop_step(Some(&status), "ghost"), DeviceOpenStep::Unavailable);
    assert_eq!(remote_desktop_step(None, "remote"), DeviceOpenStep::Unavailable);
}

#[test]
fn card_highlight_leaves_held_selection() {
    let mut h = CardHighlight { hovered: Some("a".into()), selected: Some("a".into()) };
    assert!(h.leave_card("a", true));
    assert_eq!(h.hovered, None);
    assert_eq!(h.selected.as_deref(), Some("a"));
    assert!(h.leave_card("a", false));
    assert_eq!(h.selected, None);
    assert!(!h.leave_card("a", false));
}

#[test]
fn double_click_opens_within_the_window() {
    let mut t = ClickTracker::new();
    assert!(!t.click("node-a", 1_000));
    assert!(t.click("node-a", 1_449));
    assert!(t.last.is_none());
    assert!(!t.click("node-a", 2_000));
    assert!(!t.click("node-a", 2_450));
    assert!(!t.click("node-b", 2_500));
    assert!(!t.click("node-a", 2_600));
    assert_eq!(t.last, Some(("node-a".to_string(), 2_600)));
}

#[test]
fn hint_timers_start_once_and_reset() {
    let waiting = reload_status("peer", false, &[]);
    assert_eq!(note_signed_in_peers(&waiting, None, 100), Some(100));
    assert_eq!(note_signed_in_peers(&waiting, Some(40), 100), Some(40));
    let live = reload_status("peer", true, &[]);
    assert_eq!(note_signed_in_peers(&live, Some(40), 100), None);

    let mut boot = reload_status("peer", true, &[]);
    assert_eq!(note_bootstrap_pending(&boot, Some(5), 9), None);
    boot.device_bootstrap_required = true;
    assert_eq!(note_bootstrap_pending(&boot, None, 9), Some(9));
    assert_eq!(note_bootstrap_pending(&boot, Some(5), 9), Some(5));
    boot.device_bootstrap_error = Some("denied".into());
    assert_eq!(note_bootstrap_pending(&boot, Some(5), 9), None);
}

#[test]
fn cluster_name_and_invite_drafts_are_checked() {
    assert_eq!(check_cluster_name("   "), Err(ClusterNameProblem::NeedName));
    assert_eq!(check_cluster_name("  Home lab "), Ok("Home lab".to_string()));
    let long: String = std::iter::repeat('字').take(129).collect();
    assert_eq!(check_cluster_name(&long), Err(ClusterNameProblem::TooLong));
    let max: String = std::iter::repeat('字').take(128).collect();
    assert_eq!(check_cluster_name(&format!(" {max} ")), Ok(max));
    assert_eq!(check_join_invite(" \n "), None);
    assert_eq!(check_join_invite(" wh://abc "), Some("wh://abc".to_string()));
}

#[test]
fn share_add_needs_path_then_target() {
    assert_eq!(check_share_add("  ", None), Err(ShareAddProblem::NeedPath));
    assert_eq!(check_share_add(" /srv ", None), Err(ShareAddProblem::NoTarget));
    assert_eq!(
        check_share_add(" /srv ", Some("node-1")),
        Ok(("node-1".to_string(), "/srv".to_string()))
    );
}

#[test]
fn copy_invite_and_cluster_switch_steps() {
    assert_eq!(copy_invite_step(true, None), CopyInviteStep::Busy);
    assert_eq!(copy_invite_step(false, None), CopyInviteStep::Generate(None));
    let mut status = reload_status("peer", true, &[]);
    status.clusters = vec![joined("c1", true)];
    assert_eq!(copy_invite_step(false, Some(&status)), CopyInviteStep::Generate(Some("c1".to_string())));
    status.clusters[0].role = "member".into();
    assert_eq!(
        copy_invite_step(false, Some(&status)),
        CopyInviteStep::Refused(Some(MembershipGate::NotManager))
    );
    status.role_stale = true;
    assert_eq!(
        copy_invite_step(false, Some(&status)),
        CopyInviteStep::Refused(Some(MembershipGate::RoleStale))
    );
    assert!(!select_cluster_switches(Some(&status), "c1"));
    assert!(select_cluster_switches(Some(&status), "c2"));
    assert!(select_cluster_switches(None, "c1"));
    assert_eq!(join_flash_key(JoinClusterOutcome::Joined), ("devices.invite.joined", true));
    assert_eq!(join_flash_key(JoinClusterOutcome::AlreadyActive), ("devices.invite.already", false));
    assert_eq!(join_flash_key(JoinClusterOutcome::SwitchedActive), ("devices.invite.switched", true));
}

fn worker(node: &str, host: &str, endpoint: Option<&str>, apps: &[&str]) -> WorkspaceWorker {
    WorkspaceWorker {
        node_id: node.into(),
        hostname: host.into(),
        dispatch_endpoint_id: endpoint.map(str::to_string),
        available: true,
        vm_ready: true,
        images: vec![WorkerImage {
            installed_apps: apps.iter().map(|a| a.to_string()).collect(),
            execution_mode: WorkspaceExecutionMode::VmGuest,
        }],
    }
}

fn file_by(author: Option<&str>) -> ShareEntry {
    ShareEntry {
        entry_id: Some("e1".into()),
        name: "report.docx".into(),
        kind: "file".into(),
        size: 10,
        modified_at: 0,
        local: false,
        volume_id: None,
        version_id: None,
        version_author: author.map(str::to_string),
    }
}

#[test]
fn workspace_status_walks_file_author_worker_app() {
    let workers = vec![worker("n1", "alpha", None, &["paint"]), worker("n2", "beta", Some("ep-2"), &["word"])];
    assert_eq!(workspace_worker_for_author(&workers, "ep-2"), Some(1));
    assert_eq!(workspace_worker_for_author(&workers, "n1"), Some(0));
    assert_eq!(workspace_worker_for_author(&workers, "nobody"), None);
    assert_eq!(workspace_status(None, &workers, "word"), WorkspaceStatus::PickFile);
    assert_eq!(workspace_status(Some(&file_by(None)), &workers, "word"), WorkspaceStatus::PrepareIdentity);
    assert_eq!(workspace_status(Some(&file_by(Some("x"))), &workers, "word"), WorkspaceStatus::RunnerNotReady);
    assert_eq!(
        workspace_status(Some(&file_by(Some("ep-2"))), &workers, "Word"),
        WorkspaceStatus::RunnerReady { host: "beta".into(), mode_key: "devices.workspace.mode_vm_guest" }
    );
    assert_eq!(
        workspace_status(Some(&file_by(Some("n1"))), &workers, "word"),
        WorkspaceStatus::ImageMissing { name: "alpha".into(), what: "word".into() }
    );
}

#[test]
fn delete_cluster_needs_owner_and_target() {
    assert_eq!(delete_cluster_step(true, None, None), DeleteClusterStep::Busy);
    assert_eq!(delete_cluster_step(false, None, None), DeleteClusterStep::Refused(None));
    let mut status = reload_status("peer", true, &[]);
    let mut home = joined("c1", true);
    home.name = Some("  Home  ".into());
    status.clusters = vec![home, joined("c2", false)];
    assert_eq!(
        delete_cluster_step(false, None, Some(&status)),
        DeleteClusterStep::Delete { cluster_id: "c1".into(), label: Some("Home".into()) }
    );
    assert_eq!(
        delete_cluster_step(false, Some("c2"), Some(&status)),
        DeleteClusterStep::Delete { cluster_id: "c2".into(), label: Some("folder-c2".into()) }
    );
    assert_eq!(
        delete_cluster_step(false, Some("gone"), Some(&status)),
        DeleteClusterStep::Delete { cluster_id: "gone".into(), label: None }
    );
    status.clusters[0].role = "member".into();
    assert_eq!(
        delete_cluster_step(false, None, Some(&status)),
        DeleteClusterStep::Refused(Some(MembershipGate::NotManager))
    );
}

#[test]
fn remove_device_and_reload_after_refresh() {
    assert_eq!(remove_device_step(None, Some("d1")), None);
    let mut status = reload_status("peer", true, &[]);
    assert_eq!(remove_device_step(Some(&status), Some("d1")), Some(("c1".to_string(), true)));
    assert_eq!(remove_device_step(Some(&status), None), Some(("c1".to_string(), false)));
    status.cluster_id = None;
    assert_eq!(remove_device_step(Some(&status), None), None);
    assert!(reload_listing_after_refresh(true, Some("peer"), &status));
    assert!(!reload_listing_after_refresh(true, Some("gone"), &status));
    assert!(!reload_listing_after_refresh(false, Some("peer"), &status));
    assert!(!reload_listing_after_refresh(true, None, &status));
}

#[test]
fn provision_needs_cluster_author_and_entry() {
    let status = reload_status("peer", true, &[]);
    let file = file_by(Some("n1"));
    assert_eq!(provision_step(true, Some(&file), Some(&status), "word"), ProvisionStep::Ignore);
    assert_eq!(provision_step(false, None, Some(&status), "word"), ProvisionStep::Ignore);
    assert_eq!(provision_step(false, Some(&file), None, "word"), ProvisionStep::NoCluster);
    assert_eq!(provision_step(false, Some(&file_by(None)), Some(&status), "word"), ProvisionStep::MissingSource);
    let mut no_id = file_by(Some("n1"));
    no_id.entry_id = None;
    assert_eq!(provision_step(false, Some(&no_id), Some(&status), "word"), ProvisionStep::MissingEntry);
    assert_eq!(
        provision_step(false, Some(&file), Some(&status), "word"),
        ProvisionStep::Request {
            cluster_id: "c1".into(),
            source_node_id: "n1".into(),
            entry_id: "e1".into(),
            app: "word".into(),
        }
    );
}

#[test]
fn app_pick_opens_or_provisions() {
    let mut workers = vec![worker("n1", "alpha", None, &["word"])];
    assert_eq!(app_pick_outcome(None, true, &workers, "word"), AppPickOutcome::ClosePicker);
    let file = file_by(Some("n1"));
    assert_eq!(app_pick_outcome(Some(&file), false, &workers, "word"), AppPickOutcome::Ignore);
    assert_eq!(app_pick_outcome(Some(&file), true, &workers, "word"), AppPickOutcome::OpenNow);
    assert_eq!(app_pick_outcome(Some(&file_by(Some(""))), true, &workers, "paint"), AppPickOutcome::OpenNow);
    assert_eq!(app_pick_outcome(Some(&file_by(None)), true, &workers, "paint"), AppPickOutcome::OpenNow);
    assert_eq!(app_pick_outcome(Some(&file), true, &workers, "paint"), AppPickOutcome::Provision);
    workers[0].vm_ready = false;
    assert_eq!(app_pick_outcome(Some(&file), true, &workers, "word"), AppPickOutcome::Provision);
    assert_eq!(app_pick_outcome(Some(&file_by(Some("x"))), true, &workers, "word"), AppPickOutcome::Provision);
}

#[test]
fn opening_hint_names_runner_mode() {
    let mut workers = vec![worker("n1", "alpha", None, &["word"])];
    let file = file_by(Some("n1"));
    assert_eq!(opening_hint(Some(&file), &workers, "word"), ("devices.workspace.mode_vm_guest", false));
    workers[0].images[0].execution_mode = WorkspaceExecutionMode::HostNative;
    assert_eq!(opening_hint(Some(&file), &workers, "word"), ("devices.workspace.mode_host_native", true));
    assert_eq!(opening_hint(Some(&file), &workers, "paint"), ("devices.workspace.runner_default", false));
    assert_eq!(opening_hint(None, &workers, "word"), ("devices.workspace.runner_default", false));
}

fn job(id: &str, stage: ProvisionStage, candidate: bool) -> ProvisionJob {
    ProvisionJob {
        job_id: id.into(),
        stage,
        detail: "Installing".into(),
        bytes_downloaded: 0,
        bytes_total: 0,
        has_import_candidate: candidate,
    }
}

#[test]
fn provision_progress_line() {
    let mut j = job("j1", ProvisionStage::Running, false);
    assert_eq!(job_progress(&j), "Installing");
    j.bytes_total = 2_097_152;
    assert_eq!(job_progress(&j), "Installing");
    j.bytes_downloaded = 524_288;
    assert_eq!(job_progress(&j), "Installing · 25% · 512.0 KB / 2.0 MB");
    j.bytes_downloaded = u64::MAX;
    j.bytes_total = u64::MAX;
    assert_eq!(job_progress(&j).split(" · ").nth(1), Some("1%"));
}

#[test]
fn approvals_and_auto_open() {
    let mut w = WorkspaceJobs::new();
    w.apply_jobs(vec![job("a", ProvisionStage::Running, false), job("b", ProvisionStage::AwaitingLocalApproval, false)]);
    assert_eq!(w.pending_approval(), Some(1));
    w.dismiss("b");
    assert_eq!(w.pending_approval(), None);
    w.apply_jobs(vec![job("b", ProvisionStage::Failed, false)]);
    assert_eq!(w.dismissed_approval.as_deref(), Some("b"));
    w.apply_jobs(vec![job("b", ProvisionStage::Failed, true)]);
    assert_eq!(w.dismissed_approval, None);
    assert_eq!(w.pending_approval(), Some(0));

    let (line, open) = w.apply_remote_job(job("r", ProvisionStage::Running, false));
    assert_eq!((line.as_str(), open), ("Installing", false));
    let (_, open) = w.apply_remote_job(job("r", ProvisionStage::Ready, false));
    assert!(open);
    let (_, again) = w.apply_remote_job(job("r", ProvisionStage::Ready, false));
    assert!(!again);
    w.retry();
    assert!(w.remote_job.is_none());
    let (_, reopened) = w.apply_remote_job(job("r", ProvisionStage::Ready, false));
    assert!(reopened);
}

#[test]
fn cluster_polls_follow_the_status() {
    let mut polls = ClusterPolling::new();
    let mut status = reload_status("peer", true, &[]);
    status.syncing = true;
    assert_eq!(polls.after_status(&status), PollStep::Cluster);
    status.syncing = false;
    status.auth_required = true;
    assert_eq!(polls.after_status(&status), PollStep::Bootstrap);
    status.auth_required = false;
    assert_eq!(polls.after_status(&status), PollStep::Stable);
    assert!(polls.stable_scheduled);
    assert_eq!(polls.after_status(&status), PollStep::Nothing);
    assert_eq!(polls.stable_poll_failed(Some(&status)), PollStep::Stable);
    assert_eq!(polls.stable_poll_failed(None), PollStep::Nothing);
    assert!(!polls.stable_scheduled);
    status.configured = false;
    assert_eq!(polls.after_status(&status), PollStep::Nothing);
    assert_eq!(cluster_poll_failed_step(true), PollStep::Cluster);
    assert_eq!(cluster_poll_failed_step(false), PollStep::Nothing);
    assert_eq!(bootstrap_poll_step(None), PollStep::Bootstrap);
    status.device_bootstrap_required = true;
    assert_eq!(bootstrap_poll_step(Some(&status)), PollStep::Bootstrap);
    status.device_bootstrap_required = false;
    status.syncing = true;
    assert_eq!(bootstrap_poll_step(Some(&status)), PollStep::Cluster);
    status.syncing = false;
    assert_eq!(bootstrap_poll_step(Some(&status)), PollStep::Nothing);
}

fn user_app(id: &str, name: &str, exts: &[&str]) -> UserApp {
    UserApp { app_id: id.into(), display_name: name.into(), extensions: exts.iter().map(|e| e.to_string()).collect() }
}

fn catalog_app(id: &str, name: &str) -> CatalogUserApp {
    CatalogUserApp {
        app_id: id.into(),
        display_name: name.into(),
        visibility: "team".into(),
        package_ready: true,
        extensions: Vec::new(),
    }
}

#[test]
fn workspace_app_labels_and_descriptions() {
    let tools = vec![sample_tool("libreoffice", "LibreOffice", &["docx"])];
    let users = vec![user_app("MyApp", "My App", &["txt", "md"]), user_app("bare", "Bare", &[])];
    let catalog = vec![catalog_app("shared", "Shared App")];
    assert_eq!(workspace_app_label(&tools, &users, &catalog, "OnlyOffice"), Some("LibreOffice".into()));
    assert_eq!(workspace_app_label(&tools, &users, &catalog, "myapp"), Some("My App".into()));
    assert_eq!(workspace_app_label(&tools, &users, &catalog, "SHARED"), Some("Shared App".into()));
    assert_eq!(workspace_app_label(&tools, &users, &catalog, "other"), Some("other".into()));
    assert_eq!(workspace_app_label(&tools, &users, &catalog, ""), None);
    assert_eq!(
        workspace_app_desc(&tools, &users, &catalog, "libreoffice", false),
        AppDescription::Tool("LibreOffice desc".into())
    );
    assert_eq!(
        workspace_app_desc(&tools, &users, &catalog, "myapp", false),
        AppDescription::UserApp(Some("txt, md".into()))
    );
    assert_eq!(workspace_app_desc(&tools, &users, &catalog, "bare", false), AppDescription::UserApp(None));
    assert_eq!(workspace_app_desc(&tools, &users, &catalog, "shared", false), AppDescription::Catalog("team".into()));
    assert_eq!(workspace_app_desc(&tools, &users, &catalog, "x", true), AppDescription::Registered);
    assert_eq!(workspace_app_desc(&tools, &users, &catalog, "x", false), AppDescription::Empty);
    assert_eq!(pick_workspace_app(&tools, &users, " OnlyOffice ", false), Some("libreoffice".into()));
    assert_eq!(pick_workspace_app(&tools, &users, "MYAPP", false), Some("myapp".into()));
    assert_eq!(pick_workspace_app(&tools, &users, "x", true), Some("x".into()));
    assert_eq!(pick_workspace_app(&tools, &users, "x", false), None);
}

#[test]
fn recommended_and_initial_picker_apps() {
    let tools = vec![sample_tool("viewer", "Viewer", &["png"]), sample_tool("OnlyOffice", "Office", &["docx"])];
    let installed = vec!["word".to_string(), "paint".to_string()];
    assert_eq!(recommended_workspace_app(&installed, &tools, "a.docx"), "word");
    assert_eq!(recommended_workspace_app(&[], &tools, "a.docx"), "libreoffice");
    assert_eq!(recommended_workspace_app(&[], &tools, "a.zip"), "");
    assert_eq!(picker_initial_app("paint", &installed, &tools, "a.docx"), "paint");
    assert_eq!(picker_initial_app("excel", &installed, &tools, "a.docx"), "word");
    assert_eq!(picker_initial_app("excel", &[], &tools, "a.docx"), "libreoffice");
}

#[test]
fn installed_apps_for_a_file_on_the_worker() {
    let tools = vec![
        sample_tool("OnlyOffice", "Office", &["docx"]),
        sample_tool("libreoffice", "Libre", &["docx"]),
        sample_tool("viewer", "Viewer", &["png"]),
    ];
    let w = worker("n1", "alpha", None, &["libreoffice", "MyApp", "notes", "Cap", "cap", "shared"]);
    let users = vec![user_app("myapp", "My App", &["docx"]), user_app("notes", "Notes", &["txt"])];
    let opens = vec![true, false];
    let catalog = vec![catalog_app("shared", "Shared")];
    let catalog_opens = vec![false];
    let capability = vec![vec![false, true, true, true, true, true]];
    let got = installed_apps_for_file(&tools, &users, &opens, &catalog, &catalog_opens, &w, &capability, "a.docx");
    // Tools by canonical id once; the user app that opens the file; then
    // capabilities not yet listed, skipping those whose app does not open it.
    assert_eq!(got, vec!["libreoffice".to_string(), "myapp".to_string(), "Cap".to_string()]);
}

#[test]
fn node_removal_needs_rights_and_confirmed_member() {
    let mut status = reload_status("peer", true, &[]);
    assert!(!node_removable(Some(&status), "peer"));
    assert!(!node_removable(None, "peer"));
    status.nodes[0].removable = true;
    assert!(node_removable(Some(&status), "peer"));
    assert!(!node_removable(Some(&status), "other"));
    status.nodes[0].device_id = Some("dev-1".into());
    status.nodes[0].server_member_confirmed = false;
    assert_eq!(removal_device_id(Some(&status), "peer"), None);
    status.nodes[0].server_member_confirmed = true;
    assert_eq!(removal_device_id(Some(&status), "peer"), Some("dev-1".to_string()));
    assert_eq!(removal_device_id(Some(&status), "other"), None);
}

#[test]
fn terminal_card_plan() {
    let mut local = topo_node(true, "online", Some("ep"), 2);
    local.node_id = "me".into();
    let plan = node_card_plan(&local, "me", "", "");
    assert_eq!(
        plan,
        CardPlan {
            is_local: true,
            title: "windows · 本机".into(),
            share_count: 2,
            share_enabled: true,
            remote_desktop: None,
            remove_button: false,
            show_delete: false,
            border: CardBorder::Local,
        }
    );
    let mut peer = topo_node(false, NODE_PRESENCE_OFFLINE, None, 0);
    peer.node_id = "p".into();
    peer.removable = true;
    let hovered = node_card_plan(&peer, "me", "", "p");
    assert_eq!(hovered.title, "windows · host");
    assert_eq!(hovered.remote_desktop, Some(false));
    assert!(hovered.show_delete && hovered.remove_button);
    assert_eq!(hovered.border, CardBorder::Hovered);
    assert_eq!(node_card_plan(&peer, "me", "p", "p").border, CardBorder::Selected);
    assert_eq!(node_card_plan(&peer, "me", "x", "y").border, CardBorder::Plain);
    assert!(!node_card_plan(&peer, "me", "x", "y").show_delete);
}

#[test]
fn picker_focus_hint_by_execution_mode() {
    let mut workers = vec![worker("n1", "alpha", None, &["word"])];
    let file = file_by(Some("n1"));
    assert_eq!(picker_focus_hint(Some(&file), &workers, "word", "paint"), Some(FocusHint::VmGuest));
    assert_eq!(picker_focus_hint(Some(&file), &workers, "", "word"), Some(FocusHint::VmGuest));
    assert_eq!(picker_focus_hint(Some(&file), &workers, "", "paint"), None);
    workers[0].images[0].execution_mode = WorkspaceExecutionMode::HostNative;
    assert_eq!(picker_focus_hint(Some(&file), &workers, "word", ""), Some(FocusHint::HostNative));
    assert_eq!(picker_focus_hint(Some(&file_by(None)), &workers, "word", ""), None);
    assert_eq!(picker_focus_hint(None, &workers, "word", ""), None);
}

#[test]
fn clipboard_image_becomes_png() {
    assert_eq!(clipboard_image_png(0, 2, vec![0; 8]), None);
    assert_eq!(clipboard_image_png(2, 0, vec![0; 8]), None);
    assert_eq!(clipboard_image_png(2, 2, vec![255; 3]), None);
    let png = clipboard_image_png(2, 2, vec![200; 16]).expect("png");
    assert!(png.len() > 16);
    assert_eq!(&png[..8], &[0x89, b'P', b'N', b'G', 0x0d, 0x0a, 0x1a, 0x0a]);
    if usize::BITS > 32 {
        let wide = (u32::MAX as usize) + 1;
        assert_eq!(clipboard_image_png(wide, 1, vec![0; 4]), None);
    }
}

#[test]
fn clipboard_image_needs_four_bytes_per_pixel() {
    assert_eq!(clipboard_image_png(1, 1, vec![0; 5]), None);
    assert_eq!(clipboard_image_png(2, 2, vec![0; 17]), None);
    assert_eq!(clipboard_image_png(2, 2, vec![0; 15]), None);
    assert!(clipboard_image_png(1, 1, vec![1, 2, 3, 4]).is_some());
}

#[test]
fn unix_now_reads_zero_before_the_epoch() {
    assert_eq!(unix_now_at(Some(1_780_000_000)), 1_780_000_000);
    assert_eq!(unix_now_at(None), 0);
    assert!(unix_now() > 1_600_000_000);
}

#[test]
fn calendar_grid_starts_on_the_chrono_weekday() {
    for year in [-262143, -400, -1, 0, 1, 1582, 1900, 1970, 2000, 2023, 2024, 2100, 262142] {
        for month in 1..=12u32 {
            let cells = calendar_cells(CalendarMonth { year, month });
            let first = chrono::NaiveDate::from_ymd_opt(year, month, 1).unwrap();
            let leading = first.weekday().num_days_from_monday() as usize;
            assert_eq!(cells.iter().position(|c| *c == Some(1)), Some(leading), "{year}-{month}");
        }
    }
    assert_eq!(calendar_cells(CalendarMonth { year: 2024, month: 1 })[0], Some(1));
}

#[test]
fn refresh_flash_pads_the_clock() {
    assert_eq!(refresh_flash_text(3, 9, 5, 7), "REFRESHED · 3 NODES · 09:05:07");
    assert_eq!(refresh_flash_text(12, 23, 59, 0), "REFRESHED · 12 NODES · 23:59:00");
    assert_eq!(refresh_flash_text(0, 0, 0, 0), "REFRESHED · 0 NODES · 00:00:00");
}

#[test]
fn codex_import_snapshots_follow_the_model() {
    let mut m: CodexProviderImportModel<u32> = CodexProviderImportModel::new();
    assert_eq!(m.snapshot_preview(), None);
    assert_eq!(m.snapshot_message(), "");
    assert!(!m.snapshot_importing());
    m.open_preview(3);
    m.set_importing(true);
    m.set_message("importing".into());
    assert_eq!(m.snapshot_preview(), Some(&3));
    assert_eq!(m.snapshot_message(), "importing");
    assert!(m.snapshot_importing());
    m.close_preview();
    assert_eq!(m.snapshot_preview(), None);
    assert_eq!(m.snapshot_message(), "");
    assert!(!m.snapshot_importing());
}

#[test]
fn grid_order_is_a_stable_sort() {
    let mut nodes = Vec::new();
    for (id, host) in [("n0", "beta"), ("n1", "alpha"), ("n2", "beta"), ("me", "zz"), ("n4", "alpha"), ("n5", "beta")] {
        let mut n = topo_node(true, NODE_PRESENCE_ONLINE, None, 0);
        n.node_id = id.into();
        n.hostname = host.into();
        nodes.push(n);
    }
    let order = grid_node_order(&nodes, "me");
    assert_eq!(order, vec![3, 1, 4, 0, 2, 5]);
    let mut seen = order.clone();
    seen.sort();
    assert_eq!(seen, vec![0, 1, 2, 3, 4, 5]);
}
