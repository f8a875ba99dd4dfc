use ryu_core::host_chat::{app_send_route, AppSendRoute};
use ryu_core::titles::meeting_title;
use ryu_core::self_api::loopback_ok;
use ryu_core::activity::{activity_before, activity_limit, check_activity_item};
use ryu_core::conversations::Tenancy;
use ryu_core::dashboards::{
    create_dashboard, create_widget, dashboard_name, new_dashboard, new_widget, rename_dashboard,
    update_widget, DashboardBody, Widget, WidgetBody,
};
use ryu_core::finetune::{
    adapter_stem, check_merge, local_capability, merged_model, plan_start, remote_job_url,
    remote_of, snapshot_sync, started_job, GpuProbe, SnapshotSync, StartPlan, StartRefusal,
    StartRequest, REASON_NO_GPU, REASON_UNIFIED_MEMORY,
};
use ryu_core::healing::{plan_simulated_failure, DEFAULT_SIMULATED_PROMPT};
use ryu_core::host_chat::{
    ask_before_send_from, count_running, target_conversation, turn_text, usage_agents,
    conversation_for_turn, ReadingsBody, StartTurnBody,
};
use ryu_core::identity::{
    check_create_connection, check_import_connection, CreateConnectionBody, ImportConnectionBody,
};
use ryu_core::ids::{fresh_prefixed_id, prefixed};

fn turn(text: &str, conversation_id: Option<&str>) -> StartTurnBody {
    StartTurnBody {
        text: text.to_string(),
        agent_id: None,
        conversation_id: conversation_id.map(str::to_string),
        model: None,
    }
}

#[test]
fn only_an_explicit_false_opens_the_gate() {
    for raw in ["", "true", "yes", "TRUE", "nonsense", " "] {
        assert!(ask_before_send_from(Some(raw)), "'{raw}' must be read as ask-before-send");
    }
    assert!(!ask_before_send_from(Some("false")));
    assert!(!ask_before_send_from(Some("  false \n")));
    assert!(ask_before_send_from(Some("FALSE")));
    assert!(ask_before_send_from(None));
}

#[test]
fn app_turns_need_text_and_land_in_a_known_conversation() {
    assert_eq!(turn_text(&turn("  hi  ", None)).unwrap(), "hi");
    assert_eq!(turn_text(&turn(" \n", None)).unwrap_err(), "text is required");
    assert_eq!(target_conversation(&Some("conv-1".to_string()), "abc"), "conv-1");
    assert_eq!(target_conversation(&Some("  ".to_string()), "abc"), "appsend_abc");
    assert_eq!(target_conversation(&None, "abc"), "appsend_abc");
    let id = conversation_for_turn(&turn("x", None));
    assert!(id.starts_with("appsend_") && id.len() == 40);
    assert_eq!(conversation_for_turn(&turn("x", Some("c9"))), "c9");
}

#[test]
fn readings_count_runs_and_bound_priced_agents() {
    let statuses = vec![Some("running".to_string()), None, Some("failed".to_string()), Some("running".to_string())];
    assert_eq!(count_running(&statuses), 2);
    let body = ReadingsBody { agent_ids: (0..20).map(|i| format!("a{i}")).collect() };
    let agents = usage_agents(&body);
    assert_eq!(agents.len(), 16);
    assert_eq!(agents[15], "a15");
    assert!(usage_agents(&ReadingsBody::default()).is_empty());
}

#[test]
fn dashboards_need_a_name() {
    let body = |n: &str| DashboardBody { name: n.to_string() };
    assert_eq!(dashboard_name(&body("  Home ")).unwrap(), "Home");
    assert_eq!(dashboard_name(&body("   ")).unwrap_err(), "name is required");
    let d = new_dashboard(&body(" Ops "), "dash_1".into(), "t0".into()).ok().unwrap();
    assert_eq!((d.id.as_str(), d.name.as_str(), d.created_at.as_str()), ("dash_1", "Ops", "t0"));
    let d = rename_dashboard(d, &body("Ops 2"), "t1".into()).ok().unwrap();
    assert_eq!((d.id.as_str(), d.name.as_str(), d.created_at.as_str(), d.updated_at.as_str()), ("dash_1", "Ops 2", "t0", "t1"));
    let d = create_dashboard(&body("Fresh")).ok().unwrap();
    assert!(d.id.starts_with("dash_"));
    assert!(create_dashboard(&body("")).is_err());
}

#[test]
fn widgets_are_created_and_patched() {
    let body = WidgetBody::<&str, i32, &str, (u8, u8)> {
        kind: Some("stat"),
        title: None,
        config: None,
        source: None,
        refresh_interval: Some("  ".to_string()),
        layout: Some((1, 2)),
    };
    let w: Widget<&str, i32, &str, (u8, u8), String> =
        new_widget(body, "w1".into(), "d1".into(), 0, "static", (0, 0)).ok().unwrap();
    assert_eq!((w.kind, w.title.as_str(), w.config, w.source, w.layout), ("stat", "", 0, "static", (1, 2)));
    assert_eq!(w.refresh_interval, None);
    let missing = WidgetBody::<&str, i32, &str, (u8, u8)> {
        kind: None,
        title: None,
        config: None,
        source: None,
        refresh_interval: None,
        layout: None,
    };
    let r: Result<Widget<&str, i32, &str, (u8, u8), String>, &str> =
        new_widget(missing, "w2".into(), "d1".into(), 0, "static", (0, 0));
    assert_eq!(r.err(), Some("kind is required"));

    let mut w = w;
    w.last_value = Some("42".to_string());
    w.last_error = Some("old".to_string());
    let title_only = WidgetBody { kind: None, title: Some("T".to_string()), config: None, source: None, refresh_interval: Some("5m".to_string()), layout: None };
    update_widget(&mut w, title_only);
    assert_eq!((w.title.as_str(), w.refresh_interval.as_deref()), ("T", Some("5m")));
    assert_eq!(w.last_value.as_deref(), Some("42"));
    let new_source = WidgetBody { kind: None, title: None, config: None, source: Some("http"), refresh_interval: Some(" ".to_string()), layout: None };
    update_widget(&mut w, new_source);
    assert_eq!(w.source, "http");
    assert_eq!((w.last_value, w.last_error, w.last_refresh_at, w.refresh_interval), (None, None, None, None));
    let c: Widget<&str, i32, &str, (u8, u8), String> = create_widget(
        WidgetBody { kind: Some("list"), title: None, config: Some(3), source: None, refresh_interval: None, layout: None },
        "d9".into(),
        0,
        "static",
        (0, 0),
    )
    .ok()
    .unwrap();
    assert!(c.id.starts_with("wgt_"));
    assert_eq!((c.dashboard_id.as_str(), c.config), ("d9", 3));
}

#[test]
fn identity_connections_need_their_fields() {
    let body = |p: &str, d: &str| CreateConnectionBody { profile_id: p.to_string(), domain: d.to_string(), source: None };
    assert!(check_create_connection(&body("p1", "github.com")).is_ok());
    assert_eq!(check_create_connection(&body("", "github.com")).unwrap_err(), "profile_id and domain are required");
    assert_eq!(check_create_connection(&body("p1", "")).unwrap_err(), "profile_id and domain are required");
    assert!(check_import_connection(&ImportConnectionBody { state: "cookie=1".to_string() }).is_ok());
    assert_eq!(check_import_connection(&ImportConnectionBody { state: String::new() }).unwrap_err(), "state is required");
}

#[test]
fn activity_paging_and_items() {
    assert_eq!(activity_limit(None), 100);
    assert_eq!(activity_limit(Some("0")), 1);
    assert_eq!(activity_limit(Some("9999")), 500);
    assert_eq!(activity_limit(Some("25")), 25);
    assert_eq!(activity_limit(Some("abc")), 100);
    assert_eq!(activity_before(Some("-5")), Some(-5));
    assert_eq!(activity_before(Some("x")), None);
    assert_eq!(activity_before(None), None);
    assert!(check_activity_item("note", "Title").is_ok());
    assert_eq!(check_activity_item(" ", "Title").unwrap_err(), "kind is required");
    assert_eq!(check_activity_item("note", "").unwrap_err(), "title is required");
}

#[test]
fn simulated_failures_are_stamped_or_refused() {
    let p = plan_simulated_failure(None, Tenancy::Unattributed, false).ok().unwrap();
    assert_eq!(p.prompt, DEFAULT_SIMULATED_PROMPT);
    assert!(p.conversation_id.starts_with("simfail_"));
    let owner = Tenancy::Owned { user_id: "u".into(), org_id: None };
    let p = plan_simulated_failure(Some("Do X"), owner.clone(), true).ok().unwrap();
    assert_eq!(p.prompt, "Do X");
    assert_eq!(p.tenancy, owner);
    assert!(plan_simulated_failure(None, Tenancy::Unattributed, true).is_err());
}

#[test]
fn finetune_start_decisions() {
    let gpu = GpuProbe { gpu_name: Some("RTX".into()), unified_memory: false };
    let mac = GpuProbe { gpu_name: None, unified_memory: true };
    let cpu = GpuProbe { gpu_name: None, unified_memory: false };
    assert_eq!(local_capability(&gpu), (true, String::new()));
    assert_eq!(local_capability(&mac), (false, REASON_UNIFIED_MEMORY.to_string()));
    assert_eq!(local_capability(&cpu), (false, REASON_NO_GPU.to_string()));
    let req = |base: Option<&str>, target: Option<&str>, url: Option<&str>| StartRequest {
        base_model_id: base.map(str::to_string),
        target: target.map(str::to_string),
        output_name: None,
        remote_url: url.map(str::to_string),
        remote_token: Some("tok".to_string()),
    };
    assert!(matches!(plan_start(&req(Some("  "), None, None), &gpu), Err(StartRefusal::MissingBaseModel)));
    assert!(matches!(plan_start(&req(Some("m"), Some("remote"), Some(" // ")), &gpu), Err(StartRefusal::RemoteNeedsUrl)));
    match plan_start(&req(Some(" llama "), Some("remote"), Some(" https://gpu.node/// ")), &cpu) {
        Ok(StartPlan::Remote { base_model, url, token, endpoint }) => {
            assert_eq!(base_model, "llama");
            assert_eq!(url, "https://gpu.node");
            assert_eq!(token.as_deref(), Some("tok"));
            assert_eq!(endpoint, "https://gpu.node/api/finetune/start");
        }
        _ => panic!("expected a remote start"),
    }
    match plan_start(&req(Some("llama"), None, None), &mac) {
        Err(StartRefusal::CannotTrainLocal { reason }) => assert_eq!(reason, REASON_UNIFIED_MEMORY),
        _ => panic!("expected a local refusal"),
    }
    let plan = plan_start(&req(Some("llama"), None, None), &gpu).ok().unwrap();
    let job = started_job(&plan, Some("job-1"), None, Some("out".into()), "t0".into());
    assert_eq!((job.id.as_str(), job.state.as_str(), job.target.as_str()), ("job-1", "running", "local"));
    assert_eq!(remote_of(&job), None);
    let remote = plan_start(&req(Some("llama"), Some("remote"), Some("https://g")), &gpu).ok().unwrap();
    let job = started_job(&remote, None, Some("queued"), None, "t0".into());
    assert_eq!((job.id.as_str(), job.state.as_str(), job.target.as_str()), ("", "queued", "remote"));
    assert_eq!(remote_of(&job), Some(("https://g".to_string(), Some("tok".to_string()))));
    assert_eq!(remote_job_url("https://g", "job-1", "/stream"), "https://g/api/finetune/job-1/stream");
    assert_eq!(StartRefusal::MissingBaseModel.message(), "missing `base_model_id`");
}

#[test]
fn finetune_snapshots_adapters_and_merges() {
    assert!(matches!(snapshot_sync(Some(""), None, None), SnapshotSync::Skip));
    assert!(matches!(snapshot_sync(None, Some("/o"), None), SnapshotSync::Skip));
    match snapshot_sync(Some("succeeded"), Some("/out/adapter-7"), None) {
        SnapshotSync::Update { state, output_ref, index_adapter, .. } => {
            assert_eq!(state, "succeeded");
            assert_eq!(output_ref.as_deref(), Some("/out/adapter-7"));
            assert!(index_adapter);
        }
        _ => panic!("expected an update"),
    }
    match snapshot_sync(Some("failed"), None, Some("oom")) {
        SnapshotSync::Update { error, index_adapter, .. } => {
            assert_eq!(error.as_deref(), Some("oom"));
            assert!(!index_adapter);
        }
        _ => panic!("expected an update"),
    }
    assert_eq!(adapter_stem(&Some("named".into()), "/out/x", "j"), "named");
    assert_eq!(adapter_stem(&None, "/out/adapter-7", "j"), "adapter-7");
    assert_eq!(adapter_stem(&None, "/out/..", "j"), "j");
    assert!(check_merge(true, false).is_ok());
    assert_eq!(check_merge(false, false).unwrap_err(), "need `adapter_name` or `adapter_path`");
    let m = merged_model("tuned", Some("llama-3"), Some(10));
    assert_eq!((m.filename.as_str(), m.repo_id.as_str(), m.finetune_base.as_deref()), ("tuned.gguf", "llama-3", Some("llama-3")));
    assert_eq!(merged_model("t", None, None).repo_id, "");
}

#[test]
fn ids_are_prefixed_fresh_uuids() {
    assert_eq!(prefixed("dash_", "abc"), "dash_abc");
    let a = fresh_prefixed_id("wgt_");
    let b = fresh_prefixed_id("wgt_");
    assert_eq!(a.len(), 36);
    assert!(a[4..].chars().all(|c| c.is_ascii_hexdigit() && !c.is_ascii_uppercase()));
    assert_ne!(a, b);
}

#[test]
fn app_sends_fail_closed_when_approval_is_required() {
    assert_eq!(app_send_route(false, false), AppSendRoute::SendNow);
    assert_eq!(app_send_route(true, true), AppSendRoute::AwaitApproval);
    assert_eq!(app_send_route(true, true).status(), 202);
    assert_eq!(app_send_route(true, false), AppSendRoute::ApprovalsUnavailable);
    assert_eq!(app_send_route(true, false).status(), 503);
}

#[test]
fn meeting_titles_are_skipped_when_sanitising_empties_them() {
    assert_eq!(meeting_title("  \"Budget review.\"  ").as_deref(), Some("Budget review"));
    assert_eq!(meeting_title("<think>still thinking"), None);
}

#[test]
fn loopback_replies_are_ok_only_for_2xx() {
    assert!(loopback_ok(200) && loopback_ok(204));
    assert!(!loopback_ok(302) && !loopback_ok(404) && !loopback_ok(199));
}
