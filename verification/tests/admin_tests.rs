use ryu_core::canvas::{
    canvas_name, create_canvas_id, legacy_board_scene, merge_canvas, new_canvas_id, newest_first, thumbnail_of,
    validate_id, CanvasNodeData, CanvasRecord, CanvasSummary, SaveCanvasBody,
};
use ryu_core::clips::{
    build_clip_summary_md, clip_title, frames_endpoint, local_video_ext_ok, plan_ingest,
    recent_activity_minutes, stt_engine, ClipMoment, IngestBody,
};
use ryu_core::data_admin::{
    app_clear_target, check_node_reset, plan_clear, AppClearRefusal, ClearPlan, ClearRefusal,
    DataCategory, ResetRefusal,
};

#[test]
fn categories_round_trip_their_ids() {
    for c in [DataCategory::Chats, DataCategory::Spaces, DataCategory::Memory, DataCategory::Monitors, DataCategory::Meetings] {
        assert_eq!(DataCategory::from_id(c.id()), Some(c));
    }
    assert_eq!(DataCategory::from_id("files"), None);
}

#[test]
fn a_bound_node_never_clears_everything() {
    let enabled = vec!["monitors".to_string()];
    match plan_clear(false, None, " spaces ", &enabled) {
        Ok(ClearPlan::ClearAll(c)) => assert_eq!(c, DataCategory::Spaces),
        _ => panic!("an unbound node clears the whole category"),
    }
    match plan_clear(true, Some("alice"), "chats", &enabled) {
        Ok(ClearPlan::ClearChatsOwnedBy(u)) => assert_eq!(u, "alice"),
        _ => panic!("a bound node clears the caller's chats"),
    }
    let refused = plan_clear(true, Some("alice"), "memory", &enabled).err().unwrap();
    assert!(matches!(refused, ClearRefusal::SharedNode));
    assert_eq!(refused.status(), 403);
    let refused = plan_clear(true, None, "chats", &enabled).err().unwrap();
    assert!(matches!(refused, ClearRefusal::SignInRequired));
    let refused = plan_clear(false, None, "files", &enabled).err().unwrap();
    assert_eq!(refused.status(), 400);
    assert_eq!(refused.message(), "unknown data category 'files'");
    let refused = plan_clear(false, None, "meetings", &enabled).err().unwrap();
    assert!(matches!(refused, ClearRefusal::AppNotEnabled(DataCategory::Meetings)));
    assert_eq!(refused.status(), 404);
    assert!(matches!(plan_clear(false, None, "monitors", &enabled), Ok(ClearPlan::ClearAll(DataCategory::Monitors))));
}

#[test]
fn app_clears_only_their_own_declared_categories() {
    let declared = vec!["monitors".to_string(), "chats".to_string(), "widgets".to_string()];
    assert!(matches!(app_clear_target(&declared, "monitors"), Ok(DataCategory::Monitors)));
    assert!(matches!(app_clear_target(&declared, "chats"), Err(AppClearRefusal::CoreOwned(DataCategory::Chats))));
    assert!(matches!(app_clear_target(&declared, "widgets"), Err(AppClearRefusal::NotImplemented)));
    assert!(matches!(app_clear_target(&declared, "meetings"), Err(AppClearRefusal::NotDeclared)));
}

#[test]
fn node_reset_needs_an_unbound_node_and_a_confirmation() {
    assert!(check_node_reset(false, false, "RESET").is_ok());
    assert!(matches!(check_node_reset(false, false, "  "), Err(ResetRefusal::ConfirmationRequired)));
    assert!(matches!(check_node_reset(true, false, "RESET"), Err(ResetRefusal::SignInRequired)));
    assert!(matches!(check_node_reset(true, true, "RESET"), Err(ResetRefusal::SharedNode)));
}

#[test]
fn ingest_trims_once_either_while_downloading_or_in_the_sidecar() {
    let body = |source: &str, start: Option<u64>, end: Option<u64>| IngestBody {
        source: source.to_string(),
        detail: None,
        start,
        end,
    };
    let p = plan_ingest(&body(" https://v/x.mp4 ", Some(1000), Some(5000))).unwrap();
    assert!(p.is_url);
    assert_eq!(p.source, "https://v/x.mp4");
    assert_eq!((p.download_start, p.download_end), (Some(1000), Some(5000)));
    assert_eq!((p.forward_start, p.forward_end), (None, None));
    assert_eq!(p.detail, "balanced");
    let p = plan_ingest(&body("https://v/x.mp4", Some(1000), None)).unwrap();
    assert_eq!((p.download_start, p.forward_start), (None, Some(1000)));
    let p = plan_ingest(&body("/home/u/clip.mov", Some(1), Some(2))).unwrap();
    assert!(!p.is_url);
    assert_eq!((p.forward_start, p.forward_end), (Some(1), Some(2)));
    assert_eq!(
        plan_ingest(&body("   ", None, None)).err().unwrap(),
        "missing `source` (a video URL or local file path)"
    );
    let mut detailed = body("x.mp4", None, None);
    detailed.detail = Some(" transcript ".to_string());
    assert_eq!(plan_ingest(&detailed).unwrap().detail, "transcript");
    let d = IngestBody::default();
    assert_eq!(d.source, "");
}

#[test]
fn clip_defaults() {
    assert!(local_video_ext_ok(Some("MP4")));
    assert!(local_video_ext_ok(Some("webm")));
    assert!(!local_video_ext_ok(Some("avi")));
    assert!(!local_video_ext_ok(None));
    assert_eq!(stt_engine(None), "gateway");
    assert_eq!(stt_engine(Some(" whisper ")), "whisper");
    assert_eq!(recent_activity_minutes(None), 3);
    assert_eq!(recent_activity_minutes(Some(0)), 1);
    assert_eq!(recent_activity_minutes(Some(99)), 15);
    assert_eq!(frames_endpoint("c1"), "/api/clips/c1/frame");
    assert_eq!(clip_title(Some("  ")), "Clip");
    assert_eq!(clip_title(Some("Demo")), "Demo");
}

#[test]
fn clip_summary_markdown() {
    let moments = vec![
        ClipMoment { at_ms: 5_500, reason: "intro".to_string() },
        ClipMoment { at_ms: 125_000, reason: "demo".to_string() },
    ];
    assert_eq!(
        build_clip_summary_md("Demo", 125_999, Some("partial"), &moments),
        "# Demo\n\n- Duration: 02:05\n- Coverage: partial\n\n## Highlights\n- 05s: intro\n- 125s: demo\n"
    );
    assert_eq!(build_clip_summary_md("T", 0, None, &vec![]), "# T\n\n- Duration: 00:00\n");
}

#[test]
fn canvas_ids_names_and_saves() {
    assert!(validate_id("cnv-123_a"));
    assert!(!validate_id("../x"));
    assert!(!validate_id(""));
    assert!(!validate_id(&"a".repeat(129)));
    assert_eq!(canvas_name(Some("  ")), "Untitled canvas");
    assert_eq!(canvas_name(Some("Board")), "Board");
    assert_eq!(create_canvas_id(None, 1700000000000), Some("cnv-1700000000000".to_string()));
    assert_eq!(create_canvas_id(Some("mine"), 1), Some("mine".to_string()));
    assert_eq!(create_canvas_id(Some("bad id"), 1), None);
    assert!(new_canvas_id(None).unwrap().starts_with("cnv-"));
    let stored = CanvasRecord {
        id: "b1".into(),
        name: "Old".into(),
        nodes: "[1]".into(),
        edges: "[2]".into(),
        viewport: Some("{}".into()),
        created_at: "t0".into(),
        updated_at: "t0".into(),
    };
    let rename = SaveCanvasBody { name: Some("New".into()), nodes: None, edges: None, viewport: None };
    let r = merge_canvas("b1".into(), rename, Some(stored), "t1".into());
    assert_eq!((r.name.as_str(), r.nodes.as_str(), r.edges.as_str()), ("New", "[1]", "[2]"));
    assert_eq!((r.created_at.as_str(), r.updated_at.as_str()), ("t0", "t1"));
    let fresh = SaveCanvasBody { name: Some(" ".into()), nodes: None, edges: None, viewport: None };
    let r = merge_canvas("b2".into(), fresh, None, "t1".into());
    assert_eq!((r.name.as_str(), r.nodes.as_str(), r.created_at.as_str()), ("Untitled canvas", "[]", "t1"));
}

#[test]
fn canvas_thumbnails_and_ordering() {
    let node = |t: Option<&str>, u: Option<&str>| Some(CanvasNodeData {
        thumbnail: t.map(str::to_string),
        result: None,
        output: None,
        url: u.map(str::to_string),
    });
    let nodes = vec![node(Some("data:image/png;base64,xx"), None), node(None, Some("https://i/2.png")), None];
    assert_eq!(thumbnail_of(Some(&nodes)), Some("https://i/2.png".to_string()));
    // A node without data ends the search.
    let nodes = vec![None, node(None, Some("https://i/2.png"))];
    assert_eq!(thumbnail_of(Some(&nodes)), None);
    assert_eq!(thumbnail_of(None), None);
    let board = |id: &str, updated: &str| CanvasSummary {
        id: id.to_string(),
        name: id.to_string(),
        node_count: 0,
        thumbnail: None,
        created_at: String::new(),
        updated_at: updated.to_string(),
    };
    let sorted = newest_first(vec![
        board("a", "2024-01-01T00:00:00Z"),
        board("b", "2024-03-01T00:00:00Z"),
        board("c", "2024-02-01T00:00:00Z"),
    ]);
    let ids: Vec<&str> = sorted.iter().map(|b| b.id.as_str()).collect();
    assert_eq!(ids, vec!["b", "c", "a"]);
    let tied = newest_first(vec![
        board("x", "2024-01-01T00:00:00Z"),
        board("y", "2024-05-01T00:00:00Z"),
        board("z", "2024-01-01T00:00:00Z"),
    ]);
    let ids: Vec<&str> = tied.iter().map(|b| b.id.as_str()).collect();
    assert_eq!(ids, vec!["y", "x", "z"]);
}

#[test]
fn legacy_board_files_import_as_scenes_with_defaults() {
    let (name, scene) = legacy_board_scene(br#"{"name":"  ","nodes":[{"id":"a"}]}"#).unwrap();
    assert_eq!(name, "Untitled canvas");
    assert_eq!(scene.name.as_deref(), Some("Untitled canvas"));
    assert_eq!(scene.nodes.as_deref(), Some(r#"[{"id":"a"}]"#));
    assert_eq!(scene.edges.as_deref(), Some("[]"));
    assert_eq!(scene.viewport, None);
    let (name, scene) = legacy_board_scene(br#"{"name":"Plan","edges":[],"viewport":{"x":1}}"#).unwrap();
    assert_eq!(name, "Plan");
    assert_eq!(scene.nodes.as_deref(), Some("[]"));
    assert_eq!(scene.viewport.as_deref(), Some(r#"{"x":1}"#));
    assert!(legacy_board_scene(b"not json").is_none());
}
