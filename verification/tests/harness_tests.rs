use ryu_core::harness::{
    absorb_payload, read_ui_frame, try_absorb_payload, classify_stream_end, dispatch_targets, events_url, harness_event_from_ui_frame,
    has_chat_adapter, is_start_conflict, native_session_id, parse_approval_options,
    parse_runnable_kind, profile_supported, prompt_message, required_permission, session_agent_id,
    status_after_event, status_is_terminal, take_sse_payload, ApprovalOptionInput, EventCursor,
    ExecutionProfile, ExecutionProfileKind, FrameData, ResultField, RunEvent, RunPermission,
    RunStatus, StreamProgress, UiFrame,
};
use ryu_core::runnable::RunnableKind;

fn frame(kind: &str) -> UiFrame {
    UiFrame {
        frame_type: Some(kind.to_string()),
        delta: None,
        tool_call_id: None,
        tool_name: None,
        has_input: false,
        has_output: false,
        has_result: false,
        error: None,
        error_text: None,
        is_error: None,
        duration_ms: None,
        data: None,
    }
}

fn local() -> ExecutionProfile {
    ExecutionProfile {
        kind: ExecutionProfileKind::Local,
        cwd: None,
        worktree_branch: None,
        network_inherit: true,
        sandbox_inherit: true,
        approval_inherit: true,
    }
}

#[test]
fn incomplete_streams_are_terminally_interrupted() {
    assert_eq!(
        classify_stream_end(false, false),
        (RunStatus::Interrupted, Some("chat stream ended before completion"))
    );
    assert_eq!(classify_stream_end(false, true), (RunStatus::Completed, None));
    assert_eq!(classify_stream_end(true, false), (RunStatus::Failed, None));
    for (failed, done) in [(false, false), (false, true), (true, false), (true, true)] {
        assert!(status_is_terminal(classify_stream_end(failed, done).0));
    }
    assert!(!status_is_terminal(RunStatus::Running));
    assert!(!status_is_terminal(RunStatus::AwaitingApproval));
}

#[test]
fn tool_result_projection_keeps_a_digest_and_error_state() {
    let mut names = vec![("call-1".to_string(), "read_file".to_string())];
    let mut out = frame("tool-output-available");
    out.tool_call_id = Some("call-1".to_string());
    out.has_output = true;
    match harness_event_from_ui_frame(&out, &mut names).expect("tool output maps to an event") {
        RunEvent::ToolCallCompleted { ok, result_field, name, .. } => {
            assert!(ok);
            assert_eq!(result_field, Some(ResultField::Output));
            assert_eq!(name, "read_file");
        }
        _ => panic!("expected a tool completion event"),
    }
    let mut err = frame("tool-output-available");
    err.tool_call_id = Some("call-1".to_string());
    err.is_error = Some(true);
    err.error = Some(None);
    match harness_event_from_ui_frame(&err, &mut names).expect("tool error maps to an event") {
        RunEvent::ToolCallCompleted { ok, result_field, .. } => {
            assert!(!ok);
            assert_eq!(result_field, Some(ResultField::Error));
        }
        _ => panic!("expected a tool completion event"),
    }
}

#[test]
fn frames_map_to_run_events() {
    let mut names = Vec::new();
    let mut started = frame("tool-input-available");
    started.tool_call_id = Some("c9".to_string());
    started.tool_name = Some("grep".to_string());
    started.has_input = true;
    match harness_event_from_ui_frame(&started, &mut names).unwrap() {
        RunEvent::ToolCallStarted { tool_call_id, name, input_present } => {
            assert_eq!((tool_call_id.as_str(), name.as_str(), input_present), ("c9", "grep", true));
        }
        _ => panic!("expected a tool start"),
    }
    let mut done = frame("tool-output-available");
    done.tool_call_id = Some("c9".to_string());
    match harness_event_from_ui_frame(&done, &mut names).unwrap() {
        RunEvent::ToolCallCompleted { name, result_field, .. } => {
            assert_eq!(name, "grep");
            assert_eq!(result_field, None);
        }
        _ => panic!("expected a tool completion"),
    }
    let mut unknown = frame("tool-output-available");
    unknown.tool_call_id = Some("zz".to_string());
    match harness_event_from_ui_frame(&unknown, &mut names).unwrap() {
        RunEvent::ToolCallCompleted { name, .. } => assert_eq!(name, "tool"),
        _ => panic!("expected a tool completion"),
    }
    let mut delta = frame("text-delta");
    delta.delta = Some("hi".to_string());
    assert!(matches!(harness_event_from_ui_frame(&delta, &mut names), Some(RunEvent::TextDelta { .. })));
    let mut perm = frame("data-ryu-permission");
    perm.data = Some(FrameData {
        request_id: Some("req-1".to_string()),
        tool_title: None,
        tool_name: Some("shell".to_string()),
        options: vec![],
        message_id: None,
    });
    match harness_event_from_ui_frame(&perm, &mut names).unwrap() {
        RunEvent::ApprovalRequested { approval_id, summary, options } => {
            assert_eq!(approval_id, "req-1");
            assert_eq!(summary, "Permission is required to run shell");
            assert!(options.is_empty());
            assert_eq!(
                status_after_event(&RunEvent::ApprovalRequested { approval_id, summary, options }),
                RunStatus::AwaitingApproval
            );
        }
        _ => panic!("expected an approval request"),
    }
    assert!(harness_event_from_ui_frame(&frame("finish"), &mut names).is_none());
    assert_eq!(status_after_event(&RunEvent::TextDelta { delta: "x".to_string() }), RunStatus::Running);
}

#[test]
fn approval_options_are_trimmed_bounded_and_complete() {
    let opt = |id: &str, name: &str, kind: &str| ApprovalOptionInput {
        option_id: Some(id.to_string()),
        name: Some(name.to_string()),
        kind: Some(kind.to_string()),
    };
    let mut inputs = vec![opt(" allow ", " Allow once ", " allow_once "), opt("", "x", "y")];
    inputs.push(ApprovalOptionInput { option_id: None, name: Some("n".into()), kind: Some("k".into()) });
    for i in 0..40 {
        inputs.push(opt(&format!("o{i}"), "n", "k"));
    }
    let got = parse_approval_options(&inputs);
    assert_eq!(got[0].option_id, "allow");
    assert_eq!(got[0].name, "Allow once");
    assert_eq!(got[0].kind, "allow_once");
    // Only the first 32 entries are read; two of those are incomplete.
    assert_eq!(got.len(), 30);
}

#[test]
fn sse_payloads_are_framed_by_blank_lines() {
    let (data, rest) = take_sse_payload("event: x\ndata: {\"a\":1}\ndata: more\n\nnext").unwrap();
    assert_eq!(data, "{\"a\":1}\nmore");
    assert_eq!(rest, "next");
    assert!(take_sse_payload("data: partial").is_none());
    let mut p = StreamProgress { output: String::new(), failure: None, saw_done: false };
    let f = absorb_payload(&mut p, r#"{"type":"text-delta","delta":"Hel"}"#).unwrap();
    assert_eq!(f.frame_type.as_deref(), Some("text-delta"));
    absorb_payload(&mut p, r#"{"type":"text-delta","delta":"lo"}"#);
    assert!(absorb_payload(&mut p, "not json").is_none());
    let e = absorb_payload(&mut p, r#"{"type":"error","errorText":"boom"}"#).unwrap();
    assert_eq!(e.error_text, Some(Some("boom".to_string())));
    assert!(absorb_payload(&mut p, "[DONE]").is_none());
    assert_eq!(p.output, "Hello");
    assert_eq!(p.failure.as_deref(), Some("boom"));
    assert!(p.saw_done);
}

#[test]
fn stream_payloads_read_as_ui_frames() {
    let f = read_ui_frame(
        r#"{"type":"tool-output-available","toolCallId":"c1","output":1,"error":null,
            "providerMetadata":{"ryu":{"durationMs":42}},
            "data":{"requestId":"r","toolCall":{"name":"ls"},"options":[{"optionId":"o","name":"n","kind":"k"},{"name":2}]}}"#,
    )
    .unwrap();
    assert_eq!(f.frame_type.as_deref(), Some("tool-output-available"));
    assert_eq!(f.tool_call_id.as_deref(), Some("c1"));
    assert!(f.has_output && !f.has_input && !f.has_result);
    assert_eq!(f.error, Some(None));
    assert_eq!(f.error_text, None);
    assert_eq!(f.duration_ms, Some(42));
    let d = f.data.unwrap();
    assert_eq!(d.request_id.as_deref(), Some("r"));
    assert_eq!(d.tool_name.as_deref(), Some("ls"));
    assert_eq!(d.tool_title, None);
    assert_eq!(d.options.len(), 2);
    assert_eq!(d.options[0].option_id.as_deref(), Some("o"));
    assert_eq!(d.options[1].name, None);
    assert!(read_ui_frame("{").is_none());
}

#[test]
fn run_output_is_cut_back_to_its_byte_cap_after_a_text_delta() {
    let base = "a".repeat(9_999_998);
    let mut p = StreamProgress { output: base.clone(), failure: None, saw_done: false };
    absorb_payload(&mut p, r#"{"type":"text-delta","delta":"éé"}"#);
    assert_eq!(p.output.len(), 10_000_000);
    assert!(p.output.ends_with("aé"));
    // A frame of another type carries its delta without the cut.
    let mut q = StreamProgress { output: base, failure: None, saw_done: false };
    absorb_payload(&mut q, r#"{"type":"reasoning-delta","delta":"éé"}"#);
    assert_eq!(q.output.len(), 10_000_002);
    // A cut that would split a character is refused, leaving the progress as it was.
    let mut r = StreamProgress { output: "a".repeat(9_999_999), failure: None, saw_done: false };
    assert!(try_absorb_payload(&mut r, r#"{"type":"text-delta","delta":"é"}"#).is_none());
    assert_eq!(r.output.len(), 9_999_999);
    assert!(try_absorb_payload(&mut r, r#"{"type":"text-delta","delta":"b"}"#).is_some());
    assert_eq!(r.output.len(), 10_000_000);
}

#[test]
fn event_cursor_delivers_each_event_once_and_stops_after_terminal() {
    let mut c = EventCursor::new(2);
    assert!(!c.offer(1, false));
    assert!(!c.offer(2, false));
    assert!(c.offer(3, false));
    assert!(!c.offer(3, false));
    assert!(c.offer(5, true));
    assert!(!c.offer(6, false));
}

#[test]
fn sessions_and_profiles() {
    assert_eq!(parse_runnable_kind(" agent "), Some(RunnableKind::Agent));
    assert_eq!(parse_runnable_kind("workflow"), Some(RunnableKind::Workflow));
    assert_eq!(parse_runnable_kind("robot"), None);
    assert_eq!(required_permission(RunnableKind::Tool), RunPermission::AgentRun);
    assert_eq!(required_permission(RunnableKind::Workflow), RunPermission::WorkflowRun);
    assert!(has_chat_adapter(RunnableKind::Workflow));
    assert!(!has_chat_adapter(RunnableKind::Skill));
    assert_eq!(session_agent_id(None, RunnableKind::Agent, "a1"), Some("a1".to_string()));
    assert_eq!(session_agent_id(None, RunnableKind::Workflow, "w1"), None);
    assert_eq!(session_agent_id(Some("x"), RunnableKind::Workflow, "w1"), Some("x".to_string()));
    assert_eq!(dispatch_targets(RunnableKind::Agent, "a1"), (Some("a1".to_string()), None));
    assert_eq!(dispatch_targets(RunnableKind::Workflow, "w1"), (None, Some("w1".to_string())));
    assert!(profile_supported(&local(), false, false).is_ok());
    let remote = ExecutionProfile { kind: ExecutionProfileKind::Remote, ..local() };
    assert_eq!(
        profile_supported(&remote, true, true).unwrap_err(),
        "remote execution is not available on this Core node"
    );
    let wt = ExecutionProfile { kind: ExecutionProfileKind::Worktree, ..local() };
    assert_eq!(profile_supported(&wt, true, true).unwrap_err(), "the worktree execution profile requires cwd");
    let wt_cwd = ExecutionProfile { kind: ExecutionProfileKind::Worktree, cwd: Some("/r".into()), ..local() };
    assert_eq!(
        profile_supported(&wt_cwd, true, false).unwrap_err(),
        "the worktree execution profile requires a Git repository"
    );
    assert!(profile_supported(&wt_cwd, true, true).is_ok());
    assert_eq!(native_session_id("  abc "), Some("abc".to_string()));
    assert_eq!(native_session_id("   "), None);
    assert_eq!(native_session_id(&"x".repeat(513)), None);
    assert!(is_start_conflict("an active run exists"));
    assert!(!is_start_conflict("bad input"));
    assert_eq!(events_url("r1"), "/api/harness/runs/r1/events");
    assert_eq!(prompt_message(" hi ").unwrap(), ("user".to_string(), " hi ".to_string()));
    assert_eq!(prompt_message("  ").unwrap_err(), "input.prompt must not be empty");
}
