use ryu_core::hardware::{
    ambient_capable, bearer_token, default_panel, device_admitted, device_online,
    device_refresh_rate, display_image_url, handshake_step, hello_ack, host_is_trusted,
    image_not_modified, is_online, keeps_binding, new_device_dashboard, nudge_surface_is_lcd,
    profile_for_device, resolve_node_url, set_refresh_rate, shared_token_matches, ws_scheme,
    DefaultPanel, DeviceClass, HandshakeFrame, HandshakeStep, LinkEvent, LinkState, Palette,
    ScreenPrefs, ScreenProfile,
};

#[test]
fn loopback_hosts_dial_plain_ws() {
    assert_eq!(ws_scheme("localhost:7980"), "ws");
    assert_eq!(ws_scheme("127.0.0.1:7980"), "ws");
    assert_eq!(ws_scheme("127.8.9.1"), "ws");
    assert_eq!(ws_scheme("192.168.1.4:7980"), "wss");
    assert_eq!(ws_scheme("node.tail.ts.net"), "wss");
}

#[test]
fn an_untrusted_host_is_never_reflected() {
    let bind = "0.0.0.0:7980";
    // A forged public host falls back to the mesh name.
    assert_eq!(
        resolve_node_url(None, bind, Some("node.ts.net"), Some("evil.example.com"), None, None),
        "wss://node.ts.net:7980/api/hardware/ws"
    );
    // A private IP literal is trusted and reflected.
    assert_eq!(
        resolve_node_url(None, bind, None, Some("192.168.1.4:7980"), Some(true), None),
        "wss://192.168.1.4:7980/api/hardware/ws"
    );
    // A public IP literal is not.
    assert_eq!(
        resolve_node_url(None, "127.0.0.1:7980", None, Some("8.8.8.8"), Some(false), None),
        "ws://127.0.0.1:7980/api/hardware/ws"
    );
    // The operator override wins; a blank one does not.
    assert_eq!(resolve_node_url(Some("wss://x/ws"), bind, None, None, None, None), "wss://x/ws");
    assert_eq!(
        resolve_node_url(Some("  "), "10.0.0.2:7980", None, None, None, None),
        "wss://10.0.0.2:7980/api/hardware/ws"
    );
    // localhost, the bind name, the mesh name and the allowlist are trusted names.
    assert!(host_is_trusted("LOCALHOST:7980", bind, None, None, None));
    assert!(host_is_trusted("mybox:80", "mybox:7980", None, None, None));
    assert!(host_is_trusted("Node.ts.net", bind, Some("node.ts.net"), None, None));
    assert!(host_is_trusted("pi.lan:7980", bind, None, None, Some("a.lan, PI.LAN ,")));
    assert!(!host_is_trusted("other.lan", bind, None, None, Some("a.lan,,pi.lan")));
}

#[test]
fn presence_and_polling() {
    assert!(is_online(Some(1_000), 50_000));
    assert!(!is_online(Some(1_000), 200_000));
    assert!(!is_online(None, 0));
    assert_eq!(device_online(None), Some(false));
    assert_eq!(device_refresh_rate(5), 30);
    assert_eq!(device_refresh_rate(600), 600);
    assert_eq!(display_image_url("d1", "abc"), "/api/hardware/display/d1/image?rev=abc");
    assert!(image_not_modified(Some("abc"), "abc"));
    assert!(!image_not_modified(None, "abc"));
}

#[test]
fn device_tokens() {
    assert_eq!(bearer_token(Some("Bearer tok")), Some("tok".to_string()));
    assert_eq!(bearer_token(Some("Basic tok")), None);
    assert_eq!(bearer_token(None), None);
    assert!(shared_token_matches("s3cret", Some("s3cret")));
    assert!(!shared_token_matches("", Some("")));
    assert!(!shared_token_matches("s3cret", None));
    assert!(device_admitted(true, true, true));
    assert!(!device_admitted(false, true, true));
}

#[test]
fn the_first_frame_must_be_hello() {
    assert!(matches!(handshake_step(&HandshakeFrame::Hello), HandshakeStep::Accept));
    match handshake_step(&HandshakeFrame::Malformed("eof".to_string())) {
        HandshakeStep::Refuse(code, msg) => {
            assert_eq!(code, "bad_json");
            assert_eq!(msg, "malformed hello: eof");
        }
        _ => panic!("expected a refusal"),
    }
    assert!(matches!(handshake_step(&HandshakeFrame::Ignored), HandshakeStep::Wait));
    assert!(matches!(handshake_step(&HandshakeFrame::Closed), HandshakeStep::Drop));
    let ack = hello_ack(Some("meet-1".to_string()));
    assert!(ack.session_id.starts_with("hwses_"));
    assert_eq!(ack.session_id.len(), 38);
    assert_eq!(ack.ambient_session_id.as_deref(), Some("meet-1"));
    assert!(ambient_capable(true, true));
    assert!(!ambient_capable(true, false));
}

#[test]
fn barge_in_drops_speech_until_the_next_turn() {
    let mut link = LinkState::new();
    link.on_event(LinkEvent::StartTurn);
    assert!(link.sends_audio());
    link.on_event(LinkEvent::Abort);
    link.on_event(LinkEvent::ListenStart);
    assert!(!link.sends_audio());
    link.on_event(LinkEvent::TurnDone);
    assert!(!link.sends_audio());
    link.on_event(LinkEvent::StartTurn);
    assert!(link.sends_audio());
    link.on_event(LinkEvent::Close);
    assert!(!link.sends_audio());
}

#[test]
fn display_profiles_take_the_class_default_and_saved_overrides() {
    assert_eq!(default_panel(DeviceClass::Watch), DefaultPanel::WatchLcd);
    assert_eq!(default_panel(DeviceClass::Necklace), DefaultPanel::DeskEink);
    let eink = ScreenProfile { w: 800, h: 480, bit_depth: 1, rotation: 0, palette: Palette::Mono };
    assert_eq!(profile_for_device(eink, &None), eink);
    let prefs = ScreenPrefs { w: Some(1024), h: None, bit_depth: Some(4), rotation: Some(90), palette: Some("rgb565".into()) };
    let p = profile_for_device(eink, &Some(prefs));
    assert_eq!(p, ScreenProfile { w: 1024, h: 480, bit_depth: 4, rotation: 90, palette: Palette::Rgb565 });
    let odd = ScreenPrefs { w: None, h: None, bit_depth: None, rotation: None, palette: Some("sepia".into()) };
    assert_eq!(profile_for_device(eink, &Some(odd)).palette, Palette::Mono);
    assert!(nudge_surface_is_lcd(DeviceClass::Watch));
    assert!(!nudge_surface_is_lcd(DeviceClass::Desk));
}

#[test]
fn a_device_always_has_a_dashboard_binding() {
    let (d, b) = new_device_dashboard("dev-1", "Kitchen");
    assert_eq!(d.name, "Kitchen display");
    assert!(d.id.starts_with("dash_"));
    assert_eq!(b.dashboard_id, d.id);
    assert_eq!(b.device_id, "dev-1");
    assert_eq!(b.refresh_rate, 300);
    assert!(keeps_binding(true, true));
    assert!(!keeps_binding(true, false));
    let mut b = b;
    set_refresh_rate(&mut b, 10, "t2".to_string());
    assert_eq!(b.refresh_rate, 30);
    assert_eq!(b.updated_at, "t2");
}

#[test]
fn unadmitted_devices_are_refused_after_hello() {
    use_admission();
}

fn use_admission() {
    let refusal = ryu_core::hardware::admission_refusal(false).unwrap();
    assert_eq!(refusal.0, "unauthorized");
    assert!(refusal.1.contains("pair first"));
    assert!(ryu_core::hardware::admission_refusal(true).is_none());
}
