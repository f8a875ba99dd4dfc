use ryu_core::self_api::{
    build_routes, find_route, is_core_api, is_denied, is_mutating, is_safe_path_segment,
    loopback_authorization, loopback_reply, loopback_url, method_of, ReplyBody, query_pairs, refuse_reason_if_tenant_bound, resolve_route_path, slug,
    tool_name, CoreApiRoute, OpenApiOperation, OpenApiParameter, OpenApiPathItem,
    OpenApiRequestBody,
};

const METHODS: [&str; 5] = ["get", "post", "put", "patch", "delete"];
const DENIED_PREFIXES: [&str; 4] = ["/api/auth/", "/api/identity/", "/api/host/", "/api/tools/"];
const DENIED_EXACT: [&str; 2] = ["/api/openapi.json", "/api/mcp/tools/call"];

fn op(summary: &str) -> OpenApiOperation {
    OpenApiOperation {
        summary: Some(summary.to_string()),
        description: None,
        parameters: None,
        request_body: None,
    }
}

fn param(name: &str, location: &str, required: bool) -> OpenApiParameter {
    OpenApiParameter {
        name: Some(name.to_string()),
        location: Some(location.to_string()),
        required: Some(required),
        description: None,
        schema_type: Some("string".to_string()),
    }
}

fn item(path: &str) -> OpenApiPathItem {
    OpenApiPathItem { path: path.to_string(), get: None, post: None, put: None, patch: None, delete: None }
}

fn sample_spec() -> Vec<OpenApiPathItem> {
    let mut quests = item("/api/quests");
    quests.get = Some(op("List quests"));
    let mut post = op("Create a quest");
    post.request_body = Some(OpenApiRequestBody { required: Some(true) });
    quests.post = Some(post);

    let mut quest = item("/api/quests/{id}");
    let mut del = op("Delete a quest");
    del.parameters = Some(vec![param("id", "path", true)]);
    quest.delete = Some(del);

    let mut memory = item("/api/memory");
    let mut get = op("List memory");
    get.parameters = Some(vec![param("scope", "query", false)]);
    memory.get = Some(get);

    vec![quests, quest, memory]
}

fn find<'a>(routes: &'a [CoreApiRoute], f: impl Fn(&CoreApiRoute) -> bool) -> &'a CoreApiRoute {
    routes.iter().find(|r| f(r)).unwrap()
}

#[test]
fn slug_shape() {
    assert_eq!(slug("/api/quests"), "api_quests");
    assert_eq!(slug("/api/quests/{id}"), "api_quests_id");
    assert_eq!(slug("/api/mcp/servers/{name}"), "api_mcp_servers_name");
}

#[test]
fn ids_encode_method_and_slug() {
    let routes = build_routes(&sample_spec());
    let get = find(&routes, |r| r.path_template == "/api/quests" && r.method == "GET");
    assert_eq!(get.id, "ryu_api__get_api_quests");
    assert_eq!(method_of(&get.id), Some("get".to_string()));
    assert!(!is_mutating(&get.id));

    let del = find(&routes, |r| r.method == "DELETE");
    assert_eq!(del.id, "ryu_api__delete_api_quests_id");
    assert_eq!(method_of(&del.id), Some("delete".to_string()));
    assert!(is_mutating(&del.id));
    assert_eq!(del.path_params, vec!["id".to_string()]);
}

#[test]
fn post_carries_body_arg() {
    let routes = build_routes(&sample_spec());
    let post = find(&routes, |r| r.method == "POST");
    assert!(post.has_body);
    let names: Vec<&str> = post.input_schema.properties.iter().map(|p| p.name.as_str()).collect();
    assert!(names.iter().any(|n| *n == "body"));
}

#[test]
fn query_param_becomes_arg_not_path() {
    let routes = build_routes(&sample_spec());
    let mem = find(&routes, |r| r.path_template == "/api/memory");
    assert_eq!(mem.query_params, vec!["scope".to_string()]);
    assert!(mem.path_params.is_empty());
}

#[test]
fn denylist_is_enforced_for_every_entry() {
    for prefix in DENIED_PREFIXES {
        for m in METHODS {
            assert!(is_denied(&format!("{prefix}whatever"), m), "{prefix} {m}");
        }
    }
    for exact in DENIED_EXACT {
        for m in METHODS {
            assert!(is_denied(exact, m), "{exact} {m}");
        }
    }
    assert!(is_denied("/api/chat/stream", "post"));
    assert!(is_denied("/api/realtime_ws", "get"));
    assert!(is_denied("/api/notifications/stream", "get"));
    assert!(is_denied("/api/events/all", "get"));
    assert!(!is_denied("/api/approvals", "get"));
    assert!(is_denied("/api/approvals/approve", "post"));
    assert!(is_denied("/api/approvals/reject", "post"));
    assert!(!is_denied("/api/quests", "get"));
    assert!(!is_denied("/api/quests", "post"));
}

#[test]
fn path_segment_rejects_traversal_and_encoding() {
    assert!(is_safe_path_segment("abc123"));
    assert!(is_safe_path_segment("conv-42_x.y"));
    assert!(!is_safe_path_segment(""));
    assert!(!is_safe_path_segment("../auth/token"));
    assert!(!is_safe_path_segment("a/b"));
    assert!(!is_safe_path_segment("a\\b"));
    assert!(!is_safe_path_segment(".."));
    assert!(!is_safe_path_segment("..%2fauth"));
    assert!(!is_safe_path_segment("%2e%2e"));
    assert!(!is_safe_path_segment("a\nb"));
    assert!(!is_safe_path_segment("a\0b"));
}

#[test]
fn generated_catalog_excludes_denylisted_routes() {
    let mut spec = sample_spec();
    let mut auth = item("/api/auth/login");
    auth.post = Some(op("Log in"));
    spec.push(auth);
    let mut stream = item("/api/chat/stream");
    stream.post = Some(op("Stream a chat"));
    spec.push(stream);
    let mut approve = item("/api/approvals/approve");
    approve.post = Some(op("Approve"));
    approve.get = Some(op("Read an approval"));
    spec.push(approve);
    // The same path twice: its routes are not offered twice.
    let mut again = item("/api/quests");
    again.get = Some(op("List quests again"));
    spec.push(again);

    let routes = build_routes(&spec);
    for r in &routes {
        let m = r.method.to_ascii_lowercase();
        assert!(!is_denied(&r.path_template, &m), "{} {}", r.method, r.path_template);
    }
    let mut ids: Vec<&str> = routes.iter().map(|r| r.id.as_str()).collect();
    let n = ids.len();
    ids.sort_unstable();
    ids.dedup();
    assert_eq!(ids.len(), n);
    // The approvals read survives; its mutation does not.
    assert!(routes.iter().any(|r| r.path_template == "/api/approvals/approve" && r.method == "GET"));
    assert!(!routes.iter().any(|r| r.path_template == "/api/approvals/approve" && r.method == "POST"));
}

#[test]
fn tenancy_refuses_when_bound() {
    assert!(refuse_reason_if_tenant_bound(true).is_none());
    assert!(refuse_reason_if_tenant_bound(false).is_some());
}

#[test]
fn method_of_is_none_for_non_core_api() {
    assert_eq!(method_of("exa__search"), None);
    assert!(!is_core_api("exa__search"));
    assert!(!is_mutating("exa__search"));
}

#[test]
fn resolved_path_substitutes_and_guards_parameters() {
    let routes = build_routes(&sample_spec());
    let del = find(&routes, |r| r.method == "DELETE");
    let ok = resolve_route_path(del, &vec![("id".to_string(), "q-42".to_string())]);
    assert_eq!(ok.ok().unwrap(), "/api/quests/q-42");
    let missing = resolve_route_path(del, &vec![]).err().unwrap();
    assert!(missing.message(&del.id).contains("missing required path parameter"));
    assert!(resolve_route_path(del, &vec![("id".to_string(), "../auth/x".to_string())]).is_err());
}

#[test]
fn query_pairs_send_only_declared_present_params() {
    let routes = build_routes(&sample_spec());
    let mem = find(&routes, |r| r.path_template == "/api/memory");
    let args = vec![
        ("scope".to_string(), "work".to_string()),
        ("other".to_string(), "x".to_string()),
    ];
    assert_eq!(query_pairs(mem, &args), vec![("scope".to_string(), "work".to_string())]);
    assert!(query_pairs(mem, &vec![]).is_empty());
}

#[test]
fn loopback_url_drops_trailing_slashes_of_the_base() {
    assert_eq!(loopback_url("http://127.0.0.1:7980//", "/api/quests"), "http://127.0.0.1:7980/api/quests");
    assert_eq!(loopback_url("http://h", "/x"), "http://h/x");
}

#[test]
fn dispatch_finds_routes_by_id_and_names_them() {
    let routes = build_routes(&sample_spec());
    let i = find_route(&routes, "ryu_api__get_api_memory").unwrap();
    assert_eq!(routes[i].path_template, "/api/memory");
    assert_eq!(tool_name(&routes[i]), "GET /api/memory");
    assert_eq!(find_route(&routes, "nope").unwrap_err(), "unknown core-api tool 'nope'");
}

#[test]
fn slugging_a_slug_gives_it_back() {
    for p in ["/api/Quests/{id}/runs", "__a--b__", "/x//y/", "", "Ünïcode/path"] {
        let s = slug(p);
        assert_eq!(slug(&s), s);
        assert!(!s.starts_with('_') && !s.ends_with('_') && !s.contains("__"));
        assert!(s.chars().all(|c| c.is_ascii_lowercase() || c.is_ascii_digit() || c == '_'));
    }
}

#[test]
fn loopback_substitutes_path_param() {
    let routes = build_routes(&sample_spec());
    let del = find(&routes, |r| r.method == "DELETE");
    let path = resolve_route_path(del, &vec![("id".to_string(), "q_42".to_string())]).ok().unwrap();
    assert_eq!(loopback_url("http://127.0.0.1:7980", &path), "http://127.0.0.1:7980/api/quests/q_42");
    let reply = loopback_reply(200, "q_42".to_string());
    assert_eq!(reply.status, 200);
    assert!(reply.ok);
    match reply.body {
        ReplyBody::Text(t) => assert_eq!(t, "q_42"),
        ReplyBody::Json(_) => panic!("a plain-text reply stays text"),
    }
    let err = resolve_route_path(del, &vec![]).err().unwrap();
    assert_eq!(
        err.message(&del.id),
        format!("core-api tool '{}' is missing required path parameter 'id'", del.id)
    );
}

#[test]
fn loopback_get_happy_path() {
    let reply = loopback_reply(200, "{\"quests\":[],\"ok\":true}".to_string());
    assert!(reply.ok);
    assert_eq!(reply.status, 200);
    match reply.body {
        ReplyBody::Json(v) => assert_eq!(v["quests"], serde_json::Value::Array(vec![])),
        ReplyBody::Text(_) => panic!("a JSON reply is parsed"),
    }
    assert!(!loopback_reply(404, String::new()).ok);
    assert_eq!(loopback_authorization(Some("tok")).as_deref(), Some("Bearer tok"));
    assert_eq!(loopback_authorization(Some("")), None);
    assert_eq!(loopback_authorization(None), None);
}
