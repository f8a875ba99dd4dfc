//! Home dashboards: naming a dashboard, and how a widget is created from a
//! request body and patched by one.
//!
//! A widget's kind, configuration, data source, layout and cached value are the
//! dashboard engine's own types; here they are type parameters, so what is
//! stated is how the fields move, whatever they hold.
use vstd::prelude::*;
use crate::clips::opt_view;
use crate::ids::{fresh_prefixed_id, now_rfc3339};
use crate::text::{CharClass, chars_of, string_of, trim_ws, trimmed};

verus! {

/// Request body for creating or renaming a dashboard.
pub struct DashboardBody {
    pub name: String,
}

/// A dashboard record.
pub struct Dashboard {
    pub id: String,
    pub name: String,
    pub created_at: String,
    pub updated_at: String,
}

/// The name a dashboard gets from a body: the trimmed name,
/// `Err("name is required")` when that is empty.
pub fn dashboard_name(body: &DashboardBody) -> (r: Result<String, &'static str>)
    ensures
        match r {
            Ok(n) => trim_ws(body.name@).len() > 0 && n@ == trim_ws(body.name@),
            Err(e) => trim_ws(body.name@).len() == 0 && e@ == "name is required"@,
        },
{
    let t = trimmed(&chars_of(body.name.as_str()), CharClass::Whitespace);
    if t.len() == 0 {
        Err("name is required")
    } else {
        Ok(string_of(&t))
    }
}

/// A new dashboard with the given id, named from `body`, created and updated at
/// `now`.
pub fn new_dashboard(body: &DashboardBody, id: String, now: String) -> (r: Result<
    Dashboard,
    &'static str,
>)
    ensures
        match r {
            Ok(d) => {
                &&& trim_ws(body.name@).len() > 0
                &&& d.id@ == id@
                &&& d.name@ == trim_ws(body.name@)
                &&& d.created_at@ == now@
                &&& d.updated_at@ == now@
            },
            Err(e) => trim_ws(body.name@).len() == 0 && e@ == "name is required"@,
        },
{
    let name = dashboard_name(body)?;
    let created_at = now.clone();
    Ok(Dashboard { id, name, created_at, updated_at: now })
}

/// `POST /api/dashboards`: a new dashboard named from `body`, with a fresh
/// `dash_` id and the current time.
pub fn create_dashboard(body: &DashboardBody) -> (r: Result<Dashboard, &'static str>)
    ensures
        match r {
            Ok(d) => trim_ws(body.name@).len() > 0 && d.name@ == trim_ws(body.name@)
                && d.id@.take(5) == "dash_"@ && d.id@.len() == 37 && crate::ids::is_simple_uuid(
                d.id@.skip(5),
            ) && d.created_at@ == d.updated_at@,
            Err(e) => trim_ws(body.name@).len() == 0 && e@ == "name is required"@,
        },
{
    let name = dashboard_name(body)?;
    let id = fresh_prefixed_id("dash_");
    proof {
        reveal_strlit("dash_");
    }
    let now = now_rfc3339();
    let created_at = now.clone();
    Ok(Dashboard { id, name, created_at, updated_at: now })
}

/// `PUT /api/dashboards/:id`: `d` renamed from `body` and stamped `now`; the id
/// and creation time stay.
pub fn rename_dashboard(d: Dashboard, body: &DashboardBody, now: String) -> (r: Result<
    Dashboard,
    &'static str,
>)
    ensures
        match r {
            Ok(n) => {
                &&& trim_ws(body.name@).len() > 0
                &&& n.id@ == d.id@
                &&& n.name@ == trim_ws(body.name@)
                &&& n.created_at@ == d.created_at@
                &&& n.updated_at@ == now@
            },
            Err(e) => trim_ws(body.name@).len() == 0 && e@ == "name is required"@,
        },
{
    let name = dashboard_name(body)?;
    Ok(Dashboard { id: d.id, name, created_at: d.created_at, updated_at: now })
}

/// A widget on a dashboard.
pub struct Widget<K, C, S, L, V> {
    pub id: String,
    pub dashboard_id: String,
    pub kind: K,
    pub title: String,
    pub config: C,
    pub source: S,
    pub refresh_interval: Option<String>,
    pub layout: L,
    pub last_value: Option<V>,
    pub last_refresh_at: Option<String>,
    pub last_error: Option<String>,
}

/// Request body for creating or updating a widget: on update, a missing field
/// keeps its current value.
pub struct WidgetBody<K, C, S, L> {
    pub kind: Option<K>,
    pub title: Option<String>,
    pub config: Option<C>,
    pub source: Option<S>,
    pub refresh_interval: Option<String>,
    pub layout: Option<L>,
}

/// A refresh interval is kept only when it is not blank.
pub open spec fn nonblank(o: Option<Seq<char>>) -> Option<Seq<char>> {
    match o {
        Some(s) => if trim_ws(s).len() > 0 {
            Some(s)
        } else {
            None
        },
        None => None,
    }
}

fn nonblank_interval(o: Option<String>) -> (r: Option<String>)
    ensures
        opt_view(r) == nonblank(opt_view(o)),
{
    match o {
        Some(s) => {
            let t = trimmed(&chars_of(s.as_str()), CharClass::Whitespace);
            if t.len() > 0 {
                Some(s)
            } else {
                None
            }
        },
        None => None,
    }
}

/// `w` is the new widget of dashboard `dashboard_id` with id `id` made from
/// `body`: of the body's kind; a missing title empty and a missing
/// configuration, source or layout the given default; a blank refresh interval
/// none; nothing cached.
pub open spec fn widget_from<K, C, S, L, V>(
    w: Widget<K, C, S, L, V>,
    body: WidgetBody<K, C, S, L>,
    id: Seq<char>,
    dashboard_id: Seq<char>,
    default_config: C,
    default_source: S,
    default_layout: L,
) -> bool {
    &&& body.kind == Some(w.kind)
    &&& w.id@ == id
    &&& w.dashboard_id@ == dashboard_id
    &&& w.title@ == match body.title {
        Some(t) => t@,
        None => Seq::<char>::empty(),
    }
    &&& w.config == match body.config {
        Some(c) => c,
        None => default_config,
    }
    &&& w.source == match body.source {
        Some(s) => s,
        None => default_source,
    }
    &&& opt_view(w.refresh_interval) == nonblank(opt_view(body.refresh_interval))
    &&& w.layout == match body.layout {
        Some(l) => l,
        None => default_layout,
    }
    &&& w.last_value is None
    &&& w.last_refresh_at is None
    &&& w.last_error is None
}

/// A new widget of dashboard `dashboard_id` from `body` (see `widget_from`); the
/// kind is required (`Err("kind is required")`).
pub fn new_widget<K, C, S, L, V>(
    body: WidgetBody<K, C, S, L>,
    id: String,
    dashboard_id: String,
    default_config: C,
    default_source: S,
    default_layout: L,
) -> (r: Result<Widget<K, C, S, L, V>, &'static str>)
    ensures
        match r {
            Ok(w) => widget_from(
                w,
                body,
                id@,
                dashboard_id@,
                default_config,
                default_source,
                default_layout,
            ),
            Err(e) => body.kind is None && e@ == "kind is required"@,
        },
{
    let kind = match body.kind {
        Some(k) => k,
        None => {
            return Err("kind is required");
        },
    };
    let title = match body.title {
        Some(t) => t,
        None => String::new(),
    };
    let config = match body.config {
        Some(c) => c,
        None => default_config,
    };
    let source = match body.source {
        Some(s) => s,
        None => default_source,
    };
    let layout = match body.layout {
        Some(l) => l,
        None => default_layout,
    };
    Ok(Widget {
        id,
        dashboard_id,
        kind,
        title,
        config,
        source,
        refresh_interval: nonblank_interval(body.refresh_interval),
        layout,
        last_value: None,
        last_refresh_at: None,
        last_error: None,
    })
}

/// `POST /api/dashboards/:id/widgets` once the dashboard is known: a new widget
/// from `body` with a fresh `wgt_` id (see `new_widget`).
pub fn create_widget<K, C, S, L, V>(
    body: WidgetBody<K, C, S, L>,
    dashboard_id: String,
    default_config: C,
    default_source: S,
    default_layout: L,
) -> (r: Result<Widget<K, C, S, L, V>, &'static str>)
    ensures
        match r {
            Ok(w) => widget_from(
                w,
                body,
                w.id@,
                dashboard_id@,
                default_config,
                default_source,
                default_layout,
            ) && w.id@.len() == 36 && w.id@.take(4) == "wgt_"@ && crate::ids::is_simple_uuid(
                w.id@.skip(4),
            ),
            Err(e) => body.kind is None && e@ == "kind is required"@,
        },
{
    if body.kind.is_none() {
        return Err("kind is required");
    }
    let id = fresh_prefixed_id("wgt_");
    proof {
        reveal_strlit("wgt_");
    }
    new_widget(body, id, dashboard_id, default_config, default_source, default_layout)
}

/// `w` patched by `body`: each field the body carries replaces the widget's; a
/// new source drops the cached value, error and refresh time; a blank refresh
/// interval clears it. The id and dashboard stay.
pub open spec fn patched<K, C, S, L, V>(
    w: Widget<K, C, S, L, V>,
    body: WidgetBody<K, C, S, L>,
) -> Widget<K, C, S, L, V> {
    Widget {
        id: w.id,
        dashboard_id: w.dashboard_id,
        kind: match body.kind {
            Some(k) => k,
            None => w.kind,
        },
        title: match body.title {
            Some(t) => t,
            None => w.title,
        },
        config: match body.config {
            Some(c) => c,
            None => w.config,
        },
        source: match body.source {
            Some(s) => s,
            None => w.source,
        },
        refresh_interval: match body.refresh_interval {
            Some(i) => if trim_ws(i@).len() > 0 {
                Some(i)
            } else {
                None
            },
            None => w.refresh_interval,
        },
        layout: match body.layout {
            Some(l) => l,
            None => w.layout,
        },
        last_value: if body.source is Some {
            None
        } else {
            w.last_value
        },
        last_refresh_at: if body.source is Some {
            None
        } else {
            w.last_refresh_at
        },
        last_error: if body.source is Some {
            None
        } else {
            w.last_error
        },
    }
}

/// `PUT /api/dashboards/:id/widgets/:wid`: apply a partial patch (see
/// `patched`).
pub fn update_widget<K, C, S, L, V>(w: &mut Widget<K, C, S, L, V>, body: WidgetBody<K, C, S, L>)
    ensures
        *final(w) == patched(*old(w), body),
{
    let ghost b = body;
    if let Some(k) = body.kind {
        w.kind = k;
    }
    if let Some(t) = body.title {
        w.title = t;
    }
    if let Some(c) = body.config {
        w.config = c;
    }
    if let Some(s) = body.source {
        w.source = s;
        w.last_value = None;
        w.last_error = None;
        w.last_refresh_at = None;
    }
    if let Some(i) = body.refresh_interval {
        let t = trimmed(&chars_of(i.as_str()), CharClass::Whitespace);
        if t.len() > 0 {
            w.refresh_interval = Some(i);
        } else {
            w.refresh_interval = None;
        }
    }
    if let Some(l) = body.layout {
        w.layout = l;
    }
    assert(*w == patched(*old(w), b));
}

/// An empty patch leaves a widget as it was.
pub proof fn lemma_empty_patch_keeps_widget<K, C, S, L, V>(w: Widget<K, C, S, L, V>)
    ensures
        patched(
            w,
            WidgetBody::<K, C, S, L> {
                kind: None,
                title: None,
                config: None,
                source: None,
                refresh_interval: None,
                layout: None,
            },
        ) == w,
{
}

/// A patch that carries a new source invalidates what was cached from the old
/// one; a patch that carries none keeps the cache.
pub proof fn lemma_new_source_clears_cache<K, C, S, L, V>(
    w: Widget<K, C, S, L, V>,
    body: WidgetBody<K, C, S, L>,
)
    ensures
        body.source is Some ==> {
            let n = patched(w, body);
            n.last_value is None && n.last_error is None && n.last_refresh_at is None
        },
        body.source is None ==> {
            let n = patched(w, body);
            n.last_value == w.last_value && n.last_error == w.last_error && n.last_refresh_at
                == w.last_refresh_at
        },
{
}

} // verus!
