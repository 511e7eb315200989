//! Google Analytics 4 (gtag.js): consent state, configuration, and the
//! JavaScript snippets sent to the page.
use vstd::prelude::*;
use crate::json::{
    json_object_text, json_object_to_string, json_scalar_text, json_scalar_to_string, json_string,
    json_string_literal, JsonObject, JsonScalar, JsonScalarView,
};
use crate::text::{ends_with, owned, push_str, starts_with};

verus! {

/// Consent state for a single consent type, as defined by Google Consent Mode v2.
#[derive(Debug, Clone, Copy, PartialEq, Eq, Structural)]
pub enum ConsentStatus {
    Granted,
    Denied,
}

/// The wire name of a consent status.
pub open spec fn status_name(s: ConsentStatus) -> Seq<char> {
    match s {
        ConsentStatus::Granted => "granted"@,
        ConsentStatus::Denied => "denied"@,
    }
}

impl ConsentStatus {
    /// `"granted"` or `"denied"`.
    pub fn as_str(&self) -> (r: &'static str)
        ensures
            r@ == status_name(*self),
    {
        match self {
            ConsentStatus::Granted => "granted",
            ConsentStatus::Denied => "denied",
        }
    }
}

/// A consent update for Google Consent Mode v2.
///
/// Only the fields set to `Some` are included in the `gtag('consent', …)`
/// call, so an update can change one consent type without touching the others.
#[derive(Debug, Clone, Copy, PartialEq, Eq, Structural)]
pub struct ConsentUpdate {
    pub ad_storage: Option<ConsentStatus>,
    pub analytics_storage: Option<ConsentStatus>,
    pub ad_user_data: Option<ConsentStatus>,
    pub ad_personalization: Option<ConsentStatus>,
}

impl Default for ConsentUpdate {
    fn default() -> (r: Self)
        ensures
            r.ad_storage is None,
            r.analytics_storage is None,
            r.ad_user_data is None,
            r.ad_personalization is None,
    {
        ConsentUpdate { ad_storage: None, analytics_storage: None, ad_user_data: None, ad_personalization: None }
    }
}

/// The member a set consent field contributes, in field order.
pub open spec fn consent_member(key: Seq<char>, s: Option<ConsentStatus>) -> Seq<(Seq<char>, JsonScalarView)> {
    match s {
        Some(st) => seq![(key, JsonScalarView::Str(status_name(st)))],
        None => Seq::empty(),
    }
}

/// The members of a consent update's JSON object: one per set field, in the
/// order `ad_storage`, `analytics_storage`, `ad_user_data`, `ad_personalization`.
pub open spec fn consent_members(u: ConsentUpdate) -> Seq<(Seq<char>, JsonScalarView)> {
    consent_member("ad_storage"@, u.ad_storage) + consent_member("analytics_storage"@, u.analytics_storage)
        + consent_member("ad_user_data"@, u.ad_user_data) + consent_member(
        "ad_personalization"@,
        u.ad_personalization,
    )
}

fn push_consent(obj: &mut JsonObject, key: &str, s: Option<ConsentStatus>)
    ensures
        final(obj)@ == old(obj)@ + consent_member(key@, s),
{
    match s {
        Some(st) => {
            obj.insert_str(key, st.as_str());
            assert(obj@ =~= old(obj)@ + consent_member(key@, s));
        },
        None => {
            assert(obj@ =~= old(obj)@ + consent_member(key@, s));
        },
    }
}

impl ConsentUpdate {
    /// An update that sets nothing.
    pub fn new() -> (r: Self)
        ensures
            r == (ConsentUpdate { ad_storage: None, analytics_storage: None, ad_user_data: None, ad_personalization: None }),
    {
        Self::default()
    }

    /// Grants every consent type.
    pub fn grant_all() -> (r: Self)
        ensures
            r == (ConsentUpdate {
                ad_storage: Some(ConsentStatus::Granted),
                analytics_storage: Some(ConsentStatus::Granted),
                ad_user_data: Some(ConsentStatus::Granted),
                ad_personalization: Some(ConsentStatus::Granted),
            }),
    {
        Self {
            ad_storage: Some(ConsentStatus::Granted),
            analytics_storage: Some(ConsentStatus::Granted),
            ad_user_data: Some(ConsentStatus::Granted),
            ad_personalization: Some(ConsentStatus::Granted),
        }
    }

    /// Denies every consent type.
    pub fn deny_all() -> (r: Self)
        ensures
            r == (ConsentUpdate {
                ad_storage: Some(ConsentStatus::Denied),
                analytics_storage: Some(ConsentStatus::Denied),
                ad_user_data: Some(ConsentStatus::Denied),
                ad_personalization: Some(ConsentStatus::Denied),
            }),
    {
        Self {
            ad_storage: Some(ConsentStatus::Denied),
            analytics_storage: Some(ConsentStatus::Denied),
            ad_user_data: Some(ConsentStatus::Denied),
            ad_personalization: Some(ConsentStatus::Denied),
        }
    }

    /// Sets `ad_storage`, leaving the other fields as they are.
    pub fn ad_storage(self, status: ConsentStatus) -> (r: Self)
        ensures
            r == (ConsentUpdate { ad_storage: Some(status), ..self }),
    {
        let mut s = self;
        s.ad_storage = Some(status);
        s
    }

    /// Sets `analytics_storage`, leaving the other fields as they are.
    pub fn analytics_storage(self, status: ConsentStatus) -> (r: Self)
        ensures
            r == (ConsentUpdate { analytics_storage: Some(status), ..self }),
    {
        let mut s = self;
        s.analytics_storage = Some(status);
        s
    }

    /// Sets `ad_user_data`, leaving the other fields as they are.
    pub fn ad_user_data(self, status: ConsentStatus) -> (r: Self)
        ensures
            r == (ConsentUpdate { ad_user_data: Some(status), ..self }),
    {
        let mut s = self;
        s.ad_user_data = Some(status);
        s
    }

    /// Sets `ad_personalization`, leaving the other fields as they are.
    pub fn ad_personalization(self, status: ConsentStatus) -> (r: Self)
        ensures
            r == (ConsentUpdate { ad_personalization: Some(status), ..self }),
    {
        let mut s = self;
        s.ad_personalization = Some(status);
        s
    }

    /// The JSON object of the set fields: `{"analytics_storage":"granted"}`.
    pub fn to_json(self) -> (r: JsonObject)
        ensures
            r@ == consent_members(self),
    {
        let mut obj = JsonObject::new();
        push_consent(&mut obj, "ad_storage", self.ad_storage);
        push_consent(&mut obj, "analytics_storage", self.analytics_storage);
        push_consent(&mut obj, "ad_user_data", self.ad_user_data);
        push_consent(&mut obj, "ad_personalization", self.ad_personalization);
        assert(obj@ =~= consent_members(self));
        obj
    }
}

/// The consent field of `u` named `k`; `None` for a name that is not one
/// of the four consent types.
pub open spec fn consent_field(u: ConsentUpdate, k: Seq<char>) -> Option<ConsentStatus> {
    if k == "ad_storage"@ {
        u.ad_storage
    } else if k == "analytics_storage"@ {
        u.analytics_storage
    } else if k == "ad_user_data"@ {
        u.ad_user_data
    } else if k == "ad_personalization"@ {
        u.ad_personalization
    } else {
        None
    }
}

/// The JSON object of a consent update has a member for exactly the fields
/// that are set, each once, keyed by the field's name and valued `"granted"`
/// or `"denied"`; an update that sets nothing gives the empty object.
pub proof fn law_consent_json_members(u: ConsentUpdate)
    ensures
        forall|k: Seq<char>|
            #![trigger consent_field(u, k)]
            (exists|i: int| 0 <= i < consent_members(u).len() && consent_members(u)[i].0 == k) <==> consent_field(
                u,
                k,
            ) is Some,
        forall|i: int|
            0 <= i < consent_members(u).len() ==> (consent_field(u, #[trigger] consent_members(u)[i].0) matches Some(
                st,
            ) && consent_members(u)[i].1 == JsonScalarView::Str(status_name(st))),
        forall|i: int, j: int|
            0 <= i < j < consent_members(u).len() ==> #[trigger] consent_members(u)[i].0 != #[trigger] consent_members(
                u,
            )[j].0,
        u == (ConsentUpdate { ad_storage: None, analytics_storage: None, ad_user_data: None, ad_personalization: None })
            ==> consent_members(u).len() == 0,
{
    reveal_strlit("ad_storage");
    reveal_strlit("analytics_storage");
    reveal_strlit("ad_user_data");
    reveal_strlit("ad_personalization");
    let a = consent_member("ad_storage"@, u.ad_storage);
    let b = consent_member("analytics_storage"@, u.analytics_storage);
    let c = consent_member("ad_user_data"@, u.ad_user_data);
    let d = consent_member("ad_personalization"@, u.ad_personalization);
    let m = consent_members(u);
    assert(m == a + b + c + d);
    assert("ad_storage"@.len() == 10);
    assert("analytics_storage"@.len() == 17);
    assert("ad_user_data"@.len() == 12);
    assert("ad_storage"@ != "analytics_storage"@);
    assert("ad_storage"@ != "ad_user_data"@);
    assert("ad_storage"@ != "ad_personalization"@);
    assert("analytics_storage"@ != "ad_user_data"@);
    assert("analytics_storage"@ != "ad_personalization"@);
    assert("ad_user_data"@ != "ad_personalization"@);
    assert forall|k: Seq<char>|
        #![trigger consent_field(u, k)]
        (exists|i: int| 0 <= i < m.len() && m[i].0 == k) <==> consent_field(u, k) is Some by {
        if consent_field(u, k) is Some {
            let i: int = if k == "ad_storage"@ {
                0
            } else if k == "analytics_storage"@ {
                a.len() as int
            } else if k == "ad_user_data"@ {
                (a.len() + b.len()) as int
            } else {
                (a.len() + b.len() + c.len()) as int
            };
            assert(m[i].0 == k);
        }
    }
}

/// Configuration for the gtag context.
#[derive(Debug, Clone, PartialEq)]
pub struct GtagConfig {
    pub measurement_id: String,
    /// Whether gtag.js sends its automatic initial `page_view`. Defaults to
    /// `false` so that manual page views are not counted twice.
    pub send_page_view: bool,
    /// Attaches `debug_mode: true` so events show up in GA4 DebugView.
    pub debug_mode: bool,
    /// When `false`, gtag.js is not loaded and all calls are dropped until
    /// the context is enabled (e.g. after user opt-in).
    pub enabled: bool,
    /// Consent state declared before `gtag('config', …)`, per Consent Mode v2.
    pub default_consent: Option<ConsentUpdate>,
}

impl GtagConfig {
    /// The defaults for a measurement id: no automatic page view, no debug
    /// mode, enabled, no default consent.
    pub fn new(measurement_id: &str) -> (r: Self)
        ensures
            r.measurement_id@ == measurement_id@,
            !r.send_page_view,
            !r.debug_mode,
            r.enabled,
            r.default_consent is None,
    {
        Self {
            measurement_id: owned(measurement_id),
            send_page_view: false,
            debug_mode: false,
            enabled: true,
            default_consent: None,
        }
    }

    /// Sets `send_page_view`, leaving the other fields as they are.
    pub fn send_page_view(self, on: bool) -> (r: Self)
        ensures
            r == (GtagConfig { send_page_view: on, ..self }),
    {
        let mut s = self;
        s.send_page_view = on;
        s
    }

    /// Sets `debug_mode`, leaving the other fields as they are.
    pub fn debug(self, on: bool) -> (r: Self)
        ensures
            r == (GtagConfig { debug_mode: on, ..self }),
    {
        let mut s = self;
        s.debug_mode = on;
        s
    }

    /// Sets `enabled`, leaving the other fields as they are.
    pub fn enabled(self, on: bool) -> (r: Self)
        ensures
            r == (GtagConfig { enabled: on, ..self }),
    {
        let mut s = self;
        s.enabled = on;
        s
    }

    /// Sets the default consent, leaving the other fields as they are.
    pub fn default_consent(self, consent: ConsentUpdate) -> (r: Self)
        ensures
            r == (GtagConfig { default_consent: Some(consent), ..self }),
    {
        let mut s = self;
        s.default_consent = Some(consent);
        s
    }
}

/// The bootstrap's opening lines: `dataLayer`, `gtag` and the `js` call.
pub open spec fn bootstrap_head() -> Seq<char> {
    "window.dataLayer = window.dataLayer || [];\nwindow.gtag = window.gtag || function() { window.dataLayer.push(arguments); };\ngtag('js', new Date());\n"@
}

/// The members of the `gtag('config', …)` parameters.
pub open spec fn config_members(c: GtagConfig) -> Seq<(Seq<char>, JsonScalarView)> {
    seq![("send_page_view"@, JsonScalarView::Bool(c.send_page_view))] + (if c.debug_mode {
        seq![("debug_mode"@, JsonScalarView::Bool(true))]
    } else {
        Seq::empty()
    })
}

/// The default-consent line, when the configuration declares one.
pub open spec fn default_consent_line(c: GtagConfig) -> Seq<char> {
    match c.default_consent {
        Some(u) => "gtag('consent', 'default', "@ + json_object_text(consent_members(u)) + ");\n"@,
        None => Seq::empty(),
    }
}

/// The snippet that injects the gtag.js script tag (once) for a quoted id.
pub open spec fn script_tag_snippet(quoted_id: Seq<char>) -> Seq<char> {
    "if (!document.getElementById('dioxus-gtag-js')) {\n    var s = document.createElement('script');\n    s.id = 'dioxus-gtag-js';\n    s.async = true;\n    s.src = 'https://www.googletagmanager.com/gtag/js?id=' + encodeURIComponent("@
        + quoted_id + ");\n    document.head.appendChild(s);\n}"@
}

/// The bootstrap snippet of a configuration: defines `dataLayer`/`gtag`,
/// declares the default consent before configuring the measurement id,
/// and injects the gtag.js script tag exactly once.
pub open spec fn bootstrap_text(c: GtagConfig) -> Seq<char> {
    let id = json_string_literal(c.measurement_id@);
    bootstrap_head() + default_consent_line(c) + "gtag('config', "@ + id + ", "@
        + json_object_text(config_members(c)) + ");\n"@ + script_tag_snippet(id)
}

/// The bootstrap snippet first defines `dataLayer` and `gtag`, then runs
/// `gtag('js', new Date());` as its third line, and only after that
/// configures the measurement id.
pub proof fn law_bootstrap_initialises_before_config(c: GtagConfig)
    ensures
        starts_with(
            bootstrap_text(c),
            "window.dataLayer = window.dataLayer || [];\n"@
                + "window.gtag = window.gtag || function() { window.dataLayer.push(arguments); };\n"@
                + "gtag('js', new Date());\n"@,
        ),
        exists|i: int|
            #![trigger bootstrap_text(c).subrange(i, i + 15)]
            (("window.dataLayer = window.dataLayer || [];\n"@
                + "window.gtag = window.gtag || function() { window.dataLayer.push(arguments); };\n"@
                + "gtag('js', new Date());\n"@).len() <= i && i + 15 <= bootstrap_text(c).len()
                && bootstrap_text(c).subrange(i, i + 15) == "gtag('config', "@),
{
    reveal_strlit("window.dataLayer = window.dataLayer || [];\n");
    reveal_strlit("window.gtag = window.gtag || function() { window.dataLayer.push(arguments); };\n");
    reveal_strlit("gtag('js', new Date());\n");
    reveal_strlit("window.dataLayer = window.dataLayer || [];\nwindow.gtag = window.gtag || function() { window.dataLayer.push(arguments); };\ngtag('js', new Date());\n");
    reveal_strlit("gtag('config', ");
    let head = "window.dataLayer = window.dataLayer || [];\n"@
        + "window.gtag = window.gtag || function() { window.dataLayer.push(arguments); };\n"@
        + "gtag('js', new Date());\n"@;
    assert(bootstrap_head() =~= head);
    let t = bootstrap_text(c);
    let id = json_string_literal(c.measurement_id@);
    let rest = "gtag('config', "@ + id + ", "@ + json_object_text(config_members(c)) + ");\n"@ + script_tag_snippet(id);
    assert(t =~= head + default_consent_line(c) + rest);
    assert(t.take(head.len() as int) =~= head);
    let i: int = (head.len() + default_consent_line(c).len()) as int;
    assert(t.subrange(i, i + 15) =~= "gtag('config', "@);
}

/// The bootstrap configures the measurement id with `send_page_view` set as
/// configured and `debug_mode: true` exactly when debugging; it declares the
/// default consent (before the config line) exactly when one is configured,
/// and it ends by loading gtag.js for the measurement id.
pub proof fn law_bootstrap_config_and_consent(c: GtagConfig)
    ensures
        config_members(c).contains(("send_page_view"@, JsonScalarView::Bool(c.send_page_view))),
        config_members(c).contains(("debug_mode"@, JsonScalarView::Bool(true))) <==> c.debug_mode,
        config_members(c).len() == if c.debug_mode { 2int } else { 1int },
        c.default_consent matches Some(u) ==> starts_with(
            bootstrap_text(c).skip(bootstrap_head().len() as int),
            "gtag('consent', 'default', "@ + json_object_text(consent_members(u)) + ");\n"@,
        ),
        c.default_consent is None ==> starts_with(bootstrap_text(c).skip(bootstrap_head().len() as int), "gtag('config', "@),
        ends_with(
            bootstrap_text(c),
            "    s.src = 'https://www.googletagmanager.com/gtag/js?id=' + encodeURIComponent("@ + json_string_literal(
                c.measurement_id@,
            ) + ");\n    document.head.appendChild(s);\n}"@,
        ),
{
    reveal_strlit("send_page_view");
    reveal_strlit("debug_mode");
    assert("send_page_view"@ != "debug_mode"@) by {
        assert("send_page_view"@[0] != "debug_mode"@[0]);
    }
    let m = config_members(c);
    assert(m[0] == ("send_page_view"@, JsonScalarView::Bool(c.send_page_view)));
    if c.debug_mode {
        assert(m[1] == ("debug_mode"@, JsonScalarView::Bool(true)));
    }
    let h = bootstrap_head();
    let t = bootstrap_text(c);
    let id = json_string_literal(c.measurement_id@);
    let rest = "gtag('config', "@ + id + ", "@ + json_object_text(config_members(c)) + ");\n"@ + script_tag_snippet(id);
    assert(t =~= h + (default_consent_line(c) + rest));
    assert(t.skip(h.len() as int) =~= default_consent_line(c) + rest);
    match c.default_consent {
        Some(u) => {
            let line = "gtag('consent', 'default', "@ + json_object_text(consent_members(u)) + ");\n"@;
            assert((line + rest).take(line.len() as int) =~= line);
        },
        None => {
            assert(default_consent_line(c) + rest =~= rest);
            assert(rest.take("gtag('config', "@.len() as int) =~= "gtag('config', "@);
        },
    }
    reveal_strlit("if (!document.getElementById('dioxus-gtag-js')) {\n    var s = document.createElement('script');\n    s.id = 'dioxus-gtag-js';\n    s.async = true;\n    s.src = 'https://www.googletagmanager.com/gtag/js?id=' + encodeURIComponent(");
    reveal_strlit("    s.src = 'https://www.googletagmanager.com/gtag/js?id=' + encodeURIComponent(");
    let tail = "    s.src = 'https://www.googletagmanager.com/gtag/js?id=' + encodeURIComponent("@ + id
        + ");\n    document.head.appendChild(s);\n}"@;
    let pre = "if (!document.getElementById('dioxus-gtag-js')) {\n    var s = document.createElement('script');\n    s.id = 'dioxus-gtag-js';\n    s.async = true;\n    s.src = 'https://www.googletagmanager.com/gtag/js?id=' + encodeURIComponent("@;
    let pre0 = pre.take(pre.len() - "    s.src = 'https://www.googletagmanager.com/gtag/js?id=' + encodeURIComponent("@.len());
    assert(pre =~= pre0 + "    s.src = 'https://www.googletagmanager.com/gtag/js?id=' + encodeURIComponent("@);
    assert(script_tag_snippet(id) =~= pre0 + tail);
    let body = h + default_consent_line(c) + "gtag('config', "@ + id + ", "@ + json_object_text(config_members(c)) + ");\n"@ + pre0;
    assert(t =~= body + tail);
    assert(t.skip(t.len() - tail.len()) =~= tail);
}

/// A page view is the `page_view` event whose parameters are `page_path`,
/// then `page_title` exactly when a title is given; the user-id snippet
/// clears the id with `null` when none is given; the kill switch writes
/// `true` exactly when analytics is disabled.
pub proof fn law_page_view_user_id_and_kill_switch(path: Seq<char>, title: Option<Seq<char>>, id: Seq<char>, disabled: bool)
    ensures
        page_view_members(path, title)[0] == ("page_path"@, JsonScalarView::Str(path)),
        page_view_members(path, title).len() == if title is Some { 2int } else { 1int },
        title matches Some(t) ==> page_view_members(path, title)[1] == ("page_title"@, JsonScalarView::Str(t)),
        set_user_id_text(None) == "gtag('set', { 'user_id': null });"@,
        set_user_id_text(Some(id)) == "gtag('set', { 'user_id': "@ + json_string_literal(id) + " });"@,
        ends_with(set_disabled_text(id, disabled), if disabled { "] = true;"@ } else { "] = false;"@ }),
        starts_with(set_disabled_text(id, disabled), "window['ga-disable-' + "@ + json_string_literal(id)),
{
    reveal_strlit("gtag('set', { 'user_id': null });");
    reveal_strlit("gtag('set', { 'user_id': ");
    reveal_strlit("null");
    reveal_strlit(" });");
    assert(set_user_id_text(None) =~= "gtag('set', { 'user_id': null });"@);
    reveal_strlit("] = true;");
    reveal_strlit("] = false;");
    reveal_strlit("] = ");
    reveal_strlit("true");
    reveal_strlit("false");
    reveal_strlit(";");
    let head = "window['ga-disable-' + "@ + json_string_literal(id);
    let v = if disabled { "true"@ } else { "false"@ };
    let tail = if disabled { "] = true;"@ } else { "] = false;"@ };
    assert("] = "@ + v + ";"@ =~= tail);
    assert(set_disabled_text(id, disabled) =~= head + tail);
    assert((head + tail).skip((head + tail).len() - tail.len()) =~= tail);
    assert((head + tail).take(head.len() as int) =~= head);
}

/// The bootstrap snippet for a configuration.
pub fn bootstrap(config: &GtagConfig) -> (r: String)
    ensures
        r@ == bootstrap_text(*config),
{
    let id = json_string(config.measurement_id.as_str());
    let mut out = owned("window.dataLayer = window.dataLayer || [];\nwindow.gtag = window.gtag || function() { window.dataLayer.push(arguments); };\ngtag('js', new Date());\n");
    match config.default_consent {
        Some(update) => {
            let obj = update.to_json();
            let text = json_object_to_string(&obj);
            push_str(&mut out, "gtag('consent', 'default', ");
            push_str(&mut out, text.as_str());
            push_str(&mut out, ");\n");
        },
        None => {},
    }
    let mut params = JsonObject::new();
    params.insert_bool("send_page_view", config.send_page_view);
    if config.debug_mode {
        params.insert_bool("debug_mode", true);
    }
    assert(params@ =~= config_members(*config));
    let params_text = json_object_to_string(&params);
    push_str(&mut out, "gtag('config', ");
    push_str(&mut out, id.as_str());
    push_str(&mut out, ", ");
    push_str(&mut out, params_text.as_str());
    push_str(&mut out, ");\n");
    push_str(&mut out, "if (!document.getElementById('dioxus-gtag-js')) {\n    var s = document.createElement('script');\n    s.id = 'dioxus-gtag-js';\n    s.async = true;\n    s.src = 'https://www.googletagmanager.com/gtag/js?id=' + encodeURIComponent(");
    push_str(&mut out, id.as_str());
    push_str(&mut out, ");\n    document.head.appendChild(s);\n}");
    proof {
        assert(out@ =~= bootstrap_text(*config));
    }
    out
}

/// `gtag('event', name, params);`
pub open spec fn event_text(name: Seq<char>, params: Seq<(Seq<char>, JsonScalarView)>) -> Seq<char> {
    "gtag('event', "@ + json_string_literal(name) + ", "@ + json_object_text(params) + ");"@
}

/// A GA4 event: `gtag('event', name, params);`.
pub fn event(name: &str, params: &JsonObject) -> (r: String)
    ensures
        r@ == event_text(name@, params@),
{
    let mut out = owned("gtag('event', ");
    push_str(&mut out, json_string(name).as_str());
    push_str(&mut out, ", ");
    push_str(&mut out, json_object_to_string(params).as_str());
    push_str(&mut out, ");");
    out
}

/// The members of a `page_view` event.
pub open spec fn page_view_members(path: Seq<char>, title: Option<Seq<char>>) -> Seq<(Seq<char>, JsonScalarView)> {
    seq![("page_path"@, JsonScalarView::Str(path))] + match title {
        Some(t) => seq![("page_title"@, JsonScalarView::Str(t))],
        None => Seq::empty(),
    }
}

/// A `page_view` event for a path, with the page title when given.
pub fn page_view(path: &str, title: Option<&str>) -> (r: String)
    ensures
        r@ == event_text("page_view"@, page_view_members(path@, match title { Some(t) => Some(t@), None => None })),
{
    let mut params = JsonObject::new();
    params.insert_str("page_path", path);
    if let Some(t) = title {
        params.insert_str("page_title", t);
    }
    assert(params@ =~= page_view_members(path@, match title { Some(t) => Some(t@), None => None }));
    event("page_view", &params)
}

/// `gtag('set', { 'user_id': … });` with the quoted id, or `null` to clear it.
pub open spec fn set_user_id_text(id: Option<Seq<char>>) -> Seq<char> {
    "gtag('set', { 'user_id': "@ + match id {
        Some(i) => json_string_literal(i),
        None => "null"@,
    } + " });"@
}

/// Sets (or, with `None`, clears) the GA4 `user_id`.
pub fn set_user_id(id: Option<&str>) -> (r: String)
    ensures
        r@ == set_user_id_text(match id { Some(i) => Some(i@), None => None }),
{
    let value = match id {
        Some(i) => json_string(i),
        None => owned("null"),
    };
    let mut out = owned("gtag('set', { 'user_id': ");
    push_str(&mut out, value.as_str());
    push_str(&mut out, " });");
    out
}

/// `gtag('set', 'user_properties', { key: value });`
pub open spec fn set_user_property_text(key: Seq<char>, value: JsonScalarView) -> Seq<char> {
    "gtag('set', 'user_properties', { "@ + json_string_literal(key) + ": "@ + json_scalar_text(value) + " });"@
}

/// Sets a GA4 user property.
pub fn set_user_property(key: &str, value: &JsonScalar) -> (r: String)
    ensures
        r@ == set_user_property_text(key@, value@),
{
    let mut out = owned("gtag('set', 'user_properties', { ");
    push_str(&mut out, json_string(key).as_str());
    push_str(&mut out, ": ");
    push_str(&mut out, json_scalar_to_string(value).as_str());
    push_str(&mut out, " });");
    out
}

/// `gtag('consent', 'update', {…});` with the set fields of the update.
pub open spec fn consent_update_text(u: ConsentUpdate) -> Seq<char> {
    "gtag('consent', 'update', "@ + json_object_text(consent_members(u)) + ");"@
}

/// A Consent Mode v2 update.
pub fn consent_update(update: &ConsentUpdate) -> (r: String)
    ensures
        r@ == consent_update_text(*update),
{
    let obj = update.to_json();
    let mut out = owned("gtag('consent', 'update', ");
    push_str(&mut out, json_object_to_string(&obj).as_str());
    push_str(&mut out, ");");
    out
}

/// `window['ga-disable-' + id] = true;` (or `false`).
pub open spec fn set_disabled_text(measurement_id: Seq<char>, disabled: bool) -> Seq<char> {
    "window['ga-disable-' + "@ + json_string_literal(measurement_id) + "] = "@ + (if disabled {
        "true"@
    } else {
        "false"@
    }) + ";"@
}

/// Toggles Google Analytics' library-level kill switch for a measurement id.
pub fn set_disabled(measurement_id: &str, disabled: bool) -> (r: String)
    ensures
        r@ == set_disabled_text(measurement_id@, disabled),
{
    let mut out = owned("window['ga-disable-' + ");
    push_str(&mut out, json_string(measurement_id).as_str());
    push_str(&mut out, "] = ");
    push_str(&mut out, if disabled { "true" } else { "false" });
    push_str(&mut out, ";");
    out
}

} // verus!
