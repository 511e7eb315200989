//! The analytics context's state machine: calls made while disabled are
//! dropped, calls made before gtag.js is bootstrapped are buffered and
//! flushed, in order, when it is.
use vstd::prelude::*;
use crate::gtag::{
    bootstrap, bootstrap_text, consent_update, event, page_view, set_disabled, set_disabled_text,
    set_user_id, set_user_property, ConsentUpdate, GtagConfig,
};
use crate::json::{JsonObject, JsonScalar};
use crate::text::views;

verus! {

/// The analytics context: its configuration, whether it is enabled, whether
/// gtag.js has been bootstrapped, and the scripts buffered until then.
pub struct GtagState {
    config: GtagConfig,
    enabled: bool,
    initialized: bool,
    pending: Vec<String>,
}

/// The mathematical value of a [`GtagState`].
#[verifier::ext_equal]
pub struct GtagView {
    pub measurement_id: Seq<char>,
    /// The bootstrap snippet of the configuration.
    pub bootstrap: Seq<char>,
    pub enabled: bool,
    pub initialized: bool,
    pub pending: Seq<Seq<char>>,
}

impl View for GtagState {
    type V = GtagView;

    closed spec fn view(&self) -> GtagView {
        GtagView {
            measurement_id: self.config.measurement_id@,
            bootstrap: bootstrap_text(self.config),
            enabled: self.enabled,
            initialized: self.initialized,
            pending: views(self.pending@),
        }
    }
}

/// A script call: dropped while disabled, evaluated at once when gtag.js is
/// loaded, buffered otherwise. Gives the next state and the scripts to evaluate.
pub open spec fn push_step(s: GtagView, script: Seq<char>) -> (GtagView, Seq<Seq<char>>) {
    if !s.enabled {
        (s, Seq::empty())
    } else if s.initialized {
        (s, seq![script])
    } else {
        (GtagView { pending: s.pending.push(script), ..s }, Seq::empty())
    }
}

/// Initialization: the first time, evaluates the bootstrap and then every
/// buffered script; afterwards, only lifts the kill switch again.
pub open spec fn init_step(s: GtagView) -> (GtagView, Seq<Seq<char>>) {
    if s.initialized {
        (s, seq![set_disabled_text(s.measurement_id, false)])
    } else {
        (GtagView { initialized: true, pending: Seq::empty(), ..s }, seq![s.bootstrap] + s.pending)
    }
}

/// The opt-in/opt-out toggle: sets the flag and, once gtag.js is loaded,
/// the kill switch.
pub open spec fn set_enabled_step(s: GtagView, on: bool) -> (GtagView, Seq<Seq<char>>) {
    (GtagView { enabled: on, ..s }, if s.initialized {
        seq![set_disabled_text(s.measurement_id, !on)]
    } else {
        Seq::empty()
    })
}

/// The provider's effect, run on start and whenever `enabled` changes:
/// initializes when enabled.
pub open spec fn effect_step(s: GtagView) -> (GtagView, Seq<Seq<char>>) {
    if s.enabled {
        init_step(s)
    } else {
        (s, Seq::empty())
    }
}

/// A series of script calls, in order.
pub open spec fn push_all(s: GtagView, scripts: Seq<Seq<char>>) -> (GtagView, Seq<Seq<char>>)
    decreases scripts.len(),
{
    if scripts.len() == 0 {
        (s, Seq::empty())
    } else {
        let (s1, out1) = push_all(s, scripts.drop_last());
        let (s2, out2) = push_step(s1, scripts.last());
        (s2, out1 + out2)
    }
}

impl GtagState {
    /// A fresh context: enabled as configured, not yet bootstrapped, nothing buffered.
    pub fn new(config: GtagConfig) -> (r: GtagState)
        ensures
            r@ == (GtagView {
                measurement_id: config.measurement_id@,
                bootstrap: bootstrap_text(config),
                enabled: config.enabled,
                initialized: false,
                pending: Seq::empty(),
            }),
    {
        let enabled = config.enabled;
        let r = GtagState { config, enabled, initialized: false, pending: Vec::new() };
        assert(views(r.pending@) =~= Seq::<Seq<char>>::empty());
        r
    }

    /// Whether calls are currently accepted.
    pub fn is_enabled(&self) -> (r: bool)
        ensures
            r == self@.enabled,
    {
        self.enabled
    }

    /// Sends a script through the context; gives the scripts to evaluate now.
    pub fn push(&mut self, script: String) -> (r: Vec<String>)
        ensures
            (final(self)@, views(r@)) == push_step(old(self)@, script@),
    {
        let mut out: Vec<String> = Vec::new();
        if !self.enabled {
        } else if self.initialized {
            let ghost sv = script@;
            out.push(script);
            assert(views(out@) =~= seq![sv]);
            return out;
        } else {
            let ghost sv = script@;
            self.pending.push(script);
            assert(views(self.pending@) =~= views(old(self).pending@).push(sv));
        }
        assert(views(out@) =~= Seq::<Seq<char>>::empty());
        out
    }

    /// Bootstraps gtag.js (first call) or lifts the kill switch (later calls);
    /// gives the scripts to evaluate, the buffered ones flushed in order.
    pub fn init(&mut self) -> (r: Vec<String>)
        ensures
            (final(self)@, views(r@)) == init_step(old(self)@),
    {
        let mut out: Vec<String> = Vec::new();
        if self.initialized {
            out.push(set_disabled(self.config.measurement_id.as_str(), false));
            assert(views(out@) =~= seq![set_disabled_text(self@.measurement_id, false)]);
            return out;
        }
        out.push(bootstrap(&self.config));
        self.initialized = true;
        let mut buffered: Vec<String> = Vec::new();
        std::mem::swap(&mut buffered, &mut self.pending);
        let ghost b = views(buffered@);
        let ghost o = views(out@);
        out.append(&mut buffered);
        assert(views(out@) =~= o + b);
        assert(views(self.pending@) =~= Seq::<Seq<char>>::empty());
        out
    }

    /// Opt-in/opt-out: sets the flag and, once gtag.js is loaded, GA's
    /// `ga-disable-{id}` kill switch.
    pub fn set_enabled(&mut self, on: bool) -> (r: Vec<String>)
        ensures
            (final(self)@, views(r@)) == set_enabled_step(old(self)@, on),
    {
        self.enabled = on;
        let mut out: Vec<String> = Vec::new();
        if self.initialized {
            out.push(set_disabled(self.config.measurement_id.as_str(), !on));
            assert(views(out@) =~= seq![set_disabled_text(self@.measurement_id, !on)]);
        } else {
            assert(views(out@) =~= Seq::<Seq<char>>::empty());
        }
        out
    }

    /// The provider's effect: initializes when enabled.
    pub fn run_effect(&mut self) -> (r: Vec<String>)
        ensures
            (final(self)@, views(r@)) == effect_step(old(self)@),
    {
        if self.enabled {
            self.init()
        } else {
            let out: Vec<String> = Vec::new();
            assert(views(out@) =~= Seq::<Seq<char>>::empty());
            out
        }
    }

    /// Sends a GA4 event.
    pub fn event(&mut self, name: &str, params: &JsonObject) -> (r: Vec<String>)
        ensures
            (final(self)@, views(r@)) == push_step(old(self)@, crate::gtag::event_text(name@, params@)),
    {
        self.push(event(name, params))
    }

    /// Sends a `page_view` event.
    pub fn page_view(&mut self, path: &str, title: Option<&str>) -> (r: Vec<String>)
        ensures
            (final(self)@, views(r@)) == push_step(
                old(self)@,
                crate::gtag::event_text("page_view"@, crate::gtag::page_view_members(path@, match title {
                    Some(t) => Some(t@),
                    None => None,
                })),
            ),
    {
        self.push(page_view(path, title))
    }

    /// Sets (or clears) the GA4 `user_id` for subsequent events.
    pub fn set_user_id(&mut self, id: Option<&str>) -> (r: Vec<String>)
        ensures
            (final(self)@, views(r@)) == push_step(
                old(self)@,
                crate::gtag::set_user_id_text(match id {
                    Some(i) => Some(i@),
                    None => None,
                }),
            ),
    {
        self.push(set_user_id(id))
    }

    /// Sets a GA4 user property for subsequent events.
    pub fn set_user_property(&mut self, key: &str, value: &JsonScalar) -> (r: Vec<String>)
        ensures
            (final(self)@, views(r@)) == push_step(old(self)@, crate::gtag::set_user_property_text(key@, value@)),
    {
        self.push(set_user_property(key, value))
    }

    /// Sends a Consent Mode v2 update.
    pub fn consent(&mut self, update: ConsentUpdate) -> (r: Vec<String>)
        ensures
            (final(self)@, views(r@)) == push_step(old(self)@, crate::gtag::consent_update_text(update)),
    {
        self.push(consent_update(&update))
    }
}

/// Calls made while the context is disabled are dropped: nothing is
/// evaluated and nothing is buffered.
pub proof fn law_disabled_calls_are_dropped(s: GtagView, scripts: Seq<Seq<char>>)
    requires
        !s.enabled,
    ensures
        push_all(s, scripts) == (s, Seq::<Seq<char>>::empty()),
    decreases scripts.len(),
{
    if scripts.len() > 0 {
        law_disabled_calls_are_dropped(s, scripts.drop_last());
        assert(Seq::<Seq<char>>::empty() + Seq::<Seq<char>>::empty() =~= Seq::<Seq<char>>::empty());
    }
}

proof fn lemma_buffering(s: GtagView, scripts: Seq<Seq<char>>)
    requires
        s.enabled,
        !s.initialized,
    ensures
        push_all(s, scripts).1 == Seq::<Seq<char>>::empty(),
        push_all(s, scripts).0 == (GtagView { pending: s.pending + scripts, ..s }),
    decreases scripts.len(),
{
    if scripts.len() == 0 {
        assert(push_all(s, scripts).0 =~= (GtagView { pending: s.pending + scripts, ..s }));
    } else {
        lemma_buffering(s, scripts.drop_last());
        assert(s.pending + scripts.drop_last() + seq![scripts.last()] =~= s.pending + scripts);
        assert(Seq::<Seq<char>>::empty() + Seq::<Seq<char>>::empty() =~= Seq::<Seq<char>>::empty());
        assert(push_all(s, scripts).0 =~= (GtagView { pending: s.pending + scripts, ..s }));
    }
}

/// Calls made before gtag.js is bootstrapped are buffered, and flushed in
/// order right after the bootstrap snippet when the context initializes.
pub proof fn law_buffered_calls_flush_in_order(s: GtagView, scripts: Seq<Seq<char>>)
    requires
        s.enabled,
        !s.initialized,
    ensures
        push_all(s, scripts).1 == Seq::<Seq<char>>::empty(),
        init_step(push_all(s, scripts).0).1 == seq![s.bootstrap] + s.pending + scripts,
        init_step(push_all(s, scripts).0).0.pending == Seq::<Seq<char>>::empty(),
{
    lemma_buffering(s, scripts);
    assert(seq![s.bootstrap] + (s.pending + scripts) =~= seq![s.bootstrap] + s.pending + scripts);
}

/// Once gtag.js is loaded, each call made while enabled is evaluated at once.
pub proof fn law_loaded_calls_run_immediately(s: GtagView, scripts: Seq<Seq<char>>)
    requires
        s.enabled,
        s.initialized,
    ensures
        push_all(s, scripts) == (s, scripts),
    decreases scripts.len(),
{
    if scripts.len() > 0 {
        law_loaded_calls_run_immediately(s, scripts.drop_last());
        assert(scripts.drop_last() + seq![scripts.last()] =~= scripts);
    } else {
        assert(scripts =~= Seq::<Seq<char>>::empty());
    }
}

/// Re-enabling after an opt-out, once loaded, sets the kill switch and then
/// lifts it, and the context runs calls again.
pub proof fn law_opt_out_then_in(s: GtagView)
    requires
        s.initialized,
    ensures
        set_enabled_step(s, false).1 == seq![set_disabled_text(s.measurement_id, true)],
        set_enabled_step(set_enabled_step(s, false).0, true).1 == seq![set_disabled_text(s.measurement_id, false)],
        set_enabled_step(set_enabled_step(s, false).0, true).0 == (GtagView { enabled: true, ..s }),
{
}

} // verus!
