//! IPC command handling, the capture watch loop's pause switch, the
//! retention pass and hotkey registration at startup.
use vstd::prelude::*;
use crate::clipboard::{BackendCapabilities, ClipboardSnapshot, PlatformError};
use crate::config::AppSettings;
use crate::hotkeys::{binding_of, parse_binding, HotkeyBackend, HotkeyBinding, HotkeyError};
use crate::ingest::{events_of, ingest, ingested, on_record, store_calls_of, total_size, IngestEffect, IngestError};
use crate::models::{opt_view, reprs_view, AppContext, Clip, ClipRepresentation, Group, PasteMode, Rule};
use crate::search::SearchFilters;
use crate::protocol::{ClearScope as IpcClearScope, Command, Event};
use crate::retention::ClearScope as StoreClearScope;
use crate::services::{seq_seen, Backend, BackendCall, EventPublisher, Store, StoreCall};
use crate::store::StoreError;
use crate::text::copy_str;

verus! {

pub open spec fn store_scope_of(scope: IpcClearScope) -> StoreClearScope {
    match scope {
        IpcClearScope::All => StoreClearScope::All,
        IpcClearScope::ExcludingPinned => StoreClearScope::ExcludingPinned,
    }
}

pub fn to_store_scope(scope: IpcClearScope) -> (s: StoreClearScope)
    ensures
        s == store_scope_of(scope),
{
    match scope {
        IpcClearScope::All => StoreClearScope::All,
        IpcClearScope::ExcludingPinned => StoreClearScope::ExcludingPinned,
    }
}

/// Whether the process runs under a Wayland session, given the value of
/// `WAYLAND_DISPLAY`.
pub fn is_wayland_session(wayland_display: Option<&str>) -> (b: bool)
    ensures
        b == wayland_display is Some,
{
    wayland_display.is_some()
}

/// The capture loop's pause switch: while paused, capture events are not
/// forwarded to ingest.
#[derive(Debug, Default)]
pub struct WatchLoop {
    pub paused: bool,
}

impl WatchLoop {
    pub fn new() -> (w: Self)
        ensures
            !w.paused,
    {
        WatchLoop { paused: false }
    }

    pub fn set_paused(&mut self, paused: bool)
        ensures
            final(self).paused == paused,
    {
        self.paused = paused;
    }

    pub fn is_paused(&self) -> (b: bool)
        ensures
            b == self.paused,
    {
        self.paused
    }

    /// Handles one capture event: unless capture is paused, asks the backend
    /// for the focused application and ingests the snapshot. Returns what
    /// ingest returned, or `None` when the event was ignored.
    pub fn on_capture<B: Backend, S: Store, P: EventPublisher>(
        &self,
        backend: &mut B,
        store: &mut S,
        events: &mut P,
        snapshot: ClipboardSnapshot,
    ) -> (r: Option<Result<(), IngestError>>)
        requires
            snapshot.representations@.len() <= i64::MAX,
            total_size(reprs_view(snapshot.representations@)) <= u64::MAX,
        ensures
            r is None <==> self.paused,
            self.paused ==> final(backend).calls() == old(backend).calls() && final(store).calls()
                == old(store).calls() && final(events).published() == old(events).published(),
            r matches Some(x) ==> exists|source: Option<AppContext>, t: Seq<IngestEffect>|
                final(backend).calls() == old(backend).calls().push(BackendCall::FocusedApp { result: source })
                    && ingested(snapshot.representations@, source, t, x) && on_record(
                    final(store).calls(),
                    final(events).published(),
                    old(store).calls(),
                    old(events).published(),
                    t,
                ),
            exists|step: CaptureStep|
                step.paused == self.paused && step.reps == snapshot.representations@ && step.result == r && step_made(
                    step,
                    old(backend).calls(),
                    final(backend).calls(),
                    old(store).calls(),
                    final(store).calls(),
                    old(events).published(),
                    final(events).published(),
                ),
    {
        if self.paused {
            let ghost step = CaptureStep {
                paused: true,
                reps: snapshot.representations@,
                source: None,
                effects: Seq::empty(),
                result: None,
            };
            assert(step_made(step, backend.calls(), backend.calls(), store.calls(), store.calls(), events.published(), events.published()));
            return None;
        }
        let ghost reps = snapshot.representations@;
        let source = backend.focused_app();
        let r = ingest(store, events, snapshot, source);
        proof {
            let t = choose|t: Seq<IngestEffect>|
                ingested(reps, source, t, r) && on_record(
                    store.calls(),
                    events.published(),
                    old(store).calls(),
                    old(events).published(),
                    t,
                );
            let step = CaptureStep { paused: false, reps, source, effects: t, result: Some(r) };
            assert(step_made(
                step,
                old(backend).calls(),
                backend.calls(),
                old(store).calls(),
                store.calls(),
                old(events).published(),
                events.published(),
            ));
        }
        Some(r)
    }
}

/// What a press of the registered hotkey does: announces `HotkeyPressed`,
/// once.
pub fn on_hotkey_press<P: EventPublisher>(events: &mut P)
    ensures
        final(events).published() == old(events).published().push(Event::HotkeyPressed),
{
    events.publish(Event::HotkeyPressed);
}

/// One capture event as the watch loop handled it: whether capture was
/// paused, the snapshot's representations, the application asked for, the
/// steps of its ingest and what was returned.
pub struct CaptureStep {
    pub paused: bool,
    pub reps: Seq<ClipRepresentation>,
    pub source: Option<AppContext>,
    pub effects: Seq<IngestEffect>,
    pub result: Option<Result<(), IngestError>>,
}

/// The records before and after a capture event: a paused event changes
/// nothing; any other asks the backend for the focused application and
/// ingests the snapshot.
pub open spec fn step_made(
    step: CaptureStep,
    b0: Seq<BackendCall>,
    b1: Seq<BackendCall>,
    s0: Seq<StoreCall>,
    s1: Seq<StoreCall>,
    e0: Seq<Event>,
    e1: Seq<Event>,
) -> bool {
    if step.paused {
        step.result is None && b1 == b0 && s1 == s0 && e1 == e0
    } else {
        &&& step.result matches Some(x) && ingested(step.reps, step.source, step.effects, x)
        &&& b1 == b0.push(BackendCall::FocusedApp { result: step.source })
        &&& on_record(s1, e1, s0, e0, step.effects)
    }
}

/// The store calls of the events of a run that were not paused, in order.
pub open spec fn run_store_calls(steps: Seq<CaptureStep>) -> Seq<StoreCall>
    decreases steps.len(),
{
    if steps.len() == 0 {
        Seq::empty()
    } else {
        run_store_calls(steps.drop_last()) + if steps.last().paused {
            Seq::empty()
        } else {
            store_calls_of(steps.last().effects)
        }
    }
}

/// The events published for the capture events of a run that were not
/// paused, in order.
pub open spec fn run_events(steps: Seq<CaptureStep>) -> Seq<Event>
    decreases steps.len(),
{
    if steps.len() == 0 {
        Seq::empty()
    } else {
        run_events(steps.drop_last()) + if steps.last().paused {
            Seq::empty()
        } else {
            events_of(steps.last().effects)
        }
    }
}

/// The focused-application lookups of a run: one per event not paused.
pub open spec fn run_lookups(steps: Seq<CaptureStep>) -> Seq<BackendCall>
    decreases steps.len(),
{
    if steps.len() == 0 {
        Seq::empty()
    } else {
        run_lookups(steps.drop_last()) + if steps.last().paused {
            Seq::empty()
        } else {
            seq![BackendCall::FocusedApp { result: steps.last().source }]
        }
    }
}

/// Over a run of capture events, the store, backend and publisher see
/// exactly the ingests of the events that came while capture was not
/// paused, in order: an event that came while paused is never ingested,
/// and every later event that was not paused is ingested whatever an
/// earlier ingest returned.
pub proof fn lemma_paused_captures_are_never_ingested(
    steps: Seq<CaptureStep>,
    backends: Seq<Seq<BackendCall>>,
    stores: Seq<Seq<StoreCall>>,
    events: Seq<Seq<Event>>,
)
    requires
        backends.len() == steps.len() + 1,
        stores.len() == steps.len() + 1,
        events.len() == steps.len() + 1,
        forall|i: int|
            0 <= i < steps.len() ==> step_made(
                #[trigger] steps[i],
                backends[i],
                backends[i + 1],
                stores[i],
                stores[i + 1],
                events[i],
                events[i + 1],
            ),
    ensures
        stores.last() == stores[0] + run_store_calls(steps),
        events.last() == events[0] + run_events(steps),
        backends.last() == backends[0] + run_lookups(steps),
    decreases steps.len(),
{
    let n = steps.len();
    if n == 0 {
        assert(stores[0] + Seq::<StoreCall>::empty() =~= stores[0]);
        assert(events[0] + Seq::<Event>::empty() =~= events[0]);
        assert(backends[0] + Seq::<BackendCall>::empty() =~= backends[0]);
    } else {
        let (ps, pb, pst, pe) = (steps.drop_last(), backends.drop_last(), stores.drop_last(), events.drop_last());
        assert forall|i: int| 0 <= i < ps.len() implies step_made(
            #[trigger] ps[i],
            pb[i],
            pb[i + 1],
            pst[i],
            pst[i + 1],
            pe[i],
            pe[i + 1],
        ) by {
            assert(step_made(steps[i], backends[i], backends[i + 1], stores[i], stores[i + 1], events[i], events[i + 1]));
        }
        lemma_paused_captures_are_never_ingested(ps, pb, pst, pe);
        assert(step_made(steps[n - 1], backends[n - 1], backends[n as int], stores[n - 1], stores[n as int], events[n - 1], events[n as int]));
        let last = steps[n - 1];
        if last.paused {
            assert(stores.last() =~= stores[0] + run_store_calls(steps));
            assert(events.last() =~= events[0] + run_events(steps));
            assert(backends.last() =~= backends[0] + run_lookups(steps));
        } else {
            assert(stores.last() =~= stores[0] + run_store_calls(steps));
            assert(events.last() =~= events[0] + run_events(steps));
            assert(backends.last() =~= backends[0] + run_lookups(steps));
        }
    }
}

/// What a command hands back on success, before it is put on the wire.
#[derive(Debug, Clone, PartialEq)]
pub enum CommandOutput {
    Clips(Vec<Clip>),
    Clip(Option<Clip>),
    Groups(Vec<Group>),
    Rules(Vec<Rule>),
    Settings(AppSettings),
    Diagnostics { backend: String, capabilities: BackendCapabilities },
    /// `{"ok": true}`.
    Ack,
}

pub open spec fn not_found_text() -> Seq<char> {
    "clip not found"@
}

/// The events announcing a bulk clear: one `ClipDeleted` per removed clip,
/// in the order the store reported them.
pub open spec fn deletion_events(removed: Seq<String>) -> Seq<Event> {
    removed.map_values(|id: String| Event::ClipDeleted { clip_id: id })
}

/// Builds the `ClipDeleted` announcements for the removed clips.
pub fn deletions_announced(removed: Vec<String>) -> (evs: Vec<Event>)
    ensures
        evs@ == deletion_events(removed@),
{
    let mut evs: Vec<Event> = Vec::new();
    let mut i: usize = 0;
    while i < removed.len()
        invariant
            i <= removed.len(),
            evs@ == deletion_events(removed@.subrange(0, i as int)),
        decreases removed.len() - i,
    {
        let ghost before = evs@;
        evs.push(Event::ClipDeleted { clip_id: removed[i].clone() });
        assert(removed@.subrange(0, i + 1) =~= removed@.subrange(0, i as int).push(removed@[i as int]));
        assert(evs@ =~= deletion_events(removed@.subrange(0, i + 1)));
        i = i + 1;
    }
    assert(removed@.subrange(0, removed@.len() as int) =~= removed@);
    evs
}

/// One call the command handler makes on its store, backend or event
/// publisher, with what the call handed back.
pub enum Effect {
    Search { query: Seq<char>, filters: SearchFilters, result: Result<Seq<Clip>, StoreError> },
    LoadClip { id: Seq<char>, result: Result<Option<Clip>, StoreError> },
    ListGroups { result: Result<Seq<Group>, StoreError> },
    ListRules { result: Result<Seq<Rule>, StoreError> },
    LoadSettings { result: Result<AppSettings, StoreError> },
    ReadCapabilities { capabilities: BackendCapabilities },
    Paste { representations: Seq<ClipRepresentation>, mode: PasteMode, result: Result<(), PlatformError> },
    CopyToClipboard { representations: Seq<ClipRepresentation>, result: Result<(), PlatformError> },
    TouchLastUsed { id: Seq<char>, result: Result<(), StoreError> },
    SetPinned { id: Seq<char>, pinned: bool, result: Result<(), StoreError> },
    SetGroup { id: Seq<char>, group_id: Option<Seq<char>>, result: Result<(), StoreError> },
    DeleteClip { id: Seq<char>, result: Result<(), StoreError> },
    ClearHistory { scope: StoreClearScope, result: Result<Seq<String>, StoreError> },
    SaveRule { rule: Rule, result: Result<(), StoreError> },
    DeleteRule { id: Seq<char>, result: Result<(), StoreError> },
    StoreSettings { settings: AppSettings, result: Result<(), StoreError> },
    Publish(Event),
}

/// Whether an effect changes stored state, the clipboard, or tells clients
/// something.
pub open spec fn is_mutation(e: Effect) -> bool {
    match e {
        Effect::Search { .. } | Effect::LoadClip { .. } | Effect::ListGroups { .. } | Effect::ListRules { .. }
        | Effect::LoadSettings { .. } | Effect::ReadCapabilities { .. } => false,
        _ => true,
    }
}

/// The answer to a step that failed with a store error: that error's text.
pub open spec fn store_failed(e: StoreError, r: Result<CommandOutput, String>) -> bool {
    r matches Err(m) && m@ == e.text()
}

/// The answer to a step that failed with a backend error: that error's
/// text.
pub open spec fn backend_failed(e: PlatformError, r: Result<CommandOutput, String>) -> bool {
    r matches Err(m) && m@ == e.text()
}

/// `{"ok": true}` when the store step succeeded, its error otherwise.
pub open spec fn store_acked(step: Result<(), StoreError>, r: Result<CommandOutput, String>) -> bool {
    match step {
        Ok(()) => r == Ok::<CommandOutput, String>(CommandOutput::Ack),
        Err(e) => store_failed(e, r),
    }
}

/// `{"ok": true}` when the backend step succeeded, its error otherwise.
pub open spec fn backend_acked(step: Result<(), PlatformError>, r: Result<CommandOutput, String>) -> bool {
    match step {
        Ok(()) => r == Ok::<CommandOutput, String>(CommandOutput::Ack),
        Err(e) => backend_failed(e, r),
    }
}

pub open spec fn published(events: Seq<Event>) -> Seq<Effect> {
    events.map_values(|e: Event| Effect::Publish(e))
}

/// A change announced with `announcement` once it succeeded: the trace is
/// the store step, followed by the announcement when the step succeeded.
pub open spec fn announced_on_success(t: Seq<Effect>, step: Result<(), StoreError>, announcement: Event) -> bool {
    t == if step is Ok {
        seq![t[0], Effect::Publish(announcement)]
    } else {
        seq![t[0]]
    }
}

/// The calls a command makes, in order, and its answer: the handler's
/// protocol. Reads answer with what the store handed back; each store or
/// backend step that fails ends the command with that step's error text;
/// a clip that is missing ends it with "clip not found"; events are
/// announced only after the change they announce succeeded.
pub open spec fn handled(command: Command, t: Seq<Effect>, r: Result<CommandOutput, String>) -> bool {
    match command {
        Command::SearchClips { query, filters, .. } => t.len() == 1 && match t[0] {
            Effect::Search { query: q, filters: f, result } => q == query@ && f == filters && match result {
                Ok(clips) => r matches Ok(CommandOutput::Clips(v)) && v@ == clips,
                Err(e) => store_failed(e, r),
            },
            _ => false,
        },
        Command::GetClip { id } => t.len() == 1 && match t[0] {
            Effect::LoadClip { id: i, result } => i == id@ && match result {
                Ok(c) => r == Ok::<CommandOutput, String>(CommandOutput::Clip(c)),
                Err(e) => store_failed(e, r),
            },
            _ => false,
        },
        Command::ListGroups => t.len() == 1 && match t[0] {
            Effect::ListGroups { result } => match result {
                Ok(groups) => r matches Ok(CommandOutput::Groups(v)) && v@ == groups,
                Err(e) => store_failed(e, r),
            },
            _ => false,
        },
        Command::ListRules => t.len() == 1 && match t[0] {
            Effect::ListRules { result } => match result {
                Ok(rules) => r matches Ok(CommandOutput::Rules(v)) && v@ == rules,
                Err(e) => store_failed(e, r),
            },
            _ => false,
        },
        Command::GetSettings => t.len() == 1 && match t[0] {
            Effect::LoadSettings { result } => match result {
                Ok(settings) => r == Ok::<CommandOutput, String>(CommandOutput::Settings(settings)),
                Err(e) => store_failed(e, r),
            },
            _ => false,
        },
        Command::GetDiagnostics => t.len() == 1 && match t[0] {
            Effect::ReadCapabilities { capabilities } => r matches Ok(CommandOutput::Diagnostics { capabilities: c, .. })
                && c == capabilities,
            _ => false,
        },
        Command::PasteClip { id, mode } => t.len() >= 1 && match t[0] {
            Effect::LoadClip { id: i, result } => i == id@ && match result {
                Err(e) => t.len() == 1 && store_failed(e, r),
                Ok(None) => t.len() == 1 && (r matches Err(m) && m@ == not_found_text()),
                Ok(Some(clip)) => t.len() >= 2 && match t[1] {
                    Effect::Paste { representations, mode: md, result: pasted } => representations
                        == clip.representations@ && md == mode && match pasted {
                        Err(e) => t.len() == 2 && backend_failed(e, r),
                        Ok(()) => t.len() == 3 && match t[2] {
                            Effect::TouchLastUsed { id: j, result: touched } => j == id@ && store_acked(touched, r),
                            _ => false,
                        },
                    },
                    _ => false,
                },
            },
            _ => false,
        },
        Command::CopyClip { id } => t.len() >= 1 && match t[0] {
            Effect::LoadClip { id: i, result } => i == id@ && match result {
                Err(e) => t.len() == 1 && store_failed(e, r),
                Ok(None) => t.len() == 1 && (r matches Err(m) && m@ == not_found_text()),
                Ok(Some(clip)) => t.len() == 2 && match t[1] {
                    Effect::CopyToClipboard { representations, result: copied } => representations
                        == clip.representations@ && backend_acked(copied, r),
                    _ => false,
                },
            },
            _ => false,
        },
        Command::PinClip { id, pinned } => t.len() >= 1 && match t[0] {
            Effect::SetPinned { id: i, pinned: p, result } => i == id@ && p == pinned && store_acked(result, r)
                && announced_on_success(t, result, Event::ClipUpdated { clip_id: id }),
            _ => false,
        },
        Command::AssignGroup { id, group_id } => t.len() >= 1 && match t[0] {
            Effect::SetGroup { id: i, group_id: g, result } => i == id@ && g == opt_view(group_id) && store_acked(
                result,
                r,
            ) && announced_on_success(t, result, Event::ClipUpdated { clip_id: id }),
            _ => false,
        },
        Command::DeleteClip { id } => t.len() >= 1 && match t[0] {
            Effect::DeleteClip { id: i, result } => i == id@ && store_acked(result, r) && announced_on_success(
                t,
                result,
                Event::ClipDeleted { clip_id: id },
            ),
            _ => false,
        },
        Command::ClearHistory { scope } => t.len() >= 1 && match t[0] {
            Effect::ClearHistory { scope: s, result } => s == store_scope_of(scope) && match result {
                Err(e) => t.len() == 1 && store_failed(e, r),
                Ok(ids) => t == seq![t[0]] + published(deletion_events(ids)) && r == Ok::<CommandOutput, String>(
                    CommandOutput::Ack,
                ),
            },
            _ => false,
        },
        Command::SaveRule { rule } => t.len() == 1 && match t[0] {
            Effect::SaveRule { rule: x, result } => x == rule && store_acked(result, r),
            _ => false,
        },
        Command::DeleteRule { id } => t.len() == 1 && match t[0] {
            Effect::DeleteRule { id: i, result } => i == id@ && store_acked(result, r),
            _ => false,
        },
        Command::UpdateSettings { settings } => if binding_of(settings.hotkey_binding@) is None {
            t.len() == 0 && (r matches Err(m) && m@ == HotkeyError::InvalidBinding(settings.hotkey_binding).text())
        } else {
            t.len() == 1 && match t[0] {
                Effect::StoreSettings { settings: x, result } => x == settings && store_acked(result, r),
                _ => false,
            }
        },
        Command::PauseCapture { paused } => t == seq![Effect::Publish(Event::CapturePaused { paused })] && r
            == Ok::<CommandOutput, String>(CommandOutput::Ack),
        Command::TriggerHotkey => t == seq![Effect::Publish(Event::HotkeyPressed)] && r == Ok::<
            CommandOutput,
            String,
        >(CommandOutput::Ack),
    }
}

/// The store call an effect is.
pub open spec fn effect_store(e: Effect) -> Seq<StoreCall> {
    match e {
        Effect::Search { query, filters, result } => seq![StoreCall::Search { query, filters, result }],
        Effect::LoadClip { id, result } => seq![StoreCall::GetClip { id, result }],
        Effect::ListGroups { result } => seq![StoreCall::ListGroups { result }],
        Effect::ListRules { result } => seq![StoreCall::ListRules { result }],
        Effect::LoadSettings { result } => seq![StoreCall::GetSettings { result }],
        Effect::TouchLastUsed { id, result } => seq![StoreCall::TouchLastUsed { id, result }],
        Effect::SetPinned { id, pinned, result } => seq![StoreCall::SetPinned { id, pinned, result }],
        Effect::SetGroup { id, group_id, result } => seq![StoreCall::SetGroup { id, group_id, result }],
        Effect::DeleteClip { id, result } => seq![StoreCall::DeleteClip { id, result }],
        Effect::ClearHistory { scope, result } => seq![StoreCall::ClearHistory { scope, result }],
        Effect::SaveRule { rule, result } => seq![StoreCall::SaveRule { rule, result }],
        Effect::DeleteRule { id, result } => seq![StoreCall::DeleteRule { id, result }],
        Effect::StoreSettings { settings, result } => seq![StoreCall::UpdateSettings { settings, result }],
        _ => Seq::empty(),
    }
}

/// The backend call an effect is.
pub open spec fn effect_backend(e: Effect) -> Seq<BackendCall> {
    match e {
        Effect::ReadCapabilities { capabilities } => seq![BackendCall::Capabilities { result: capabilities }],
        Effect::Paste { representations, mode, result } => seq![
            BackendCall::SimulatePaste { representations, mode, result },
        ],
        Effect::CopyToClipboard { representations, result } => seq![
            BackendCall::CopyToClipboard { representations, result },
        ],
        _ => Seq::empty(),
    }
}

/// The event an effect publishes.
pub open spec fn effect_event(e: Effect) -> Seq<Event> {
    match e {
        Effect::Publish(ev) => seq![ev],
        _ => Seq::empty(),
    }
}

/// The store calls among `t`, in order.
pub open spec fn store_calls_in(t: Seq<Effect>) -> Seq<StoreCall>
    decreases t.len(),
{
    if t.len() == 0 {
        Seq::empty()
    } else {
        store_calls_in(t.drop_last()) + effect_store(t.last())
    }
}

/// The backend calls among `t`, in order.
pub open spec fn backend_calls_in(t: Seq<Effect>) -> Seq<BackendCall>
    decreases t.len(),
{
    if t.len() == 0 {
        Seq::empty()
    } else {
        backend_calls_in(t.drop_last()) + effect_backend(t.last())
    }
}

/// The events published among `t`, in order.
pub open spec fn events_in(t: Seq<Effect>) -> Seq<Event>
    decreases t.len(),
{
    if t.len() == 0 {
        Seq::empty()
    } else {
        events_in(t.drop_last()) + effect_event(t.last())
    }
}

proof fn lemma_effect_step(t: Seq<Effect>, e: Effect)
    ensures
        store_calls_in(t.push(e)) == store_calls_in(t) + effect_store(e),
        backend_calls_in(t.push(e)) == backend_calls_in(t) + effect_backend(e),
        events_in(t.push(e)) == events_in(t) + effect_event(e),
{
    assert(t.push(e).drop_last() =~= t);
}

proof fn lemma_no_effects()
    ensures
        store_calls_in(Seq::empty()) == Seq::<StoreCall>::empty(),
        backend_calls_in(Seq::empty()) == Seq::<BackendCall>::empty(),
        events_in(Seq::empty()) == Seq::<Event>::empty(),
{
}

/// The handler `after` is `before` once the effects `t` were carried out:
/// its store, backend and publisher have seen exactly the calls among `t`,
/// in order, and nothing else about it changed.
pub open spec fn recorded<S: Store, B: Backend, P: EventPublisher>(
    after: CommandHandler<S, B, P>,
    before: CommandHandler<S, B, P>,
    t: Seq<Effect>,
) -> bool {
    &&& after.store.calls() == before.store.calls() + store_calls_in(t)
    &&& after.backend.calls() == before.backend.calls() + backend_calls_in(t)
    &&& after.events.published() == before.events.published() + events_in(t)
    &&& after.watch_loop == before.watch_loop
    &&& after.backend_name == before.backend_name
    &&& after.trace == before.trace
}

/// The answer to a command, with the calls it made.
pub type Handled = (Result<CommandOutput, String>, Ghost<Seq<Effect>>);

/// Translates each IPC command into store and backend calls, the response
/// payload, and the events it announces. `trace` is the record of every
/// call made so far.
pub struct CommandHandler<S: Store, B: Backend, P: EventPublisher> {
    pub store: S,
    pub backend: B,
    pub events: P,
    pub watch_loop: WatchLoop,
    pub backend_name: String,
    pub trace: Ghost<Seq<Effect>>,
}

impl<S: Store, B: Backend, P: EventPublisher> CommandHandler<S, B, P> {
    pub fn new(store: S, backend: B, events: P, watch_loop: WatchLoop, backend_name: &str) -> (h: Self)
        ensures
            h.store == store,
            h.backend == backend,
            h.events == events,
            h.watch_loop == watch_loop,
            h.backend_name@ == backend_name@,
            h.trace@ == Seq::<Effect>::empty(),
    {
        CommandHandler {
            store,
            backend,
            events,
            watch_loop,
            backend_name: copy_str(backend_name),
            trace: Ghost(Seq::empty()),
        }
    }

    fn answer(r: Result<CommandOutput, String>, t: Ghost<Seq<Effect>>) -> (h: Handled)
        ensures
            h.0 == r,
            h.1 == t,
    {
        (r, t)
    }

    /// The answer to a store step with no payload, and that step's effect.
    fn acked(step: Result<(), StoreError>, effect: Ghost<Effect>) -> (h: Handled)
        ensures
            store_acked(step, h.0),
            h.1@ == seq![effect@],
    {
        match step {
            Ok(()) => Self::answer(Ok(CommandOutput::Ack), Ghost(Seq::empty().push(effect@))),
            Err(e) => Self::answer(Err(e.message()), Ghost(Seq::empty().push(effect@))),
        }
    }

    fn search(&mut self, query: String, filters: SearchFilters) -> (h: Handled)
        ensures
            handled(Command::SearchClips { query, filters, limit: 0, offset: 0 }, h.1@, h.0),
            recorded(*final(self), *old(self), h.1@),
    {
        let ghost before = *self;
        let found = self.store.search(query.as_str(), &filters);
        let ghost t = seq![Effect::Search { query: query@, filters, result: seq_seen(found) }];
        proof {
            lemma_one(t[0]);
            assert(self.store.calls() =~= before.store.calls() + store_calls_in(t));
            assert(self.backend.calls() =~= before.backend.calls() + backend_calls_in(t));
            assert(self.events.published() =~= before.events.published() + events_in(t));
        }
        match found {
            Ok(clips) => Self::answer(Ok(CommandOutput::Clips(clips)), Ghost(t)),
            Err(e) => Self::answer(Err(e.message()), Ghost(t)),
        }
    }

    fn get_clip(&mut self, id: String) -> (h: Handled)
        ensures
            handled(Command::GetClip { id }, h.1@, h.0),
            recorded(*final(self), *old(self), h.1@),
    {
        let ghost before = *self;
        let loaded = self.store.get_clip(id.as_str());
        let ghost t = seq![Effect::LoadClip { id: id@, result: loaded }];
        proof {
            lemma_one(t[0]);
            assert(self.store.calls() =~= before.store.calls() + store_calls_in(t));
            assert(self.backend.calls() =~= before.backend.calls() + backend_calls_in(t));
            assert(self.events.published() =~= before.events.published() + events_in(t));
        }
        match loaded {
            Ok(clip) => Self::answer(Ok(CommandOutput::Clip(clip)), Ghost(t)),
            Err(e) => Self::answer(Err(e.message()), Ghost(t)),
        }
    }

    fn list_groups(&mut self) -> (h: Handled)
        ensures
            handled(Command::ListGroups, h.1@, h.0),
            recorded(*final(self), *old(self), h.1@),
    {
        let ghost before = *self;
        let listed = self.store.list_groups();
        let ghost t = seq![Effect::ListGroups { result: seq_seen(listed) }];
        proof {
            lemma_one(t[0]);
            assert(self.store.calls() =~= before.store.calls() + store_calls_in(t));
            assert(self.backend.calls() =~= before.backend.calls() + backend_calls_in(t));
            assert(self.events.published() =~= before.events.published() + events_in(t));
        }
        match listed {
            Ok(groups) => Self::answer(Ok(CommandOutput::Groups(groups)), Ghost(t)),
            Err(e) => Self::answer(Err(e.message()), Ghost(t)),
        }
    }

    fn list_rules(&mut self) -> (h: Handled)
        ensures
            handled(Command::ListRules, h.1@, h.0),
            recorded(*final(self), *old(self), h.1@),
    {
        let ghost before = *self;
        let listed = self.store.list_rules();
        let ghost t = seq![Effect::ListRules { result: seq_seen(listed) }];
        proof {
            lemma_one(t[0]);
            assert(self.store.calls() =~= before.store.calls() + store_calls_in(t));
            assert(self.backend.calls() =~= before.backend.calls() + backend_calls_in(t));
            assert(self.events.published() =~= before.events.published() + events_in(t));
        }
        match listed {
            Ok(rules) => Self::answer(Ok(CommandOutput::Rules(rules)), Ghost(t)),
            Err(e) => Self::answer(Err(e.message()), Ghost(t)),
        }
    }

    fn get_settings(&mut self) -> (h: Handled)
        ensures
            handled(Command::GetSettings, h.1@, h.0),
            recorded(*final(self), *old(self), h.1@),
    {
        let ghost before = *self;
        let loaded = self.store.get_settings();
        let ghost t = seq![Effect::LoadSettings { result: loaded }];
        proof {
            lemma_one(t[0]);
            assert(self.store.calls() =~= before.store.calls() + store_calls_in(t));
            assert(self.backend.calls() =~= before.backend.calls() + backend_calls_in(t));
            assert(self.events.published() =~= before.events.published() + events_in(t));
        }
        match loaded {
            Ok(settings) => Self::answer(Ok(CommandOutput::Settings(settings)), Ghost(t)),
            Err(e) => Self::answer(Err(e.message()), Ghost(t)),
        }
    }

    fn diagnostics(&mut self) -> (h: Handled)
        ensures
            handled(Command::GetDiagnostics, h.1@, h.0),
            h.0 matches Ok(CommandOutput::Diagnostics { backend, .. }) && backend@ == old(self).backend_name@,
            recorded(*final(self), *old(self), h.1@),
    {
        let ghost before = *self;
        let capabilities = self.backend.capabilities();
        let ghost t = seq![Effect::ReadCapabilities { capabilities }];
        proof {
            lemma_one(t[0]);
            assert(self.store.calls() =~= before.store.calls() + store_calls_in(t));
            assert(self.backend.calls() =~= before.backend.calls() + backend_calls_in(t));
            assert(self.events.published() =~= before.events.published() + events_in(t));
        }
        Self::answer(Ok(CommandOutput::Diagnostics { backend: self.backend_name.clone(), capabilities }), Ghost(t))
    }

    fn paste(&mut self, id: String, mode: PasteMode) -> (h: Handled)
        ensures
            handled(Command::PasteClip { id, mode }, h.1@, h.0),
            recorded(*final(self), *old(self), h.1@),
    {
        let ghost before = *self;
        let loaded = self.store.get_clip(id.as_str());
        let ghost load = Effect::LoadClip { id: id@, result: loaded };
        let clip = match loaded {
            Ok(Some(c)) => c,
            Ok(None) => {
                let ghost t = seq![load];
        proof {
            lemma_one(load);
            assert(self.store.calls() =~= before.store.calls() + store_calls_in(t));
            assert(self.backend.calls() =~= before.backend.calls() + backend_calls_in(t));
            assert(self.events.published() =~= before.events.published() + events_in(t));
        }
                return Self::answer(Err(copy_str("clip not found")), Ghost(t));
            },
            Err(e) => {
                let ghost t = seq![load];
        proof {
            lemma_one(load);
            assert(self.store.calls() =~= before.store.calls() + store_calls_in(t));
            assert(self.backend.calls() =~= before.backend.calls() + backend_calls_in(t));
            assert(self.events.published() =~= before.events.published() + events_in(t));
        }
                return Self::answer(Err(e.message()), Ghost(t));
            },
        };
        let pasted = self.backend.simulate_paste(clip.representations.as_slice(), mode);
        let ghost paste = Effect::Paste { representations: clip.representations@, mode, result: pasted };
        match pasted {
            Ok(()) => {},
            Err(e) => {
                let ghost t = seq![load, paste];
        proof {
            lemma_two(load, paste);
            assert(self.store.calls() =~= before.store.calls() + store_calls_in(t));
            assert(self.backend.calls() =~= before.backend.calls() + backend_calls_in(t));
            assert(self.events.published() =~= before.events.published() + events_in(t));
        }
                return Self::answer(Err(e.message()), Ghost(t));
            },
        }
        let touched = self.store.touch_last_used(id.as_str());
        let ghost t = seq![load, paste, Effect::TouchLastUsed { id: id@, result: touched }];
        proof {
            lemma_three(load, paste, t[2]);
            assert(self.store.calls() =~= before.store.calls() + store_calls_in(t));
            assert(self.backend.calls() =~= before.backend.calls() + backend_calls_in(t));
            assert(self.events.published() =~= before.events.published() + events_in(t));
        }
        match touched {
            Ok(()) => Self::answer(Ok(CommandOutput::Ack), Ghost(t)),
            Err(e) => Self::answer(Err(e.message()), Ghost(t)),
        }
    }

    fn copy(&mut self, id: String) -> (h: Handled)
        ensures
            handled(Command::CopyClip { id }, h.1@, h.0),
            recorded(*final(self), *old(self), h.1@),
    {
        let ghost before = *self;
        let loaded = self.store.get_clip(id.as_str());
        let ghost load = Effect::LoadClip { id: id@, result: loaded };
        let clip = match loaded {
            Ok(Some(c)) => c,
            Ok(None) => {
                let ghost t = seq![load];
        proof {
            lemma_one(load);
            assert(self.store.calls() =~= before.store.calls() + store_calls_in(t));
            assert(self.backend.calls() =~= before.backend.calls() + backend_calls_in(t));
            assert(self.events.published() =~= before.events.published() + events_in(t));
        }
                return Self::answer(Err(copy_str("clip not found")), Ghost(t));
            },
            Err(e) => {
                let ghost t = seq![load];
        proof {
            lemma_one(load);
            assert(self.store.calls() =~= before.store.calls() + store_calls_in(t));
            assert(self.backend.calls() =~= before.backend.calls() + backend_calls_in(t));
            assert(self.events.published() =~= before.events.published() + events_in(t));
        }
                return Self::answer(Err(e.message()), Ghost(t));
            },
        };
        let copied = self.backend.copy_to_clipboard(clip.representations.as_slice());
        let ghost t = seq![load, Effect::CopyToClipboard { representations: clip.representations@, result: copied }];
        proof {
            lemma_two(load, t[1]);
            assert(self.store.calls() =~= before.store.calls() + store_calls_in(t));
            assert(self.backend.calls() =~= before.backend.calls() + backend_calls_in(t));
            assert(self.events.published() =~= before.events.published() + events_in(t));
        }
        match copied {
            Ok(()) => Self::answer(Ok(CommandOutput::Ack), Ghost(t)),
            Err(e) => Self::answer(Err(e.message()), Ghost(t)),
        }
    }

    fn pin(&mut self, id: String, pinned: bool) -> (h: Handled)
        ensures
            handled(Command::PinClip { id, pinned }, h.1@, h.0),
            recorded(*final(self), *old(self), h.1@),
    {
        let ghost before = *self;
        let done = self.store.set_pinned(id.as_str(), pinned);
        let ghost step = Effect::SetPinned { id: id@, pinned, result: done };
        match done {
            Ok(()) => {
                let ev = Event::ClipUpdated { clip_id: id };
                self.events.publish(ev);
                let ghost t = seq![step, Effect::Publish(ev)];
        proof {
            lemma_two(step, t[1]);
            assert(self.store.calls() =~= before.store.calls() + store_calls_in(t));
            assert(self.backend.calls() =~= before.backend.calls() + backend_calls_in(t));
            assert(self.events.published() =~= before.events.published() + events_in(t));
        }
                Self::answer(Ok(CommandOutput::Ack), Ghost(t))
            },
            Err(e) => {
                let ghost t = seq![step];
        proof {
            lemma_one(step);
            assert(self.store.calls() =~= before.store.calls() + store_calls_in(t));
            assert(self.backend.calls() =~= before.backend.calls() + backend_calls_in(t));
            assert(self.events.published() =~= before.events.published() + events_in(t));
        }
                Self::answer(Err(e.message()), Ghost(t))
            },
        }
    }

    fn assign_group(&mut self, id: String, group_id: Option<String>) -> (h: Handled)
        ensures
            handled(Command::AssignGroup { id, group_id }, h.1@, h.0),
            recorded(*final(self), *old(self), h.1@),
    {
        let ghost before = *self;
        let target: Option<&str> = match &group_id {
            Some(g) => Some(g.as_str()),
            None => None,
        };
        let done = self.store.set_group(id.as_str(), target);
        let ghost step = Effect::SetGroup { id: id@, group_id: opt_view(group_id), result: done };
        match done {
            Ok(()) => {
                let ev = Event::ClipUpdated { clip_id: id };
                self.events.publish(ev);
                let ghost t = seq![step, Effect::Publish(ev)];
        proof {
            lemma_two(step, t[1]);
            assert(self.store.calls() =~= before.store.calls() + store_calls_in(t));
            assert(self.backend.calls() =~= before.backend.calls() + backend_calls_in(t));
            assert(self.events.published() =~= before.events.published() + events_in(t));
        }
                Self::answer(Ok(CommandOutput::Ack), Ghost(t))
            },
            Err(e) => {
                let ghost t = seq![step];
        proof {
            lemma_one(step);
            assert(self.store.calls() =~= before.store.calls() + store_calls_in(t));
            assert(self.backend.calls() =~= before.backend.calls() + backend_calls_in(t));
            assert(self.events.published() =~= before.events.published() + events_in(t));
        }
                Self::answer(Err(e.message()), Ghost(t))
            },
        }
    }

    fn delete(&mut self, id: String) -> (h: Handled)
        ensures
            handled(Command::DeleteClip { id }, h.1@, h.0),
            recorded(*final(self), *old(self), h.1@),
    {
        let ghost before = *self;
        let done = self.store.delete_clip(id.as_str());
        let ghost step = Effect::DeleteClip { id: id@, result: done };
        match done {
            Ok(()) => {
                let ev = Event::ClipDeleted { clip_id: id };
                self.events.publish(ev);
                let ghost t = seq![step, Effect::Publish(ev)];
        proof {
            lemma_two(step, t[1]);
            assert(self.store.calls() =~= before.store.calls() + store_calls_in(t));
            assert(self.backend.calls() =~= before.backend.calls() + backend_calls_in(t));
            assert(self.events.published() =~= before.events.published() + events_in(t));
        }
                Self::answer(Ok(CommandOutput::Ack), Ghost(t))
            },
            Err(e) => {
                let ghost t = seq![step];
        proof {
            lemma_one(step);
            assert(self.store.calls() =~= before.store.calls() + store_calls_in(t));
            assert(self.backend.calls() =~= before.backend.calls() + backend_calls_in(t));
            assert(self.events.published() =~= before.events.published() + events_in(t));
        }
                Self::answer(Err(e.message()), Ghost(t))
            },
        }
    }

    fn clear(&mut self, scope: IpcClearScope) -> (h: Handled)
        ensures
            handled(Command::ClearHistory { scope }, h.1@, h.0),
            recorded(*final(self), *old(self), h.1@),
    {
        let ghost before = *self;
        let store_scope = to_store_scope(scope);
        let cleared = self.store.clear_history(store_scope);
        let ghost first = Effect::ClearHistory { scope: store_scope, result: seq_seen(cleared) };
        let removed = match cleared {
            Ok(ids) => ids,
            Err(e) => {
                let ghost t = seq![first];
        proof {
            lemma_one(first);
            assert(self.store.calls() =~= before.store.calls() + store_calls_in(t));
            assert(self.backend.calls() =~= before.backend.calls() + backend_calls_in(t));
            assert(self.events.published() =~= before.events.published() + events_in(t));
        }
                return Self::answer(Err(e.message()), Ghost(t));
            },
        };
        let ghost mut t = seq![first];
        proof {
            lemma_one(first);
            assert(self.store.calls() =~= before.store.calls() + store_calls_in(t));
            assert(self.backend.calls() =~= before.backend.calls() + backend_calls_in(t));
            assert(self.events.published() =~= before.events.published() + events_in(t));
        }
        let mut i: usize = 0;
        while i < removed.len()
            invariant
                i <= removed.len(),
                t == seq![first] + published(deletion_events(removed@.subrange(0, i as int))),
                self.store.calls() == before.store.calls() + store_calls_in(t),
                self.backend.calls() == before.backend.calls() + backend_calls_in(t),
                self.events.published() == before.events.published() + events_in(t),
                self.watch_loop == before.watch_loop,
                self.backend_name == before.backend_name,
                self.trace == before.trace,
            decreases removed.len() - i,
        {
            let announcement = Event::ClipDeleted { clip_id: removed[i].clone() };
            self.events.publish(announcement);
            proof {
                assert(removed@.subrange(0, i + 1) =~= removed@.subrange(0, i as int).push(removed@[i as int]));
                lemma_effect_step(t, Effect::Publish(announcement));
                t = t.push(Effect::Publish(announcement));
                assert(t =~= seq![first] + published(deletion_events(removed@.subrange(0, i + 1))));
                assert(self.store.calls() =~= before.store.calls() + store_calls_in(t));
                assert(self.backend.calls() =~= before.backend.calls() + backend_calls_in(t));
                assert(self.events.published() =~= before.events.published() + events_in(t));
            }
            i = i + 1;
        }
        assert(removed@.subrange(0, removed@.len() as int) =~= removed@);
        Self::answer(Ok(CommandOutput::Ack), Ghost(t))
    }

    fn save_rule(&mut self, rule: Rule) -> (h: Handled)
        ensures
            handled(Command::SaveRule { rule }, h.1@, h.0),
            recorded(*final(self), *old(self), h.1@),
    {
        let ghost before = *self;
        let done = self.store.save_rule(&rule);
        let ghost t = seq![Effect::SaveRule { rule, result: done }];
        proof {
            lemma_one(t[0]);
            assert(self.store.calls() =~= before.store.calls() + store_calls_in(t));
            assert(self.backend.calls() =~= before.backend.calls() + backend_calls_in(t));
            assert(self.events.published() =~= before.events.published() + events_in(t));
        }
        Self::acked(done, Ghost(t[0]))
    }

    fn delete_rule(&mut self, id: String) -> (h: Handled)
        ensures
            handled(Command::DeleteRule { id }, h.1@, h.0),
            recorded(*final(self), *old(self), h.1@),
    {
        let ghost before = *self;
        let done = self.store.delete_rule(id.as_str());
        let ghost t = seq![Effect::DeleteRule { id: id@, result: done }];
        proof {
            lemma_one(t[0]);
            assert(self.store.calls() =~= before.store.calls() + store_calls_in(t));
            assert(self.backend.calls() =~= before.backend.calls() + backend_calls_in(t));
            assert(self.events.published() =~= before.events.published() + events_in(t));
        }
        Self::acked(done, Ghost(t[0]))
    }

    fn update_settings(&mut self, settings: AppSettings) -> (h: Handled)
        ensures
            handled(Command::UpdateSettings { settings }, h.1@, h.0),
            recorded(*final(self), *old(self), h.1@),
    {
        let ghost before = *self;
        match parse_binding(settings.hotkey_binding.as_str()) {
            Ok(_) => {},
            Err(e) => {
                let ghost t = Seq::<Effect>::empty();
        proof {
            lemma_no_effects();
            assert(self.store.calls() =~= before.store.calls() + store_calls_in(t));
            assert(self.backend.calls() =~= before.backend.calls() + backend_calls_in(t));
            assert(self.events.published() =~= before.events.published() + events_in(t));
        }
                return Self::answer(Err(e.message()), Ghost(t));
            },
        }
        let done = self.store.update_settings(&settings);
        let ghost t = seq![Effect::StoreSettings { settings, result: done }];
        proof {
            lemma_one(t[0]);
            assert(self.store.calls() =~= before.store.calls() + store_calls_in(t));
            assert(self.backend.calls() =~= before.backend.calls() + backend_calls_in(t));
            assert(self.events.published() =~= before.events.published() + events_in(t));
        }
        Self::acked(done, Ghost(t[0]))
    }

    fn pause(&mut self, paused: bool) -> (h: Handled)
        ensures
            handled(Command::PauseCapture { paused }, h.1@, h.0),
            final(self).watch_loop.paused == paused,
            final(self).store.calls() == old(self).store.calls() + store_calls_in(h.1@),
            final(self).backend.calls() == old(self).backend.calls() + backend_calls_in(h.1@),
            final(self).events.published() == old(self).events.published() + events_in(h.1@),
            final(self).backend_name == old(self).backend_name,
            final(self).trace == old(self).trace,
    {
        let ghost before = *self;
        self.watch_loop.set_paused(paused);
        let ev = Event::CapturePaused { paused };
        self.events.publish(ev);
        let ghost t = seq![Effect::Publish(ev)];
        proof {
            lemma_one(t[0]);
            assert(self.store.calls() =~= before.store.calls() + store_calls_in(t));
            assert(self.backend.calls() =~= before.backend.calls() + backend_calls_in(t));
            assert(self.events.published() =~= before.events.published() + events_in(t));
        }
        Self::answer(Ok(CommandOutput::Ack), Ghost(t))
    }

    fn trigger_hotkey(&mut self) -> (h: Handled)
        ensures
            handled(Command::TriggerHotkey, h.1@, h.0),
            recorded(*final(self), *old(self), h.1@),
    {
        let ghost before = *self;
        let ev = Event::HotkeyPressed;
        self.events.publish(ev);
        let ghost t = seq![Effect::Publish(ev)];
        proof {
            lemma_one(t[0]);
            assert(self.store.calls() =~= before.store.calls() + store_calls_in(t));
            assert(self.backend.calls() =~= before.backend.calls() + backend_calls_in(t));
            assert(self.events.published() =~= before.events.published() + events_in(t));
        }
        Self::answer(Ok(CommandOutput::Ack), Ghost(t))
    }

    /// Handles one command, following `handled`, and records the calls it
    /// made in `trace`: the store, the backend and the publisher see exactly
    /// the calls among the recorded effects. Pausing also flips the watch
    /// loop's switch, which no other command touches.
    pub fn handle(&mut self, command: Command) -> (r: Result<CommandOutput, String>)
        ensures
            final(self).backend_name == old(self).backend_name,
            match command {
                Command::PauseCapture { paused } => final(self).watch_loop.paused == paused,
                _ => final(self).watch_loop == old(self).watch_loop,
            },
            final(self).trace@.len() >= old(self).trace@.len(),
            final(self).trace@.take(old(self).trace@.len() as int) == old(self).trace@,
            handled(command, final(self).trace@.skip(old(self).trace@.len() as int), r),
            final(self).store.calls() == old(self).store.calls() + store_calls_in(
                final(self).trace@.skip(old(self).trace@.len() as int),
            ),
            final(self).backend.calls() == old(self).backend.calls() + backend_calls_in(
                final(self).trace@.skip(old(self).trace@.len() as int),
            ),
            final(self).events.published() == old(self).events.published() + events_in(
                final(self).trace@.skip(old(self).trace@.len() as int),
            ),
            command matches Command::GetDiagnostics ==> (r matches Ok(CommandOutput::Diagnostics { backend, .. })
                && backend@ == old(self).backend_name@),
    {
        let ghost cmd = command;
        let (r, t) = match command {
            Command::SearchClips { query, filters, limit, offset } => {
                let h = self.search(query, filters);
                proof {
                    assert(handled(cmd, h.1@, h.0));
                }
                h
            },
            Command::GetClip { id } => self.get_clip(id),
            Command::ListGroups => self.list_groups(),
            Command::ListRules => self.list_rules(),
            Command::GetSettings => self.get_settings(),
            Command::GetDiagnostics => self.diagnostics(),
            Command::PasteClip { id, mode } => self.paste(id, mode),
            Command::CopyClip { id } => self.copy(id),
            Command::PinClip { id, pinned } => self.pin(id, pinned),
            Command::AssignGroup { id, group_id } => self.assign_group(id, group_id),
            Command::DeleteClip { id } => self.delete(id),
            Command::ClearHistory { scope } => self.clear(scope),
            Command::SaveRule { rule } => self.save_rule(rule),
            Command::DeleteRule { id } => self.delete_rule(id),
            Command::UpdateSettings { settings } => self.update_settings(settings),
            Command::PauseCapture { paused } => self.pause(paused),
            Command::TriggerHotkey => self.trigger_hotkey(),
        };
        let ghost before = self.trace@;
        self.trace = Ghost(self.trace@ + t@);
        proof {
            assert(self.trace@.take(before.len() as int) =~= before);
            assert(self.trace@.skip(before.len() as int) =~= t@);
        }
        r
    }
}

proof fn lemma_one(a: Effect)
    ensures
        store_calls_in(seq![a]) == effect_store(a),
        backend_calls_in(seq![a]) == effect_backend(a),
        events_in(seq![a]) == effect_event(a),
{
    lemma_effect_step(Seq::empty(), a);
    assert(Seq::<Effect>::empty().push(a) =~= seq![a]);
    assert(Seq::<StoreCall>::empty() + effect_store(a) =~= effect_store(a));
    assert(Seq::<BackendCall>::empty() + effect_backend(a) =~= effect_backend(a));
    assert(Seq::<Event>::empty() + effect_event(a) =~= effect_event(a));
}

proof fn lemma_two(a: Effect, b: Effect)
    ensures
        store_calls_in(seq![a, b]) == effect_store(a) + effect_store(b),
        backend_calls_in(seq![a, b]) == effect_backend(a) + effect_backend(b),
        events_in(seq![a, b]) == effect_event(a) + effect_event(b),
{
    lemma_one(a);
    lemma_effect_step(seq![a], b);
    assert(seq![a].push(b) =~= seq![a, b]);
}

proof fn lemma_three(a: Effect, b: Effect, c: Effect)
    ensures
        store_calls_in(seq![a, b, c]) == effect_store(a) + effect_store(b) + effect_store(c),
        backend_calls_in(seq![a, b, c]) == effect_backend(a) + effect_backend(b) + effect_backend(c),
        events_in(seq![a, b, c]) == effect_event(a) + effect_event(b) + effect_event(c),
{
    lemma_two(a, b);
    lemma_effect_step(seq![a, b], c);
    assert(seq![a, b].push(c) =~= seq![a, b, c]);
}

/// A command that fails announces nothing to clients.
pub proof fn lemma_failed_commands_announce_nothing(command: Command, t: Seq<Effect>, r: Result<CommandOutput, String>)
    requires
        handled(command, t, r),
        r is Err,
    ensures
        forall|k: int| 0 <= k < t.len() ==> !(#[trigger] t[k] is Publish),
{
}

/// Reading commands (searching, fetching a clip, listing groups or rules,
/// reading settings or diagnostics) change nothing and announce nothing;
/// in particular fetching a clip does not touch its last-used time.
pub proof fn lemma_reads_change_nothing(command: Command, t: Seq<Effect>, r: Result<CommandOutput, String>)
    requires
        handled(command, t, r),
        command is SearchClips || command is GetClip || command is ListGroups || command is ListRules
            || command is GetSettings || command is GetDiagnostics,
    ensures
        forall|k: int| 0 <= k < t.len() ==> !is_mutation(#[trigger] t[k]),
{
}

/// A paste refreshes the clip's last-used time only once the backend has
/// pasted it, and a failed paste leaves it alone; a successful paste always
/// refreshes it.
pub proof fn lemma_paste_touches_only_after_pasting(id: String, mode: PasteMode, t: Seq<Effect>, r: Result<CommandOutput, String>)
    requires
        handled(Command::PasteClip { id, mode }, t, r),
    ensures
        forall|k: int|
            0 <= k < t.len() && #[trigger] t[k] is TouchLastUsed ==> k >= 1 && (t[k - 1] matches Effect::Paste {
                result: Ok(()),
                ..
            }),
        (exists|k: int| 0 <= k < t.len() && (#[trigger] t[k] matches Effect::Paste { result: Err(_), .. }))
            ==> forall|k: int| 0 <= k < t.len() ==> !(#[trigger] t[k] is TouchLastUsed),
        r is Ok ==> (t[2] matches Effect::TouchLastUsed { id: j, result: Ok(()) } && j == id@),
{
}

/// A settings update whose hotkey binding does not parse is refused
/// without storing anything.
pub proof fn lemma_invalid_binding_is_never_stored(settings: AppSettings, t: Seq<Effect>, r: Result<CommandOutput, String>)
    requires
        handled(Command::UpdateSettings { settings }, t, r),
        binding_of(settings.hotkey_binding@) is None,
    ensures
        t.len() == 0,
        r is Err,
{
}

/// A bulk clear announces one `ClipDeleted` per clip the store removed, in
/// the store's order, and nothing else.
pub proof fn lemma_clear_announces_each_removed_clip(
    scope: IpcClearScope,
    t: Seq<Effect>,
    r: Result<CommandOutput, String>,
    removed: Seq<String>,
)
    requires
        handled(Command::ClearHistory { scope }, t, r),
        t[0] == (Effect::ClearHistory { scope: store_scope_of(scope), result: Ok(removed) }),
    ensures
        t.skip(1) == published(deletion_events(removed)),
        t.skip(1).len() == removed.len(),
        forall|k: int| 0 <= k < removed.len() ==> t[k + 1] == Effect::Publish(Event::ClipDeleted { clip_id: removed[k] }),
{
    assert(t.skip(1) =~= published(deletion_events(removed)));
}

/// The store calls of a retention run and its result: the settings are
/// read; a failed read is the run's failure; otherwise the store prunes with
/// the retention window they name, and its answer is the run's.
pub open spec fn retention_ran(t: Seq<StoreCall>, r: Result<usize, StoreError>) -> bool {
    t.len() >= 1 && match t[0] {
        StoreCall::GetSettings { result } => match result {
            Err(e) => t.len() == 1 && r == Err::<usize, StoreError>(e),
            Ok(settings) => t.len() == 2 && match t[1] {
                StoreCall::Prune { retention_days, result: pruned } => retention_days
                    == settings.retention_window_days && r == pruned,
                _ => false,
            },
        },
        _ => false,
    }
}

/// One scheduled retention run: prunes with the retention window the stored
/// settings name. Fails with the store's error when the settings cannot be
/// read (then nothing is pruned) or when pruning fails.
pub fn retention_pass<S: Store>(store: &mut S) -> (r: Result<usize, StoreError>)
    ensures
        exists|t: Seq<StoreCall>| final(store).calls() == old(store).calls() + t && retention_ran(t, r),
{
    let ghost s0 = store.calls();
    let loaded = store.get_settings();
    let ghost load = StoreCall::GetSettings { result: loaded };
    let settings = match loaded {
        Ok(s) => s,
        Err(e) => {
            let ghost t = seq![load];
            assert(store.calls() =~= s0 + t);
            assert(retention_ran(t, Err(e)));
            return Err(e);
        },
    };
    let pruned = store.prune(settings.retention_window_days);
    let ghost t = seq![load, StoreCall::Prune { retention_days: settings.retention_window_days, result: pruned }];
    assert(store.calls() =~= s0 + t);
    assert(retention_ran(t, pruned));
    pruned
}

/// The outcome of registering the persisted hotkey at startup. None of the
/// failures stops the daemon from starting.
#[derive(Debug, Clone, PartialEq)]
pub enum HotkeyRegistration {
    /// The settings could not be read; nothing was registered.
    SettingsUnavailable(StoreError),
    /// The persisted binding does not parse; nothing was registered.
    InvalidBinding(HotkeyError),
    /// The backend refused the binding.
    Refused(HotkeyError),
    Registered(HotkeyBinding),
}

/// The store calls and registrations of a startup hotkey registration and
/// its outcome: the settings are read; a binding that parses is handed to
/// the backend, which is not asked otherwise.
pub open spec fn hotkey_registered(
    t: Seq<StoreCall>,
    asked: Seq<(HotkeyBinding, Result<(), HotkeyError>)>,
    r: HotkeyRegistration,
) -> bool {
    t.len() == 1 && match t[0] {
        StoreCall::GetSettings { result } => match result {
            Err(e) => asked.len() == 0 && r == HotkeyRegistration::SettingsUnavailable(e),
            Ok(settings) => match binding_of(settings.hotkey_binding@) {
                None => asked.len() == 0 && (r matches HotkeyRegistration::InvalidBinding(
                    HotkeyError::InvalidBinding(s),
                ) && s@ == settings.hotkey_binding@),
                Some(b) => asked.len() == 1 && asked[0].0 == b && match asked[0].1 {
                    Ok(()) => r == HotkeyRegistration::Registered(b),
                    Err(e) => r == HotkeyRegistration::Refused(e),
                },
            },
        },
        _ => false,
    }
}

/// Registers the persisted `hotkey_binding` with the hotkey backend: reads
/// the settings, parses the binding, and hands it to the backend; the
/// backend is asked only with a binding that parsed, and runs `on_press` on
/// each press of it.
pub fn register_persisted_hotkey<S: Store, H: HotkeyBackend, F: Fn() + Send + Sync + 'static>(
    store: &mut S,
    hotkeys: &mut H,
    on_press: F,
) -> (r: HotkeyRegistration)
    ensures
        exists|t: Seq<StoreCall>, asked: Seq<(HotkeyBinding, Result<(), HotkeyError>)>|
            final(store).calls() == old(store).calls() + t && final(hotkeys).attempts() == old(hotkeys).attempts()
                + asked && hotkey_registered(t, asked, r),
{
    let ghost s0 = store.calls();
    let ghost h0 = hotkeys.attempts();
    let loaded = store.get_settings();
    let ghost t = seq![StoreCall::GetSettings { result: loaded }];
    assert(store.calls() =~= s0 + t);
    assert(hotkeys.attempts() =~= h0 + Seq::<(HotkeyBinding, Result<(), HotkeyError>)>::empty());
    let settings = match loaded {
        Ok(s) => s,
        Err(e) => {
            let r = HotkeyRegistration::SettingsUnavailable(e);
            assert(hotkey_registered(t, Seq::empty(), r));
            return r;
        },
    };
    let binding = match parse_binding(settings.hotkey_binding.as_str()) {
        Ok(b) => b,
        Err(e) => {
            let r = HotkeyRegistration::InvalidBinding(e);
            assert(hotkey_registered(t, Seq::empty(), r));
            return r;
        },
    };
    let registered = hotkeys.register(binding, on_press);
    let ghost asked = seq![(binding, registered)];
    assert(hotkeys.attempts() =~= h0 + asked);
    let r = match registered {
        Ok(()) => HotkeyRegistration::Registered(binding),
        Err(e) => HotkeyRegistration::Refused(e),
    };
    assert(hotkey_registered(t, asked, r));
    r
}

} // verus!
