//! Capture ingestion: normalize, rule-filter, dedup, persist.
use vstd::prelude::*;
use crate::clipboard::ClipboardSnapshot;
use crate::errors::CoreError;
use crate::hashing::{blake3_hex, hash_content};
use crate::mime::{essence_of, mime_parse_ok, normalize_mime};
use crate::models::{
    opt_view, reprs_view, rule_matches, AppContext, Clip, ClipRepresentation, ReprView, Rule, RuleAction,
};
use crate::protocol::Event;
use crate::services::{clip_key, EventPublisher, Store, StoreCall};
use crate::store::StoreError;
use crate::text::copy_opt;
use vstd::utf8::encode_utf8;

verus! {

#[derive(Debug, Clone, PartialEq, Eq)]
pub enum IngestError {
    Store(StoreError),
    Core(CoreError),
}

impl IngestError {
    pub open spec fn text(&self) -> Seq<char> {
        match self {
            IngestError::Store(e) => e.text(),
            IngestError::Core(e) => e.text(),
        }
    }

    /// Renders the error as text (that of the wrapped error).
    pub fn message(&self) -> (m: String)
        ensures
            m@ == self.text(),
    {
        match self {
            IngestError::Store(e) => e.message(),
            IngestError::Core(e) => e.message(),
        }
    }
}

/// A representation with its MIME type in canonical form, numbered `i`.
pub open spec fn normalized(r: ReprView, i: int) -> ReprView {
    ReprView { mime_type: essence_of(r.mime_type), ordinal: i as i64, ..r }
}

pub open spec fn all_mimes_valid(rs: Seq<ReprView>) -> bool {
    forall|i: int| 0 <= i < rs.len() ==> mime_parse_ok(#[trigger] rs[i].mime_type)
}

/// `k` is the first representation whose MIME type does not parse.
pub open spec fn first_invalid_mime(rs: Seq<ReprView>, k: int) -> bool {
    &&& 0 <= k < rs.len()
    &&& !mime_parse_ok(rs[k].mime_type)
    &&& forall|j: int| 0 <= j < k ==> mime_parse_ok(#[trigger] rs[j].mime_type)
}

/// Normalizes every representation's MIME type and renumbers the
/// representations by position. Fails on the first MIME type that does not
/// parse, naming it.
pub fn normalize_representations(reps: &Vec<ClipRepresentation>) -> (r: Result<Vec<ClipRepresentation>, CoreError>)
    requires
        reps@.len() <= i64::MAX,
    ensures
        match r {
            Ok(out) => all_mimes_valid(reprs_view(reps@)) && reprs_view(out@) =~= Seq::new(
                reps@.len(),
                |i: int| normalized(reps@[i]@, i),
            ),
            Err(e) => exists|k: int|
                first_invalid_mime(reprs_view(reps@), k) && (e matches CoreError::InvalidMime(t) && t@
                    == reps@[k].mime_type@),
        },
{
    let ghost rv = reprs_view(reps@);
    let mut out: Vec<ClipRepresentation> = Vec::new();
    let mut i: usize = 0;
    while i < reps.len()
        invariant
            i <= reps.len(),
            reps@.len() <= i64::MAX,
            rv == reprs_view(reps@),
            out@.len() == i,
            forall|j: int| 0 <= j < i ==> mime_parse_ok(#[trigger] rv[j].mime_type),
            forall|j: int| 0 <= j < i ==> (#[trigger] out@[j])@ == normalized(reps@[j]@, j),
        decreases reps.len() - i,
    {
        let r = &reps[i];
        assert(rv[i as int] == r@);
        match normalize_mime(r.mime_type.as_str()) {
            Ok(m) => {
                let n = ClipRepresentation {
                    mime_type: m,
                    text_value: copy_opt(&r.text_value),
                    blob_path: copy_opt(&r.blob_path),
                    preview_text: copy_opt(&r.preview_text),
                    width: r.width,
                    height: r.height,
                    byte_size: r.byte_size,
                    ordinal: i as i64,
                    is_preview: r.is_preview,
                };
                out.push(n);
            },
            Err(e) => {
                assert(first_invalid_mime(rv, i as int));
                return Err(e);
            },
        }
        i = i + 1;
    }
    assert(reprs_view(out@) =~= Seq::new(reps@.len(), |i: int| normalized(reps@[i]@, i)));
    Ok(out)
}

/// Whether some enabled exclusion rule applies to the capturing application
/// for some representation of the capture. Nothing is excluded when the
/// source application is unknown.
pub open spec fn excluded_by(reprs: Seq<ReprView>, rules: Seq<Rule>, source: Option<AppContext>) -> bool {
    match source {
        Some(ctx) => exists|i: int, j: int|
            0 <= i < reprs.len() && 0 <= j < rules.len() && rules[j].action == RuleAction::Exclude
                && rule_matches(#[trigger] rules[j], ctx, #[trigger] reprs[i].mime_type),
        None => false,
    }
}

/// An enabled exclusion rule that names an application, with no window or
/// MIME condition, excludes every non-empty capture from that application,
/// whatever the other rules say.
pub proof fn lemma_app_wide_exclusion(reprs: Seq<ReprView>, rules: Seq<Rule>, ctx: AppContext, j: int)
    requires
        reprs.len() > 0,
        0 <= j < rules.len(),
        rules[j].enabled,
        rules[j].action == RuleAction::Exclude,
        rules[j].app_match@ == ctx.app@,
        rules[j].window_match is None,
        rules[j].mime_match is None,
    ensures
        excluded_by(reprs, rules, Some(ctx)),
{
    assert(rule_matches(rules[j], ctx, reprs[0].mime_type));
}

/// Disabled rules never exclude anything.
pub proof fn lemma_disabled_rules_never_exclude(reprs: Seq<ReprView>, rules: Seq<Rule>, source: Option<AppContext>)
    requires
        forall|j: int| 0 <= j < rules.len() ==> !(#[trigger] rules[j]).enabled,
    ensures
        !excluded_by(reprs, rules, source),
{
}

fn is_exclude(a: &RuleAction) -> (b: bool)
    ensures
        b == (*a == RuleAction::Exclude),
{
    match a {
        RuleAction::Exclude => true,
        RuleAction::Ephemeral => false,
    }
}

/// Decides whether a capture is excluded by the enabled rules.
pub fn is_excluded(reps: &Vec<ClipRepresentation>, rules: &Vec<Rule>, source: &Option<AppContext>) -> (b: bool)
    ensures
        b == excluded_by(reprs_view(reps@), rules@, *source),
{
    let ghost rv = reprs_view(reps@);
    match source {
        None => false,
        Some(ctx) => {
            let mut i: usize = 0;
            while i < reps.len()
                invariant
                    i <= reps.len(),
                    rv == reprs_view(reps@),
                    *source == Some(*ctx),
                    forall|a: int, b: int|
                        0 <= a < i && 0 <= b < rules@.len() ==> !(rules@[b].action == RuleAction::Exclude
                            && rule_matches(#[trigger] rules@[b], *ctx, #[trigger] rv[a].mime_type)),
                decreases reps.len() - i,
            {
                assert(rv[i as int] == reps@[i as int]@);
                let mut j: usize = 0;
                while j < rules.len()
                    invariant
                        i < reps.len(),
                        j <= rules.len(),
                        rv == reprs_view(reps@),
                        *source == Some(*ctx),
                        rv[i as int].mime_type == reps@[i as int].mime_type@,
                        forall|a: int, b: int|
                            0 <= a < i && 0 <= b < rules@.len() ==> !(rules@[b].action == RuleAction::Exclude
                                && rule_matches(#[trigger] rules@[b], *ctx, #[trigger] rv[a].mime_type)),
                        forall|b: int|
                            0 <= b < j ==> !(rules@[b].action == RuleAction::Exclude && rule_matches(
                                #[trigger] rules@[b],
                                *ctx,
                                rv[i as int].mime_type,
                            )),
                    decreases rules.len() - j,
                {
                    let rule = &rules[j];
                    if is_exclude(&rule.action) && rule.matches(ctx, reps[i].mime_type.as_str()) {
                        assert(rule_matches(rules@[j as int], *ctx, rv[i as int].mime_type));
                        return true;
                    }
                    j = j + 1;
                }
                i = i + 1;
            }
            false
        },
    }
}

/// The sum of the representations' byte sizes.
pub open spec fn total_size(rs: Seq<ReprView>) -> int
    decreases rs.len(),
{
    if rs.len() == 0 {
        0
    } else {
        total_size(rs.drop_last()) + rs.last().byte_size
    }
}

proof fn lemma_total_size_prefix(rs: Seq<ReprView>, k: int)
    requires
        0 <= k <= rs.len(),
    ensures
        total_size(rs.subrange(0, k)) <= total_size(rs),
    decreases rs.len() - k,
{
    if k < rs.len() {
        lemma_total_size_prefix(rs, k + 1);
        assert(rs.subrange(0, k + 1).drop_last() =~= rs.subrange(0, k));
    } else {
        assert(rs.subrange(0, k) =~= rs);
    }
}

/// The total byte size of a capture, or `None` when it does not fit in a
/// `u64`.
pub fn total_byte_size(reps: &Vec<ClipRepresentation>) -> (r: Option<u64>)
    ensures
        match r {
            Some(t) => t == total_size(reprs_view(reps@)),
            None => total_size(reprs_view(reps@)) > u64::MAX,
        },
{
    let ghost rv = reprs_view(reps@);
    let mut total: u64 = 0;
    let mut i: usize = 0;
    while i < reps.len()
        invariant
            i <= reps.len(),
            rv == reprs_view(reps@),
            total == total_size(rv.subrange(0, i as int)),
        decreases reps.len() - i,
    {
        assert(rv.subrange(0, i + 1).drop_last() =~= rv.subrange(0, i as int));
        assert(rv[i as int] == reps@[i as int]@);
        match total.checked_add(reps[i].byte_size) {
            Some(t) => total = t,
            None => {
                proof {
                    lemma_total_size_prefix(rv, i + 1);
                }
                return None;
            },
        }
        i = i + 1;
    }
    assert(rv.subrange(0, rv.len() as int) =~= rv);
    Some(total)
}

/// The text that identifies a capture's content: that of its first
/// representation, or nothing.
pub open spec fn primary_text(rs: Seq<ReprView>) -> Seq<char> {
    match rs[0].text_value {
        Some(t) => t,
        None => ""@,
    }
}

/// The clip persisted for a (normalized, non-empty) capture: identified by
/// the hash of its primary text, typed by its first representation, showing
/// that representation's text, sized by the sum of all representations,
/// attributed to the source application and window when known, and
/// otherwise fresh.
pub open spec fn is_captured_clip(
    c: Clip,
    id: Seq<char>,
    now: i128,
    reps: Seq<ClipRepresentation>,
    source: Option<AppContext>,
) -> bool {
    let rv = reprs_view(reps);
    &&& c.id@ == id
    &&& c.created_at == now
    &&& c.updated_at == now
    &&& c.last_used_at is None
    &&& c.content_hash@ == blake3_hex(encode_utf8(primary_text(rv)))
    &&& c.primary_mime@ == rv[0].mime_type
    &&& opt_view(c.display_text) == rv[0].text_value
    &&& c.byte_size == total_size(rv)
    &&& match source {
        Some(ctx) => c.source_app == Some(ctx.app) && c.source_window == ctx.window,
        None => c.source_app is None && c.source_window is None,
    }
    &&& !c.is_favorite
    &&& !c.is_pinned
    &&& !c.is_deleted
    &&& c.group_id is None
    &&& c.paste_mode_default == crate::models::PasteMode::Auto
    &&& c.metadata is None
    &&& c.representations@ == reps
}

/// Builds the clip for a normalized capture.
pub fn captured_clip(id: &str, now: i128, reps: Vec<ClipRepresentation>, total: u64, source: &Option<AppContext>) -> (c: Clip)
    requires
        reps@.len() > 0,
        total == total_size(reprs_view(reps@)),
    ensures
        is_captured_clip(c, id@, now, reps@, *source),
{
    assert(reprs_view(reps@)[0] == reps@[0]@);
    let primary = &reps[0];
    let content_hash = match &primary.text_value {
        Some(t) => hash_content(t.as_str().as_bytes()),
        None => hash_content("".as_bytes()),
    };
    proof {
        reveal_strlit("");
    }
    let primary_mime = primary.mime_type.clone();
    let display_text = copy_opt(&primary.text_value);
    let mut clip = Clip::new_at(id, content_hash.as_str(), primary_mime.as_str(), reps, now);
    clip.display_text = display_text;
    clip.byte_size = total;
    match source {
        Some(ctx) => {
            let a = ctx.app.clone();
            clip.source_app = Some(a);
            clip.source_window = copy_opt(&ctx.window);
        },
        None => {},
    }
    clip
}

/// One call that ingest makes on its store or event publisher, with what
/// the call reported.
pub enum IngestEffect {
    LoadRules { rules: Result<Seq<Rule>, StoreError> },
    Insert { clip: Clip, result: Result<(), StoreError> },
    FindExisting { content_hash: Seq<char>, primary_mime: Seq<char>, found: Result<Option<Clip>, StoreError> },
    Touch { id: Seq<char>, result: Result<(), StoreError> },
    Publish(Event),
}

/// The rules a store call handed back, by their view.
pub open spec fn rules_seen(listed: Result<Vec<Rule>, StoreError>) -> Result<Seq<Rule>, StoreError> {
    match listed {
        Ok(v) => Ok(v@),
        Err(e) => Err(e),
    }
}

/// The normalized form of a capture's representations.
pub open spec fn normalized_all(rv: Seq<ReprView>) -> Seq<ReprView> {
    Seq::new(rv.len(), |i: int| normalized(rv[i], i))
}

/// `r` is what a store step that failed with `e` makes ingest return.
pub open spec fn store_failure(e: StoreError, r: Result<(), IngestError>) -> bool {
    r == Err::<(), IngestError>(IngestError::Store(e))
}

/// After an insert that hit the dedup constraint: the active clip with the
/// same content hash and primary MIME type is looked up and, when found,
/// its last-used time is refreshed. A failing store step is reported.
pub open spec fn refreshed(clip: Clip, t: Seq<IngestEffect>, r: Result<(), IngestError>) -> bool {
    t.len() >= 3 && match t[2] {
        IngestEffect::FindExisting { content_hash, primary_mime, found } => {
            &&& content_hash == clip.content_hash@
            &&& primary_mime == clip.primary_mime@
            &&& match found {
                Ok(Some(existing)) => t.len() == 4 && match t[3] {
                    IngestEffect::Touch { id, result } => id == existing.id@ && match result {
                        Ok(()) => r is Ok,
                        Err(e) => store_failure(e, r),
                    },
                    _ => false,
                },
                Ok(None) => t.len() == 3 && r is Ok,
                Err(e) => t.len() == 3 && store_failure(e, r),
            }
        },
        _ => false,
    }
}

/// After the rules let a capture through: the captured clip is inserted; a
/// stored clip is announced with `ClipCaptured`; a duplicate refreshes the
/// existing clip; any other store failure is reported.
pub open spec fn stored(
    norm: Seq<ReprView>,
    source: Option<AppContext>,
    t: Seq<IngestEffect>,
    r: Result<(), IngestError>,
) -> bool {
    t.len() >= 2 && match t[1] {
        IngestEffect::Insert { clip, result } => {
            &&& reprs_view(clip.representations@) == norm
            &&& is_captured_clip(clip, clip.id@, clip.created_at, clip.representations@, source)
            &&& match result {
                Ok(()) => t.len() == 2 + 1 && t[2] == IngestEffect::Publish(Event::ClipCaptured { clip_id: clip.id })
                    && r is Ok,
                Err(StoreError::DedupConflict) => refreshed(clip, t, r),
                Err(e) => t.len() == 2 && store_failure(e, r),
            }
        },
        _ => false,
    }
}

/// The calls ingest makes, in order, and its result, for a snapshot with
/// representations `reps` from application `source`: an empty snapshot is
/// ignored; a MIME type that does not parse fails before any call; the
/// enabled rules are loaded and a capture they exclude is dropped;
/// otherwise the capture is stored (see `stored`).
pub open spec fn ingested(
    reps: Seq<ClipRepresentation>,
    source: Option<AppContext>,
    t: Seq<IngestEffect>,
    r: Result<(), IngestError>,
) -> bool {
    let rv = reprs_view(reps);
    if rv.len() == 0 {
        t.len() == 0 && r is Ok
    } else if !all_mimes_valid(rv) {
        t.len() == 0 && r matches Err(IngestError::Core(_))
    } else {
        t.len() >= 1 && match t[0] {
            IngestEffect::LoadRules { rules } => match rules {
                Err(e) => t.len() == 1 && store_failure(e, r),
                Ok(rs) => if excluded_by(normalized_all(rv), rs, source) {
                    t.len() == 1 && r is Ok
                } else {
                    stored(normalized_all(rv), source, t, r)
                },
            },
            _ => false,
        }
    }
}

/// The store call an ingest step is.
pub open spec fn store_part(e: IngestEffect) -> Seq<StoreCall> {
    match e {
        IngestEffect::LoadRules { rules } => seq![StoreCall::ListEnabledRules { result: rules }],
        IngestEffect::Insert { clip, result } => seq![StoreCall::InsertClip { clip, result }],
        IngestEffect::FindExisting { content_hash, primary_mime, found } => seq![
            StoreCall::FindActiveByHash { content_hash, primary_mime, result: found },
        ],
        IngestEffect::Touch { id, result } => seq![StoreCall::TouchLastUsed { id, result }],
        IngestEffect::Publish(_) => Seq::empty(),
    }
}

/// The event an ingest step publishes.
pub open spec fn event_part(e: IngestEffect) -> Seq<Event> {
    match e {
        IngestEffect::Publish(ev) => seq![ev],
        _ => Seq::empty(),
    }
}

/// The store calls among ingest steps, in order.
pub open spec fn store_calls_of(t: Seq<IngestEffect>) -> Seq<StoreCall>
    decreases t.len(),
{
    if t.len() == 0 {
        Seq::empty()
    } else {
        store_calls_of(t.drop_last()) + store_part(t.last())
    }
}

/// The events published among ingest steps, in order.
pub open spec fn events_of(t: Seq<IngestEffect>) -> Seq<Event>
    decreases t.len(),
{
    if t.len() == 0 {
        Seq::empty()
    } else {
        events_of(t.drop_last()) + event_part(t.last())
    }
}

proof fn lemma_step(t: Seq<IngestEffect>, e: IngestEffect)
    ensures
        store_calls_of(t.push(e)) == store_calls_of(t) + store_part(e),
        events_of(t.push(e)) == events_of(t) + event_part(e),
{
    assert(t.push(e).drop_last() =~= t);
}

/// The store and the publisher have seen exactly the calls of the steps `t`
/// since `s0` and `e0`.
pub open spec fn on_record(s: Seq<StoreCall>, e: Seq<Event>, s0: Seq<StoreCall>, e0: Seq<Event>, t: Seq<IngestEffect>) -> bool {
    s == s0 + store_calls_of(t) && e == e0 + events_of(t)
}

/// The store key a capture's clip is stored under: the content hash of its
/// normalized primary text and its normalized primary MIME type.
pub open spec fn capture_key(reps: Seq<ClipRepresentation>) -> (Seq<char>, Seq<char>) {
    let norm = normalized_all(reprs_view(reps));
    (blake3_hex(encode_utf8(primary_text(norm))), norm[0].mime_type)
}

/// The first store call after `s0` loaded the enabled rules, and none of
/// them excludes the capture `norm` from `source`.
pub open spec fn passed_rules(s0: Seq<StoreCall>, s1: Seq<StoreCall>, norm: Seq<ReprView>, source: Option<AppContext>) -> bool {
    &&& s1.len() > s0.len()
    &&& s1[s0.len() as int] matches StoreCall::ListEnabledRules { result: Ok(rs) }
    &&& !excluded_by(norm, rs, source)
}

/// Normalizes, rule-filters, dedups, and persists a captured clipboard
/// snapshot. `source` is the application that most likely owned the
/// clipboard at capture time. An empty snapshot is ignored; a capture that
/// an enabled exclusion rule covers is dropped; a capture whose content is
/// already stored refreshes the stored clip's last-used time instead of
/// failing. A newly stored clip is announced with `ClipCaptured`. The
/// store calls and published events are those of the steps `ingested`
/// describes.
pub fn ingest<S: Store, P: EventPublisher>(
    store: &mut S,
    events: &mut P,
    snapshot: ClipboardSnapshot,
    source: Option<AppContext>,
) -> (r: Result<(), IngestError>)
    requires
        snapshot.representations@.len() <= i64::MAX,
        total_size(reprs_view(snapshot.representations@)) <= u64::MAX,
    ensures
        exists|t: Seq<IngestEffect>|
            ingested(snapshot.representations@, source, t, r) && on_record(
                final(store).calls(),
                final(events).published(),
                old(store).calls(),
                old(events).published(),
                t,
            ),
        snapshot.representations@.len() == 0 ==> r is Ok,
        snapshot.representations@.len() > 0 && !all_mimes_valid(reprs_view(snapshot.representations@)) ==> exists|
            k: int,
        |
            first_invalid_mime(reprs_view(snapshot.representations@), k) && (r matches Err(
                IngestError::Core(CoreError::InvalidMime(t)),
            ) && t@ == snapshot.representations@[k].mime_type@),
        r matches Err(IngestError::Core(_)) ==> !all_mimes_valid(reprs_view(snapshot.representations@)),
        old(store).active().contains_key(capture_key(snapshot.representations@)) ==> final(events).published()
            == old(events).published() && final(store).active().dom() == old(store).active().dom(),
        ({
            let k = capture_key(snapshot.representations@);
            old(store).active().contains_key(k) && r is Ok && passed_rules(
                old(store).calls(),
                final(store).calls(),
                normalized_all(reprs_view(snapshot.representations@)),
                source,
            ) ==> final(store).active().contains_key(k) && final(store).active()[k].id == old(store).active()[k].id
                && final(store).active()[k].last_used_at is Some
        }),
        final(events).published() != old(events).published() ==> final(store).active().contains_key(
            capture_key(snapshot.representations@),
        ) && final(events).published() == old(events).published().push(
            Event::ClipCaptured { clip_id: final(store).active()[capture_key(snapshot.representations@)].id },
        ),
{
    let ghost s0 = store.calls();
    let ghost e0 = events.published();
    let ghost reps0 = snapshot.representations@;
    let ghost mut t: Seq<IngestEffect> = Seq::empty();
    assert(on_record(store.calls(), events.published(), s0, e0, t)) by {
        assert(s0 + Seq::<StoreCall>::empty() =~= s0);
        assert(e0 + Seq::<Event>::empty() =~= e0);
    }
    if snapshot.representations.len() == 0 {
        assert(ingested(reps0, source, t, Ok(())));
        return Ok(());
    }
    let reps = match normalize_representations(&snapshot.representations) {
        Ok(v) => v,
        Err(e) => {
            assert(ingested(reps0, source, t, Err(IngestError::Core(e))));
            return Err(IngestError::Core(e));
        },
    };
    let ghost norm = normalized_all(reprs_view(snapshot.representations@));
    assert(reprs_view(reps@) == norm);
    let listed = store.list_enabled_rules();
    proof {
        let e = IngestEffect::LoadRules { rules: rules_seen(listed) };
        lemma_step(t, e);
        assert(store.calls() =~= s0 + store_calls_of(t.push(e)));
        assert(events.published() =~= e0 + events_of(t.push(e)));
        t = t.push(e);
    }
    let rules = match listed {
        Ok(v) => v,
        Err(e) => {
            assert(ingested(reps0, source, t, Err(IngestError::Store(e))));
            return Err(IngestError::Store(e));
        },
    };
    if is_excluded(&reps, &rules, &source) {
        assert(ingested(reps0, source, t, Ok(())));
        return Ok(());
    }
    proof {
        let a = reprs_view(snapshot.representations@);
        let b = reprs_view(reps@);
        assert forall|k: int| 0 <= k <= b.len() implies total_size(#[trigger] b.subrange(0, k)) == total_size(
            a.subrange(0, k),
        ) by {
            lemma_total_size_normalized(a, b, k);
        }
        assert(b.subrange(0, b.len() as int) =~= b);
        assert(a.subrange(0, a.len() as int) =~= a);
    }
    let total = total_byte_size(&reps).unwrap();
    let id = crate::clock::new_id();
    let now = crate::clock::now_unix_nanos();
    let clip = captured_clip(id.as_str(), now, reps, total, &source);
    assert(clip_key(clip) == capture_key(reps0));
    let ghost a0 = store.active();
    let inserted = store.insert_clip(&clip);
    proof {
        let e = IngestEffect::Insert { clip: clip, result: inserted };
        lemma_step(t, e);
        assert(store.calls() =~= s0 + store_calls_of(t.push(e)));
        assert(events.published() =~= e0 + events_of(t.push(e)));
        t = t.push(e);
    }
    match inserted {
        Ok(()) => {
            let ev = Event::ClipCaptured { clip_id: clip.id };
            events.publish(ev);
            proof {
                let e = IngestEffect::Publish(ev);
                lemma_step(t, e);
                assert(store.calls() =~= s0 + store_calls_of(t.push(e)));
                assert(events.published() =~= e0 + events_of(t.push(e)));
                t = t.push(e);
            }
            assert(ingested(reps0, source, t, Ok(())));
            Ok(())
        },
        Err(StoreError::DedupConflict) => {
            let found = store.find_active_by_hash(clip.content_hash.as_str(), clip.primary_mime.as_str());
            proof {
                let e = IngestEffect::FindExisting {
                    content_hash: clip.content_hash@,
                    primary_mime: clip.primary_mime@,
                    found: found,
                };
                lemma_step(t, e);
                assert(store.calls() =~= s0 + store_calls_of(t.push(e)));
                assert(events.published() =~= e0 + events_of(t.push(e)));
                t = t.push(e);
            }
            match found {
                Ok(Some(existing)) => {
                    let touched = store.touch_last_used(existing.id.as_str());
                    proof {
                        let e = IngestEffect::Touch { id: existing.id@, result: touched };
                        lemma_step(t, e);
                        assert(store.calls() =~= s0 + store_calls_of(t.push(e)));
                        assert(events.published() =~= e0 + events_of(t.push(e)));
                        t = t.push(e);
                    }
                    match touched {
                        Ok(()) => {
                            assert(ingested(reps0, source, t, Ok(())));
                            Ok(())
                        },
                        Err(e) => {
                            assert(ingested(reps0, source, t, Err(IngestError::Store(e))));
                            Err(IngestError::Store(e))
                        },
                    }
                },
                Ok(None) => {
                    assert(ingested(reps0, source, t, Ok(())));
                    Ok(())
                },
                Err(e) => {
                    assert(ingested(reps0, source, t, Err(IngestError::Store(e))));
                    Err(IngestError::Store(e))
                },
            }
        },
        Err(e) => {
            assert(ingested(reps0, source, t, Err(IngestError::Store(e))));
            Err(IngestError::Store(e))
        },
    }
}

/// Re-copying content that an earlier ingest stored refreshes that clip:
/// the first ingest announced the clip and left it active under the
/// capture's key; a second ingest of the same representations that got
/// past the rules and succeeded announces nothing, stores no new clip and
/// marks that same clip as used. The requirements are what the two calls
/// of `ingest` ensure, with the store unchanged between them.
pub proof fn lemma_recopy_refreshes_the_stored_clip(
    reps: Seq<ClipRepresentation>,
    a1: Map<(Seq<char>, Seq<char>), Clip>,
    a2: Map<(Seq<char>, Seq<char>), Clip>,
    e0: Seq<Event>,
    e1: Seq<Event>,
    e2: Seq<Event>,
    r2: Result<(), IngestError>,
    passed: bool,
)
    requires
        e1 != e0,
        e1 != e0 ==> a1.contains_key(capture_key(reps)) && e1 == e0.push(
            Event::ClipCaptured { clip_id: a1[capture_key(reps)].id },
        ),
        a1.contains_key(capture_key(reps)) ==> e2 == e1 && a2.dom() == a1.dom(),
        a1.contains_key(capture_key(reps)) && r2 is Ok && passed ==> a2.contains_key(capture_key(reps))
            && a2[capture_key(reps)].id == a1[capture_key(reps)].id && a2[capture_key(reps)].last_used_at is Some,
        r2 is Ok,
        passed,
    ensures
        e2 == e1,
        a2.dom() == a1.dom(),
        e1.last() == (Event::ClipCaptured { clip_id: a2[capture_key(reps)].id }),
        a2[capture_key(reps)].last_used_at is Some,
{
}

/// A capture is stored only when the enabled rules were loaded and none of
/// them excludes it.
pub proof fn lemma_excluded_capture_never_stored(
    reps: Seq<ClipRepresentation>,
    source: Option<AppContext>,
    t: Seq<IngestEffect>,
    r: Result<(), IngestError>,
    i: int,
)
    requires
        ingested(reps, source, t, r),
        0 <= i < t.len(),
        t[i] is Insert,
    ensures
        t[0] matches IngestEffect::LoadRules { rules: Ok(rs) } && !excluded_by(
            normalized_all(reprs_view(reps)),
            rs,
            source,
        ),
{
}

/// Only a newly stored clip is announced: an announcement is a single
/// `ClipCaptured` carrying the id of the clip whose insert succeeded just
/// before it.
pub proof fn lemma_only_stored_clip_announced(
    reps: Seq<ClipRepresentation>,
    source: Option<AppContext>,
    t: Seq<IngestEffect>,
    r: Result<(), IngestError>,
    i: int,
)
    requires
        ingested(reps, source, t, r),
        0 <= i < t.len(),
        t[i] is Publish,
    ensures
        i == 2,
        t[1] matches IngestEffect::Insert { clip, result: Ok(()) } && t[i] == IngestEffect::Publish(
            Event::ClipCaptured { clip_id: clip.id },
        ),
{
}

/// A duplicate capture is never announced, and the stored clip with the
/// same content hash and primary MIME type, when the store finds one, gets
/// its last-used time refreshed.
pub proof fn lemma_duplicate_capture_refreshes(
    reps: Seq<ClipRepresentation>,
    source: Option<AppContext>,
    t: Seq<IngestEffect>,
    r: Result<(), IngestError>,
)
    requires
        ingested(reps, source, t, r),
        t.len() >= 2,
        t[1] matches IngestEffect::Insert { result: Err(StoreError::DedupConflict), .. },
    ensures
        forall|i: int| 0 <= i < t.len() ==> !(#[trigger] t[i] is Publish),
        t[1] matches IngestEffect::Insert { clip, .. } && (t[2] matches IngestEffect::FindExisting {
            content_hash,
            primary_mime,
            found,
        } && content_hash == clip.content_hash@ && primary_mime == clip.primary_mime@ && (found matches Ok(
            Some(existing),
        ) ==> t[3] matches IngestEffect::Touch { id, .. } && id == existing.id@)),
{
}

proof fn lemma_total_size_normalized(a: Seq<ReprView>, b: Seq<ReprView>, k: int)
    requires
        a.len() == b.len(),
        forall|i: int| 0 <= i < a.len() ==> (#[trigger] b[i]).byte_size == a[i].byte_size,
        0 <= k <= a.len(),
    ensures
        total_size(b.subrange(0, k)) == total_size(a.subrange(0, k)),
    decreases k,
{
    if k > 0 {
        lemma_total_size_normalized(a, b, k - 1);
        assert(b.subrange(0, k).drop_last() =~= b.subrange(0, k - 1));
        assert(a.subrange(0, k).drop_last() =~= a.subrange(0, k - 1));
    }
}

} // verus!
