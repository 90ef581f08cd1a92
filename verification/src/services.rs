//! The daemon's seams: persistence, the display-server backend and the event
//! broadcast, each behind a trait so that the capture and command logic can
//! run against the real implementations or against in-memory ones.
use vstd::prelude::*;
use crate::clipboard::{BackendCapabilities, PlatformError};
use crate::config::AppSettings;
use crate::models::{AppContext, Clip, ClipRepresentation, Group, PasteMode, Rule};
use crate::protocol::Event;
use crate::retention::ClearScope;
use crate::search::SearchFilters;
use crate::store::StoreError;

verus! {

/// What a store call handed back, with a list by its view.
pub open spec fn seq_seen<T>(r: Result<Vec<T>, StoreError>) -> Result<Seq<T>, StoreError> {
    match r {
        Ok(v) => Ok(v@),
        Err(e) => Err(e),
    }
}

/// One call made on a clip store, with what it handed back.
pub enum StoreCall {
    InsertClip { clip: Clip, result: Result<(), StoreError> },
    GetClip { id: Seq<char>, result: Result<Option<Clip>, StoreError> },
    FindActiveByHash { content_hash: Seq<char>, primary_mime: Seq<char>, result: Result<Option<Clip>, StoreError> },
    TouchLastUsed { id: Seq<char>, result: Result<(), StoreError> },
    Search { query: Seq<char>, filters: SearchFilters, result: Result<Seq<Clip>, StoreError> },
    SetPinned { id: Seq<char>, pinned: bool, result: Result<(), StoreError> },
    SetGroup { id: Seq<char>, group_id: Option<Seq<char>>, result: Result<(), StoreError> },
    DeleteClip { id: Seq<char>, result: Result<(), StoreError> },
    ClearHistory { scope: ClearScope, result: Result<Seq<String>, StoreError> },
    ListEnabledRules { result: Result<Seq<Rule>, StoreError> },
    ListRules { result: Result<Seq<Rule>, StoreError> },
    ListGroups { result: Result<Seq<Group>, StoreError> },
    SaveRule { rule: Rule, result: Result<(), StoreError> },
    DeleteRule { id: Seq<char>, result: Result<(), StoreError> },
    GetSettings { result: Result<AppSettings, StoreError> },
    UpdateSettings { settings: AppSettings, result: Result<(), StoreError> },
    Prune { retention_days: Option<u32>, result: Result<usize, StoreError> },
}

/// The key under which at most one active (not deleted) clip is stored:
/// its content hash and primary MIME type.
pub open spec fn clip_key(c: Clip) -> (Seq<char>, Seq<char>) {
    (c.content_hash@, c.primary_mime@)
}

/// `after` is `before` with the clip under each key that has id `id`
/// marked as used, and nothing else changed.
pub open spec fn touched(
    before: Map<(Seq<char>, Seq<char>), Clip>,
    after: Map<(Seq<char>, Seq<char>), Clip>,
    id: Seq<char>,
) -> bool {
    &&& after.dom() == before.dom()
    &&& forall|k: (Seq<char>, Seq<char>)|
        #![trigger after[k]]
        before.dom().contains(k) ==> if before[k].id@ == id {
            after[k].id == before[k].id && after[k].last_used_at is Some
        } else {
            after[k] == before[k]
        }
}

/// Everything the capture, command and retention logic needs from the clip
/// store. `calls` is the record of the calls made on the store so far, with
/// what each handed back; every method adds its own call to it. `active`
/// is the store's active (not deleted) clips by their `clip_key`: the store
/// keeps at most one active clip per key.
pub trait Store {
    open spec fn calls(&self) -> Seq<StoreCall> {
        Seq::empty()
    }

    open spec fn active(&self) -> Map<(Seq<char>, Seq<char>), Clip> {
        Map::empty()
    }

    /// Stores a clip. An active clip is refused while another active clip
    /// has its key; a refused or failed insert changes nothing.
    fn insert_clip(&mut self, clip: &Clip) -> (r: Result<(), StoreError>)
        ensures
            final(self).calls() == old(self).calls().push(StoreCall::InsertClip { clip: *clip, result: r }),
            !clip.is_deleted && old(self).active().contains_key(clip_key(*clip)) ==> r is Err,
            r is Err ==> final(self).active() == old(self).active(),
            r is Ok && !clip.is_deleted ==> final(self).active() == old(self).active().insert(clip_key(*clip), *clip),
    ;

    fn get_clip(&mut self, id: &str) -> (r: Result<Option<Clip>, StoreError>)
        ensures
            final(self).calls() == old(self).calls().push(StoreCall::GetClip { id: id@, result: r }),
            final(self).active() == old(self).active(),
    ;

    /// The active clip with this content hash and primary MIME type.
    fn find_active_by_hash(&mut self, content_hash: &str, primary_mime: &str) -> (r: Result<Option<Clip>, StoreError>)
        ensures
            final(self).calls() == old(self).calls().push(
                StoreCall::FindActiveByHash { content_hash: content_hash@, primary_mime: primary_mime@, result: r },
            ),
            final(self).active() == old(self).active(),
            r matches Ok(found) ==> found == old(self).active().get((content_hash@, primary_mime@)),
    ;

    /// Marks the clip `id` as used now.
    fn touch_last_used(&mut self, id: &str) -> (r: Result<(), StoreError>)
        ensures
            final(self).calls() == old(self).calls().push(StoreCall::TouchLastUsed { id: id@, result: r }),
            r is Err ==> final(self).active() == old(self).active(),
            r is Ok ==> touched(old(self).active(), final(self).active(), id@),
    ;

    fn search(&mut self, query: &str, filters: &SearchFilters) -> (r: Result<Vec<Clip>, StoreError>)
        ensures
            final(self).calls() == old(self).calls().push(
                StoreCall::Search { query: query@, filters: *filters, result: seq_seen(r) },
            ),
    ;

    fn set_pinned(&mut self, id: &str, pinned: bool) -> (r: Result<(), StoreError>)
        ensures
            final(self).calls() == old(self).calls().push(StoreCall::SetPinned { id: id@, pinned, result: r }),
    ;

    fn set_group(&mut self, id: &str, group_id: Option<&str>) -> (r: Result<(), StoreError>)
        ensures
            final(self).calls() == old(self).calls().push(
                StoreCall::SetGroup {
                    id: id@,
                    group_id: match group_id {
                        Some(g) => Some(g@),
                        None => None,
                    },
                    result: r,
                },
            ),
    ;

    fn delete_clip(&mut self, id: &str) -> (r: Result<(), StoreError>)
        ensures
            final(self).calls() == old(self).calls().push(StoreCall::DeleteClip { id: id@, result: r }),
    ;

    /// Removes what `scope` covers and returns the removed clips' ids.
    fn clear_history(&mut self, scope: ClearScope) -> (r: Result<Vec<String>, StoreError>)
        ensures
            final(self).calls() == old(self).calls().push(StoreCall::ClearHistory { scope, result: seq_seen(r) }),
    ;

    fn list_enabled_rules(&mut self) -> (r: Result<Vec<Rule>, StoreError>)
        ensures
            final(self).calls() == old(self).calls().push(StoreCall::ListEnabledRules { result: seq_seen(r) }),
            final(self).active() == old(self).active(),
    ;

    fn list_rules(&mut self) -> (r: Result<Vec<Rule>, StoreError>)
        ensures
            final(self).calls() == old(self).calls().push(StoreCall::ListRules { result: seq_seen(r) }),
    ;

    fn list_groups(&mut self) -> (r: Result<Vec<Group>, StoreError>)
        ensures
            final(self).calls() == old(self).calls().push(StoreCall::ListGroups { result: seq_seen(r) }),
    ;

    fn save_rule(&mut self, rule: &Rule) -> (r: Result<(), StoreError>)
        ensures
            final(self).calls() == old(self).calls().push(StoreCall::SaveRule { rule: *rule, result: r }),
    ;

    fn delete_rule(&mut self, id: &str) -> (r: Result<(), StoreError>)
        ensures
            final(self).calls() == old(self).calls().push(StoreCall::DeleteRule { id: id@, result: r }),
    ;

    fn get_settings(&mut self) -> (r: Result<AppSettings, StoreError>)
        ensures
            final(self).calls() == old(self).calls().push(StoreCall::GetSettings { result: r }),
    ;

    fn update_settings(&mut self, settings: &AppSettings) -> (r: Result<(), StoreError>)
        ensures
            final(self).calls() == old(self).calls().push(StoreCall::UpdateSettings { settings: *settings, result: r }),
    ;

    /// Removes unpinned clips older than the retention window; returns how
    /// many were removed.
    fn prune(&mut self, retention_days: Option<u32>) -> (r: Result<usize, StoreError>)
        ensures
            final(self).calls() == old(self).calls().push(StoreCall::Prune { retention_days, result: r }),
    ;
}

/// One call made on a display-server backend, with what it handed back.
pub enum BackendCall {
    FocusedApp { result: Option<AppContext> },
    SimulatePaste { representations: Seq<ClipRepresentation>, mode: PasteMode, result: Result<(), PlatformError> },
    CopyToClipboard { representations: Seq<ClipRepresentation>, result: Result<(), PlatformError> },
    Capabilities { result: BackendCapabilities },
}

/// Everything the daemon needs from a display-server adapter besides its
/// capture loop: focus, paste and capability reporting. `calls` is the
/// record of the calls made on it so far.
pub trait Backend {
    open spec fn calls(&self) -> Seq<BackendCall> {
        Seq::empty()
    }

    fn focused_app(&mut self) -> (r: Option<AppContext>)
        ensures
            final(self).calls() == old(self).calls().push(BackendCall::FocusedApp { result: r }),
    ;

    fn simulate_paste(&mut self, representations: &[ClipRepresentation], mode: PasteMode) -> (r: Result<(), PlatformError>)
        ensures
            final(self).calls() == old(self).calls().push(
                BackendCall::SimulatePaste { representations: representations@, mode, result: r },
            ),
    ;

    /// Places a clip's plain-text content on the clipboard only, with no
    /// focused-window lookup and no key synthesis.
    fn copy_to_clipboard(&mut self, representations: &[ClipRepresentation]) -> (r: Result<(), PlatformError>)
        ensures
            final(self).calls() == old(self).calls().push(
                BackendCall::CopyToClipboard { representations: representations@, result: r },
            ),
    ;

    fn capabilities(&mut self) -> (r: BackendCapabilities)
        ensures
            final(self).calls() == old(self).calls().push(BackendCall::Capabilities { result: r }),
    ;
}

/// The broadcast side of the IPC server. `published` is every event
/// published so far, in order.
pub trait EventPublisher {
    open spec fn published(&self) -> Seq<Event> {
        Seq::empty()
    }

    fn publish(&mut self, event: Event)
        ensures
            final(self).published() == old(self).published().push(event),
    ;
}

} // verus!
