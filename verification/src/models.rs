//! Clip, ClipRepresentation, Group, Rule, AppContext, PasteMode.
use vstd::prelude::*;
use crate::errors::CoreError;
use crate::hashing::{dedup_key, dedup_key_of};
use crate::json::JsonValue;
use crate::text::{copy_opt, copy_str, str_eq};

verus! {

#[derive(Debug, Clone, Copy, PartialEq, Eq, Hash, Structural)]
pub enum PasteMode {
    Auto,
    Rich,
    PlainText,
}

impl Default for PasteMode {
    fn default() -> (m: Self)
        ensures
            m == PasteMode::Auto,
    {
        PasteMode::Auto
    }
}

impl PasteMode {
    /// The name the mode is stored and sent under.
    pub open spec fn name(self) -> Seq<char> {
        match self {
            PasteMode::Auto => "auto"@,
            PasteMode::Rich => "rich"@,
            PasteMode::PlainText => "plain_text"@,
        }
    }

    pub fn as_str(&self) -> (s: &'static str)
        ensures
            s@ == self.name(),
    {
        match self {
            PasteMode::Auto => "auto",
            PasteMode::Rich => "rich",
            PasteMode::PlainText => "plain_text",
        }
    }

    pub open spec fn named(s: Seq<char>) -> Option<PasteMode> {
        if s == "auto"@ {
            Some(PasteMode::Auto)
        } else if s == "rich"@ {
            Some(PasteMode::Rich)
        } else if s == "plain_text"@ {
            Some(PasteMode::PlainText)
        } else {
            None
        }
    }

    /// The mode stored under `s`, if any.
    pub fn from_name(s: &str) -> (m: Option<PasteMode>)
        ensures
            m == PasteMode::named(s@),
    {
        if str_eq(s, "auto") {
            Some(PasteMode::Auto)
        } else if str_eq(s, "rich") {
            Some(PasteMode::Rich)
        } else if str_eq(s, "plain_text") {
            Some(PasteMode::PlainText)
        } else {
            None
        }
    }
}

/// Every mode reads back from its own name.
pub proof fn lemma_paste_mode_name_round_trip(m: PasteMode)
    ensures
        PasteMode::named(m.name()) == Some(m),
{
    reveal_strlit("auto");
    reveal_strlit("rich");
    reveal_strlit("plain_text");
    assert("rich"@[0] != "auto"@[0]);
    assert("plain_text"@.len() != "auto"@.len());
    assert("plain_text"@.len() != "rich"@.len());
}

#[derive(Debug, Clone, PartialEq, Eq)]
pub struct AppContext {
    pub app: String,
    pub window: Option<String>,
}

impl AppContext {
    /// A copy of this context.
    pub fn duplicate(&self) -> (c: Self)
        ensures
            c == *self,
    {
        AppContext { app: self.app.clone(), window: copy_opt(&self.window) }
    }

    pub fn new(app: &str) -> (c: Self)
        ensures
            c.app@ == app@,
            c.window is None,
    {
        AppContext { app: copy_str(app), window: None }
    }

    pub fn with_window(app: &str, window: &str) -> (c: Self)
        ensures
            c.app@ == app@,
            c.window matches Some(w) && w@ == window@,
    {
        AppContext { app: copy_str(app), window: Some(copy_str(window)) }
    }
}

#[derive(Debug, Clone, PartialEq, Eq)]
pub struct Group {
    pub id: String,
    pub name: String,
    pub parent_group_id: Option<String>,
    pub sort_order: i64,
}

impl Group {
    /// A new top-level or nested group; a group cannot be its own parent.
    pub fn new(id: &str, name: &str, parent_group_id: Option<String>) -> (r: Result<Self, CoreError>)
        ensures
            match r {
                Ok(g) => {
                    &&& !(parent_group_id matches Some(p) && p@ == id@)
                    &&& g.id@ == id@
                    &&& g.name@ == name@
                    &&& g.parent_group_id == parent_group_id
                    &&& g.sort_order == 0
                },
                Err(e) => (parent_group_id matches Some(p) && p@ == id@) && (e matches CoreError::InvalidGroupParent(t) && t@ == id@),
            },
    {
        let own_parent = match &parent_group_id {
            Some(p) => str_eq(p.as_str(), id),
            None => false,
        };
        if own_parent {
            return Err(CoreError::InvalidGroupParent(copy_str(id)));
        }
        Ok(Group { id: copy_str(id), name: copy_str(name), parent_group_id, sort_order: 0 })
    }
}

#[derive(Debug, Clone, Copy, PartialEq, Eq, Hash, Structural)]
pub enum RuleAction {
    Exclude,
    Ephemeral,
}

impl RuleAction {
    pub open spec fn name(self) -> Seq<char> {
        match self {
            RuleAction::Exclude => "exclude"@,
            RuleAction::Ephemeral => "ephemeral"@,
        }
    }

    pub fn as_str(&self) -> (s: &'static str)
        ensures
            s@ == self.name(),
    {
        match self {
            RuleAction::Exclude => "exclude",
            RuleAction::Ephemeral => "ephemeral",
        }
    }

    pub open spec fn named(s: Seq<char>) -> Option<RuleAction> {
        if s == "exclude"@ {
            Some(RuleAction::Exclude)
        } else if s == "ephemeral"@ {
            Some(RuleAction::Ephemeral)
        } else {
            None
        }
    }

    pub fn from_name(s: &str) -> (a: Option<RuleAction>)
        ensures
            a == RuleAction::named(s@),
    {
        if str_eq(s, "exclude") {
            Some(RuleAction::Exclude)
        } else if str_eq(s, "ephemeral") {
            Some(RuleAction::Ephemeral)
        } else {
            None
        }
    }
}

/// Every rule action reads back from its own name.
pub proof fn lemma_rule_action_name_round_trip(a: RuleAction)
    ensures
        RuleAction::named(a.name()) == Some(a),
{
    reveal_strlit("exclude");
    reveal_strlit("ephemeral");
    assert("ephemeral"@.len() != "exclude"@.len());
}

#[derive(Debug, Clone, PartialEq, Eq)]
pub struct Rule {
    pub id: String,
    pub app_match: String,
    pub window_match: Option<String>,
    pub mime_match: Option<String>,
    pub action: RuleAction,
    pub enabled: bool,
}

/// A rule applies to a capture when it is enabled, names the capturing
/// application, and (where set) its window title and MIME type.
pub open spec fn rule_matches(rule: Rule, ctx: AppContext, mime: Seq<char>) -> bool {
    &&& rule.enabled
    &&& rule.app_match@ == ctx.app@
    &&& match rule.window_match {
        Some(w) => match ctx.window {
            Some(cw) => cw@ == w@,
            None => false,
        },
        None => true,
    }
    &&& match rule.mime_match {
        Some(m) => m@ == mime,
        None => true,
    }
}

impl Rule {
    pub fn new(
        id: &str,
        app_match: &str,
        window_match: Option<String>,
        mime_match: Option<String>,
        action: RuleAction,
    ) -> (r: Self)
        ensures
            r.id@ == id@,
            r.app_match@ == app_match@,
            r.window_match == window_match,
            r.mime_match == mime_match,
            r.action == action,
            r.enabled,
    {
        Rule {
            id: copy_str(id),
            app_match: copy_str(app_match),
            window_match,
            mime_match,
            action,
            enabled: true,
        }
    }

    pub fn matches(&self, ctx: &AppContext, mime: &str) -> (b: bool)
        ensures
            b == rule_matches(*self, *ctx, mime@),
    {
        if !self.enabled {
            return false;
        }
        if !str_eq(self.app_match.as_str(), ctx.app.as_str()) {
            return false;
        }
        if let Some(window_match) = &self.window_match {
            match &ctx.window {
                Some(w) => {
                    if !str_eq(w.as_str(), window_match.as_str()) {
                        return false;
                    }
                },
                None => {
                    return false;
                },
            }
        }
        if let Some(mime_match) = &self.mime_match {
            if !str_eq(mime_match.as_str(), mime) {
                return false;
            }
        }
        true
    }
}

#[derive(Debug, Clone, PartialEq, Eq)]
pub struct ClipRepresentation {
    pub mime_type: String,
    pub text_value: Option<String>,
    pub blob_path: Option<String>,
    pub preview_text: Option<String>,
    pub width: Option<u32>,
    pub height: Option<u32>,
    pub byte_size: u64,
    pub ordinal: i64,
    pub is_preview: bool,
}

/// The content of a `ClipRepresentation`.
pub struct ReprView {
    pub mime_type: Seq<char>,
    pub text_value: Option<Seq<char>>,
    pub blob_path: Option<Seq<char>>,
    pub preview_text: Option<Seq<char>>,
    pub width: Option<u32>,
    pub height: Option<u32>,
    pub byte_size: u64,
    pub ordinal: i64,
    pub is_preview: bool,
}

pub open spec fn opt_view(s: Option<String>) -> Option<Seq<char>> {
    match s {
        Some(t) => Some(t@),
        None => None,
    }
}

impl View for ClipRepresentation {
    type V = ReprView;

    open spec fn view(&self) -> ReprView {
        ReprView {
            mime_type: self.mime_type@,
            text_value: opt_view(self.text_value),
            blob_path: opt_view(self.blob_path),
            preview_text: opt_view(self.preview_text),
            width: self.width,
            height: self.height,
            byte_size: self.byte_size,
            ordinal: self.ordinal,
            is_preview: self.is_preview,
        }
    }
}

pub open spec fn reprs_view(rs: Seq<ClipRepresentation>) -> Seq<ReprView> {
    rs.map_values(|r: ClipRepresentation| r@)
}

impl ClipRepresentation {
    /// A copy of this representation.
    pub fn duplicate(&self) -> (r: Self)
        ensures
            r == *self,
    {
        ClipRepresentation {
            mime_type: self.mime_type.clone(),
            text_value: copy_opt(&self.text_value),
            blob_path: copy_opt(&self.blob_path),
            preview_text: copy_opt(&self.preview_text),
            width: self.width,
            height: self.height,
            byte_size: self.byte_size,
            ordinal: self.ordinal,
            is_preview: self.is_preview,
        }
    }

    pub fn new(mime_type: &str, ordinal: i64) -> (r: Self)
        ensures
            r.mime_type@ == mime_type@,
            r.text_value is None,
            r.blob_path is None,
            r.preview_text is None,
            r.width is None,
            r.height is None,
            r.byte_size == 0,
            r.ordinal == ordinal,
            !r.is_preview,
    {
        ClipRepresentation {
            mime_type: copy_str(mime_type),
            text_value: None,
            blob_path: None,
            preview_text: None,
            width: None,
            height: None,
            byte_size: 0,
            ordinal,
            is_preview: false,
        }
    }

    pub fn with_text_value(self, text_value: &str) -> (r: Self)
        ensures
            r == (ClipRepresentation { text_value: r.text_value, ..self }),
            r.text_value matches Some(t) && t@ == text_value@,
    {
        ClipRepresentation { text_value: Some(copy_str(text_value)), ..self }
    }

    pub fn with_byte_size(self, byte_size: u64) -> (r: Self)
        ensures
            r == (ClipRepresentation { byte_size, ..self }),
    {
        ClipRepresentation { byte_size, ..self }
    }
}

/// A captured clipboard entry. Times are UTC nanoseconds since the Unix
/// epoch.
#[derive(Debug, Clone, PartialEq)]
pub struct Clip {
    pub id: String,
    pub created_at: i128,
    pub updated_at: i128,
    pub last_used_at: Option<i128>,
    pub source_app: Option<String>,
    pub source_window: Option<String>,
    pub primary_mime: String,
    pub display_text: Option<String>,
    pub content_hash: String,
    pub byte_size: u64,
    pub is_favorite: bool,
    pub is_pinned: bool,
    pub is_deleted: bool,
    pub group_id: Option<String>,
    pub paste_mode_default: PasteMode,
    pub metadata: Option<JsonValue>,
    pub representations: Vec<ClipRepresentation>,
}

/// A fresh clip: created and updated at `now`, never used, from no known
/// source, not favorite, pinned, deleted or grouped, pasted in `Auto` mode.
pub open spec fn is_fresh_clip(
    c: Clip,
    id: Seq<char>,
    content_hash: Seq<char>,
    primary_mime: Seq<char>,
    representations: Seq<ClipRepresentation>,
    now: i128,
) -> bool {
    &&& c.id@ == id
    &&& c.created_at == now
    &&& c.updated_at == now
    &&& c.last_used_at is None
    &&& c.source_app is None
    &&& c.source_window is None
    &&& c.primary_mime@ == primary_mime
    &&& c.display_text is None
    &&& c.content_hash@ == content_hash
    &&& c.byte_size == 0
    &&& !c.is_favorite
    &&& !c.is_pinned
    &&& !c.is_deleted
    &&& c.group_id is None
    &&& c.paste_mode_default == PasteMode::Auto
    &&& c.metadata is None
    &&& c.representations@ == representations
}

impl Clip {
    /// A fresh clip stamped with the current time.
    pub fn new(
        id: &str,
        content_hash: &str,
        primary_mime: &str,
        representations: Vec<ClipRepresentation>,
    ) -> (c: Self)
        ensures
            is_fresh_clip(c, id@, content_hash@, primary_mime@, representations@, c.created_at),
    {
        let now = crate::clock::now_unix_nanos();
        Clip::new_at(id, content_hash, primary_mime, representations, now)
    }

    /// A fresh clip stamped with the given time.
    pub fn new_at(
        id: &str,
        content_hash: &str,
        primary_mime: &str,
        representations: Vec<ClipRepresentation>,
        now: i128,
    ) -> (c: Self)
        ensures
            is_fresh_clip(c, id@, content_hash@, primary_mime@, representations@, now),
    {
        Clip {
            id: copy_str(id),
            created_at: now,
            updated_at: now,
            last_used_at: None,
            source_app: None,
            source_window: None,
            primary_mime: copy_str(primary_mime),
            display_text: None,
            content_hash: copy_str(content_hash),
            byte_size: 0,
            is_favorite: false,
            is_pinned: false,
            is_deleted: false,
            group_id: None,
            paste_mode_default: PasteMode::Auto,
            metadata: None,
            representations,
        }
    }

    pub fn dedup_key(&self) -> (k: String)
        ensures
            k@ == dedup_key_of(self.content_hash@, self.primary_mime@),
    {
        dedup_key(self.content_hash.as_str(), self.primary_mime.as_str())
    }
}

} // verus!
