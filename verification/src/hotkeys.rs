//! Global hotkey bindings: parsing, key codes, and registration backends.
use vstd::prelude::*;
use crate::text::{
    copy_str, is_ascii_alnum, is_ascii_alphanumeric, push_char, split_char, split_on, str_eq,
    strings_view, to_ascii_upper, upper_char, lower_char, is_ascii_upper, is_ascii_lower, is_ascii_digit,
};

verus! {

/// A parsed, platform-agnostic hotkey binding (modifiers + one key).
#[derive(Debug, Clone, Copy, PartialEq, Eq, Hash, Structural)]
pub struct HotkeyBinding {
    pub ctrl: bool,
    pub shift: bool,
    pub alt: bool,
    pub super_key: bool,
    pub key: char,
}

#[derive(Debug, Clone, PartialEq, Eq)]
pub enum HotkeyError {
    InvalidBinding(String),
    AlreadyRegistered(HotkeyBinding),
    Unsupported,
    GSettingsFailure(String),
}

pub open spec fn bool_text(b: bool) -> Seq<char> {
    if b {
        "true"@
    } else {
        "false"@
    }
}

/// A key as `{:?}` writes it, for the keys a parsed binding can hold:
/// quoted, with a backslash or a single quote escaped.
pub open spec fn key_debug(c: char) -> Seq<char> {
    if c == '\\' {
        seq!['\'', '\\', '\\', '\'']
    } else if c == '\'' {
        seq!['\'', '\\', '\'', '\'']
    } else {
        seq!['\'', c, '\'']
    }
}

/// A binding as `{:?}` writes it.
pub open spec fn binding_debug(b: HotkeyBinding) -> Seq<char> {
    "HotkeyBinding { ctrl: "@ + bool_text(b.ctrl) + ", shift: "@ + bool_text(b.shift) + ", alt: "@
        + bool_text(b.alt) + ", super_key: "@ + bool_text(b.super_key) + ", key: "@ + key_debug(b.key)
        + " }"@
}

impl HotkeyError {
    pub open spec fn text(&self) -> Seq<char> {
        match self {
            HotkeyError::InvalidBinding(s) => "invalid hotkey binding: '"@ + s@ + "'"@,
            HotkeyError::AlreadyRegistered(b) => "hotkey '"@ + binding_debug(*b) + "' is already registered"@,
            HotkeyError::Unsupported => "hotkey registration is not supported on this compositor"@,
            HotkeyError::GSettingsFailure(s) => "gsettings command failed: "@ + s@,
        }
    }

    /// Renders the error as text. A binding is written as `{:?}` writes it
    /// for the keys a parsed binding can hold (`plain_debug_key`); of other
    /// keys, which `{:?}` may escape further, the text quotes the key itself.
    pub fn message(&self) -> (m: String)
        ensures
            m@ == self.text(),
    {
        match self {
            HotkeyError::InvalidBinding(s) => {
                let mut m = copy_str("invalid hotkey binding: '");
                m.append(s.as_str());
                m.append("'");
                m
            },
            HotkeyError::AlreadyRegistered(b) => {
                let mut m = copy_str("hotkey '");
                let d = binding_debug_string(b);
                m.append(d.as_str());
                m.append("' is already registered");
                m
            },
            HotkeyError::Unsupported => copy_str("hotkey registration is not supported on this compositor"),
            HotkeyError::GSettingsFailure(s) => {
                let mut m = copy_str("gsettings command failed: ");
                m.append(s.as_str());
                m
            },
        }
    }
}

fn key_debug_string(c: char) -> (s: String)
    ensures
        s@ == key_debug(c),
{
    let mut s = String::new();
    push_char(&mut s, '\'');
    if c == '\\' || c == '\'' {
        push_char(&mut s, '\\');
    }
    push_char(&mut s, c);
    push_char(&mut s, '\'');
    assert(s@ =~= key_debug(c));
    s
}

fn binding_debug_string(b: &HotkeyBinding) -> (s: String)
    ensures
        s@ == binding_debug(*b),
{
    let mut s = copy_str("HotkeyBinding { ctrl: ");
    s.append(bool_str(b.ctrl));
    s.append(", shift: ");
    s.append(bool_str(b.shift));
    s.append(", alt: ");
    s.append(bool_str(b.alt));
    s.append(", super_key: ");
    s.append(bool_str(b.super_key));
    s.append(", key: ");
    let k = key_debug_string(b.key);
    s.append(k.as_str());
    s.append(" }");
    s
}

fn bool_str(b: bool) -> (s: &'static str)
    ensures
        s@ == bool_text(b),
{
    if b {
        "true"
    } else {
        "false"
    }
}

/// Punctuation keys with a key code of their own.
pub open spec fn is_punct(c: char) -> bool {
    c == '`' || c == '-' || c == '=' || c == '[' || c == ']' || c == '\\' || c == ',' || c == '.'
        || c == '\'' || c == ';' || c == '/'
}

/// Punctuation keys with a corresponding key code (see `char_to_code`).
pub fn is_supported_punctuation(c: char) -> (b: bool)
    ensures
        b <==> code_of(c) is Some && !is_ascii_alnum(c),
        b == is_punct(c),
{
    c == '`' || c == '-' || c == '=' || c == '[' || c == ']' || c == '\\' || c == ',' || c == '.'
        || c == '\'' || c == ';' || c == '/'
}

/// The state of a binding being parsed: the modifiers seen so far and the
/// key, once one has been given.
pub struct BindingState {
    pub ctrl: bool,
    pub shift: bool,
    pub alt: bool,
    pub super_key: bool,
    pub key: Option<char>,
}

/// Whether a token names a modifier.
pub open spec fn is_modifier_token(tok: Seq<char>) -> bool {
    tok == "Ctrl"@ || tok == "Control"@ || tok == "Shift"@ || tok == "Alt"@ || tok == "Super"@ || tok
        == "Meta"@ || tok == "Cmd"@
}

/// One `+`-separated token applied to the state: a modifier name sets its
/// flag, and modifiers must come before the key; any other token must be a
/// single letter, digit or supported punctuation key, and only one key may
/// be given. `None` marks the binding invalid.
pub open spec fn apply_token(st: BindingState, tok: Seq<char>) -> Option<BindingState> {
    if is_modifier_token(tok) && st.key is Some {
        None
    } else if tok == "Ctrl"@ || tok == "Control"@ {
        Some(BindingState { ctrl: true, ..st })
    } else if tok == "Shift"@ {
        Some(BindingState { shift: true, ..st })
    } else if tok == "Alt"@ {
        Some(BindingState { alt: true, ..st })
    } else if tok == "Super"@ || tok == "Meta"@ || tok == "Cmd"@ {
        Some(BindingState { super_key: true, ..st })
    } else if tok.len() == 1 && (is_ascii_alnum(tok[0]) || is_punct(tok[0])) && st.key is None {
        Some(BindingState { key: Some(upper_char(tok[0])), ..st })
    } else {
        None
    }
}

pub open spec fn empty_state() -> BindingState {
    BindingState { ctrl: false, shift: false, alt: false, super_key: false, key: None }
}

/// The state after all of `tokens`, left to right; `None` once any token
/// is invalid.
pub open spec fn apply_tokens(tokens: Seq<Seq<char>>) -> Option<BindingState>
    decreases tokens.len(),
{
    if tokens.len() == 0 {
        Some(empty_state())
    } else {
        match apply_tokens(tokens.drop_last()) {
            Some(st) => apply_token(st, tokens.last()),
            None => None,
        }
    }
}

/// The binding a specification denotes, if it is valid: its `+`-separated
/// tokens all apply and name exactly one key.
pub open spec fn binding_of(spec: Seq<char>) -> Option<HotkeyBinding> {
    match apply_tokens(split_on(spec, '+')) {
        Some(st) => match st.key {
            Some(k) => Some(
                HotkeyBinding {
                    ctrl: st.ctrl,
                    shift: st.shift,
                    alt: st.alt,
                    super_key: st.super_key,
                    key: k,
                },
            ),
            None => None,
        },
        None => None,
    }
}

/// Parses a binding string like `"Ctrl+Shift+V"` into modifiers + key.
pub fn parse_binding(spec: &str) -> (r: Result<HotkeyBinding, HotkeyError>)
    ensures
        match r {
            Ok(b) => binding_of(spec@) == Some(b),
            Err(e) => binding_of(spec@) is None && (e matches HotkeyError::InvalidBinding(t) && t@
                == spec@),
        },
{
    let tokens = split_char(spec, '+');
    let ghost toks = strings_view(tokens@);
    let mut ctrl = false;
    let mut shift = false;
    let mut alt = false;
    let mut super_key = false;
    let mut key: Option<char> = None;
    let mut i: usize = 0;
    while i < tokens.len()
        invariant
            i <= tokens.len(),
            toks == strings_view(tokens@),
            toks == split_on(spec@, '+'),
            apply_tokens(toks.take(i as int)) == Some(
                BindingState { ctrl, shift, alt, super_key, key },
            ),
        decreases tokens.len() - i,
    {
        let tok = tokens[i].as_str();
        assert(toks.take(i + 1).drop_last() =~= toks.take(i as int));
        assert(toks.take(i + 1).last() == tok@);
        let modifier = str_eq(tok, "Ctrl") || str_eq(tok, "Control") || str_eq(tok, "Shift") || str_eq(tok, "Alt")
            || str_eq(tok, "Super") || str_eq(tok, "Meta") || str_eq(tok, "Cmd");
        if modifier && key.is_some() {
            proof {
                lemma_invalid_stays_invalid(toks, i as int + 1);
            }
            assert(toks.take(toks.len() as int) =~= toks);
            return Err(HotkeyError::InvalidBinding(copy_str(spec)));
        }
        if str_eq(tok, "Ctrl") || str_eq(tok, "Control") {
            ctrl = true;
        } else if str_eq(tok, "Shift") {
            shift = true;
        } else if str_eq(tok, "Alt") {
            alt = true;
        } else if str_eq(tok, "Super") || str_eq(tok, "Meta") || str_eq(tok, "Cmd") {
            super_key = true;
        } else {
            let v = crate::text::chars_of(tok);
            if v.len() == 1 && (is_ascii_alphanumeric(v[0]) || is_supported_punctuation(v[0]))
                && key.is_none() {
                key = Some(to_ascii_upper(v[0]));
            } else {
                proof {
                    lemma_invalid_stays_invalid(toks, i as int + 1);
                }
                assert(toks.take(toks.len() as int) =~= toks);
                return Err(HotkeyError::InvalidBinding(copy_str(spec)));
            }
        }
        i = i + 1;
    }
    assert(toks.take(toks.len() as int) =~= toks);
    match key {
        Some(k) => Ok(HotkeyBinding { ctrl, shift, alt, super_key, key: k }),
        None => Err(HotkeyError::InvalidBinding(copy_str(spec))),
    }
}

/// Once a prefix of the tokens is invalid, every longer prefix is.
proof fn lemma_invalid_stays_invalid(toks: Seq<Seq<char>>, n: int)
    requires
        0 <= n <= toks.len(),
        apply_tokens(toks.take(n)) is None,
    ensures
        apply_tokens(toks) is None,
    decreases toks.len() - n,
{
    if n < toks.len() {
        assert(toks.take(n + 1).drop_last() =~= toks.take(n));
        lemma_invalid_stays_invalid(toks, n + 1);
    } else {
        assert(toks.take(n) =~= toks);
    }
}

/// Whether two tokens mean the same thing in a binding: `Ctrl` and
/// `Control` are one modifier, `Super`, `Meta` and `Cmd` are another, and a
/// single-character key is the same key in either letter case.
pub open spec fn same_meaning(a: Seq<char>, b: Seq<char>) -> bool {
    ||| a == b
    ||| (a == "Ctrl"@ || a == "Control"@) && (b == "Ctrl"@ || b == "Control"@)
    ||| (a == "Super"@ || a == "Meta"@ || a == "Cmd"@) && (b == "Super"@ || b == "Meta"@ || b == "Cmd"@)
    ||| a.len() == 1 && b.len() == 1 && upper_char(a[0]) == upper_char(b[0])
}

proof fn lemma_token_same_meaning(st: BindingState, a: Seq<char>, b: Seq<char>)
    requires
        same_meaning(a, b),
    ensures
        apply_token(st, a) == apply_token(st, b),
{
    reveal_strlit("Ctrl");
    reveal_strlit("Control");
    reveal_strlit("Shift");
    reveal_strlit("Alt");
    reveal_strlit("Super");
    reveal_strlit("Meta");
    reveal_strlit("Cmd");
    if a == b {
    } else if a.len() == 1 && b.len() == 1 {
        let (x, y) = (a[0], b[0]);
        assert(!is_modifier_token(a) && !is_modifier_token(b));
        assert(a != "Ctrl"@ && a != "Control"@ && a != "Shift"@ && a != "Alt"@ && a != "Super"@ && a != "Meta"@ && a != "Cmd"@);
        assert(b != "Ctrl"@ && b != "Control"@ && b != "Shift"@ && b != "Alt"@ && b != "Super"@ && b != "Meta"@ && b != "Cmd"@);
        assert(upper_char(x) == upper_char(y));
        assert((is_ascii_alnum(x) || is_punct(x)) <==> (is_ascii_alnum(y) || is_punct(y)));
    } else if a == "Ctrl"@ || a == "Control"@ {
        assert(b == "Ctrl"@ || b == "Control"@);
    } else {
        assert("Super"@[1] != "Shift"@[1] && "Meta"@[0] != "Ctrl"@[0] && "Cmd"@[0] != "Alt"@[0]);
        assert(a == "Super"@ || a == "Meta"@ || a == "Cmd"@);
        assert(b == "Super"@ || b == "Meta"@ || b == "Cmd"@);
        assert(a != "Ctrl"@ && a != "Control"@ && a != "Shift"@ && a != "Alt"@);
        assert(b != "Ctrl"@ && b != "Control"@ && b != "Shift"@ && b != "Alt"@);
    }
}

/// The state after modifier tokens alone: each flag set exactly when one
/// of its names was given, and no key yet.
pub open spec fn modifiers_state(mods: Seq<Seq<char>>) -> BindingState {
    BindingState {
        ctrl: mods.contains("Ctrl"@) || mods.contains("Control"@),
        shift: mods.contains("Shift"@),
        alt: mods.contains("Alt"@),
        super_key: mods.contains("Super"@) || mods.contains("Meta"@) || mods.contains("Cmd"@),
        key: None,
    }
}

proof fn lemma_modifier_tokens(mods: Seq<Seq<char>>)
    requires
        forall|i: int| 0 <= i < mods.len() ==> is_modifier_token(#[trigger] mods[i]),
    ensures
        apply_tokens(mods) == Some(modifiers_state(mods)),
    decreases mods.len(),
{
    reveal_strlit("Ctrl");
    reveal_strlit("Control");
    reveal_strlit("Shift");
    reveal_strlit("Alt");
    reveal_strlit("Super");
    reveal_strlit("Meta");
    reveal_strlit("Cmd");
    if mods.len() > 0 {
        let d = mods.drop_last();
        let last = mods.last();
        assert forall|i: int| 0 <= i < d.len() implies is_modifier_token(#[trigger] d[i]) by {
            assert(d[i] == mods[i]);
        }
        lemma_modifier_tokens(d);
        assert(is_modifier_token(mods[mods.len() - 1]));
        assert forall|x: Seq<char>| mods.contains(x) <==> d.contains(x) || last == x by {
            if d.contains(x) {
                let k = choose|k: int| 0 <= k < d.len() && d[k] == x;
                assert(mods[k] == x);
            }
            if mods.contains(x) && last != x {
                let k = choose|k: int| 0 <= k < mods.len() && mods[k] == x;
                assert(k < d.len() && d[k] == x);
            }
            if last == x {
                assert(mods[mods.len() - 1] == x);
            }
        }
        assert("Super"@[1] != "Shift"@[1] && "Meta"@[0] != "Ctrl"@[0] && "Cmd"@[0] != "Alt"@[0]);
        let st = modifiers_state(d);
        let now = modifiers_state(mods);
        assert(now.ctrl == (st.ctrl || last == "Ctrl"@ || last == "Control"@));
        assert(now.shift == (st.shift || last == "Shift"@));
        assert(now.alt == (st.alt || last == "Alt"@));
        assert(now.super_key == (st.super_key || last == "Super"@ || last == "Meta"@ || last == "Cmd"@));
        if last == "Ctrl"@ || last == "Control"@ {
            assert(last.len() == 4 || last.len() == 7);
            assert(last[0] == 'C' && last[1] != 'm');
            assert(now == BindingState { ctrl: true, ..st });
        } else if last == "Shift"@ {
            assert(last != "Alt"@ && last != "Super"@ && last != "Meta"@ && last != "Cmd"@);
            assert(now == BindingState { shift: true, ..st });
        } else if last == "Alt"@ {
            assert(last != "Super"@ && last != "Meta"@ && last != "Cmd"@);
            assert(now == BindingState { alt: true, ..st });
        } else {
            assert(now == BindingState { super_key: true, ..st });
        }
        assert(apply_tokens(mods) == apply_token(st, last));
        assert(apply_token(st, last) == Some(now));
    } else {
        assert(!mods.contains("Ctrl"@) && !mods.contains("Control"@) && !mods.contains("Shift"@));
        assert(!mods.contains("Alt"@) && !mods.contains("Super"@) && !mods.contains("Meta"@) && !mods.contains("Cmd"@));
        assert(modifiers_state(mods) == empty_state());
    }
}

/// A binding written as modifier names followed by one key names exactly
/// those modifiers (`Ctrl`/`Control`, `Shift`, `Alt`, `Super`/`Meta`/`Cmd`)
/// and the key in upper case.
pub proof fn lemma_modifiers_then_key(spec: Seq<char>, mods: Seq<Seq<char>>, c: char)
    requires
        forall|i: int| 0 <= i < mods.len() ==> is_modifier_token(#[trigger] mods[i]),
        is_ascii_alnum(c) || is_punct(c),
        split_on(spec, '+') == mods.push(seq![c]),
    ensures
        binding_of(spec) == Some(
            HotkeyBinding {
                ctrl: modifiers_state(mods).ctrl,
                shift: modifiers_state(mods).shift,
                alt: modifiers_state(mods).alt,
                super_key: modifiers_state(mods).super_key,
                key: upper_char(c),
            },
        ),
{
    reveal_strlit("Ctrl");
    reveal_strlit("Control");
    reveal_strlit("Shift");
    reveal_strlit("Alt");
    reveal_strlit("Super");
    reveal_strlit("Meta");
    reveal_strlit("Cmd");
    lemma_modifier_tokens(mods);
    let toks = mods.push(seq![c]);
    assert(toks.drop_last() =~= mods);
    assert(seq![c].len() == 1);
    assert(!is_modifier_token(seq![c]));
}

/// Different keys get different key codes: two characters share a code
/// only when they are the same key (a letter in either case).
pub proof fn lemma_key_codes_are_distinct(a: char, b: char)
    requires
        code_of(a) is Some,
        code_of(a) == code_of(b),
    ensures
        upper_char(a) == upper_char(b),
{
}

/// Every character that has a key code is accepted as a binding's key:
/// after any modifier names, a single such character gives the binding
/// with those modifiers and that key in upper case. With
/// `lemma_parsed_key_has_code`, the keys a binding accepts are exactly the
/// characters `char_to_code` maps.
pub proof fn lemma_every_coded_key_is_accepted(spec: Seq<char>, mods: Seq<Seq<char>>, c: char)
    requires
        forall|i: int| 0 <= i < mods.len() ==> is_modifier_token(#[trigger] mods[i]),
        code_of(c) is Some,
        split_on(spec, '+') == mods.push(seq![c]),
    ensures
        binding_of(spec) matches Some(b) && b.key == upper_char(c) && b.ctrl == modifiers_state(mods).ctrl
            && b.shift == modifiers_state(mods).shift && b.alt == modifiers_state(mods).alt && b.super_key
            == modifiers_state(mods).super_key,
{
    assert(is_ascii_alnum(c) || is_punct(c));
    lemma_modifiers_then_key(spec, mods, c);
}

/// The key's letter case does not matter: after the same modifiers, a
/// letter in lower case and in upper case give the same binding, whose key
/// is the upper-case letter.
pub proof fn lemma_key_case_does_not_matter(lower_spec: Seq<char>, upper_spec: Seq<char>, mods: Seq<Seq<char>>, c: char)
    requires
        forall|i: int| 0 <= i < mods.len() ==> is_modifier_token(#[trigger] mods[i]),
        is_ascii_upper(c) || is_ascii_lower(c),
        split_on(lower_spec, '+') == mods.push(seq![lower_char(c)]),
        split_on(upper_spec, '+') == mods.push(seq![upper_char(c)]),
    ensures
        binding_of(lower_spec) == binding_of(upper_spec),
        binding_of(upper_spec) matches Some(b) && b.key == upper_char(c),
{
    lemma_modifiers_then_key(lower_spec, mods, lower_char(c));
    lemma_modifiers_then_key(upper_spec, mods, upper_char(c));
}

/// Spelling a binding with either name of a modifier, or its key letter in
/// either case, does not change what it denotes: two specifications whose
/// `+`-separated tokens pairwise mean the same (`same_meaning`) denote the
/// same binding, or are both invalid.
pub proof fn lemma_spelling_does_not_matter(a: Seq<char>, b: Seq<char>)
    requires
        split_on(a, '+').len() == split_on(b, '+').len(),
        forall|i: int| 0 <= i < split_on(a, '+').len() ==> same_meaning(#[trigger] split_on(a, '+')[i], split_on(b, '+')[i]),
    ensures
        binding_of(a) == binding_of(b),
{
    lemma_tokens_same_meaning(split_on(a, '+'), split_on(b, '+'));
}

proof fn lemma_tokens_same_meaning(ta: Seq<Seq<char>>, tb: Seq<Seq<char>>)
    requires
        ta.len() == tb.len(),
        forall|i: int| 0 <= i < ta.len() ==> same_meaning(#[trigger] ta[i], tb[i]),
    ensures
        apply_tokens(ta) == apply_tokens(tb),
    decreases ta.len(),
{
    if ta.len() > 0 {
        let (pa, pb) = (ta.drop_last(), tb.drop_last());
        assert forall|i: int| 0 <= i < pa.len() implies same_meaning(#[trigger] pa[i], pb[i]) by {
            assert(same_meaning(ta[i], tb[i]));
        }
        lemma_tokens_same_meaning(pa, pb);
        assert(same_meaning(ta[ta.len() - 1], tb[ta.len() - 1]));
        if let Some(st) = apply_tokens(pa) {
            lemma_token_same_meaning(st, ta.last(), tb.last());
        }
    }
}

/// Physical key codes the global-hotkey backend registers.
#[derive(Debug, Clone, Copy, PartialEq, Eq, Hash, Structural)]
pub enum KeyCode {
    /// A letter key, named by its upper-case letter.
    Key(char),
    /// A digit key.
    Digit(char),
    Backquote,
    Minus,
    Equal,
    BracketLeft,
    BracketRight,
    Backslash,
    Comma,
    Period,
    Quote,
    Semicolon,
    Slash,
}

pub open spec fn code_of(ch: char) -> Option<KeyCode> {
    if is_ascii_upper(ch) || is_ascii_lower(ch) {
        Some(KeyCode::Key(upper_char(ch)))
    } else if is_ascii_digit(ch) {
        Some(KeyCode::Digit(ch))
    } else if ch == '`' {
        Some(KeyCode::Backquote)
    } else if ch == '-' {
        Some(KeyCode::Minus)
    } else if ch == '=' {
        Some(KeyCode::Equal)
    } else if ch == '[' {
        Some(KeyCode::BracketLeft)
    } else if ch == ']' {
        Some(KeyCode::BracketRight)
    } else if ch == '\\' {
        Some(KeyCode::Backslash)
    } else if ch == ',' {
        Some(KeyCode::Comma)
    } else if ch == '.' {
        Some(KeyCode::Period)
    } else if ch == '\'' {
        Some(KeyCode::Quote)
    } else if ch == ';' {
        Some(KeyCode::Semicolon)
    } else if ch == '/' {
        Some(KeyCode::Slash)
    } else {
        None
    }
}

/// The key code for a binding's key character.
pub fn char_to_code(ch: char) -> (r: Result<KeyCode, HotkeyError>)
    ensures
        match r {
            Ok(c) => code_of(ch) == Some(c),
            Err(e) => code_of(ch) is None && (e matches HotkeyError::InvalidBinding(t) && t@ == seq![ch]),
        },
{
    if ('A' <= ch && ch <= 'Z') || ('a' <= ch && ch <= 'z') {
        Ok(KeyCode::Key(to_ascii_upper(ch)))
    } else if '0' <= ch && ch <= '9' {
        Ok(KeyCode::Digit(ch))
    } else if ch == '`' {
        Ok(KeyCode::Backquote)
    } else if ch == '-' {
        Ok(KeyCode::Minus)
    } else if ch == '=' {
        Ok(KeyCode::Equal)
    } else if ch == '[' {
        Ok(KeyCode::BracketLeft)
    } else if ch == ']' {
        Ok(KeyCode::BracketRight)
    } else if ch == '\\' {
        Ok(KeyCode::Backslash)
    } else if ch == ',' {
        Ok(KeyCode::Comma)
    } else if ch == '.' {
        Ok(KeyCode::Period)
    } else if ch == '\'' {
        Ok(KeyCode::Quote)
    } else if ch == ';' {
        Ok(KeyCode::Semicolon)
    } else if ch == '/' {
        Ok(KeyCode::Slash)
    } else {
        let mut t = String::new();
        push_char(&mut t, ch);
        Err(HotkeyError::InvalidBinding(t))
    }
}

/// Every binding that parses has a key with a key code: a parsed binding
/// can always be registered by code.
pub proof fn lemma_parsed_key_has_code(spec: Seq<char>)
    requires
        binding_of(spec) is Some,
    ensures
        code_of(binding_of(spec)->0.key) is Some,
{
    lemma_parsed_key_is_valid(split_on(spec, '+'));
}

proof fn lemma_parsed_key_is_valid(tokens: Seq<Seq<char>>)
    requires
        apply_tokens(tokens) is Some,
    ensures
        apply_tokens(tokens)->0.key matches Some(k) ==> (is_ascii_upper(k) || is_ascii_digit(k)
            || is_punct(k)),
    decreases tokens.len(),
{
    if tokens.len() > 0 {
        lemma_parsed_key_is_valid(tokens.drop_last());
    }
}

/// Registration backend seam: a global-shortcut mechanism that a binding
/// can be registered with. `attempts` records every registration asked of
/// it, with what it reported.
pub trait HotkeyBackend {
    open spec fn attempts(&self) -> Seq<(HotkeyBinding, Result<(), HotkeyError>)> {
        Seq::empty()
    }

    /// Registers `binding`; `callback` is run on each press once it is
    /// registered.
    fn register<F: Fn() + Send + Sync + 'static>(&mut self, binding: HotkeyBinding, callback: F) -> (r: Result<(), HotkeyError>)
        ensures
            final(self).attempts() == old(self).attempts().push((binding, r)),
    ;

    /// Whether this backend has a usable global-shortcut mechanism at all.
    fn is_supported(&self) -> (b: bool)
        default_ensures
            b,
    {
        true
    }
}

/// Hotkey backend for sessions with no usable global-shortcut mechanism:
/// every registration attempt reports `Unsupported`.
pub struct UnsupportedHotkeyBackend {
    pub attempts: Ghost<Seq<(HotkeyBinding, Result<(), HotkeyError>)>>,
}

impl UnsupportedHotkeyBackend {
    pub fn new() -> (b: Self)
        ensures
            b.attempts@ == Seq::<(HotkeyBinding, Result<(), HotkeyError>)>::empty(),
    {
        UnsupportedHotkeyBackend { attempts: Ghost(Seq::empty()) }
    }
}

impl Default for UnsupportedHotkeyBackend {
    fn default() -> (b: Self)
        ensures
            b.attempts@ == Seq::<(HotkeyBinding, Result<(), HotkeyError>)>::empty(),
    {
        UnsupportedHotkeyBackend { attempts: Ghost(Seq::empty()) }
    }
}

impl HotkeyBackend for UnsupportedHotkeyBackend {
    open spec fn attempts(&self) -> Seq<(HotkeyBinding, Result<(), HotkeyError>)> {
        self.attempts@
    }

    fn register<F: Fn() + Send + Sync + 'static>(&mut self, binding: HotkeyBinding, _callback: F) -> (r: Result<(), HotkeyError>)
        ensures
            r == Err::<(), HotkeyError>(HotkeyError::Unsupported),
    {
        proof {
            self.attempts@ = self.attempts@.push((binding, Err(HotkeyError::Unsupported)));
        }
        Err(HotkeyError::Unsupported)
    }

    fn is_supported(&self) -> (b: bool)
        ensures
            !b,
    {
        false
    }
}

} // verus!
