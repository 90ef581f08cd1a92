//! GNOME custom-keybinding hotkey backend: GNOME Shell owns the shortcut and
//! runs an external trigger command on keypress, configured through the
//! `gsettings` key/value store.
use vstd::prelude::*;
use crate::x11::followed_by;
use crate::hotkeys::{HotkeyBackend, HotkeyBinding, HotkeyError};
use crate::text::{is_ws, in_class};
use crate::text::{
    CharClass, chars_of, copy_str, lower_char, skip_back, skip_front, skip_prefix_all, split_char,
    split_on, str_eq, string_of, strings_view, strip_prefix_all, to_ascii_lower, trim_cls,
    trim_end_cls, trim_start_cls,
};

verus! {

pub const KEYBINDINGS_SCHEMA: &'static str = "org.gnome.settings-daemon.plugins.media-keys";

pub const KEYBINDINGS_KEY: &'static str = "custom-keybindings";

pub const CHILD_SCHEMA: &'static str = "org.gnome.settings-daemon.plugins.media-keys.custom-keybinding";

pub const ENTRY_PATH: &'static str = "/org/gnome/settings-daemon/plugins/media-keys/custom-keybindings/clipdeck/";

pub const ENTRY_NAME: &'static str = "ClipDeck";

/// Seam over the `gsettings` store. `schema` may include a `:PATH` suffix
/// for relocatable schemas.
/// `calls` is the record of the calls made on the runner so far, with what
/// each reported.
pub trait GSettingsRunner {
    open spec fn calls(&self) -> Seq<GSettingsCall> {
        Seq::empty()
    }

    fn get(&mut self, schema: &str, key: &str) -> (r: Result<String, HotkeyError>)
        ensures
            final(self).calls() == old(self).calls().push(
                GSettingsCall::Read { schema: schema@, key: key@, result: got(r) },
            ),
    ;

    fn set(&mut self, schema: &str, key: &str, value: &str) -> (r: Result<(), HotkeyError>)
        ensures
            final(self).calls() == old(self).calls().push(
                GSettingsCall::Write { schema: schema@, key: key@, value: value@, result: r },
            ),
    ;
}

/// Registers bindings as GNOME custom keybindings. `attempts` records the
/// registrations asked of it as a `HotkeyBackend`.
pub struct GSettingsHotkeyBackend<R: GSettingsRunner> {
    pub runner: R,
    pub trigger_command: String,
    pub attempts: Ghost<Seq<(HotkeyBinding, Result<(), HotkeyError>)>>,
}

impl<R: GSettingsRunner> GSettingsHotkeyBackend<R> {
    pub fn new(runner: R, trigger_command: &str) -> (b: Self)
        ensures
            b.runner == runner,
            b.trigger_command@ == trigger_command@,
            b.attempts@ == Seq::<(HotkeyBinding, Result<(), HotkeyError>)>::empty(),
    {
        GSettingsHotkeyBackend { runner, trigger_command: copy_str(trigger_command), attempts: Ghost(Seq::empty()) }
    }
}

/// The text between the brackets of an array as `gsettings get` prints it
/// (`@as []`, `[]`, `['/a/', '/b/']`): trimmed, with any leading `@as`
/// type annotations, leading `[`s and trailing `]`s removed.
pub open spec fn array_inner(raw: Seq<char>) -> Seq<char> {
    let a = trim_cls(raw, CharClass::Whitespace);
    let b = trim_cls(strip_prefix_all(a, "@as"@), CharClass::Whitespace);
    trim_cls(
        trim_end_cls(trim_start_cls(b, CharClass::Only('[')), CharClass::Only(']')),
        CharClass::Whitespace,
    )
}

/// One array element: trimmed, then with its quotes removed.
pub open spec fn array_item(piece: Seq<char>) -> Seq<char> {
    trim_cls(trim_cls(piece, CharClass::Whitespace), CharClass::Only('\''))
}

/// The elements of a printed string array: the comma-separated pieces of
/// its inner text, each unquoted; none when the inner text is empty.
pub open spec fn parse_array(raw: Seq<char>) -> Seq<Seq<char>> {
    let inner = array_inner(raw);
    if inner.len() == 0 {
        Seq::empty()
    } else {
        split_on(inner, ',').map_values(|p: Seq<char>| array_item(p))
    }
}

/// Parses the string representation `gsettings get` prints for an array of
/// strings into its elements.
pub fn parse_string_array(raw: &str) -> (items: Vec<String>)
    ensures
        strings_view(items@) == parse_array(raw@),
{
    let v = chars_of(raw);
    let n = v.len();
    let a = skip_front(&v, 0, n, CharClass::Whitespace);
    let b = skip_back(&v, a, n, CharClass::Whitespace);
    let at = chars_of("@as");
    let c = skip_prefix_all(&v, a, b, &at);
    let d = skip_front(&v, c, b, CharClass::Whitespace);
    let e = skip_back(&v, d, b, CharClass::Whitespace);
    let f = skip_front(&v, d, e, CharClass::Only('['));
    let g = skip_back(&v, f, e, CharClass::Only(']'));
    let h = skip_front(&v, f, g, CharClass::Whitespace);
    let k = skip_back(&v, h, g, CharClass::Whitespace);
    assert(v@.subrange(0, n as int) =~= v@);
    assert(v@.subrange(a as int, b as int) == trim_cls(raw@, CharClass::Whitespace));
    assert(v@.subrange(d as int, e as int) == trim_cls(
        strip_prefix_all(trim_cls(raw@, CharClass::Whitespace), "@as"@),
        CharClass::Whitespace,
    ));
    assert(v@.subrange(h as int, k as int) == array_inner(raw@));
    let mut items: Vec<String> = Vec::new();
    if h == k {
        assert(strings_view(items@) =~= parse_array(raw@));
        return items;
    }
    let inner = string_of(&v, h, k);
    let pieces = split_char(inner.as_str(), ',');
    let ghost ps = strings_view(pieces@);
    let mut i: usize = 0;
    while i < pieces.len()
        invariant
            i <= pieces.len(),
            ps == strings_view(pieces@),
            ps == split_on(array_inner(raw@), ','),
            strings_view(items@) == ps.take(i as int).map_values(|p: Seq<char>| array_item(p)),
        decreases pieces.len() - i,
    {
        let pv = chars_of(pieces[i].as_str());
        let m = pv.len();
        let p1 = skip_front(&pv, 0, m, CharClass::Whitespace);
        let p2 = skip_back(&pv, p1, m, CharClass::Whitespace);
        let p3 = skip_front(&pv, p1, p2, CharClass::Only('\''));
        let p4 = skip_back(&pv, p3, p2, CharClass::Only('\''));
        assert(pv@.subrange(0, m as int) =~= pv@);
        let item = string_of(&pv, p3, p4);
        assert(item@ == array_item(ps[i as int]));
        let ghost before = items@;
        items.push(item);
        assert(strings_view(items@) =~= strings_view(before).push(array_item(ps[i as int])));
        assert(ps.take(i + 1).map_values(|p: Seq<char>| array_item(p)) =~= ps.take(
            i as int,
        ).map_values(|p: Seq<char>| array_item(p)).push(array_item(ps[i as int])));
        i = i + 1;
    }
    assert(ps.take(ps.len() as int) =~= ps);
    items
}

pub open spec fn quote(item: Seq<char>) -> Seq<char> {
    "'"@ + item + "'"@
}

/// The quoted items joined by `", "`.
pub open spec fn quoted_join(items: Seq<Seq<char>>) -> Seq<char>
    decreases items.len(),
{
    if items.len() == 0 {
        Seq::empty()
    } else if items.len() == 1 {
        quote(items[0])
    } else {
        quoted_join(items.drop_last()) + ", "@ + quote(items.last())
    }
}

/// A string array as `gsettings set` accepts it: `['a', 'b']`.
pub open spec fn format_array(items: Seq<Seq<char>>) -> Seq<char> {
    "["@ + quoted_join(items) + "]"@
}

pub fn format_string_array(items: &Vec<String>) -> (s: String)
    ensures
        s@ == format_array(strings_view(items@)),
{
    let ghost iv = strings_view(items@);
    let mut body = String::new();
    let mut i: usize = 0;
    while i < items.len()
        invariant
            i <= items.len(),
            iv == strings_view(items@),
            body@ == quoted_join(iv.take(i as int)),
        decreases items.len() - i,
    {
        assert(iv.take(i + 1).drop_last() =~= iv.take(i as int));
        assert(iv[i as int] == items@[i as int]@);
        if i > 0 {
            body.append(", ");
        }
        body.append("'");
        body.append(items[i].as_str());
        body.append("'");
        i = i + 1;
    }
    assert(iv.take(iv.len() as int) =~= iv);
    let mut s = copy_str("[");
    s.append(body.as_str());
    s.append("]");
    s
}

/// The GTK accelerator keysym name of a key: punctuation keys go by name,
/// letters and digits by themselves.
pub open spec fn keysym_of(key: char) -> Seq<char> {
    if key == '`' {
        "grave"@
    } else if key == '-' {
        "minus"@
    } else if key == '=' {
        "equal"@
    } else if key == '[' {
        "bracketleft"@
    } else if key == ']' {
        "bracketright"@
    } else if key == '\\' {
        "backslash"@
    } else if key == ',' {
        "comma"@
    } else if key == '.' {
        "period"@
    } else if key == '\'' {
        "apostrophe"@
    } else if key == ';' {
        "semicolon"@
    } else if key == '/' {
        "slash"@
    } else {
        seq![key]
    }
}

pub fn keysym_name(key: char) -> (name: String)
    ensures
        name@ == keysym_of(key),
{
    if key == '`' {
        copy_str("grave")
    } else if key == '-' {
        copy_str("minus")
    } else if key == '=' {
        copy_str("equal")
    } else if key == '[' {
        copy_str("bracketleft")
    } else if key == ']' {
        copy_str("bracketright")
    } else if key == '\\' {
        copy_str("backslash")
    } else if key == ',' {
        copy_str("comma")
    } else if key == '.' {
        copy_str("period")
    } else if key == '\'' {
        copy_str("apostrophe")
    } else if key == ';' {
        copy_str("semicolon")
    } else if key == '/' {
        copy_str("slash")
    } else {
        let mut s = String::new();
        crate::text::push_char(&mut s, key);
        s
    }
}

pub open spec fn flag(on: bool, text: Seq<char>) -> Seq<char> {
    if on {
        text
    } else {
        Seq::empty()
    }
}

/// The GTK accelerator of a binding, e.g. `<Control><Shift>v`.
pub open spec fn accelerator_of(b: HotkeyBinding) -> Seq<char> {
    flag(b.ctrl, "<Control>"@) + flag(b.shift, "<Shift>"@) + flag(b.alt, "<Alt>"@) + flag(
        b.super_key,
        "<Super>"@,
    ) + keysym_of(lower_char(b.key))
}

pub fn binding_to_accelerator(binding: &HotkeyBinding) -> (a: String)
    ensures
        a@ == accelerator_of(*binding),
{
    let mut accelerator = String::new();
    if binding.ctrl {
        accelerator.append("<Control>");
    }
    if binding.shift {
        accelerator.append("<Shift>");
    }
    if binding.alt {
        accelerator.append("<Alt>");
    }
    if binding.super_key {
        accelerator.append("<Super>");
    }
    let name = keysym_name(to_ascii_lower(binding.key));
    accelerator.append(name.as_str());
    accelerator
}

/// One `gsettings set` call.
#[derive(Debug, Clone, PartialEq, Eq)]
pub struct SettingWrite {
    pub schema: String,
    pub key: String,
    pub value: String,
}

pub open spec fn write_view(w: SettingWrite) -> (Seq<char>, Seq<char>, Seq<char>) {
    (w.schema@, w.key@, w.value@)
}

pub open spec fn writes_view(ws: Seq<SettingWrite>) -> Seq<(Seq<char>, Seq<char>, Seq<char>)> {
    ws.map_values(|w: SettingWrite| write_view(w))
}

pub open spec fn child_schema() -> Seq<char> {
    CHILD_SCHEMA@ + ":"@ + ENTRY_PATH@
}

/// The writes that register `binding` to run `command`, given the printed
/// keybinding list: the list gains the entry's path unless it already holds
/// it; then the entry's name, command and binding are set.
pub open spec fn registration_plan(existing: Seq<char>, command: Seq<char>, binding: HotkeyBinding) -> Seq<
    (Seq<char>, Seq<char>, Seq<char>),
> {
    let paths = parse_array(existing);
    let list_writes = if paths.contains(ENTRY_PATH@) {
        Seq::empty()
    } else {
        seq![(KEYBINDINGS_SCHEMA@, KEYBINDINGS_KEY@, format_array(paths.push(ENTRY_PATH@)))]
    };
    list_writes + seq![
        (child_schema(), "name"@, quote(ENTRY_NAME@)),
        (child_schema(), "command"@, quote(command)),
        (child_schema(), "binding"@, quote(accelerator_of(binding))),
    ]
}

fn quoted(s: &str) -> (q: String)
    ensures
        q@ == quote(s@),
{
    let mut q = copy_str("'");
    q.append(s);
    q.append("'");
    q
}

fn contains_string(items: &Vec<String>, s: &str) -> (b: bool)
    ensures
        b == strings_view(items@).contains(s@),
{
    let mut i: usize = 0;
    while i < items.len()
        invariant
            i <= items.len(),
            forall|j: int| 0 <= j < i ==> strings_view(items@)[j] != s@,
        decreases items.len() - i,
    {
        if str_eq(items[i].as_str(), s) {
            assert(strings_view(items@)[i as int] == s@);
            return true;
        }
        i = i + 1;
    }
    false
}

fn write(schema: &str, key: &str, value: String) -> (w: SettingWrite)
    ensures
        write_view(w) == (schema@, key@, value@),
{
    SettingWrite { schema: copy_str(schema), key: copy_str(key), value }
}

/// The `gsettings set` calls that register `binding` as a custom
/// keybinding running `trigger_command`, given the current keybinding list
/// as `gsettings get` printed it.
pub fn registration_writes(existing: &str, trigger_command: &str, binding: &HotkeyBinding) -> (ws: Vec<
    SettingWrite,
>)
    ensures
        writes_view(ws@) == registration_plan(existing@, trigger_command@, *binding),
{
    let mut paths = parse_string_array(existing);
    let mut ws: Vec<SettingWrite> = Vec::new();
    let ghost parsed = strings_view(paths@);
    if !contains_string(&paths, ENTRY_PATH) {
        paths.push(copy_str(ENTRY_PATH));
        assert(strings_view(paths@) =~= parsed.push(ENTRY_PATH@));
        ws.push(write(KEYBINDINGS_SCHEMA, KEYBINDINGS_KEY, format_string_array(&paths)));
    }
    let mut child = copy_str(CHILD_SCHEMA);
    child.append(":");
    child.append(ENTRY_PATH);
    ws.push(write(child.as_str(), "name", quoted(ENTRY_NAME)));
    ws.push(write(child.as_str(), "command", quoted(trigger_command)));
    let accel = binding_to_accelerator(binding);
    ws.push(write(child.as_str(), "binding", quoted(accel.as_str())));
    assert(writes_view(ws@) =~= registration_plan(existing@, trigger_command@, *binding));
    ws
}

/// An array element that survives printing and parsing: no comma, and no
/// quote at either end.
pub open spec fn plain_item(x: Seq<char>) -> bool {
    &&& !x.contains(',')
    &&& x.len() > 0 ==> x[0] != '\'' && x.last() != '\''
}

/// The comma-separated pieces of a printed array's inner text: the first
/// element quoted, every later one quoted after the space of `", "`.
pub open spec fn joined_pieces(items: Seq<Seq<char>>) -> Seq<Seq<char>> {
    Seq::new(items.len(), |i: int| if i == 0 { quote(items[0]) } else { " "@ + quote(items[i]) })
}

proof fn lemma_split_without_sep(b: Seq<char>, sep: char)
    requires
        !b.contains(sep),
    ensures
        split_on(b, sep) == seq![b],
    decreases b.len(),
{
    if b.len() == 0 {
        assert(b =~= Seq::<char>::empty());
    } else {
        let init = b.drop_last();
        assert(!init.contains(sep)) by {
            if init.contains(sep) {
                let k = choose|k: int| 0 <= k < init.len() && init[k] == sep;
                assert(b[k] == sep);
            }
        }
        lemma_split_without_sep(init, sep);
        assert(b.last() != sep) by {
            assert(b[b.len() - 1] == b.last());
        }
        let prev = split_on(init, sep);
        assert(prev == seq![init]);
        assert(split_on(b, sep) == prev.update(prev.len() - 1, prev.last().push(b.last())));
        assert(init.push(b.last()) =~= b);
        assert(split_on(b, sep) =~= seq![b]);
    }
}

proof fn lemma_split_after_sep(a: Seq<char>, b: Seq<char>, sep: char)
    requires
        !b.contains(sep),
    ensures
        split_on(a + seq![sep] + b, sep) == split_on(a, sep).push(b),
    decreases b.len(),
{
    let s = a + seq![sep] + b;
    if b.len() == 0 {
        assert(s.drop_last() =~= a);
        assert(s.last() == sep);
        assert(b =~= Seq::<char>::empty());
        assert(split_on(s, sep) == split_on(s.drop_last(), sep).push(Seq::<char>::empty()));
    } else {
        let init = b.drop_last();
        assert(!init.contains(sep)) by {
            if init.contains(sep) {
                let k = choose|k: int| 0 <= k < init.len() && init[k] == sep;
                assert(b[k] == sep);
            }
        }
        lemma_split_after_sep(a, init, sep);
        assert(s.drop_last() =~= a + seq![sep] + init);
        assert(s.last() == b.last());
        assert(b.last() != sep) by {
            assert(b[b.len() - 1] == b.last());
        }
        let prev = split_on(s.drop_last(), sep);
        assert(prev == split_on(a, sep).push(init));
        assert(split_on(s, sep) == prev.update(prev.len() - 1, prev.last().push(s.last())));
        assert(init.push(b.last()) =~= b);
        assert(split_on(s, sep) =~= split_on(a, sep).push(b));
    }
}

proof fn lemma_quote_without_comma(x: Seq<char>)
    requires
        !x.contains(','),
    ensures
        !quote(x).contains(','),
        !(" "@ + quote(x)).contains(','),
{
    reveal_strlit("'");
    reveal_strlit(" ");
    if quote(x).contains(',') {
        let k = choose|k: int| 0 <= k < quote(x).len() && quote(x)[k] == ',';
        assert(x[k - 1] == ',');
    }
    if (" "@ + quote(x)).contains(',') {
        let k = choose|k: int| 0 <= k < (" "@ + quote(x)).len() && (" "@ + quote(x))[k] == ',';
        assert(quote(x)[k - 1] == ',');
    }
}

proof fn lemma_split_joined(items: Seq<Seq<char>>)
    requires
        items.len() > 0,
        forall|i: int| 0 <= i < items.len() ==> plain_item(#[trigger] items[i]),
    ensures
        split_on(quoted_join(items), ',') == joined_pieces(items),
    decreases items.len(),
{
    reveal_strlit(", ");
    reveal_strlit(" ");
    if items.len() == 1 {
        lemma_quote_without_comma(items[0]);
        lemma_split_without_sep(quote(items[0]), ',');
        assert(joined_pieces(items) =~= seq![quote(items[0])]);
    } else {
        let init = items.drop_last();
        assert forall|i: int| 0 <= i < init.len() implies plain_item(#[trigger] init[i]) by {
            assert(init[i] == items[i]);
        }
        lemma_split_joined(init);
        lemma_quote_without_comma(items.last());
        let tail = " "@ + quote(items.last());
        assert(quoted_join(items) =~= quoted_join(init) + seq![','] + tail);
        lemma_split_after_sep(quoted_join(init), tail, ',');
        assert(joined_pieces(items) =~= joined_pieces(init).push(tail));
    }
}

proof fn lemma_item_of_piece(x: Seq<char>)
    requires
        plain_item(x),
    ensures
        array_item(quote(x)) == x,
        array_item(" "@ + quote(x)) == x,
{
    reveal_strlit("'");
    reveal_strlit(" ");
    let ws = CharClass::Whitespace;
    let qc = CharClass::Only('\'');
    let q = quote(x);
    assert(q[0] == '\'' && q.last() == '\'');
    assert(!in_class(ws, q[0]));
    assert(!in_class(ws, q.last()));
    assert(trim_start_cls(q, ws) == q);
    assert(trim_end_cls(q, ws) == q);
    assert(trim_cls(q, ws) == q);
    let sq = " "@ + q;
    assert(in_class(ws, sq[0]));
    assert(sq.drop_first() =~= q);
    assert(trim_start_cls(sq, ws) == q);
    assert(trim_cls(sq, ws) == q);
    let t = q.drop_first();
    assert(t =~= x + "'"@);
    assert(in_class(qc, q[0]));
    assert(trim_start_cls(q, qc) == trim_start_cls(t, qc));
    if x.len() == 0 {
        assert(t[0] == '\'');
        assert(in_class(qc, t[0]));
        assert(t.drop_first() =~= Seq::<char>::empty());
        assert(trim_start_cls(t.drop_first(), qc) == t.drop_first());
        assert(trim_start_cls(t, qc) == t.drop_first());
        assert(trim_end_cls(Seq::<char>::empty(), qc) == Seq::<char>::empty());
        assert(array_item(q) =~= x);
    } else {
        assert(t[0] == x[0]);
        assert(!in_class(qc, t[0]));
        assert(trim_start_cls(t, qc) == t);
        assert(t.last() == '\'');
        assert(in_class(qc, t.last()));
        assert(t.drop_last() =~= x);
        assert(x[x.len() - 1] == x.last());
        assert(!in_class(qc, x.last()));
        assert(trim_end_cls(x, qc) == x);
        assert(trim_end_cls(t, qc) == trim_end_cls(t.drop_last(), qc));
        assert(trim_end_cls(t, qc) == x);
        assert(array_item(q) == x);
    }
}

proof fn lemma_inner_of_format(items: Seq<Seq<char>>)
    requires
        items.len() > 0,
    ensures
        array_inner(format_array(items)) == quoted_join(items),
{
    reveal_strlit("[");
    reveal_strlit("]");
    reveal_strlit("@as");
    let ws = CharClass::Whitespace;
    let qj = quoted_join(items);
    lemma_quoted_join_ends(items);
    let raw = format_array(items);
    assert(raw[0] == '[');
    assert(raw.last() == ']');
    assert(!in_class(ws, raw[0]) && !in_class(ws, raw.last()));
    assert(trim_start_cls(raw, ws) == raw);
    assert(trim_end_cls(raw, ws) == raw);
    assert(trim_cls(raw, ws) == raw);
    assert(raw.take(3)[0] == '[');
    assert(raw.take(3) != "@as"@);
    assert(strip_prefix_all(raw, "@as"@) == raw);
    let open = CharClass::Only('[');
    let close = CharClass::Only(']');
    let body = qj + "]"@;
    assert(raw.drop_first() =~= body);
    assert(in_class(open, raw[0]));
    assert(body[0] == qj[0]);
    assert(!in_class(open, body[0]));
    assert(trim_start_cls(body, open) == body);
    assert(trim_start_cls(raw, open) == body);
    assert(body.last() == ']');
    assert(in_class(close, body.last()));
    assert(body.drop_last() =~= qj);
    assert(qj[qj.len() - 1] == qj.last());
    assert(!in_class(close, qj.last()));
    assert(trim_end_cls(qj, close) == qj);
    assert(trim_end_cls(body, close) == qj);
    assert(!in_class(ws, qj[0]) && !in_class(ws, qj.last()));
    assert(trim_start_cls(qj, ws) == qj);
    assert(trim_end_cls(qj, ws) == qj);
    assert(trim_cls(qj, ws) == qj);
}

proof fn lemma_quoted_join_ends(items: Seq<Seq<char>>)
    requires
        items.len() > 0,
    ensures
        quoted_join(items).len() >= 2,
        quoted_join(items)[0] == '\'',
        quoted_join(items).last() == '\'',
    decreases items.len(),
{
    reveal_strlit("'");
    reveal_strlit(", ");
    if items.len() > 1 {
        lemma_quoted_join_ends(items.drop_last());
        let a = quoted_join(items.drop_last());
        assert((a + ", "@ + quote(items.last()))[0] == a[0]);
    }
}

/// Printing a list of elements as a `gsettings` string array and parsing the
/// printed text back gives the same list, for elements without commas that
/// neither start nor end with a quote.
pub proof fn lemma_array_round_trip(items: Seq<Seq<char>>)
    requires
        forall|i: int| 0 <= i < items.len() ==> plain_item(#[trigger] items[i]),
    ensures
        parse_array(format_array(items)) == items,
{
    reveal_strlit("[");
    reveal_strlit("]");
    reveal_strlit("@as");
    if items.len() == 0 {
        let ws = CharClass::Whitespace;
        let raw = format_array(items);
        assert(quoted_join(items) =~= Seq::<char>::empty());
        assert(raw =~= seq!['[', ']']);
        assert(!in_class(ws, raw[0]) && !in_class(ws, raw.last()));
        assert(trim_start_cls(raw, ws) == raw);
        assert(trim_end_cls(raw, ws) == raw);
        assert(trim_cls(raw, ws) == raw);
        assert(strip_prefix_all(raw, "@as"@) == raw);
        let rest = seq![']'];
        assert(raw.drop_first() =~= rest);
        assert(in_class(CharClass::Only('['), raw[0]));
        assert(!in_class(CharClass::Only('['), rest[0]));
        assert(trim_start_cls(rest, CharClass::Only('[')) == rest);
        assert(trim_start_cls(raw, CharClass::Only('[')) == rest);
        assert(rest.drop_last() =~= Seq::<char>::empty());
        assert(in_class(CharClass::Only(']'), rest.last()));
        assert(trim_end_cls(Seq::<char>::empty(), CharClass::Only(']')) == Seq::<char>::empty());
        assert(trim_end_cls(rest, CharClass::Only(']')) =~= Seq::<char>::empty());
        assert(trim_start_cls(Seq::<char>::empty(), ws) == Seq::<char>::empty());
        assert(trim_end_cls(Seq::<char>::empty(), ws) == Seq::<char>::empty());
        assert(array_inner(raw).len() == 0);
        assert(parse_array(raw) =~= items);
    } else {
        lemma_inner_of_format(items);
        lemma_split_joined(items);
        lemma_quoted_join_ends(items);
        let pieces = joined_pieces(items);
        assert(array_inner(format_array(items)).len() > 0);
        assert(parse_array(format_array(items)) == pieces.map_values(|p: Seq<char>| array_item(p)));
        assert forall|i: int| 0 <= i < items.len() implies array_item(pieces[i]) == items[i] by {
            lemma_item_of_piece(items[i]);
        }
        assert(parse_array(format_array(items)) =~= items);
    }
}

/// Parsing a printed array gives back its last element, whatever the
/// elements before it hold, when that last element is plain.
proof fn lemma_last_item_round_trip(items: Seq<Seq<char>>)
    requires
        items.len() > 0,
        plain_item(items.last()),
    ensures
        parse_array(format_array(items)).len() > 0,
        parse_array(format_array(items)).last() == items.last(),
{
    reveal_strlit(", ");
    reveal_strlit(" ");
    lemma_inner_of_format(items);
    lemma_quoted_join_ends(items);
    lemma_item_of_piece(items.last());
    lemma_quote_without_comma(items.last());
    let inner = quoted_join(items);
    if items.len() == 1 {
        lemma_split_without_sep(quote(items[0]), ',');
        assert(split_on(inner, ',') == seq![quote(items.last())]);
    } else {
        let init = items.drop_last();
        let tail = " "@ + quote(items.last());
        assert(inner =~= quoted_join(init) + seq![','] + tail);
        lemma_split_after_sep(quoted_join(init), tail, ',');
        assert(split_on(inner, ',') == split_on(quoted_join(init), ',').push(tail));
    }
    let pieces = split_on(inner, ',');
    assert(pieces.last() == tail_piece(items));
    assert(parse_array(format_array(items)) == pieces.map_values(|p: Seq<char>| array_item(p)));
    assert(parse_array(format_array(items))[pieces.len() - 1] == array_item(pieces[pieces.len() - 1]));
}

/// The last comma-separated piece of a printed array's inner text.
spec fn tail_piece(items: Seq<Seq<char>>) -> Seq<char> {
    if items.len() == 1 {
        quote(items.last())
    } else {
        " "@ + quote(items.last())
    }
}

/// Registering twice makes no second change to the keybinding list, over
/// any list that was read: once the list that the first registration wrote
/// is in place, a second registration only rewrites the entry's own
/// settings.
pub proof fn lemma_registration_idempotent(existing: Seq<char>, command: Seq<char>, binding: HotkeyBinding)
    ensures
        ({
            let first = registration_plan(existing, command, binding);
            let listed = if parse_array(existing).contains(ENTRY_PATH@) {
                existing
            } else {
                first[0].2
            };
            registration_plan(listed, command, binding) == seq![
                (child_schema(), "name"@, quote(ENTRY_NAME@)),
                (child_schema(), "command"@, quote(command)),
                (child_schema(), "binding"@, quote(accelerator_of(binding))),
            ]
        }),
{
    let paths = parse_array(existing);
    if paths.contains(ENTRY_PATH@) {
        assert(registration_plan(existing, command, binding) =~= seq![
            (child_schema(), "name"@, quote(ENTRY_NAME@)),
            (child_schema(), "command"@, quote(command)),
            (child_schema(), "binding"@, quote(accelerator_of(binding))),
        ]);
    } else {
        let grown = paths.push(ENTRY_PATH@);
        reveal_strlit("/org/gnome/settings-daemon/plugins/media-keys/custom-keybindings/clipdeck/");
        assert(plain_item(ENTRY_PATH@)) by {
            if ENTRY_PATH@.contains(',') {
                let k = choose|k: int| 0 <= k < ENTRY_PATH@.len() && ENTRY_PATH@[k] == ',';
                assert(false);
            }
        }
        assert(grown.last() == ENTRY_PATH@);
        lemma_last_item_round_trip(grown);
        let reread = parse_array(format_array(grown));
        assert(reread[reread.len() - 1] == ENTRY_PATH@);
        assert(reread.contains(ENTRY_PATH@));
        assert(registration_plan(format_array(grown), command, binding) =~= seq![
            (child_schema(), "name"@, quote(ENTRY_NAME@)),
            (child_schema(), "command"@, quote(command)),
            (child_schema(), "binding"@, quote(accelerator_of(binding))),
        ]);
    }
}

/// One `gsettings` call, with what it reported.
pub enum GSettingsCall {
    Read { schema: Seq<char>, key: Seq<char>, result: Result<Seq<char>, HotkeyError> },
    Write { schema: Seq<char>, key: Seq<char>, value: Seq<char>, result: Result<(), HotkeyError> },
}

/// What a `gsettings get` reported, by its view.
pub open spec fn got(r: Result<String, HotkeyError>) -> Result<Seq<char>, HotkeyError> {
    match r {
        Ok(v) => Ok(v@),
        Err(e) => Err(e),
    }
}

/// The write a `Write` call made, and what it reported.
pub open spec fn set_call(c: GSettingsCall) -> Option<((Seq<char>, Seq<char>, Seq<char>), Result<(), HotkeyError>)> {
    match c {
        GSettingsCall::Write { schema, key, value, result } => Some(((schema, key, value), result)),
        _ => None,
    }
}

/// The calls of a registration and its result: the keybinding list is read;
/// a failed read is the registration's failure; otherwise the writes of
/// `registration_plan` for what was read are made in order, up to and
/// including the first that fails, whose failure is the registration's.
pub open spec fn registered(
    t: Seq<GSettingsCall>,
    command: Seq<char>,
    binding: HotkeyBinding,
    r: Result<(), HotkeyError>,
) -> bool {
    t.len() >= 1 && match t[0] {
        GSettingsCall::Read { schema, key, result } => schema == KEYBINDINGS_SCHEMA@ && key == KEYBINDINGS_KEY@
            && match result {
            Err(e) => t.len() == 1 && r == Err::<(), HotkeyError>(e),
            Ok(existing) => {
                let plan = registration_plan(existing, command, binding);
                let sets = t.drop_first();
                &&& sets.len() <= plan.len()
                &&& forall|i: int|
                    0 <= i < sets.len() ==> ((#[trigger] set_call(sets[i])) matches Some((w, res)) && w == plan[i]
                        && (i < sets.len() - 1 ==> res is Ok))
                &&& match r {
                    Ok(()) => sets.len() == plan.len() && (sets.len() > 0 ==> set_call(sets.last()) matches Some(
                        (_, Ok(())),
                    )),
                    Err(e) => sets.len() >= 1 && (set_call(sets.last()) matches Some((_, Err(f))) && f == e),
                }
            },
        },
        _ => false,
    }
}

/// The keybinding list as a registration left it: the list it wrote, when
/// its plan wrote one, else the list it read.
pub open spec fn list_after(existing: Seq<char>, t: Seq<GSettingsCall>) -> Seq<char> {
    if parse_array(existing).contains(ENTRY_PATH@) {
        existing
    } else {
        match set_call(t[1]) {
            Some((w, _)) => w.2,
            None => existing,
        }
    }
}

/// A call that writes one of the entry's own settings, not the list.
pub open spec fn entry_write(c: GSettingsCall) -> bool {
    match set_call(c) {
        Some((w, _)) => w.0 == child_schema() && w.1 != KEYBINDINGS_KEY@,
        None => false,
    }
}

/// Registering twice never rewrites the keybinding list the second time:
/// after a registration that succeeded, a second registration that reads
/// the list the first one left (`list_after`) writes only the entry's own
/// name, command and binding, whatever paths the list held.
pub proof fn lemma_second_registration_keeps_the_list(
    t1: Seq<GSettingsCall>,
    t2: Seq<GSettingsCall>,
    command: Seq<char>,
    binding: HotkeyBinding,
    r2: Result<(), HotkeyError>,
    existing: Seq<char>,
)
    requires
        registered(t1, command, binding, Ok(())),
        t1[0] matches GSettingsCall::Read { result: Ok(e), .. } && e == existing,
        registered(t2, command, binding, r2),
        t2[0] matches GSettingsCall::Read { result: Ok(e2), .. } && e2 == list_after(existing, t1),
    ensures
        forall|i: int| 1 <= i < t2.len() ==> entry_write(#[trigger] t2[i]),
{
    reveal_strlit("custom-keybindings");
    reveal_strlit("name");
    reveal_strlit("command");
    reveal_strlit("binding");
    lemma_registration_idempotent(existing, command, binding);
    let first = registration_plan(existing, command, binding);
    if !parse_array(existing).contains(ENTRY_PATH@) {
        assert(set_call(t1.drop_first()[0]) matches Some((w, _)) && w == first[0]);
        assert(t1.drop_first()[0] == t1[1]);
    }
    let e2 = list_after(existing, t1);
    let listed = if parse_array(existing).contains(ENTRY_PATH@) {
        existing
    } else {
        first[0].2
    };
    assert(e2 == listed);
    let plan2 = registration_plan(e2, command, binding);
    assert(plan2 == seq![
        (child_schema(), "name"@, quote(ENTRY_NAME@)),
        (child_schema(), "command"@, quote(command)),
        (child_schema(), "binding"@, quote(accelerator_of(binding))),
    ]);
    assert(KEYBINDINGS_KEY@ == "custom-keybindings"@);
    assert(KEYBINDINGS_KEY@.len() == 18);
    assert("name"@ != KEYBINDINGS_KEY@ && "command"@ != KEYBINDINGS_KEY@ && "binding"@ != KEYBINDINGS_KEY@);
    assert forall|i: int| 1 <= i < t2.len() implies entry_write(#[trigger] t2[i]) by {
        assert(t2.drop_first()[i - 1] == t2[i]);
        assert(set_call(t2.drop_first()[i - 1]) matches Some((w, _)) && w == plan2[i - 1]);
    }
}

impl<R: GSettingsRunner> HotkeyBackend for GSettingsHotkeyBackend<R> {
    open spec fn attempts(&self) -> Seq<(HotkeyBinding, Result<(), HotkeyError>)> {
        self.attempts@
    }

    /// Reads the keybinding list, then performs the writes of
    /// `registration_writes` in order, stopping at the first failure. The
    /// press runs the trigger command, so the callback is not kept.
    fn register<F: Fn() + Send + Sync + 'static>(&mut self, binding: HotkeyBinding, _callback: F) -> (r: Result<(), HotkeyError>)
        ensures
            final(self).trigger_command == old(self).trigger_command,
            exists|t: Seq<GSettingsCall>|
                followed_by(old(self).runner.calls(), final(self).runner.calls(), t) && registered(
                    t,
                    old(self).trigger_command@,
                    binding,
                    r,
                ),
    {
        let ghost start = self.runner.calls();
        let ghost command = self.trigger_command@;
        let ghost a0 = self.attempts;
        let ghost tc0 = self.trigger_command;
        let got_list = self.runner.get(KEYBINDINGS_SCHEMA, KEYBINDINGS_KEY);
        let ghost mut t = seq![
            GSettingsCall::Read { schema: KEYBINDINGS_SCHEMA@, key: KEYBINDINGS_KEY@, result: got(got_list) },
        ];
        assert(self.runner.calls() =~= start + t);
        let existing = match got_list {
            Ok(v) => v,
            Err(e) => {
                proof {
                    self.attempts@ = self.attempts@.push((binding, Err(e)));
                }
                assert(followed_by(start, self.runner.calls(), t) && registered(t, command, binding, Err(e)));
                return Err(e);
            },
        };
        let writes = registration_writes(existing.as_str(), self.trigger_command.as_str(), &binding);
        let ghost plan = registration_plan(existing@, command, binding);
        let mut i: usize = 0;
        while i < writes.len()
            invariant
                i <= writes.len(),
                writes_view(writes@) == plan,
                plan == registration_plan(existing@, command, binding),
                self.trigger_command@ == command,
                self.trigger_command == tc0,
                self.attempts == a0,
                tc0 == old(self).trigger_command,
                a0 == old(self).attempts,
                start == old(self).runner.calls(),
                self.runner.calls() == start + t,
                t.len() == i + 1,
                t[0] == (GSettingsCall::Read {
                    schema: KEYBINDINGS_SCHEMA@,
                    key: KEYBINDINGS_KEY@,
                    result: Ok(existing@),
                }),
                forall|k: int|
                    0 <= k < i ==> ((#[trigger] set_call(t.drop_first()[k])) matches Some((wr, res)) && wr
                        == plan[k] && res is Ok),
            decreases writes.len() - i,
        {
            let w = &writes[i];
            assert(write_view(*w) == plan[i as int]);
            let done = self.runner.set(w.schema.as_str(), w.key.as_str(), w.value.as_str());
            let ghost before = t;
            proof {
                t = t.push(
                    GSettingsCall::Write { schema: w.schema@, key: w.key@, value: w.value@, result: done },
                );
                assert(t.drop_first() =~= before.drop_first().push(t.last()));
                assert(self.runner.calls() =~= start + t);
            }
            match done {
                Ok(()) => {
                    proof {
                        assert forall|k: int| 0 <= k < i + 1 implies ((#[trigger] set_call(t.drop_first()[k]))
                            matches Some((wr, res)) && wr == plan[k] && res is Ok) by {
                            if k < i {
                                assert(t.drop_first()[k] == before.drop_first()[k]);
                            } else {
                                assert(t.drop_first()[k] == t[k + 1]);
                            }
                        }
                    }
                },
                Err(e) => {
                    proof {
                        self.attempts@ = self.attempts@.push((binding, Err(e)));
                    }
                    assert(followed_by(start, self.runner.calls(), t) && registered(t, command, binding, Err(e)));
                    return Err(e);
                },
            }
            i = i + 1;
        }
        proof {
            self.attempts@ = self.attempts@.push((binding, Ok(())));
        }
        assert(followed_by(start, self.runner.calls(), t) && registered(t, command, binding, Ok(())));
        Ok(())
    }
}

} // verus!
