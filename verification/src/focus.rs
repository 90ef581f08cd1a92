//! Focused app/window discovery.
use vstd::prelude::*;
use crate::models::AppContext;
use crate::text::{copy_str, split_char, split_on, strings_view};
use crate::x11::{followed_by, X11Call, X11Connection};

verus! {

/// The first non-empty piece, if any.
pub open spec fn first_nonempty(pieces: Seq<Seq<char>>) -> Option<Seq<char>>
    decreases pieces.len(),
{
    if pieces.len() == 0 {
        None
    } else if pieces[0].len() > 0 {
        Some(pieces[0])
    } else {
        first_nonempty(pieces.drop_first())
    }
}

/// The application name in a `WM_CLASS` value: its first non-empty
/// NUL-separated component (the instance name), or the whole value when
/// there is none.
pub open spec fn app_name_of(raw: Seq<char>) -> Seq<char> {
    match first_nonempty(split_on(raw, '\0')) {
        Some(c) => c,
        None => raw,
    }
}

/// Extracts the application name from a `WM_CLASS` property value, which per
/// ICCCM is one or more NUL-separated components (`"instance\0class\0"`).
pub fn app_name_from_wm_class(raw: &str) -> (name: String)
    ensures
        name@ == app_name_of(raw@),
{
    let pieces = split_char(raw, '\0');
    let ghost pv = strings_view(pieces@);
    assert(pv.subrange(0, pv.len() as int) =~= pv);
    let mut i: usize = 0;
    while i < pieces.len()
        invariant
            i <= pieces.len(),
            pv == strings_view(pieces@),
            pv == split_on(raw@, '\0'),
            first_nonempty(pv) == first_nonempty(pv.subrange(i as int, pv.len() as int)),
        decreases pieces.len() - i,
    {
        let ghost rest = pv.subrange(i as int, pv.len() as int);
        assert(rest[0] == pieces@[i as int]@);
        if !pieces[i].as_str().is_empty() {
            return pieces[i].clone();
        }
        assert(rest.drop_first() =~= pv.subrange(i + 1, pv.len() as int));
        i = i + 1;
    }
    copy_str(raw)
}

/// The context a window's properties describe: none without a `WM_CLASS`;
/// otherwise its application name, titled by `_NET_WM_NAME` when present.
pub open spec fn context_of(wm_class: Option<Seq<char>>, title: Option<Seq<char>>) -> Option<(Seq<char>, Option<Seq<char>>)> {
    match wm_class {
        Some(w) => Some((app_name_of(w), title)),
        None => None,
    }
}

pub open spec fn context_view(c: Option<AppContext>) -> Option<(Seq<char>, Option<Seq<char>>)> {
    match c {
        Some(x) => Some((x.app@, crate::models::opt_view(x.window))),
        None => None,
    }
}

/// Builds the focused window's context from its properties.
pub fn context_from_properties(wm_class: Option<String>, title: Option<String>) -> (c: Option<AppContext>)
    ensures
        context_view(c) == context_of(crate::models::opt_view(wm_class), crate::models::opt_view(title)),
{
    match wm_class {
        Some(w) => Some(AppContext { app: app_name_from_wm_class(w.as_str()), window: title }),
        None => None,
    }
}

/// The calls of a focus lookup and the context it found: the focused
/// window is asked for; for a window, its `WM_CLASS`; for a window with
/// one, its `_NET_WM_NAME`; the context is built from those two values.
pub open spec fn looked_up(t: Seq<X11Call>, c: Option<(Seq<char>, Option<Seq<char>>)>) -> bool {
    t.len() >= 1 && match t[0] {
        X11Call::FocusedWindow { result: None } => t.len() == 1 && c is None,
        X11Call::FocusedWindow { result: Some(w) } => t.len() >= 2 && match t[1] {
            X11Call::WindowProperty { window, name, result: wm_class } => window == w && name == "WM_CLASS"@
                && match wm_class {
                None => t.len() == 2 && c is None,
                Some(_) => t.len() == 3 && match t[2] {
                    X11Call::WindowProperty { window: w2, name: n2, result: title } => w2 == w && n2
                        == "_NET_WM_NAME"@ && c == context_of(wm_class, title),
                    _ => false,
                },
            },
            _ => false,
        },
        _ => false,
    }
}

/// Discovers the focused window's `AppContext` via an `X11Connection`, and
/// retains a snapshot captured at popup-open time so paste can still target
/// the originally focused window after the popup itself takes focus.
pub struct FocusTracker<C: X11Connection> {
    pub conn: C,
    pub retained: Option<AppContext>,
}

impl<C: X11Connection> FocusTracker<C> {
    pub fn new(conn: C) -> (t: Self)
        ensures
            t.conn == conn,
            t.retained is None,
    {
        FocusTracker { conn, retained: None }
    }

    /// The focused window's context, from its `WM_CLASS` and
    /// `_NET_WM_NAME` properties; `None` when nothing (or the desktop) has
    /// focus or the window has no `WM_CLASS`.
    pub fn focused_app(&mut self) -> (c: Option<AppContext>)
        ensures
            final(self).retained == old(self).retained,
            exists|t: Seq<X11Call>|
                followed_by(old(self).conn.calls(), final(self).conn.calls(), t) && looked_up(t, context_view(c)),
    {
        let ghost before = self.conn.calls();
        let window = self.conn.focused_window();
        let ghost t = seq![X11Call::FocusedWindow { result: window }];
        assert(self.conn.calls() =~= before + t);
        let window = match window {
            Some(w) => w,
            None => {
                assert(followed_by(before, self.conn.calls(), t) && looked_up(t, context_view(None)));
                return None;
            },
        };
        let wm_class = self.conn.window_property(window, "WM_CLASS");
        let ghost t = t.push(X11Call::WindowProperty { window, name: "WM_CLASS"@, result: crate::models::opt_view(wm_class) });
        assert(self.conn.calls() =~= before + t);
        if wm_class.is_none() {
            assert(followed_by(before, self.conn.calls(), t) && looked_up(t, context_view(None)));
            return None;
        }
        let title = self.conn.window_property(window, "_NET_WM_NAME");
        let ghost t = t.push(
            X11Call::WindowProperty { window, name: "_NET_WM_NAME"@, result: crate::models::opt_view(title) },
        );
        assert(self.conn.calls() =~= before + t);
        let c = context_from_properties(wm_class, title);
        assert(followed_by(before, self.conn.calls(), t) && looked_up(t, context_view(c)));
        c
    }

    /// Captures the currently focused app and retains it for later
    /// `retained()` calls.
    pub fn capture(&mut self) -> (c: Option<AppContext>)
        ensures
            final(self).retained == c,
            exists|t: Seq<X11Call>|
                followed_by(old(self).conn.calls(), final(self).conn.calls(), t) && looked_up(t, context_view(c)),
    {
        let ctx = self.focused_app();
        self.retained = match &ctx {
            Some(x) => Some(x.duplicate()),
            None => None,
        };
        ctx
    }

    /// The `AppContext` captured by the most recent `capture()` call.
    pub fn retained(&self) -> (c: Option<AppContext>)
        ensures
            c == self.retained,
    {
        match &self.retained {
            Some(x) => Some(x.duplicate()),
            None => None,
        }
    }
}

} // verus!
