//! Turning a key binding such as `"ctrl+v"` into the X11 keycodes that
//! synthesize it, given the server's keyboard mapping.
use vstd::prelude::*;
use crate::text::{lower_char, lower_seq, lowercase_str, push_char, split_char, split_on, str_eq, strings_view};

verus! {

pub const KEYSYM_CONTROL_L: u32 = 0xffe3;

pub const KEYSYM_SHIFT_L: u32 = 0xffe1;

pub const KEYSYM_ALT_L: u32 = 0xffe9;

pub const KEYSYM_SUPER_L: u32 = 0xffeb;

/// The keysym a binding token names: a modifier name (any case), or a
/// single ASCII character, taken in lower case.
pub open spec fn token_keysym(token: Seq<char>) -> Option<u32> {
    let t = lower_seq(token);
    if t == "ctrl"@ || t == "control"@ {
        Some(KEYSYM_CONTROL_L)
    } else if t == "shift"@ {
        Some(KEYSYM_SHIFT_L)
    } else if t == "alt"@ {
        Some(KEYSYM_ALT_L)
    } else if t == "super"@ || t == "meta"@ {
        Some(KEYSYM_SUPER_L)
    } else if token.len() == 1 && (token[0] as u32) < 0x80 {
        Some(lower_char(token[0]) as u32)
    } else {
        None
    }
}

/// Looks a binding token up as a keysym.
pub fn keysym_of_token(token: &str) -> (k: Option<u32>)
    ensures
        k == token_keysym(token@),
{
    proof {
        reveal_strlit("ctrl");
        reveal_strlit("control");
        reveal_strlit("shift");
        reveal_strlit("alt");
        reveal_strlit("super");
        reveal_strlit("meta");
    }
    let t = lowercase_str(token);
    let ts = t.as_str();
    if str_eq(ts, "ctrl") || str_eq(ts, "control") {
        Some(KEYSYM_CONTROL_L)
    } else if str_eq(ts, "shift") {
        Some(KEYSYM_SHIFT_L)
    } else if str_eq(ts, "alt") {
        Some(KEYSYM_ALT_L)
    } else if str_eq(ts, "super") || str_eq(ts, "meta") {
        Some(KEYSYM_SUPER_L)
    } else {
        let cs = crate::text::chars_of(token);
        if cs.len() == 1 && (cs[0] as u32) < 0x80 {
            let c = crate::text::to_ascii_lower(cs[0]);
            Some(c as u32)
        } else {
            None
        }
    }
}

/// `j` is the first position of `keysym` in the mapping.
pub open spec fn first_position(keysyms: Seq<u32>, keysym: u32, j: int) -> bool {
    &&& 0 <= j < keysyms.len()
    &&& keysyms[j] == keysym
    &&& forall|i: int| 0 <= i < j ==> keysyms[i] != keysym
}

/// The keycode whose row of the mapping (`per_keycode` keysyms per keycode,
/// rows starting at `min_keycode`) first holds `keysym`.
pub open spec fn keycode_for(keysyms: Seq<u32>, per_keycode: nat, min_keycode: u8, keysym: u32) -> Option<u8> {
    if keysyms.contains(keysym) {
        let j = choose|j: int| first_position(keysyms, keysym, j);
        Some((min_keycode + j / (per_keycode as int)) as u8)
    } else {
        None
    }
}

/// The mapping fits the keycode range: every row number lands on a keycode
/// no greater than 255.
pub open spec fn mapping_fits(len: nat, per_keycode: nat, min_keycode: u8) -> bool {
    per_keycode >= 1 && len <= (256 - min_keycode) * per_keycode
}

/// Tests `mapping_fits` for a mapping of `len` keysyms.
pub fn mapping_fits_len(len: usize, per_keycode: usize, min_keycode: u8) -> (b: bool)
    ensures
        b == mapping_fits(len as nat, per_keycode as nat, min_keycode),
{
    if per_keycode == 0 {
        return false;
    }
    let room: usize = 256 - min_keycode as usize;
    match room.checked_mul(per_keycode) {
        Some(m) => len <= m,
        None => true,
    }
}

proof fn lemma_row_fits(j: int, len: nat, per_keycode: nat, min_keycode: u8)
    requires
        mapping_fits(len, per_keycode, min_keycode),
        0 <= j < len,
    ensures
        min_keycode + j / (per_keycode as int) <= 255,
{
    let p = per_keycode as int;
    let room = 256 - min_keycode;
    assert(j / p < room) by (nonlinear_arith)
        requires
            0 <= j < room * p,
            p >= 1,
    ;
}

proof fn lemma_first_position_unique(keysyms: Seq<u32>, keysym: u32, a: int, b: int)
    requires
        first_position(keysyms, keysym, a),
        first_position(keysyms, keysym, b),
    ensures
        a == b,
{
}

/// Finds the keycode for a keysym in the server's keyboard mapping.
pub fn keycode_for_keysym(keysyms: &Vec<u32>, per_keycode: usize, min_keycode: u8, keysym: u32) -> (r: Option<u8>)
    requires
        mapping_fits(keysyms@.len(), per_keycode as nat, min_keycode),
    ensures
        r == keycode_for(keysyms@, per_keycode as nat, min_keycode, keysym),
{
    let mut j: usize = 0;
    while j < keysyms.len()
        invariant
            j <= keysyms.len(),
            mapping_fits(keysyms@.len(), per_keycode as nat, min_keycode),
            forall|i: int| 0 <= i < j ==> keysyms@[i] != keysym,
        decreases keysyms.len() - j,
    {
        if keysyms[j] == keysym {
            proof {
                lemma_row_fits(j as int, keysyms@.len(), per_keycode as nat, min_keycode);
                assert(first_position(keysyms@, keysym, j as int));
                assert(keysyms@.contains(keysym));
                let c = choose|c: int| first_position(keysyms@, keysym, c);
                lemma_first_position_unique(keysyms@, keysym, c, j as int);
            }
            let row = j / per_keycode;
            let code = min_keycode as usize + row;
            return Some(code as u8);
        }
        j = j + 1;
    }
    assert(!keysyms@.contains(keysym));
    None
}

/// Why a binding cannot be synthesized.
#[derive(Debug, Clone, PartialEq, Eq)]
pub enum KeymapError {
    /// A token is neither a modifier name nor a single ASCII character; the
    /// token is kept in lower case.
    UnrecognizedToken(String),
    /// No keycode of the mapping produces the keysym.
    Unmapped(u32),
}

pub open spec fn hex_digit(d: int) -> char {
    if d < 10 {
        (('0' as int) + d) as char
    } else {
        (('a' as int) + d - 10) as char
    }
}

/// The lower-case hexadecimal digits of `n`, without leading zeros.
pub open spec fn hex_digits(n: nat) -> Seq<char>
    decreases n,
{
    if n < 16 {
        seq![hex_digit(n as int)]
    } else {
        hex_digits(n / 16).push(hex_digit((n % 16) as int))
    }
}

fn push_hex(s: &mut String, n: u32)
    ensures
        final(s)@ == old(s)@ + hex_digits(n as nat),
    decreases n,
{
    if n >= 16 {
        push_hex(s, n / 16);
    }
    let d = n % 16;
    let c = if d < 10 {
        char_of_ascii(48 + d)
    } else {
        char_of_ascii(87 + d)
    };
    push_char(s, c);
    assert(c == hex_digit((n % 16) as int));
}

fn char_of_ascii(u: u32) -> (c: char)
    requires
        u < 128,
    ensures
        c as u32 == u,
        c == u as char,
{
    let b = u as u8;
    b as char
}

impl KeymapError {
    pub open spec fn text(&self) -> Seq<char> {
        match self {
            KeymapError::UnrecognizedToken(t) => "unrecognized key token '"@ + t@ + "'"@,
            KeymapError::Unmapped(k) => "no keycode mapped for keysym 0x"@ + hex_digits(*k as nat),
        }
    }

    /// Renders the error as text.
    pub fn message(&self) -> (m: String)
        ensures
            m@ == self.text(),
    {
        match self {
            KeymapError::UnrecognizedToken(t) => {
                let mut m = "unrecognized key token '".to_string();
                m.append(t.as_str());
                m.append("'");
                m
            },
            KeymapError::Unmapped(k) => {
                let mut m = "no keycode mapped for keysym 0x".to_string();
                push_hex(&mut m, *k);
                m
            },
        }
    }
}

/// Every token before position `i` names a keysym that the mapping has.
pub open spec fn tokens_resolve(
    tokens: Seq<Seq<char>>,
    i: int,
    keysyms: Seq<u32>,
    per_keycode: nat,
    min_keycode: u8,
) -> bool {
    forall|k: int|
        #![trigger tokens[k]]
        0 <= k < i ==> match token_keysym(tokens[k]) {
            Some(sym) => keycode_for(keysyms, per_keycode, min_keycode, sym) is Some,
            None => false,
        }
}

/// The keycodes that synthesize `binding` (its `+`-separated tokens, in
/// order), or the error for its first token that does not resolve.
pub fn binding_keycodes(binding: &str, keysyms: &Vec<u32>, per_keycode: usize, min_keycode: u8) -> (r: Result<
    Vec<u8>,
    KeymapError,
>)
    requires
        mapping_fits(keysyms@.len(), per_keycode as nat, min_keycode),
    ensures
        ({
            let tokens = split_on(binding@, '+');
            match r {
                Ok(codes) => codes@.len() == tokens.len() && tokens_resolve(
                    tokens,
                    tokens.len() as int,
                    keysyms@,
                    per_keycode as nat,
                    min_keycode,
                ) && forall|k: int|
                    0 <= k < tokens.len() ==> keycode_for(
                        keysyms@,
                        per_keycode as nat,
                        min_keycode,
                        token_keysym(#[trigger] tokens[k]).unwrap(),
                    ) == Some(codes@[k]),
                Err(e) => exists|i: int|
                    0 <= i < tokens.len() && tokens_resolve(tokens, i, keysyms@, per_keycode as nat, min_keycode)
                        && match e {
                        KeymapError::UnrecognizedToken(t) => token_keysym(tokens[i]) is None && t@ == lower_seq(
                            tokens[i],
                        ),
                        KeymapError::Unmapped(sym) => token_keysym(tokens[i]) == Some(sym) && keycode_for(
                            keysyms@,
                            per_keycode as nat,
                            min_keycode,
                            sym,
                        ) is None,
                    },
            }
        }),
{
    let pieces = split_char(binding, '+');
    let ghost tokens = split_on(binding@, '+');
    let mut codes: Vec<u8> = Vec::new();
    let mut i: usize = 0;
    while i < pieces.len()
        invariant
            i <= pieces.len(),
            strings_view(pieces@) == tokens,
            tokens == split_on(binding@, '+'),
            mapping_fits(keysyms@.len(), per_keycode as nat, min_keycode),
            codes@.len() == i,
            tokens_resolve(tokens, i as int, keysyms@, per_keycode as nat, min_keycode),
            forall|k: int|
                0 <= k < i ==> keycode_for(
                    keysyms@,
                    per_keycode as nat,
                    min_keycode,
                    token_keysym(#[trigger] tokens[k]).unwrap(),
                ) == Some(codes@[k]),
        decreases pieces.len() - i,
    {
        assert(tokens[i as int] == pieces@[i as int]@);
        match keysym_of_token(pieces[i].as_str()) {
            None => {
                return Err(KeymapError::UnrecognizedToken(lowercase_str(pieces[i].as_str())));
            },
            Some(sym) => match keycode_for_keysym(keysyms, per_keycode, min_keycode, sym) {
                None => {
                    return Err(KeymapError::Unmapped(sym));
                },
                Some(code) => {
                    codes.push(code);
                },
            },
        }
        i = i + 1;
    }
    Ok(codes)
}

} // verus!
