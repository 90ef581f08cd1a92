//! Canonical MIME representation handling.
use vstd::prelude::*;
use crate::errors::CoreError;
use crate::text::{copy_str, str_eq, lower_seq, lower_char, before_char};

verus! {

#[derive(Debug, Clone, Copy, PartialEq, Eq, Hash, Structural)]
pub enum MimeFamily {
    Text,
    Html,
    Image,
    Other,
}

/// Whether the `mime` crate accepts `input` as a media type
/// (`mime::Mime::from_str` succeeds): a token type, a slash, a token
/// subtype and well-formed parameters.
pub uninterp spec fn mime_parse_ok(input: Seq<char>) -> bool;

/// The part of `s` after the first `c` (empty when there is none).
pub open spec fn after_char(s: Seq<char>, c: char) -> Seq<char>
    decreases s.len(),
{
    if s.len() == 0 {
        s
    } else if s[0] == c {
        s.drop_first()
    } else {
        after_char(s.drop_first(), c)
    }
}

/// The index of the last `c` in `s`, or -1.
pub open spec fn last_index_of(s: Seq<char>, c: char) -> int
    decreases s.len(),
{
    if s.len() == 0 {
        -1
    } else if s.last() == c {
        s.len() - 1
    } else {
        last_index_of(s.drop_last(), c)
    }
}

/// The subtype proper: the part before the last `+` (a structured-syntax
/// suffix), unless that `+` opens the subtype.
pub open spec fn without_suffix(body: Seq<char>) -> Seq<char> {
    let k = last_index_of(body, '+');
    if k > 0 {
        body.subrange(0, k)
    } else {
        body
    }
}

/// `type/subtype(+suffix)`, lowercased, without parameters.
pub open spec fn essence_of(input: Seq<char>) -> Seq<char> {
    lower_seq(before_char(input, ';'))
}

/// The top-level type, lowercased.
pub open spec fn top_of(input: Seq<char>) -> Seq<char> {
    lower_seq(before_char(input, '/'))
}

/// The subtype, lowercased, without suffix or parameters.
pub open spec fn sub_of(input: Seq<char>) -> Seq<char> {
    lower_seq(without_suffix(before_char(after_char(input, '/'), ';')))
}

pub open spec fn family_of(top: Seq<char>, sub: Seq<char>) -> MimeFamily {
    if top == "text"@ && sub == "html"@ {
        MimeFamily::Html
    } else if top == "text"@ {
        MimeFamily::Text
    } else if top == "image"@ {
        MimeFamily::Image
    } else {
        MimeFamily::Other
    }
}

/// The family of a media type the `mime` crate accepts.
pub open spec fn mime_family_of(input: Seq<char>) -> MimeFamily {
    family_of(top_of(input), sub_of(input))
}

struct MimeParts {
    essence: String,
    top: String,
    sub: String,
}

/// Parses `input` with `mime::Mime::from_str`. Whether it succeeds is
/// named, not stated. On success the parts are those the crate's parser
/// keeps: it lowercases its source (ASCII), `essence_str` is the source up
/// to the first `;`, `type_` the part before the first `/`, and `subtype`
/// the part after it up to the last `+` past its first character, or else
/// up to the first `;`. The part before the first `;` of an accepted input
/// is made of token characters around the slash, so its lowercased form is
/// accepted too.
#[verifier::external_body]
fn parse_mime(input: &str) -> (r: Option<MimeParts>)
    ensures
        r is Some <==> mime_parse_ok(input@),
        r is Some ==> mime_parse_ok(essence_of(input@)),
        r matches Some(p) ==> p.essence@ == essence_of(input@) && p.top@ == top_of(input@)
            && p.sub@ == sub_of(input@),
{
    match input.parse::<::mime::Mime>() {
        Ok(m) => Some(
            MimeParts {
                essence: m.essence_str().to_string(),
                top: m.type_().as_str().to_string(),
                sub: m.subtype().as_str().to_string(),
            },
        ),
        Err(_) => None,
    }
}

/// `s` holds no `c` before its first `c`.
proof fn lemma_before_char_free(s: Seq<char>, c: char)
    ensures
        !before_char(s, c).contains(c),
        !s.contains(c) ==> before_char(s, c) == s,
    decreases s.len(),
{
    if s.len() > 0 {
        lemma_before_char_free(s.drop_first(), c);
        if s[0] != c {
            let rest = before_char(s.drop_first(), c);
            assert(before_char(s, c) == seq![s[0]] + rest);
            if !s.contains(c) {
                assert forall|k: int| 0 <= k < s.drop_first().len() implies s.drop_first()[k] != c by {
                    assert(s[k + 1] == s.drop_first()[k]);
                }
                assert(seq![s[0]] + s.drop_first() =~= s);
            }
            assert forall|k: int| 0 <= k < before_char(s, c).len() implies before_char(s, c)[k] != c by {
                if k > 0 {
                    assert(before_char(s, c)[k] == rest[k - 1]);
                }
            }
        }
    }
}

/// Lowercasing changes no character into or out of `;`, and lowercasing
/// twice is lowercasing once.
proof fn lemma_lower_char(x: char)
    ensures
        lower_char(x) == ';' <==> x == ';',
        lower_char(lower_char(x)) == lower_char(x),
{
}

/// The essence of an essence is itself.
proof fn lemma_essence_idempotent(input: Seq<char>)
    ensures
        essence_of(essence_of(input)) == essence_of(input),
{
    let e = essence_of(input);
    let b = before_char(input, ';');
    lemma_before_char_free(input, ';');
    assert forall|k: int| 0 <= k < e.len() implies e[k] != ';' by {
        lemma_lower_char(b[k]);
        if e[k] == ';' {
            assert(b.contains(';'));
        }
    }
    lemma_before_char_free(e, ';');
    assert(before_char(e, ';') == e);
    assert forall|k: int| 0 <= k < e.len() implies lower_seq(e)[k] == e[k] by {
        lemma_lower_char(b[k]);
    }
    assert(lower_seq(e) =~= e);
}

/// Normalizes a MIME type string to a canonical lowercase `type/subtype` form,
/// stripping any parameters (e.g. `; charset=utf-8`). Normalizing a
/// normalized type gives it back.
pub fn normalize_mime(input: &str) -> (r: Result<String, CoreError>)
    ensures
        match r {
            Ok(s) => mime_parse_ok(input@) && s@ == essence_of(input@),
            Err(e) => !mime_parse_ok(input@) && (e matches CoreError::InvalidMime(t) && t@ == input@),
        },
        r matches Ok(s) ==> mime_parse_ok(s@) && essence_of(s@) == s@,
{
    match parse_mime(input) {
        Some(p) => {
            proof {
                lemma_essence_idempotent(input@);
            }
            Ok(p.essence)
        },
        None => Err(CoreError::InvalidMime(copy_str(input))),
    }
}

/// The family of an accepted type follows its top-level type alone, apart
/// from `text/html`: every `image/*` type is an image, `text/html` is HTML,
/// every other `text/*` type is text, and any other top-level type is
/// other.
pub proof fn lemma_family_follows_top_type(s: Seq<char>)
    ensures
        mime_family_of(s) == MimeFamily::Image <==> top_of(s) == "image"@,
        mime_family_of(s) == MimeFamily::Html <==> top_of(s) == "text"@ && sub_of(s) == "html"@,
        mime_family_of(s) == MimeFamily::Text <==> top_of(s) == "text"@ && sub_of(s) != "html"@,
        mime_family_of(s) == MimeFamily::Other <==> top_of(s) != "text"@ && top_of(s) != "image"@,
{
    reveal_strlit("text");
    reveal_strlit("image");
    assert("text"@.len() == 4 && "image"@.len() == 5);
}

/// Classifies a MIME type string into a representation family.
pub fn mime_family(input: &str) -> (r: Result<MimeFamily, CoreError>)
    ensures
        match r {
            Ok(f) => mime_parse_ok(input@) && f == mime_family_of(input@),
            Err(e) => !mime_parse_ok(input@) && (e matches CoreError::InvalidMime(t) && t@ == input@),
        },
        mime_parse_ok(input@) && top_of(input@) == "image"@ ==> r == Ok::<MimeFamily, CoreError>(MimeFamily::Image),
        mime_parse_ok(input@) && top_of(input@) == "text"@ ==> r == Ok::<MimeFamily, CoreError>(
            if sub_of(input@) == "html"@ {
                MimeFamily::Html
            } else {
                MimeFamily::Text
            },
        ),
        mime_parse_ok(input@) && top_of(input@) != "text"@ && top_of(input@) != "image"@ ==> r == Ok::<
            MimeFamily,
            CoreError,
        >(MimeFamily::Other),
{
    proof {
        lemma_family_follows_top_type(input@);
    }
    match parse_mime(input) {
        Some(p) => {
            let is_text = str_eq(p.top.as_str(), "text");
            if is_text && str_eq(p.sub.as_str(), "html") {
                Ok(MimeFamily::Html)
            } else if is_text {
                Ok(MimeFamily::Text)
            } else if str_eq(p.top.as_str(), "image") {
                Ok(MimeFamily::Image)
            } else {
                Ok(MimeFamily::Other)
            }
        },
        None => Err(CoreError::InvalidMime(copy_str(input))),
    }
}

} // verus!
