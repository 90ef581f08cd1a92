//! Full-text query construction and result filtering.
use vstd::prelude::*;
use crate::mime::{mime_family, mime_family_of, mime_parse_ok};
use crate::models::Clip;
use crate::search::{parse_query, query_matches_input, ws_words, ParsedQuery, QueryTerm, SearchFilters};
use crate::text::str_eq;
use crate::store::StoreError;

verus! {

/// A term as the full-text index matches it: a prefix term ends in `*`.
pub open spec fn term_piece(t: QueryTerm) -> Seq<char> {
    if t.is_prefix {
        t.text@ + "*"@
    } else {
        t.text@
    }
}

/// The terms' pieces joined by single spaces.
pub open spec fn match_query_of(terms: Seq<QueryTerm>) -> Seq<char>
    decreases terms.len(),
{
    if terms.len() == 0 {
        Seq::empty()
    } else if terms.len() == 1 {
        term_piece(terms[0])
    } else {
        match_query_of(terms.drop_last()) + " "@ + term_piece(terms.last())
    }
}

/// The full-text match expression for a parsed query.
pub fn build_match_query(parsed: &ParsedQuery) -> (q: String)
    ensures
        q@ == match_query_of(parsed.terms@),
{
    let mut q = String::new();
    let mut i: usize = 0;
    while i < parsed.terms.len()
        invariant
            i <= parsed.terms.len(),
            q@ == match_query_of(parsed.terms@.take(i as int)),
        decreases parsed.terms.len() - i,
    {
        let ghost t = parsed.terms@.take(i + 1);
        assert(t.drop_last() =~= parsed.terms@.take(i as int));
        if i > 0 {
            q.append(" ");
        }
        q.append(parsed.terms[i].text.as_str());
        if parsed.terms[i].is_prefix {
            q.append("*");
        }
        i = i + 1;
    }
    assert(parsed.terms@.take(parsed.terms@.len() as int) =~= parsed.terms@);
    q
}

/// Whether a clip passes every filter that is set.
pub open spec fn filters_admit(clip: Clip, filters: SearchFilters) -> bool {
    &&& !filters.pinned_only || clip.is_pinned
    &&& !filters.favorite_only || clip.is_favorite
    &&& match filters.group_id {
        Some(g) => match clip.group_id {
            Some(cg) => cg@ == g@,
            None => false,
        },
        None => true,
    }
    &&& match filters.source_app {
        Some(a) => match clip.source_app {
            Some(ca) => ca@ == a@,
            None => false,
        },
        None => true,
    }
    &&& match filters.mime_family {
        Some(f) => mime_parse_ok(clip.primary_mime@) && mime_family_of(clip.primary_mime@) == f,
        None => true,
    }
}

/// A clip that passes the filters passes each one that is set.
pub proof fn lemma_each_filter_narrows(clip: Clip, filters: SearchFilters)
    requires
        filters_admit(clip, filters),
    ensures
        filters.pinned_only ==> clip.is_pinned,
        filters.favorite_only ==> clip.is_favorite,
        filters.group_id matches Some(g) ==> (clip.group_id matches Some(cg) && cg@ == g@),
        filters.source_app matches Some(a) ==> (clip.source_app matches Some(ca) && ca@ == a@),
        filters.mime_family is Some ==> mime_parse_ok(clip.primary_mime@),
        filters.mime_family matches Some(fam) ==> mime_family_of(clip.primary_mime@) == fam,
{
}

/// With no filter set every clip passes.
pub proof fn lemma_no_filter_admits_every_clip(clip: Clip)
    ensures
        filters_admit(
            clip,
            SearchFilters { mime_family: None, pinned_only: false, group_id: None, favorite_only: false, source_app: None },
        ),
{
}

/// Setting the favorites-only (or pinned-only) switch narrows a search by
/// exactly that condition: a clip passes the stricter filters when it
/// passes the others and is a favorite (pinned).
pub proof fn lemma_switches_add_their_condition(clip: Clip, filters: SearchFilters)
    ensures
        filters_admit(clip, SearchFilters { favorite_only: true, ..filters }) == (filters_admit(
            clip,
            SearchFilters { favorite_only: false, ..filters },
        ) && clip.is_favorite),
        filters_admit(clip, SearchFilters { pinned_only: true, ..filters }) == (filters_admit(
            clip,
            SearchFilters { pinned_only: false, ..filters },
        ) && clip.is_pinned),
{
}

/// Narrows search results by `filters`.
pub fn matches_filters(clip: &Clip, filters: &SearchFilters) -> (b: bool)
    ensures
        b == filters_admit(*clip, *filters),
        b && filters.favorite_only ==> clip.is_favorite,
        b && filters.pinned_only ==> clip.is_pinned,
        b ==> (filters.group_id matches Some(g) ==> (clip.group_id matches Some(cg) && cg@ == g@)),
        b ==> (filters.source_app matches Some(a) ==> (clip.source_app matches Some(ca) && ca@ == a@)),
        b && filters.mime_family is Some ==> mime_parse_ok(clip.primary_mime@),
        b ==> (filters.mime_family matches Some(fam) ==> mime_family_of(clip.primary_mime@) == fam),
{
    if filters.pinned_only && !clip.is_pinned {
        return false;
    }
    if filters.favorite_only && !clip.is_favorite {
        return false;
    }
    if let Some(group_id) = &filters.group_id {
        match &clip.group_id {
            Some(g) => {
                if !str_eq(g.as_str(), group_id.as_str()) {
                    return false;
                }
            },
            None => {
                return false;
            },
        }
    }
    if let Some(source_app) = &filters.source_app {
        match &clip.source_app {
            Some(a) => {
                if !str_eq(a.as_str(), source_app.as_str()) {
                    return false;
                }
            },
            None => {
                return false;
            },
        }
    }
    if let Some(family) = filters.mime_family {
        match mime_family(clip.primary_mime.as_str()) {
            Ok(f) => {
                if f != family {
                    return false;
                }
            },
            Err(_) => {
                return false;
            },
        }
    }
    true
}

/// The two queries a search runs against the clip table and its full-text
/// index; the representations of each clip are loaded with it. `calls` is
/// the record of the queries run so far, with what each handed back.
pub trait ClipIndex {
    open spec fn calls(&self) -> Seq<IndexCall> {
        Seq::empty()
    }

    /// The clips the index holds.
    open spec fn held(&self) -> Set<Clip> {
        Set::empty()
    }

    /// Every non-deleted clip, pinned first, then newest first.
    fn recent_clips(&mut self) -> (r: Result<Vec<Clip>, StoreError>)
        ensures
            final(self).calls() == old(self).calls().push(IndexCall::Recent { result: clips_seen(r) }),
            final(self).held() == old(self).held(),
            r matches Ok(v) ==> listing_order(v@) && newest_first_within_pins(v@) && lists_live(v@, old(self).held()),
    ;

    /// The non-deleted clips matching a full-text query, pinned first, then
    /// by relevance.
    fn matching_clips(&mut self, match_query: &str) -> (r: Result<Vec<Clip>, StoreError>)
        ensures
            final(self).calls() == old(self).calls().push(
                IndexCall::Matching { match_query: match_query@, result: clips_seen(r) },
            ),
            final(self).held() == old(self).held(),
            r matches Ok(v) ==> listing_order(v@),
    ;
}

/// Among clips equally pinned, newer ones come first.
pub open spec fn newest_first_within_pins(clips: Seq<Clip>) -> bool {
    forall|i: int, j: int|
        0 <= i < j < clips.len() && (#[trigger] clips[i]).is_pinned == (#[trigger] clips[j]).is_pinned
            ==> clips[i].created_at >= clips[j].created_at
}

/// `clips` lists exactly the non-deleted clips of `held`.
pub open spec fn lists_live(clips: Seq<Clip>, held: Set<Clip>) -> bool {
    forall|c: Clip| clips.contains(c) <==> held.contains(c) && !c.is_deleted
}

/// A clip is kept by `admitted` exactly when it is listed and passes the
/// filters; kept clips stay newest first within their pin group.
proof fn lemma_admitted_members(s: Seq<Clip>, f: SearchFilters)
    requires
        newest_first_within_pins(s),
    ensures
        forall|c: Clip| admitted(s, f).contains(c) <==> s.contains(c) && filters_admit(c, f),
        newest_first_within_pins(admitted(s, f)),
    decreases s.len(),
{
    let out = admitted(s, f);
    lemma_filter_keeps(s, f, |c: Clip| s.contains(c));
    assert forall|c: Clip| out.contains(c) implies s.contains(c) && filters_admit(c, f) by {
        let k = choose|k: int| 0 <= k < out.len() && out[k] == c;
        assert((|x: Clip| s.contains(x))(out[k]));
        s.lemma_filter_pred(|x: Clip| filters_admit(x, f), k);
    }
    assert forall|c: Clip| s.contains(c) && filters_admit(c, f) implies out.contains(c) by {
        let k = choose|k: int| 0 <= k < s.len() && s[k] == c;
        s.lemma_filter_contains(|x: Clip| filters_admit(x, f), k);
    }
    reveal(Seq::filter);
    if s.len() > 0 {
        let d = s.drop_last();
        assert forall|i: int, j: int|
            0 <= i < j < d.len() && (#[trigger] d[i]).is_pinned == (#[trigger] d[j]).is_pinned implies d[i].created_at
            >= d[j].created_at by {
            assert(d[i] == s[i] && d[j] == s[j]);
        }
        lemma_admitted_members(d, f);
        let last = s[s.len() - 1];
        let rest = admitted(d, f);
        if filters_admit(last, f) {
            assert(out == rest.push(last));
            lemma_filter_keeps(d, f, |c: Clip| d.contains(c));
            assert forall|i: int, j: int|
                0 <= i < j < out.len() && (#[trigger] out[i]).is_pinned == (#[trigger] out[j]).is_pinned implies out[i].created_at
                >= out[j].created_at by {
                if j == out.len() - 1 {
                    assert(rest[i] == out[i]);
                    assert((|c: Clip| d.contains(c))(rest[i]));
                    let k = choose|k: int| 0 <= k < d.len() && d[k] == rest[i];
                    assert(s[k] == d[k]);
                } else {
                    assert(rest[i] == out[i] && rest[j] == out[j]);
                }
            }
        } else {
            assert(out == rest);
        }
    }
}

/// How clips are listed: no deleted clip, and every pinned clip before
/// every clip that is not pinned.
pub open spec fn listing_order(clips: Seq<Clip>) -> bool {
    &&& forall|k: int| 0 <= k < clips.len() ==> !(#[trigger] clips[k]).is_deleted
    &&& forall|i: int, j: int| 0 <= i < j < clips.len() && (#[trigger] clips[j]).is_pinned ==> (#[trigger] clips[i]).is_pinned
}

proof fn lemma_filter_keeps(s: Seq<Clip>, f: SearchFilters, q: spec_fn(Clip) -> bool)
    requires
        forall|i: int| 0 <= i < s.len() ==> q(#[trigger] s[i]),
    ensures
        forall|k: int| 0 <= k < admitted(s, f).len() ==> q(#[trigger] admitted(s, f)[k]),
    decreases s.len(),
{
    reveal(Seq::filter);
    if s.len() > 0 {
        let d = s.drop_last();
        assert forall|i: int| 0 <= i < d.len() implies q(#[trigger] d[i]) by {
            assert(d[i] == s[i]);
        }
        lemma_filter_keeps(d, f, q);
        let last = s[s.len() - 1];
        assert(q(last));
        let out = admitted(s, f);
        let rest = admitted(d, f);
        if filters_admit(last, f) {
            assert(out == rest.push(last));
            assert forall|k: int| 0 <= k < out.len() implies q(#[trigger] out[k]) by {
                if k < out.len() - 1 {
                    assert(rest[k] == out[k]);
                }
            }
        } else {
            assert(out == rest);
        }
    }
}

/// Filtering a listing keeps it a listing: nothing deleted comes back and
/// pinned clips stay first.
proof fn lemma_listing_order_filtered(s: Seq<Clip>, f: SearchFilters)
    requires
        listing_order(s),
    ensures
        listing_order(admitted(s, f)),
    decreases s.len(),
{
    reveal(Seq::filter);
    if s.len() > 0 {
        let d = s.drop_last();
        assert forall|i: int, j: int| 0 <= i < j < d.len() && (#[trigger] d[j]).is_pinned implies (#[trigger] d[i]).is_pinned by {
            assert(d[i] == s[i] && d[j] == s[j]);
        }
        assert forall|k: int| 0 <= k < d.len() implies !(#[trigger] d[k]).is_deleted by {
            assert(d[k] == s[k]);
        }
        lemma_listing_order_filtered(d, f);
        let last = s[s.len() - 1];
        assert(!last.is_deleted);
        if last.is_pinned {
            assert forall|i: int| 0 <= i < d.len() implies (#[trigger] d[i]).is_pinned by {
                assert(d[i] == s[i]);
            }
            lemma_filter_keeps(d, f, |c: Clip| c.is_pinned);
        }
        let out = admitted(s, f);
        let rest = admitted(d, f);
        if filters_admit(last, f) {
            assert(out == rest.push(last));
            assert forall|i: int, j: int| 0 <= i < j < out.len() && (#[trigger] out[j]).is_pinned implies (#[trigger] out[i]).is_pinned by {
                if j == out.len() - 1 {
                    assert(rest[i] == out[i]);
                    assert((|c: Clip| c.is_pinned)(rest[i]));
                } else {
                    assert(rest[i] == out[i] && rest[j] == out[j]);
                }
            }
            assert forall|k: int| 0 <= k < out.len() implies !(#[trigger] out[k]).is_deleted by {
                if k < out.len() - 1 {
                    assert(rest[k] == out[k]);
                }
            }
        } else {
            assert(out == rest);
        }
    }
}

/// The clips of `clips` that pass `filters`, in their order.
pub open spec fn admitted(clips: Seq<Clip>, filters: SearchFilters) -> Seq<Clip> {
    clips.filter(|c: Clip| filters_admit(c, filters))
}

/// Keeps the clips that pass every filter that is set, in order.
pub fn retain_matching(clips: Vec<Clip>, filters: &SearchFilters) -> (kept: Vec<Clip>)
    ensures
        kept@ == admitted(clips@, *filters),
{
    let ghost all = clips@;
    let ghost n = all.len();
    let mut rest = clips;
    let mut rev: Vec<Clip> = Vec::new();
    while rest.len() > 0
        invariant
            n == all.len(),
            rest@.len() + rev@.len() == n,
            rest@ == all.take(rest@.len() as int),
            forall|k: int| 0 <= k < rev@.len() ==> #[trigger] rev@[k] == all[n - 1 - k],
        decreases rest@.len(),
    {
        let ghost before = rest@;
        let c = rest.pop().unwrap();
        assert(c == all[n - 1 - rev@.len()]);
        rev.push(c);
        assert(rest@ =~= all.take(rest@.len() as int));
    }
    let mut kept: Vec<Clip> = Vec::new();
    let ghost mut j: int = 0;
    assert(all.take(0) =~= Seq::<Clip>::empty());
    proof {
        reveal(Seq::filter);
    }
    while rev.len() > 0
        invariant
            rev@.len() + j == n,
            0 <= j <= n,
            n == all.len(),
            forall|k: int| 0 <= k < rev@.len() ==> #[trigger] rev@[k] == all[n - 1 - k],
            kept@ == admitted(all.take(j), *filters),
        decreases rev@.len(),
    {
        let c = rev.pop().unwrap();
        assert(c == all[j]);
        let keep = matches_filters(&c, filters);
        proof {
            reveal(Seq::filter);
            assert(all.take(j + 1).drop_last() =~= all.take(j));
            assert(all.take(j + 1).last() == all[j]);
        }
        if keep {
            kept.push(c);
        }
        proof {
            j = j + 1;
        }
    }
    assert(all.take(n as int) =~= all);
    kept
}

/// Words joined by single spaces.
pub open spec fn spaced(words: Seq<Seq<char>>) -> Seq<char>
    decreases words.len(),
{
    if words.len() == 0 {
        Seq::empty()
    } else if words.len() == 1 {
        words[0]
    } else {
        spaced(words.drop_last()) + " "@ + words.last()
    }
}

/// The full-text match expression for the words of a query: the words
/// joined by spaces, the last one marked as a prefix.
pub open spec fn match_expression(words: Seq<Seq<char>>) -> Seq<char> {
    spaced(words) + "*"@
}

proof fn lemma_exact_terms_spaced(terms: Seq<QueryTerm>, words: Seq<Seq<char>>)
    requires
        terms.len() == words.len(),
        forall|i: int| 0 <= i < terms.len() ==> (#[trigger] terms[i]).text@ == words[i] && !terms[i].is_prefix,
    ensures
        match_query_of(terms) == spaced(words),
    decreases terms.len(),
{
    if terms.len() > 1 {
        lemma_exact_terms_spaced(terms.drop_last(), words.drop_last());
    }
}

/// The match expression built for a parsed query is `match_expression` of
/// the query's words.
proof fn lemma_match_query_of_parsed(q: ParsedQuery, input: Seq<char>)
    requires
        query_matches_input(q, input),
        ws_words(input).len() > 0,
    ensures
        match_query_of(q.terms@) == match_expression(ws_words(input)),
{
    let terms = q.terms@;
    let words = ws_words(input);
    let n = terms.len();
    reveal_strlit("*");
    if n == 1 {
        assert(term_piece(terms[0]) == terms[0].text@ + "*"@);
    } else {
        let front = terms.drop_last();
        assert forall|i: int| 0 <= i < front.len() implies (#[trigger] front[i]).text@ == words.drop_last()[i]
            && !front[i].is_prefix by {
            assert(front[i] == terms[i]);
        }
        lemma_exact_terms_spaced(front, words.drop_last());
        assert(terms.last().is_prefix);
        assert(match_query_of(terms) == spaced(words.drop_last()) + " "@ + (words.last() + "*"@));
        assert(spaced(words.drop_last()) + " "@ + (words.last() + "*"@) =~= spaced(words.drop_last()) + " "@
            + words.last() + "*"@);
    }
}

/// One query a search runs against its index, with what it handed back.
pub enum IndexCall {
    Recent { result: Result<Seq<Clip>, StoreError> },
    Matching { match_query: Seq<char>, result: Result<Seq<Clip>, StoreError> },
}

/// The search's answer to what the index handed back: its error, or the
/// clips that pass the filters, in the index's order.
pub open spec fn filtered_answer(
    result: Result<Seq<Clip>, StoreError>,
    filters: SearchFilters,
    r: Result<Vec<Clip>, StoreError>,
) -> bool {
    match result {
        Err(e) => r == Err::<Vec<Clip>, StoreError>(e),
        Ok(all) => r matches Ok(v) && v@ == admitted(all, filters),
    }
}

/// The query a search runs and its answer: a query with no words lists the
/// recent clips; otherwise the index is asked with the words' match
/// expression. The answer keeps the clips that pass the filters.
pub open spec fn searched(raw_query: Seq<char>, filters: SearchFilters, t: Seq<IndexCall>, r: Result<Vec<Clip>, StoreError>) -> bool {
    t.len() == 1 && match t[0] {
        IndexCall::Recent { result } => ws_words(raw_query).len() == 0 && filtered_answer(result, filters, r),
        IndexCall::Matching { match_query, result } => ws_words(raw_query).len() > 0 && match_query
            == match_expression(ws_words(raw_query)) && filtered_answer(result, filters, r),
    }
}

/// What an index call handed back, with the clips by their view.
pub open spec fn clips_seen(r: Result<Vec<Clip>, StoreError>) -> Result<Seq<Clip>, StoreError> {
    match r {
        Ok(v) => Ok(v@),
        Err(e) => Err(e),
    }
}

/// Searches clips by free-text query, narrowed by `filters`: a blank query
/// lists every clip pinned first, then newest first; otherwise the query's
/// terms (the last one as a prefix) are matched against the index.
pub fn search<I: ClipIndex>(index: &mut I, raw_query: &str, filters: &SearchFilters) -> (r: Result<Vec<Clip>, StoreError>)
    ensures
        exists|t: Seq<IndexCall>|
            final(index).calls() == old(index).calls() + t && searched(raw_query@, *filters, t, r),
        r matches Ok(v) ==> forall|k: int| 0 <= k < v@.len() ==> filters_admit(#[trigger] v@[k], *filters),
        r matches Ok(v) ==> forall|k: int|
            0 <= k < v@.len() ==> (filters.favorite_only ==> (#[trigger] v@[k]).is_favorite) && (filters.pinned_only
                ==> v@[k].is_pinned),
        r matches Ok(v) ==> forall|k: int|
            0 <= k < v@.len() ==> (filters.group_id matches Some(g) ==> ((#[trigger] v@[k]).group_id matches Some(
                cg,
            ) && cg@ == g@)),
        r matches Ok(v) ==> forall|k: int|
            0 <= k < v@.len() ==> (filters.mime_family matches Some(fam) ==> mime_parse_ok((#[trigger] v@[k]).primary_mime@)
                && mime_family_of(v@[k].primary_mime@) == fam),
        r matches Ok(v) ==> forall|k: int|
            0 <= k < v@.len() ==> (filters.source_app matches Some(a) ==> ((#[trigger] v@[k]).source_app matches Some(
                ca,
            ) && ca@ == a@)),
        r matches Ok(v) ==> listing_order(v@),
        final(index).held() == old(index).held(),
        ws_words(raw_query@).len() == 0 ==> (r matches Ok(v) ==> newest_first_within_pins(v@) && forall|c: Clip|
            v@.contains(c) <==> old(index).held().contains(c) && !c.is_deleted && filters_admit(c, *filters)),
{
    let ghost before = index.calls();
    let parsed = parse_query(raw_query);
    let r = if parsed.is_empty() {
        let listed = index.recent_clips();
        let ghost t = seq![IndexCall::Recent { result: clips_seen(listed) }];
        assert(index.calls() =~= before + t);
        proof {
            if listed is Ok {
                lemma_listing_order_filtered(listed->Ok_0@, *filters);
                lemma_admitted_members(listed->Ok_0@, *filters);
            }
        }
        let r = match listed {
            Ok(clips) => Ok(retain_matching(clips, filters)),
            Err(e) => Err(e),
        };
        assert(r matches Ok(v) ==> listing_order(v@));
        assert(searched(raw_query@, *filters, t, r));
        assert(ws_words(raw_query@).len() == 0);
        assert(exists|tt: Seq<IndexCall>| index.calls() == before + tt && searched(raw_query@, *filters, tt, r));
        r
    } else {
        let match_query = build_match_query(&parsed);
        proof {
            lemma_match_query_of_parsed(parsed, raw_query@);
        }
        let listed = index.matching_clips(match_query.as_str());
        let ghost t = seq![IndexCall::Matching { match_query: match_query@, result: clips_seen(listed) }];
        assert(index.calls() =~= before + t);
        proof {
            if listed is Ok {
                lemma_listing_order_filtered(listed->Ok_0@, *filters);
            }
        }
        let r = match listed {
            Ok(clips) => Ok(retain_matching(clips, filters)),
            Err(e) => Err(e),
        };
        assert(r matches Ok(v) ==> listing_order(v@));
        assert(searched(raw_query@, *filters, t, r));
        assert(exists|tt: Seq<IndexCall>| index.calls() == before + tt && searched(raw_query@, *filters, tt, r));
        r
    };
    proof {
        if r is Ok {
            let t = choose|t: Seq<IndexCall>| index.calls() == before + t && searched(raw_query@, *filters, t, r);
            let all = match t[0] {
                IndexCall::Recent { result } => result->Ok_0,
                IndexCall::Matching { result, .. } => result->Ok_0,
            };
            assert forall|k: int| 0 <= k < r->Ok_0@.len() implies filters_admit(#[trigger] r->Ok_0@[k], *filters) by {
                all.lemma_filter_pred(|c: Clip| filters_admit(c, *filters), k);
            }

        }
    }
    r
}

} // verus!
