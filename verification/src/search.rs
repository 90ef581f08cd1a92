//! Query parsing helpers and ranking inputs.
use vstd::prelude::*;
use crate::mime::MimeFamily;
use crate::text::{chars_of, is_whitespace, is_ws, push_char, strings_view};

verus! {

#[derive(Debug, Clone, PartialEq, Eq)]
pub struct QueryTerm {
    pub text: String,
    pub is_prefix: bool,
}

#[derive(Debug, Clone, Copy, PartialEq, Eq)]
pub struct RankingInputs {
    pub boost_pinned: bool,
}

impl Default for RankingInputs {
    fn default() -> (r: Self)
        ensures
            r.boost_pinned,
    {
        RankingInputs { boost_pinned: true }
    }
}

#[derive(Debug, Clone, PartialEq, Eq)]
pub struct ParsedQuery {
    pub terms: Vec<QueryTerm>,
    pub ranking: RankingInputs,
}

/// The words of `s`: its maximal runs of non-whitespace characters, in
/// order (what `str::split_whitespace` yields).
pub open spec fn ws_words(s: Seq<char>) -> Seq<Seq<char>>
    decreases s.len(),
{
    if s.len() == 0 {
        Seq::empty()
    } else {
        let prev = ws_words(s.drop_last());
        let c = s.last();
        if is_ws(c) {
            prev
        } else if s.len() >= 2 && !is_ws(s[s.len() - 2]) {
            prev.update(prev.len() - 1, prev.last().push(c))
        } else {
            prev.push(seq![c])
        }
    }
}

/// A non-empty text ending in a non-whitespace character has at least one
/// word.
proof fn lemma_words_nonempty(s: Seq<char>)
    requires
        s.len() > 0,
        !is_ws(s.last()),
    ensures
        ws_words(s).len() > 0,
    decreases s.len(),
{
    if s.len() >= 2 && !is_ws(s[s.len() - 2]) {
        let t = s.drop_last();
        assert(t.last() == s[s.len() - 2]);
        lemma_words_nonempty(t);
    }
}

/// The words of `input`, as `str::split_whitespace` splits it.
pub fn split_whitespace(input: &str) -> (words: Vec<String>)
    ensures
        strings_view(words@) == ws_words(input@),
{
    let v = chars_of(input);
    let mut words: Vec<String> = Vec::new();
    let mut i: usize = 0;
    while i < v.len()
        invariant
            i <= v.len(),
            v@ == input@,
            strings_view(words@) == ws_words(v@.take(i as int)),
        decreases v.len() - i,
    {
        let c = v[i];
        let ghost t = v@.take(i as int);
        let ghost t1 = v@.take(i + 1);
        assert(t1.drop_last() =~= t);
        assert(t1.last() == c);
        if is_whitespace(c) {
        } else if i >= 1 && !is_whitespace(v[i - 1]) {
            assert(t1[t1.len() - 2] == v@[i - 1]);
            proof {
                assert(t.last() == v@[i - 1]);
                lemma_words_nonempty(t);
            }
            let mut w = words.pop().unwrap();
            push_char(&mut w, c);
            words.push(w);
            assert(strings_view(words@) =~= ws_words(t).update(ws_words(t).len() - 1, ws_words(t).last().push(c)));
        } else {
            let mut w = String::new();
            push_char(&mut w, c);
            words.push(w);
            assert(strings_view(words@) =~= ws_words(t).push(seq![c]));
        }
        i = i + 1;
    }
    assert(v@.take(v@.len() as int) =~= v@);
    words
}

/// The terms a query holds: each word of the input, the last one marked as
/// a prefix (the user may still be typing it).
pub open spec fn query_matches_input(q: ParsedQuery, input: Seq<char>) -> bool {
    let words = ws_words(input);
    &&& q.terms@.len() == words.len()
    &&& forall|i: int|
        0 <= i < words.len() ==> (#[trigger] q.terms@[i]).text@ == words[i] && q.terms@[i].is_prefix
            == (i == words.len() - 1)
    &&& q.ranking.boost_pinned
}

pub open spec fn term_texts(terms: Seq<QueryTerm>) -> Seq<Seq<char>> {
    terms.map_values(|t: QueryTerm| t.text@)
}

impl ParsedQuery {
    /// The text of each term, in order.
    pub fn terms(&self) -> (texts: Vec<String>)
        ensures
            strings_view(texts@) == term_texts(self.terms@),
    {
        let mut texts: Vec<String> = Vec::new();
        let mut i: usize = 0;
        while i < self.terms.len()
            invariant
                i <= self.terms.len(),
                strings_view(texts@) == term_texts(self.terms@).take(i as int),
            decreases self.terms.len() - i,
        {
            let t = self.terms[i].text.clone();
            assert(term_texts(self.terms@)[i as int] == t@);
            let ghost before = texts@;
            texts.push(t);
            assert(strings_view(texts@) =~= strings_view(before).push(term_texts(self.terms@)[i as int]));
            assert(term_texts(self.terms@).take(i + 1) =~= term_texts(self.terms@).take(i as int).push(term_texts(self.terms@)[i as int]));
            i = i + 1;
        }
        assert(term_texts(self.terms@).take(self.terms@.len() as int) =~= term_texts(self.terms@));
        texts
    }

    pub fn is_empty(&self) -> (b: bool)
        ensures
            b == (self.terms@.len() == 0),
    {
        self.terms.len() == 0
    }
}

/// Parses a raw search string into structured query terms, marking the final
/// term as a prefix-match candidate for incremental search.
pub fn parse_query(input: &str) -> (q: ParsedQuery)
    ensures
        query_matches_input(q, input@),
{
    let words = split_whitespace(input);
    let n = words.len();
    let mut terms: Vec<QueryTerm> = Vec::new();
    let mut i: usize = 0;
    while i < n
        invariant
            i <= n,
            n == words@.len(),
            strings_view(words@) == ws_words(input@),
            terms@.len() == i,
            forall|j: int|
                0 <= j < i ==> (#[trigger] terms@[j]).text@ == words@[j]@ && terms@[j].is_prefix == (
                j == n - 1),
        decreases n - i,
    {
        let text = words[i].clone();
        terms.push(QueryTerm { text, is_prefix: i == n - 1 });
        i = i + 1;
    }
    let q = ParsedQuery { terms, ranking: RankingInputs::default() };
    assert forall|j: int| 0 <= j < ws_words(input@).len() implies (#[trigger] q.terms@[j]).text@
        == ws_words(input@)[j] by {
        assert(strings_view(words@)[j] == words@[j]@);
    }
    q
}

#[derive(Debug, Clone, PartialEq, Eq, Default)]
pub struct SearchFilters {
    pub mime_family: Option<MimeFamily>,
    pub pinned_only: bool,
    pub group_id: Option<String>,
    pub favorite_only: bool,
    pub source_app: Option<String>,
}

} // verus!
