//! The word-supply pipeline: a buffer of pre-fetched candidate words, the
//! scrambler, and the coordination that keeps at most one refill request
//! outstanding at a time.
//!
//! The buffer itself never performs network work.  When a take finds the
//! buffer empty it hands the caller a [`RefillRequest`] ticket — at most one
//! until the refill completes — and the caller performs the fetch and
//! reports back through [`WordApi::complete_refill`] or
//! [`WordApi::fail_refill`].

use vstd::prelude::*;
use crate::anagram::is_anagram_of;
use crate::letters::chars_of;
use crate::letters::string_from_chars;
use rand::seq::SliceRandom;

verus! {

broadcast use vstd::seq_lib::group_to_multiset_ensures;

/// A word buffer: pre-fetched candidate words plus the in-flight refill
/// flag.  `word_length` is the target character length for the next refill,
/// `num_words` the batch size.
pub struct WordApi {
    pub buffer: Vec<String>,
    pub word_length: usize,
    pub num_words: usize,
    pub requested: bool,
}

/// A ticket for one refill fetch: `count` words of exactly `length`
/// characters.  Handed out at most once per empty-buffer episode.
#[derive(Clone, Copy)]
pub struct RefillRequest {
    pub count: usize,
    pub length: usize,
}

/// What can go wrong between asking the word provider for a batch and
/// having usable words: the transport failed, the payload was malformed, or
/// the provider answered with no words at all.  All three are retry-eligible
/// and none propagates past the buffer.
#[derive(Clone, Copy, Debug, PartialEq, Eq, Structural)]
pub enum FetchError {
    NetworkError,
    ParseError,
    EmptyResult,
}

/// Mathematical state of the buffer: the pending words and the in-flight
/// refill flag.
pub ghost struct BufferModel {
    pub pending: Seq<Seq<char>>,
    pub fetch_in_flight: bool,
}

/// One take against the model: pop the most recently fetched word, or, on
/// an empty buffer, raise the in-flight flag.
pub open spec fn take_step(m: BufferModel) -> BufferModel {
    if m.pending.len() > 0 {
        BufferModel { pending: m.pending.drop_last(), ..m }
    } else {
        BufferModel { fetch_in_flight: true, ..m }
    }
}

/// The take dispatches a refill exactly when the buffer is empty and no
/// refill is already outstanding.
pub open spec fn take_dispatches(m: BufferModel) -> bool {
    m.pending.len() == 0 && !m.fetch_in_flight
}

/// The word a take yields, if any.
pub open spec fn take_yields(m: BufferModel) -> Option<Seq<char>> {
    if m.pending.len() > 0 {
        Some(m.pending.last())
    } else {
        None
    }
}

/// `i` successive takes against the model.
pub open spec fn take_steps(m: BufferModel, i: int) -> BufferModel
    decreases i,
{
    if i <= 0 {
        m
    } else {
        take_step(take_steps(m, i - 1))
    }
}

/// A buffer holding `n` pending words supports exactly `n` successful
/// takes: each of the first `n` yields a distinct pending word (most
/// recently fetched first, none duplicated, none lost), and the take after
/// that yields nothing.
pub proof fn lemma_drain_count(m: BufferModel, i: int)
    requires
        0 <= i <= m.pending.len(),
    ensures
        take_steps(m, i).pending == m.pending.take(m.pending.len() - i),
        take_steps(m, i).fetch_in_flight == m.fetch_in_flight,
        i < m.pending.len() ==> take_yields(take_steps(m, i)) == Some(
            m.pending[m.pending.len() - 1 - i],
        ),
        i == m.pending.len() ==> take_yields(take_steps(m, i)) is None,
    decreases i,
{
    if i == 0 {
        assert(m.pending.take(m.pending.len() as int) =~= m.pending);
    } else {
        lemma_drain_count(m, i - 1);
        assert(m.pending.take(m.pending.len() - (i - 1)).drop_last() =~= m.pending.take(
            m.pending.len() - i,
        ));
    }
}

/// At most one refill is ever outstanding: a take dispatches only when no
/// fetch is in flight, the dispatch raises the flag, and while the flag is
/// up no further take dispatches anything.
pub proof fn lemma_single_refill_in_flight(m: BufferModel)
    ensures
        take_dispatches(m) ==> !m.fetch_in_flight,
        take_dispatches(m) ==> take_step(m).fetch_in_flight,
        m.fetch_in_flight ==> !take_dispatches(take_step(m)),
        take_dispatches(m) ==> !take_dispatches(take_step(m)),
{
}

/// A word length one letter up, saturating at the machine limit.
pub open spec fn grown_length(l: usize) -> usize {
    if l < usize::MAX {
        (l + 1) as usize
    } else {
        l
    }
}

/// Characters the sanitizer strips from a degraded text payload: stray
/// brackets and quotes around or inside the fields of a naive list
/// rendering.
pub open spec fn stripped(c: char) -> bool {
    c == '[' || c == ']' || c == '"'
}

/// The fields of a payload, split at commas.  An empty payload has one
/// empty field.
pub open spec fn comma_split(s: Seq<char>) -> Seq<Seq<char>>
    decreases s.len(),
{
    if s.len() == 0 {
        seq![Seq::<char>::empty()]
    } else if s.last() == ',' {
        comma_split(s.drop_last()).push(Seq::<char>::empty())
    } else {
        let p = comma_split(s.drop_last());
        p.update(p.len() - 1, p.last().push(s.last()))
    }
}

pub proof fn lemma_comma_split_len(s: Seq<char>)
    ensures
        comma_split(s).len() >= 1,
    decreases s.len(),
{
    if s.len() > 0 {
        lemma_comma_split_len(s.drop_last());
    }
}

/// The characters a field keeps under sanitization.
pub open spec fn kept_fn() -> spec_fn(char) -> bool {
    |c: char| !stripped(c)
}

/// A field after sanitization: the stray characters removed, everything
/// else kept in order — a field is never otherwise altered.
pub open spec fn sanitize(w: Seq<char>) -> Seq<char> {
    w.filter(kept_fn())
}

/// Sanitization as a value, for mapping over the fields.
pub open spec fn sanitize_fn() -> spec_fn(Seq<char>) -> Seq<char> {
    |w: Seq<char>| sanitize(w)
}

/// The fields that still hold any text.
pub open spec fn nonempty_fn() -> spec_fn(Seq<char>) -> bool {
    |w: Seq<char>| w.len() > 0
}

/// The usable words among a run of fields: each sanitized, empty ones
/// dropped.
pub open spec fn completed_words(fields: Seq<Seq<char>>) -> Seq<Seq<char>> {
    fields.map_values(sanitize_fn()).filter(nonempty_fn())
}

/// Unfolds one sanitization step: the last character of a field is kept or
/// stripped.
proof fn lemma_sanitize_step(w: Seq<char>, c: char)
    ensures
        sanitize(w.push(c)) == if stripped(c) {
            sanitize(w)
        } else {
            sanitize(w).push(c)
        },
{
    reveal(Seq::filter);
    let grown = w.push(c);
    assert(grown.len() > 0);
    assert(grown.last() == c);
    assert(grown.drop_last() =~= w);
}

/// The words a payload yields: split at commas, sanitize each field, keep
/// the non-empty ones.
pub open spec fn word_list(s: Seq<char>) -> Seq<Seq<char>> {
    completed_words(comma_split(s))
}

/// Appending one more field extends the usable words by that field's
/// sanitized text exactly when something of it survives sanitization.
proof fn lemma_completed_words_step(fields: Seq<Seq<char>>)
    requires
        fields.len() >= 1,
    ensures
        completed_words(fields) == if sanitize(fields.last()).len() > 0 {
            completed_words(fields.drop_last()).push(sanitize(fields.last()))
        } else {
            completed_words(fields.drop_last())
        },
{
    reveal(Seq::filter);
    let f = sanitize_fn();
    let p = nonempty_fn();
    let m = fields.map_values(f);
    assert(m.len() == fields.len());
    assert(m.drop_last() =~= fields.drop_last().map_values(f));
    assert(m.last() == sanitize(fields.last()));
    if p(m.last()) {
        assert(m.filter(p) == m.drop_last().filter(p).push(m.last()));
    } else {
        assert(m.filter(p) == m.drop_last().filter(p));
    }
}

/// Extracts the candidate words from a provider payload.  The payload is
/// split at commas; stray `[`, `]` and `"` characters are stripped from
/// each field; fields with nothing left are dropped, never handed on as
/// empty words.  A payload that yields no words at all is reported as
/// [`FetchError::EmptyResult`].
pub fn parse_words(payload: &str) -> (r: Result<Vec<String>, FetchError>)
    ensures
        word_list(payload@).len() > 0 ==> (r matches Ok(ws) && ws.deep_view() == word_list(
            payload@,
        )),
        word_list(payload@).len() == 0 ==> (r matches Err(e) && e == FetchError::EmptyResult),
{
    let chars = chars_of(payload);
    let mut out: Vec<String> = Vec::new();
    let mut cur: Vec<char> = Vec::new();
    let mut i: usize = 0;
    proof {
        assert(payload@.take(0) =~= Seq::<char>::empty());
        assert(out.deep_view() =~= completed_words(comma_split(payload@.take(0)).drop_last()));
    }
    while i < chars.len()
        invariant
            0 <= i <= chars@.len(),
            chars@ == payload@,
            cur@ == sanitize(comma_split(payload@.take(i as int)).last()),
            out.deep_view() == completed_words(comma_split(payload@.take(i as int)).drop_last()),
        decreases chars@.len() - i,
    {
        let ghost t = payload@.take(i as int);
        let ghost p = comma_split(t);
        proof {
            lemma_comma_split_len(t);
            assert(payload@.take(i + 1).drop_last() =~= t);
            assert(payload@.take(i + 1).last() == payload@[i as int]);
        }
        let c = chars[i];
        if c == ',' {
            proof {
                assert(comma_split(payload@.take(i + 1)) == p.push(Seq::<char>::empty()));
                assert(comma_split(payload@.take(i + 1)).drop_last() =~= p);
                lemma_completed_words_step(p);
            }
            if cur.len() > 0 {
                let ghost pre_out = out.deep_view();
                out.push(string_from_chars(&cur));
                cur = Vec::new();
                proof {
                    assert(out.deep_view() =~= pre_out.push(sanitize(p.last())));
                }
            } else {
                proof {
                    assert(sanitize(p.last()).len() == 0);
                }
            }
        } else {
            let ghost grown = p.last().push(c);
            proof {
                assert(comma_split(payload@.take(i + 1)) == p.update(p.len() - 1, grown));
                assert(comma_split(payload@.take(i + 1)).drop_last() =~= p.drop_last());
                assert(comma_split(payload@.take(i + 1)).last() == grown);
                assert(grown.drop_last() =~= p.last());
                assert(grown.last() == c);
                lemma_sanitize_step(p.last(), c);
            }
            if !(c == '[' || c == ']' || c == '"') {
                cur.push(c);
                proof {
                    assert(sanitize(grown) == sanitize(p.last()).push(c));
                }
            } else {
                proof {
                    assert(sanitize(grown) == sanitize(p.last()));
                }
            }
        }
        i += 1;
    }
    proof {
        assert(payload@.take(i as int) =~= payload@);
        lemma_comma_split_len(payload@);
        lemma_completed_words_step(comma_split(payload@));
    }
    if cur.len() > 0 {
        let ghost pre_out = out.deep_view();
        out.push(string_from_chars(&cur));
        proof {
            assert(out.deep_view() =~= pre_out.push(
                sanitize(comma_split(payload@).last()),
            ));
        }
    }
    if out.len() == 0 {
        Err(FetchError::EmptyResult)
    } else {
        Ok(out)
    }
}

/// Relies on `rand::seq::SliceRandom::shuffle`: a Fisher-Yates shuffle
/// permutes the slice in place by swaps, so the characters and their
/// multiplicities are unchanged.
#[verifier::external_body]
fn shuffle_chars(v: &mut Vec<char>)
    ensures
        final(v)@.to_multiset() == old(v)@.to_multiset(),
        final(v)@.len() == old(v)@.len(),
{
    v.shuffle(&mut rand::thread_rng());
}

/// Returns a random rearrangement of the word's characters: same length,
/// same character multiset.  Words of length at most one come back
/// unchanged; longer words may still coincidentally come back in the
/// original arrangement, which is acceptable.
pub fn scramble_word(word: String) -> (r: String)
    ensures
        is_anagram_of(r@, word@),
        r@.len() == word@.len(),
        word@.len() <= 1 ==> r@ == word@,
{
    let mut chars = chars_of(word.as_str());
    if chars.len() <= 1 {
        return word;
    }
    shuffle_chars(&mut chars);
    string_from_chars(&chars)
}

/// A scramble of any word passes the anagram check against that word:
/// `scrambled` stands for any result the scrambler admits for `word` (its
/// contract: the character multisets match), and the anagram check accepts
/// exactly multiset equality, in either argument order.
pub proof fn lemma_scramble_is_anagram(word: Seq<char>, scrambled: Seq<char>)
    requires
        is_anagram_of(scrambled, word),
    ensures
        is_anagram_of(word, scrambled),
{
}

impl View for WordApi {
    type V = BufferModel;

    /// The buffer as its mathematical model.
    open spec fn view(&self) -> BufferModel {
        BufferModel { pending: self.buffer.deep_view(), fetch_in_flight: self.requested }
    }
}

impl Default for WordApi {
    /// A fresh buffer: nothing pending, no refill in flight, and the
    /// starting fetch shape (batches of ten five-letter words).
    fn default() -> (r: Self)
        ensures
            r@.pending == Seq::<Seq<char>>::empty(),
            !r@.fetch_in_flight,
            r.word_length == 5,
            r.num_words == 10,
    {
        let r = WordApi {
            buffer: Vec::new(),
            word_length: 5,
            num_words: 10,
            requested: false,
        };
        proof {
            assert(r@.pending =~= Seq::<Seq<char>>::empty());
        }
        r
    }
}

impl WordApi {
    /// Pops the most recently fetched pending word and returns it scrambled
    /// beside the original.  Yields nothing on an empty buffer.  Refill
    /// coordination lives in [`Self::try_take_word`]; this operation never
    /// touches the in-flight flag.
    pub fn get_next_word(&mut self) -> (r: Option<(String, String)>)
        ensures
            final(self).word_length == old(self).word_length,
            final(self).num_words == old(self).num_words,
            final(self).requested == old(self).requested,
            old(self)@.pending.len() > 0 ==> {
                &&& r is Some
                &&& final(self)@.pending == old(self)@.pending.drop_last()
                &&& (r matches Some(p) ==> {
                    &&& p.1@ == old(self)@.pending.last()
                    &&& is_anagram_of(p.0@, p.1@)
                    &&& p.0@.len() == p.1@.len()
                })
            },
            old(self)@.pending.len() == 0 ==> r is None && final(self)@ == old(self)@,
    {
        let popped = self.buffer.pop();
        match popped {
            Some(original_word) => {
                proof {
                    assert(self@.pending =~= old(self)@.pending.drop_last());
                }
                let scrambled_word = scramble_word(original_word.clone());
                Some((scrambled_word, original_word))
            },
            None => {
                proof {
                    assert(self@.pending =~= old(self)@.pending);
                }
                None
            },
        }
    }

    /// The consumer-facing take (the operation the session polls once per
    /// tick).  On a non-empty buffer it behaves as [`Self::get_next_word`].
    /// On an empty buffer it returns no word and, exactly when no refill is
    /// already in flight, raises the flag and hands out the one
    /// [`RefillRequest`] ticket for the caller to dispatch.
    pub fn try_take_word(&mut self) -> (r: (Option<(String, String)>, Option<RefillRequest>))
        ensures
            final(self)@ == take_step(old(self)@),
            r.1 is Some <==> take_dispatches(old(self)@),
            final(self).word_length == old(self).word_length,
            final(self).num_words == old(self).num_words,
            r.1 matches Some(t) ==> t.count == old(self).num_words && t.length == old(
                self,
            ).word_length,
            old(self)@.pending.len() > 0 ==> {
                &&& r.0 is Some
                &&& (r.0 matches Some(p) ==> {
                    &&& p.1@ == old(self)@.pending.last()
                    &&& is_anagram_of(p.0@, p.1@)
                    &&& p.0@.len() == p.1@.len()
                })
            },
            old(self)@.pending.len() == 0 ==> r.0 is None,
    {
        let word = self.get_next_word();
        if word.is_some() {
            (word, None)
        } else {
            let ticket = if !self.requested {
                self.requested = true;
                Some(RefillRequest { count: self.num_words, length: self.word_length })
            } else {
                None
            };
            (word, ticket)
        }
    }

    /// Completion handler for a successful refill: the fetched words join
    /// the queue behind any words still pending, and the in-flight flag is
    /// cleared so a later empty buffer can trigger the next refill.
    pub fn complete_refill(&mut self, words: Vec<String>)
        ensures
            final(self)@.pending == old(self)@.pending + words.deep_view(),
            !final(self)@.fetch_in_flight,
            final(self).word_length == old(self).word_length,
            final(self).num_words == old(self).num_words,
    {
        let mut incoming = words;
        self.buffer.append(&mut incoming);
        self.requested = false;
        proof {
            assert(self@.pending =~= old(self)@.pending + words.deep_view());
        }
    }

    /// Completion handler for a failed refill (transport failure, malformed
    /// payload, or an empty batch): the queue is left untouched and the
    /// in-flight flag is cleared, so the failure never wedges the buffer —
    /// the next take on an empty buffer retries.
    pub fn fail_refill(&mut self)
        ensures
            final(self)@.pending == old(self)@.pending,
            !final(self)@.fetch_in_flight,
            final(self).word_length == old(self).word_length,
            final(self).num_words == old(self).num_words,
    {
        self.requested = false;
    }

    /// Raises the target word length for future refills by one letter;
    /// saturates at the machine limit.  The session drives this as its
    /// difficulty progression.
    pub fn increase_word_length(&mut self)
        ensures
            final(self).word_length == grown_length(old(self).word_length),
            final(self)@ == old(self)@,
            final(self).num_words == old(self).num_words,
    {
        if self.word_length < usize::MAX {
            self.word_length = self.word_length + 1;
        }
    }
}

} // verus!
