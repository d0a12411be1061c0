//! The session state machine: score, time budget, the current word pair,
//! difficulty progression, and the rules that decide a guess.
//!
//! Difficulty policy: the target word length grows by one letter after
//! every [`GameState::correct_answers_per_level`] correct answers in a row
//! (an incorrect answer breaks the streak); the default step is
//! [`WORDS_PER_LEVEL`], and [`GameState::with_level_step`] picks another.

use vstd::prelude::*;
use crate::anagram::is_anagram;
use crate::anagram::is_anagram_of;
use crate::api::RefillRequest;
use crate::api::WordApi;
use crate::api::grown_length;
use crate::api::take_dispatches;
use crate::api::take_step;
use crate::contact_server::send_recieve::MakeRequest;
use crate::contact_server::send_recieve::answer_accepts;
use crate::letters::str_eq;

verus! {

/// Starting time budget of a session, in milliseconds.
pub const STARTING_TIME_MS: u64 = 60000;

/// Points awarded for a correct answer.
pub const CORRECT_REWARD: u32 = 10;

/// Points taken for an incorrect answer (the score never drops below zero).
pub const INCORRECT_PENALTY: u32 = 5;

/// Time awarded for a correct answer, in milliseconds.
pub const CORRECT_TIME_BONUS_MS: u64 = 5000;

/// Time taken for an incorrect answer, in milliseconds (the budget is
/// floored at zero, which ends the session).
pub const INCORRECT_TIME_PENALTY_MS: u64 = 5000;

/// Default difficulty step: correct answers in a row per one-letter growth
/// of the word length.
pub const WORDS_PER_LEVEL: u32 = 7;

/// Word length a fresh session starts at.
pub const STARTING_WORD_LENGTH: usize = 4;

/// Where a session stands: waiting for the buffer to yield a word, showing
/// a word and accepting guesses, or over.
#[derive(Clone, Copy, PartialEq, Eq, Structural, Debug)]
pub enum SessionStatus {
    AwaitingWord,
    Active,
    Ended,
}

/// One game session.  `time_alotted` is the remaining budget in
/// milliseconds; `restore_scrambled` keeps the arrangement shown to the
/// player so an incorrect guess restores the same arrangement for a retry.
pub struct GameState {
    pub score: u32,
    pub time_alotted: u64,
    pub original_word: String,
    pub scrambled_word: String,
    pub restore_scrambled: String,
    pub status: SessionStatus,
    pub guess_history: Vec<(String, bool)>,
    pub correct_streak_counter: u32,
    pub correct_answers_per_level: u32,
    pub api: WordApi,
}

/// Score after a correct answer: up by the reward, saturating at the
/// machine limit.
pub open spec fn reward_score(s: u32) -> u32 {
    if s <= u32::MAX - CORRECT_REWARD {
        (s + CORRECT_REWARD) as u32
    } else {
        u32::MAX
    }
}

/// Score after an incorrect answer: down by the penalty, floored at zero —
/// never negative.
pub open spec fn penalized_score(s: u32) -> u32 {
    if s >= INCORRECT_PENALTY {
        (s - INCORRECT_PENALTY) as u32
    } else {
        0
    }
}

/// Time budget after a correct answer: up by the bonus, saturating.
pub open spec fn reward_time(t: u64) -> u64 {
    if t <= u64::MAX - CORRECT_TIME_BONUS_MS {
        (t + CORRECT_TIME_BONUS_MS) as u64
    } else {
        u64::MAX
    }
}

/// Time budget after an incorrect answer: down by the penalty, floored at
/// zero.
pub open spec fn penalized_time(t: u64) -> u64 {
    if t >= INCORRECT_TIME_PENALTY_MS {
        (t - INCORRECT_TIME_PENALTY_MS) as u64
    } else {
        0
    }
}

/// Time budget after `elapsed_ms` of wall time passed, floored at zero.
pub open spec fn elapsed_time(t: u64, elapsed_ms: u64) -> u64 {
    if t >= elapsed_ms {
        (t - elapsed_ms) as u64
    } else {
        0
    }
}

/// The correct-answer predicate: the guess matches the original exactly
/// (no dictionary needed), or it is a dictionary word and an anagram of the
/// original.
pub open spec fn guess_correct(pre: GameState, input: Seq<char>, dictionary_valid: bool) -> bool {
    input == pre.original_word@ || (dictionary_valid && is_anagram_of(
        input,
        pre.original_word@,
    ))
}

/// What a correct answer does to a session (the guess log aside): reward
/// the score and the clock, discard the word pair and fall back to
/// awaiting the next word, and step the difficulty when the streak fills.
pub open spec fn correct_step(pre: GameState, post: GameState) -> bool {
    &&& post.score == reward_score(pre.score)
    &&& post.time_alotted == reward_time(pre.time_alotted)
    &&& post.status is AwaitingWord
    &&& post.original_word@ == Seq::<char>::empty()
    &&& post.scrambled_word@ == Seq::<char>::empty()
    &&& post.restore_scrambled@ == Seq::<char>::empty()
    &&& (if pre.correct_streak_counter + 1 == pre.correct_answers_per_level {
        post.correct_streak_counter == 0 && post.api.word_length == grown_length(
            pre.api.word_length,
        )
    } else {
        post.correct_streak_counter == pre.correct_streak_counter + 1 && post.api.word_length
            == pre.api.word_length
    })
    &&& post.api@ == pre.api@
    &&& post.api.num_words == pre.api.num_words
    &&& post.correct_answers_per_level == pre.correct_answers_per_level
}

/// What an incorrect answer does to a session (the guess log aside): the
/// penalties land, both floored at zero; a zero clock ends the session at
/// once; the same scrambled arrangement is restored for the retry; the
/// correct streak is broken.
pub open spec fn incorrect_step(pre: GameState, post: GameState) -> bool {
    post == (GameState {
        score: penalized_score(pre.score),
        time_alotted: penalized_time(pre.time_alotted),
        status: if penalized_time(pre.time_alotted) == 0 {
            SessionStatus::Ended
        } else {
            SessionStatus::Active
        },
        scrambled_word: pre.restore_scrambled,
        correct_streak_counter: 0,
        ..pre
    })
}

impl GameState {
    /// A session's internal consistency: the difficulty step is positive
    /// and the streak is below it; the session has ended exactly when the
    /// clock is at zero; while a word is shown, both the shown and the
    /// kept-for-retry arrangements are true scrambles of the original.
    pub open spec fn wf(&self) -> bool {
        &&& self.correct_answers_per_level > 0
        &&& self.correct_streak_counter < self.correct_answers_per_level
        &&& (self.status is Ended <==> self.time_alotted == 0)
        &&& (self.status is Active ==> is_anagram_of(self.scrambled_word@, self.original_word@)
            && is_anagram_of(self.restore_scrambled@, self.original_word@))
    }

    /// A fresh session: no points, the full time budget, no word yet, an
    /// empty buffer set to fetch four-letter words, and the default
    /// difficulty step.
    pub fn new() -> (r: Self)
        ensures
            r.wf(),
            r.score == 0,
            r.time_alotted == STARTING_TIME_MS,
            r.original_word@ == Seq::<char>::empty(),
            r.scrambled_word@ == Seq::<char>::empty(),
            r.restore_scrambled@ == Seq::<char>::empty(),
            r.status is AwaitingWord,
            r.guess_history@ == Seq::<(String, bool)>::empty(),
            r.correct_streak_counter == 0,
            r.correct_answers_per_level == WORDS_PER_LEVEL,
            r.api@.pending == Seq::<Seq<char>>::empty(),
            !r.api@.fetch_in_flight,
            r.api.word_length == STARTING_WORD_LENGTH,
            r.api.num_words == 10,
    {
        let mut api = WordApi::default();
        api.word_length = STARTING_WORD_LENGTH;
        GameState {
            score: 0,
            time_alotted: STARTING_TIME_MS,
            original_word: String::new(),
            scrambled_word: String::new(),
            restore_scrambled: String::new(),
            status: SessionStatus::AwaitingWord,
            guess_history: Vec::new(),
            correct_streak_counter: 0,
            correct_answers_per_level: WORDS_PER_LEVEL,
            api,
        }
    }

    /// A fresh session with a custom difficulty step: the word length grows
    /// after every `correct_answers_per_level` correct answers in a row.
    pub fn with_level_step(correct_answers_per_level: u32) -> (r: Self)
        requires
            correct_answers_per_level > 0,
        ensures
            r.wf(),
            r.correct_answers_per_level == correct_answers_per_level,
            r.score == 0,
            r.time_alotted == STARTING_TIME_MS,
            r.status is AwaitingWord,
            r.guess_history@ == Seq::<(String, bool)>::empty(),
            r.correct_streak_counter == 0,
            r.api@.pending == Seq::<Seq<char>>::empty(),
            !r.api@.fetch_in_flight,
            r.api.word_length == STARTING_WORD_LENGTH,
    {
        let mut r = Self::new();
        r.correct_answers_per_level = correct_answers_per_level;
        r
    }

    /// Asks the dictionary service about `input` and reads the answer
    /// conservatively: any failure counts as "not a valid word", never as a
    /// crash.  What the reading concludes from each possible answer is
    /// pinned by [`answer_accepts`]; nothing is promised of the answer
    /// itself.
    pub fn validate_word<S: MakeRequest>(&self, source: &S, input: &str) -> bool {
        let answer = source.send_request(input);
        answer_accepts(&answer)
    }

    /// True when deciding this guess needs the remote dictionary: a guess
    /// that matches the original exactly short-circuits without a network
    /// call, and one that is not even an anagram of the original is wrong
    /// regardless of what the dictionary would say.
    pub fn needs_dictionary_check(&self, input: &str) -> (r: bool)
        ensures
            r == (self.status is Active && input@ != self.original_word@ && is_anagram_of(
                input@,
                self.original_word@,
            )),
    {
        match self.status {
            SessionStatus::Active => !str_eq(input, self.original_word.as_str()) && is_anagram(
                input,
                self.original_word.as_str(),
            ),
            _ => false,
        }
    }

    /// Decides one guess.  Outside the `Active` state nothing happens — in
    /// particular, once the session has ended no guess moves score or
    /// clock.  While active: the guess is correct iff it matches the
    /// original exactly or is a dictionary word (`dictionary_valid`, as the
    /// caller learned it from [`Self::validate_word`]) and an anagram of
    /// the original; the guess and its verdict join the log; and the
    /// session takes the corresponding step.
    pub fn submit_guess(&mut self, input: String, dictionary_valid: bool) -> (correct: bool)
        requires
            old(self).wf(),
        ensures
            final(self).wf(),
            !(old(self).status is Active) ==> *final(self) == *old(self) && !correct,
            old(self).status is Active ==> {
                &&& correct == guess_correct(*old(self), input@, dictionary_valid)
                &&& final(self).guess_history@ == old(self).guess_history@.push((input, correct))
                &&& (correct ==> correct_step(*old(self), *final(self)))
                &&& (!correct ==> incorrect_step(
                    GameState { guess_history: final(self).guess_history, ..*old(self) },
                    *final(self),
                ))
            },
    {
        match self.status {
            SessionStatus::Active => {
                let correct = if str_eq(input.as_str(), self.original_word.as_str()) {
                    true
                } else {
                    dictionary_valid && is_anagram(input.as_str(), self.original_word.as_str())
                };
                if correct {
                    self.guess_history.push((input, true));
                    self.correct_answer();
                } else {
                    self.guess_history.push((input, false));
                    self.incorrect_answer();
                }
                correct
            },
            _ => false,
        }
    }

    /// Advances the clock by `elapsed_ms` milliseconds of wall time.  The
    /// budget is floored at zero, and a zero budget moves the session to
    /// `Ended`; an ended session never changes again.
    pub fn notify_tick_elapsed(&mut self, elapsed_ms: u64)
        requires
            old(self).wf(),
        ensures
            final(self).wf(),
            old(self).status is Ended ==> *final(self) == *old(self),
            !(old(self).status is Ended) ==> *final(self) == (GameState {
                time_alotted: elapsed_time(old(self).time_alotted, elapsed_ms),
                status: if elapsed_time(old(self).time_alotted, elapsed_ms) == 0 {
                    SessionStatus::Ended
                } else {
                    old(self).status
                },
                ..*old(self)
            }),
    {
        match self.status {
            SessionStatus::Ended => {},
            _ => {
                if self.time_alotted >= elapsed_ms {
                    self.time_alotted = self.time_alotted - elapsed_ms;
                } else {
                    self.time_alotted = 0;
                }
                if self.time_alotted == 0 {
                    self.status = SessionStatus::Ended;
                }
            },
        }
    }

    /// What the presentation layer reads each tick: the letters to show,
    /// the clock, the score and the guess log — nothing else of the session
    /// is presentation's business.
    pub fn current_display_state(&self) -> (d: DisplayState)
        ensures
            d.scrambled_letters@ == self.scrambled_word@,
            d.time_remaining == self.time_alotted,
            d.score == self.score,
            d.guess_history@ == self.guess_history@,
    {
        let mut history: Vec<(String, bool)> = Vec::new();
        let mut i: usize = 0;
        while i < self.guess_history.len()
            invariant
                0 <= i <= self.guess_history@.len(),
                history@ == self.guess_history@.take(i as int),
            decreases self.guess_history@.len() - i,
        {
            let entry: &(String, bool) = &self.guess_history[i];
            history.push((entry.0.clone(), entry.1));
            i += 1;
            proof {
                assert(history@ =~= self.guess_history@.take(i as int));
            }
        }
        proof {
            assert(history@ =~= self.guess_history@);
        }
        DisplayState {
            scrambled_letters: self.scrambled_word.clone(),
            time_remaining: self.time_alotted,
            score: self.score,
            guess_history: history,
        }
    }

    /// Number of correct guesses in the log; with the log's length this
    /// gives the final guess ratio.
    pub fn correct_guess_count(&self) -> (n: usize)
        ensures
            n == self.guess_history@.filter(was_correct_fn()).len(),
    {
        let mut n: usize = 0;
        let mut i: usize = 0;
        while i < self.guess_history.len()
            invariant
                0 <= i <= self.guess_history@.len(),
                n <= i,
                n == self.guess_history@.take(i as int).filter(was_correct_fn()).len(),
            decreases self.guess_history@.len() - i,
        {
            let ghost t = self.guess_history@.take(i as int);
            let ghost t1 = self.guess_history@.take(i + 1);
            proof {
                reveal(Seq::filter);
                assert(t1.drop_last() =~= t);
                assert(t1.last() == self.guess_history@[i as int]);
            }
            if self.guess_history[i].1 {
                n += 1;
            }
            i += 1;
        }
        proof {
            assert(self.guess_history@.take(i as int) =~= self.guess_history@);
        }
        n
    }
}

/// A snapshot of what is rendered: the scrambled letters, the remaining
/// time in milliseconds, the score, and the guess log.
pub struct DisplayState {
    pub scrambled_letters: String,
    pub time_remaining: u64,
    pub score: u32,
    pub guess_history: Vec<(String, bool)>,
}

/// Whether a logged guess was correct.
pub open spec fn was_correct_fn() -> spec_fn((String, bool)) -> bool {
    |g: (String, bool)| g.1
}

/// The session's mutating operations, as the presentation layer drives
/// them.  Each preserves the implementor's consistency (`uv_wf`); what each
/// does besides is stated on the implementation.
pub trait UpdateGameVariables {
    /// The consistency the operations demand and preserve.
    spec fn uv_wf(&self) -> bool;

    fn correct_answer(&mut self)
        requires
            old(self).uv_wf(),
        ensures
            final(self).uv_wf(),
    ;

    fn incorrect_answer(&mut self)
        requires
            old(self).uv_wf(),
        ensures
            final(self).uv_wf(),
    ;

    fn get_word(&mut self) -> (r: Option<RefillRequest>)
        requires
            old(self).uv_wf(),
        ensures
            final(self).uv_wf(),
    ;
}

impl UpdateGameVariables for GameState {
    /// For a session, consistency is [`GameState::wf`].
    open spec fn uv_wf(&self) -> bool {
        self.wf()
    }

    /// Applies the correct-answer step: reward score and clock, discard the
    /// word pair, advance the streak and, when it fills, the word length.
    /// A no-op unless a word is being shown.
    fn correct_answer(&mut self)
        ensures
            final(self).wf(),
            old(self).status is Active ==> correct_step(*old(self), *final(self))
                && final(self).guess_history == old(self).guess_history,
            !(old(self).status is Active) ==> *final(self) == *old(self),
    {
        match self.status {
            SessionStatus::Active => {
                if self.score <= u32::MAX - CORRECT_REWARD {
                    self.score = self.score + CORRECT_REWARD;
                } else {
                    self.score = u32::MAX;
                }
                if self.time_alotted <= u64::MAX - CORRECT_TIME_BONUS_MS {
                    self.time_alotted = self.time_alotted + CORRECT_TIME_BONUS_MS;
                } else {
                    self.time_alotted = u64::MAX;
                }
                self.original_word = String::new();
                self.scrambled_word = String::new();
                self.restore_scrambled = String::new();
                self.status = SessionStatus::AwaitingWord;
                if self.correct_streak_counter + 1 == self.correct_answers_per_level {
                    self.correct_streak_counter = 0;
                    self.api.increase_word_length();
                } else {
                    self.correct_streak_counter = self.correct_streak_counter + 1;
                }
            },
            _ => {},
        }
    }

    /// Applies the incorrect-answer step: both penalties land, floored at
    /// zero; a zero clock ends the session at once; the shown arrangement
    /// is restored for the retry; the streak is broken.  A no-op unless a
    /// word is being shown.
    fn incorrect_answer(&mut self)
        ensures
            final(self).wf(),
            old(self).status is Active ==> incorrect_step(*old(self), *final(self)),
            !(old(self).status is Active) ==> *final(self) == *old(self),
    {
        match self.status {
            SessionStatus::Active => {
                if self.score >= INCORRECT_PENALTY {
                    self.score = self.score - INCORRECT_PENALTY;
                } else {
                    self.score = 0;
                }
                if self.time_alotted >= INCORRECT_TIME_PENALTY_MS {
                    self.time_alotted = self.time_alotted - INCORRECT_TIME_PENALTY_MS;
                } else {
                    self.time_alotted = 0;
                }
                if self.time_alotted == 0 {
                    self.status = SessionStatus::Ended;
                }
                self.scrambled_word = self.restore_scrambled.clone();
                self.correct_streak_counter = 0;
            },
            _ => {},
        }
    }

    /// While awaiting a word, polls the buffer once: a yielded word becomes
    /// the current pair (shown and kept-for-retry arrangements alike) and
    /// the session turns active; on an empty buffer the session keeps
    /// waiting, and the returned ticket — handed out only when no refill
    /// was in flight — tells the caller to dispatch one fetch.  A no-op in
    /// any other state.
    fn get_word(&mut self) -> (r: Option<RefillRequest>)
        ensures
            final(self).wf(),
            !(old(self).status is AwaitingWord) ==> *final(self) == *old(self) && r is None,
            old(self).status is AwaitingWord ==> {
                &&& final(self).api@ == take_step(old(self).api@)
                &&& (r is Some <==> take_dispatches(old(self).api@))
                &&& (r matches Some(t) ==> t.count == old(self).api.num_words && t.length == old(
                    self,
                ).api.word_length)
                &&& final(self).api.word_length == old(self).api.word_length
                &&& final(self).api.num_words == old(self).api.num_words
                &&& final(self).score == old(self).score
                &&& final(self).time_alotted == old(self).time_alotted
                &&& final(self).guess_history == old(self).guess_history
                &&& final(self).correct_streak_counter == old(self).correct_streak_counter
                &&& final(self).correct_answers_per_level == old(self).correct_answers_per_level
                &&& (old(self).api@.pending.len() > 0 ==> {
                    &&& final(self).status is Active
                    &&& final(self).original_word@ == old(self).api@.pending.last()
                    &&& is_anagram_of(final(self).scrambled_word@, final(self).original_word@)
                    &&& final(self).restore_scrambled@ == final(self).scrambled_word@
                })
                &&& (old(self).api@.pending.len() == 0 ==> {
                    &&& final(self).status is AwaitingWord
                    &&& final(self).original_word == old(self).original_word
                    &&& final(self).scrambled_word == old(self).scrambled_word
                    &&& final(self).restore_scrambled == old(self).restore_scrambled
                })
            },
    {
        match self.status {
            SessionStatus::AwaitingWord => {
                let (word, ticket) = self.api.try_take_word();
                match word {
                    Some((scrambled_word, original_word)) => {
                        self.restore_scrambled = scrambled_word.clone();
                        self.scrambled_word = scrambled_word;
                        self.original_word = original_word;
                        self.status = SessionStatus::Active;
                    },
                    None => {},
                }
                ticket
            },
            _ => None,
        }
    }
}

} // verus!
