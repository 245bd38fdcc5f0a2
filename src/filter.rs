//! The classifier: per-class word counts and message counts, training and scoring.
use vstd::prelude::*;
use crate::ratio::fraction_greater;
use crate::tokens::{string_views, tokenize, tokens_of};
use crate::word_table::{bump, count_in, WordTable};

verus! {

/// `m` with one occurrence added for each of `toks`, in order.
pub open spec fn add_tokens(m: Map<Seq<char>, nat>, toks: Seq<Seq<char>>) -> Map<Seq<char>, nat>
    decreases toks.len(),
{
    if toks.len() == 0 {
        m
    } else {
        bump(add_tokens(m, toks.drop_last()), toks.last())
    }
}

/// The sum, over the tokens of `toks` that are keys of `m`, of their count plus one.
/// Each token of a class's score adds this over the class's message count plus two.
pub open spec fn evidence(toks: Seq<Seq<char>>, m: Map<Seq<char>, nat>) -> nat
    decreases toks.len(),
{
    if toks.len() == 0 {
        0
    } else {
        evidence(toks.drop_last(), m) + if m.contains_key(toks.last()) {
            m[toks.last()] + 1
        } else {
            0
        }
    }
}

/// What a classifier knows: per-class word counts and per-class message counts.
pub struct FilterView {
    pub spam_counts: Map<Seq<char>, nat>,
    pub ham_counts: Map<Seq<char>, nat>,
    pub spam_messages: nat,
    pub ham_messages: nat,
}

impl FilterView {
    /// Nothing trained.
    pub open spec fn empty() -> FilterView {
        FilterView {
            spam_counts: Map::empty(),
            ham_counts: Map::empty(),
            spam_messages: 0,
            ham_messages: 0,
        }
    }

    pub open spec fn counts(self, is_spam: bool) -> Map<Seq<char>, nat> {
        if is_spam {
            self.spam_counts
        } else {
            self.ham_counts
        }
    }

    pub open spec fn messages(self, is_spam: bool) -> nat {
        if is_spam {
            self.spam_messages
        } else {
            self.ham_messages
        }
    }

    pub open spec fn all_messages(self) -> nat {
        self.spam_messages + self.ham_messages
    }

    /// The state after training `message` with the label `is_spam`.
    pub open spec fn trained(self, message: Seq<char>, is_spam: bool) -> FilterView {
        if is_spam {
            FilterView {
                spam_counts: add_tokens(self.spam_counts, tokens_of(message)),
                spam_messages: self.spam_messages + 1,
                ..self
            }
        } else {
            FilterView {
                ham_counts: add_tokens(self.ham_counts, tokens_of(message)),
                ham_messages: self.ham_messages + 1,
                ..self
            }
        }
    }

    /// The verdict on `toks` where it needs no logarithm: `Some(true)` for spam,
    /// `Some(false)` for not spam, `None` where the two log priors must be weighed.
    ///
    /// A class's score is `ln(messages / all_messages) + evidence / (messages + 2)`.
    /// A class with no messages scores minus infinity; where the class with the
    /// larger (or equal) prior also has the larger (or equal) evidence term, the
    /// comparison needs no logarithm. Ties are not spam.
    pub open spec fn settled(self, toks: Seq<Seq<char>>) -> Option<bool> {
        let s = self.spam_messages;
        let h = self.ham_messages;
        let a = evidence(toks, self.spam_counts);
        let b = evidence(toks, self.ham_counts);
        if s == 0 {
            Some(false)
        } else if h == 0 {
            Some(true)
        } else if s >= h && a * (h + 2) > b * (s + 2) {
            Some(true)
        } else if s <= h && a * (h + 2) <= b * (s + 2) {
            Some(false)
        } else {
            None
        }
    }
}

/// The integer parts of one class's score on a message:
/// `ln(class_messages / all_messages) + evidence / evidence_denominator`.
pub struct ScoreTerms {
    pub class_messages: usize,
    pub all_messages: usize,
    pub evidence: u128,
    pub evidence_denominator: u128,
}

impl ScoreTerms {
    /// These are the terms of class `is_spam` of `v` on the tokens `toks`.
    pub open spec fn describes(self, v: FilterView, toks: Seq<Seq<char>>, is_spam: bool) -> bool {
        &&& self.class_messages == v.messages(is_spam)
        &&& self.all_messages == v.all_messages()
        &&& self.evidence == evidence(toks, v.counts(is_spam))
        &&& self.evidence_denominator == v.messages(is_spam) + 2
    }
}

/// The outcome of classifying a message.
pub enum Verdict {
    /// Nothing has been trained: the priors are undefined.
    Untrained,
    Spam,
    NotSpam,
    /// The outcome turns on the logarithms of the priors: the terms of the spam
    /// score and of the ham score.
    Weigh(ScoreTerms, ScoreTerms),
}

/// A two-class word-frequency classifier.
pub struct SpamFilter {
    spam_words: WordTable,
    ham_words: WordTable,
    spam_message_count: usize,
    ham_message_count: usize,
}

impl View for SpamFilter {
    type V = FilterView;

    closed spec fn view(&self) -> FilterView {
        FilterView {
            spam_counts: self.spam_words@,
            ham_counts: self.ham_words@,
            spam_messages: self.spam_message_count as nat,
            ham_messages: self.ham_message_count as nat,
        }
    }
}

/// Adds every token of `toks` to `table`, in order.
fn add_all(table: &mut WordTable, toks: &Vec<String>)
    requires
        old(table).wf(),
        old(table).total_spec() + toks.len() <= usize::MAX,
    ensures
        final(table).wf(),
        final(table)@ == add_tokens(old(table)@, string_views(toks@)),
        final(table).total_spec() == old(table).total_spec() + toks.len(),
{
    let mut i: usize = 0;
    while i < toks.len()
        invariant
            i <= toks.len(),
            table.wf(),
            table@ == add_tokens(old(table)@, string_views(toks@).take(i as int)),
            table.total_spec() == old(table).total_spec() + i,
            old(table).total_spec() + toks.len() <= usize::MAX,
        decreases toks.len() - i,
    {
        assert(string_views(toks@).take(i + 1).drop_last() == string_views(toks@).take(i as int));
        table.add_one(toks[i].clone());
        i = i + 1;
    }
    assert(string_views(toks@).take(toks.len() as int) == string_views(toks@));
}

/// The evidence of `toks` against `table`.
fn table_evidence(table: &WordTable, toks: &Vec<String>) -> (r: u128)
    requires
        table.wf(),
    ensures
        r == evidence(string_views(toks@), table@),
{
    let mut acc: u128 = 0;
    let mut i: usize = 0;
    while i < toks.len()
        invariant
            i <= toks.len(),
            table.wf(),
            acc == evidence(string_views(toks@).take(i as int), table@),
            acc <= i * 0x1_0000_0000_0000_0000,
        decreases toks.len() - i,
    {
        assert(string_views(toks@).take(i + 1).drop_last() == string_views(toks@).take(i as int));
        assert((i + 1) * 0x1_0000_0000_0000_0000 <= 0xFFFF_FFFF_FFFF_FFFF_0000_0000_0000_0000)
            by (nonlinear_arith)
            requires
                i + 1 <= usize::MAX,
        ;
        match table.get(&toks[i]) {
            Some(c) => {
                acc = acc + c as u128 + 1;
            },
            None => {},
        }
        i = i + 1;
    }
    assert(string_views(toks@).take(toks.len() as int) == string_views(toks@));
    acc
}

impl SpamFilter {
    /// The tables are well formed and the message total fits in a `usize`.
    pub closed spec fn wf(&self) -> bool {
        &&& self.spam_words.wf()
        &&& self.ham_words.wf()
        &&& self.spam_message_count + self.ham_message_count <= usize::MAX
    }

    /// The number of token occurrences trained into class `is_spam`.
    pub closed spec fn tokens_trained(&self, is_spam: bool) -> nat {
        if is_spam {
            self.spam_words.total_spec()
        } else {
            self.ham_words.total_spec()
        }
    }

    /// Whether training one more message of class `is_spam` with `n` tokens keeps
    /// every counter within a `usize`.
    pub open spec fn has_room(&self, is_spam: bool, n: nat) -> bool {
        &&& self@.all_messages() < usize::MAX
        &&& self.tokens_trained(is_spam) + n <= usize::MAX
    }

    /// An empty classifier.
    pub fn new() -> (r: SpamFilter)
        ensures
            r.wf(),
            r@ == FilterView::empty(),
            r.tokens_trained(true) == 0,
            r.tokens_trained(false) == 0,
    {
        SpamFilter {
            spam_words: WordTable::new(),
            ham_words: WordTable::new(),
            spam_message_count: 0,
            ham_message_count: 0,
        }
    }

    /// The number of token occurrences trained into class `is_spam`.
    pub fn token_total(&self, is_spam: bool) -> (r: usize)
        ensures
            r == self.tokens_trained(is_spam),
    {
        if is_spam {
            self.spam_words.total()
        } else {
            self.ham_words.total()
        }
    }

    /// The number of messages trained, both classes together.
    pub fn message_total(&self) -> (r: usize)
        requires
            self.wf(),
        ensures
            r == self@.all_messages(),
    {
        self.spam_message_count + self.ham_message_count
    }

    /// The number of messages trained with the label `is_spam`.
    pub fn message_count(&self, is_spam: bool) -> (r: usize)
        ensures
            r == self@.messages(is_spam),
    {
        if is_spam {
            self.spam_message_count
        } else {
            self.ham_message_count
        }
    }

    /// The count of `word` in class `is_spam`; 0 where it was never trained there.
    pub fn word_count(&self, word: &str, is_spam: bool) -> (r: usize)
        requires
            self.wf(),
        ensures
            r == count_in(self@.counts(is_spam), word@),
    {
        let w = word.to_owned();
        let table = if is_spam {
            &self.spam_words
        } else {
            &self.ham_words
        };
        match table.get(&w) {
            Some(c) => c,
            None => 0,
        }
    }

    /// Whether `message` can be trained with the label `is_spam` without a counter
    /// leaving the range of a `usize`.
    pub fn can_train(&self, message: &str, is_spam: bool) -> (r: bool)
        requires
            self.wf(),
        ensures
            r == self.has_room(is_spam, tokens_of(message@).len()),
    {
        let n = tokenize(message).len();
        self.message_total() < usize::MAX && self.token_total(is_spam) <= usize::MAX - n
    }

    /// Trains `message` with the label `is_spam`: each of its whitespace tokens adds
    /// one to that word's count in the class, and the class's message count grows by one.
    pub fn train(&mut self, message: &str, is_spam: bool)
        requires
            old(self).wf(),
            old(self).has_room(is_spam, tokens_of(message@).len()),
        ensures
            final(self).wf(),
            final(self)@ == old(self)@.trained(message@, is_spam),
            final(self).tokens_trained(is_spam) == old(self).tokens_trained(is_spam) + tokens_of(
                message@,
            ).len(),
            final(self).tokens_trained(!is_spam) == old(self).tokens_trained(!is_spam),
    {
        let words = tokenize(message);
        assert(words.len() == string_views(words@).len());
        if is_spam {
            add_all(&mut self.spam_words, &words);
            self.spam_message_count = self.spam_message_count + 1;
        } else {
            add_all(&mut self.ham_words, &words);
            self.ham_message_count = self.ham_message_count + 1;
        }
    }

    /// The terms of class `is_spam`'s score on the tokens `words`.
    pub fn score_terms(&self, words: &Vec<String>, is_spam: bool) -> (r: ScoreTerms)
        requires
            self.wf(),
        ensures
            r.describes(self@, string_views(words@), is_spam),
    {
        let (table, count) = if is_spam {
            (&self.spam_words, self.spam_message_count)
        } else {
            (&self.ham_words, self.ham_message_count)
        };
        ScoreTerms {
            class_messages: count,
            all_messages: self.spam_message_count + self.ham_message_count,
            evidence: table_evidence(table, words),
            evidence_denominator: count as u128 + 2,
        }
    }

    /// Classifies `message`: spam where the spam score is strictly greater than the
    /// ham score. Where that comparison turns on the logarithms of the priors, the
    /// terms of both scores are handed back instead.
    pub fn classify(&self, message: &str) -> (r: Verdict)
        requires
            self.wf(),
        ensures
            r is Untrained <==> self@.all_messages() == 0,
            self@.all_messages() > 0 ==> (r is Spam <==> self@.settled(tokens_of(message@))
                == Some(true)),
            self@.all_messages() > 0 ==> (r is NotSpam <==> self@.settled(tokens_of(message@))
                == Some(false)),
            r matches Verdict::Weigh(s, h) ==> s.describes(self@, tokens_of(message@), true)
                && h.describes(self@, tokens_of(message@), false),
    {
        if self.spam_message_count == 0 && self.ham_message_count == 0 {
            return Verdict::Untrained;
        }
        if self.spam_message_count == 0 {
            return Verdict::NotSpam;
        }
        if self.ham_message_count == 0 {
            return Verdict::Spam;
        }
        let words = tokenize(message);
        let spam = self.score_terms(&words, true);
        let ham = self.score_terms(&words, false);
        let spam_ahead = fraction_greater(
            spam.evidence,
            spam.evidence_denominator,
            ham.evidence,
            ham.evidence_denominator,
        );
        if spam.class_messages >= ham.class_messages && spam_ahead {
            Verdict::Spam
        } else if spam.class_messages <= ham.class_messages && !spam_ahead {
            Verdict::NotSpam
        } else {
            Verdict::Weigh(spam, ham)
        }
    }
}

} // verus!
