//! What holds of every sequence of training calls.
use vstd::prelude::*;
use crate::filter::{add_tokens, evidence, FilterView};
use crate::tokens::tokens_of;
use crate::word_table::count_in;

verus! {

/// The number of times `w` occurs in `toks`.
pub open spec fn occurrences(toks: Seq<Seq<char>>, w: Seq<char>) -> nat
    decreases toks.len(),
{
    if toks.len() == 0 {
        0
    } else {
        occurrences(toks.drop_last(), w) + if toks.last() == w {
            1nat
        } else {
            0nat
        }
    }
}

/// The state after training each `(message, is_spam)` of `history` in order, from `v`.
pub open spec fn after(v: FilterView, history: Seq<(Seq<char>, bool)>) -> FilterView
    decreases history.len(),
{
    if history.len() == 0 {
        v
    } else {
        after(v, history.drop_last()).trained(history.last().0, history.last().1)
    }
}

/// The occurrences of `w` over the messages of `history` labelled `is_spam`.
pub open spec fn class_occurrences(history: Seq<(Seq<char>, bool)>, is_spam: bool, w: Seq<char>) -> nat
    decreases history.len(),
{
    if history.len() == 0 {
        0
    } else {
        class_occurrences(history.drop_last(), is_spam, w) + if history.last().1 == is_spam {
            occurrences(tokens_of(history.last().0), w)
        } else {
            0
        }
    }
}

/// The number of messages of `history` labelled `is_spam`.
pub open spec fn class_size(history: Seq<(Seq<char>, bool)>, is_spam: bool) -> nat
    decreases history.len(),
{
    if history.len() == 0 {
        0
    } else {
        class_size(history.drop_last(), is_spam) + if history.last().1 == is_spam {
            1nat
        } else {
            0nat
        }
    }
}

/// Adding tokens raises each word's count by its number of occurrences, and a
/// word becomes a key exactly where it was one or occurs.
pub proof fn lemma_add_tokens(m: Map<Seq<char>, nat>, toks: Seq<Seq<char>>, w: Seq<char>)
    ensures
        count_in(add_tokens(m, toks), w) == count_in(m, w) + occurrences(toks, w),
        add_tokens(m, toks).contains_key(w) <==> (m.contains_key(w) || occurrences(toks, w) > 0),
    decreases toks.len(),
{
    if toks.len() > 0 {
        lemma_add_tokens(m, toks.drop_last(), w);
    }
}

/// Training message by message, the count of each word in a class is the number of
/// its occurrences over the messages trained with that label, and each class's
/// message count is the number of messages trained with that label.
pub proof fn lemma_counts_accumulate(history: Seq<(Seq<char>, bool)>, w: Seq<char>)
    ensures
        count_in(after(FilterView::empty(), history).spam_counts, w) == class_occurrences(
            history,
            true,
            w,
        ),
        count_in(after(FilterView::empty(), history).ham_counts, w) == class_occurrences(
            history,
            false,
            w,
        ),
        after(FilterView::empty(), history).spam_messages == class_size(history, true),
        after(FilterView::empty(), history).ham_messages == class_size(history, false),
    decreases history.len(),
{
    if history.len() > 0 {
        lemma_counts_accumulate(history.drop_last(), w);
        let prev = after(FilterView::empty(), history.drop_last());
        lemma_add_tokens(prev.counts(history.last().1), tokens_of(history.last().0), w);
    }
}

/// Training never lowers a word count or a message count, in either class.
pub proof fn lemma_training_monotone(v: FilterView, message: Seq<char>, is_spam: bool, w: Seq<char>)
    ensures
        count_in(v.trained(message, is_spam).spam_counts, w) >= count_in(v.spam_counts, w),
        count_in(v.trained(message, is_spam).ham_counts, w) >= count_in(v.ham_counts, w),
        v.trained(message, is_spam).spam_messages >= v.spam_messages,
        v.trained(message, is_spam).ham_messages >= v.ham_messages,
{
    lemma_add_tokens(v.counts(is_spam), tokens_of(message), w);
}

proof fn lemma_evidence_concat(a: Seq<Seq<char>>, b: Seq<Seq<char>>, m: Map<Seq<char>, nat>)
    ensures
        evidence(a + b, m) == evidence(a, m) + evidence(b, m),
    decreases b.len(),
{
    if b.len() > 0 {
        lemma_evidence_concat(a, b.drop_last(), m);
        assert((a + b).drop_last() == a + b.drop_last());
    } else {
        assert(a + b == a);
    }
}

proof fn lemma_unseen_keys(history: Seq<(Seq<char>, bool)>, is_spam: bool, t: Seq<char>)
    requires
        forall|k: int| 0 <= k < history.len() ==> occurrences(tokens_of(#[trigger] history[k].0), t) == 0,
    ensures
        !after(FilterView::empty(), history).counts(is_spam).contains_key(t),
    decreases history.len(),
{
    if history.len() > 0 {
        let prev = history.drop_last();
        assert forall|k: int| 0 <= k < prev.len() implies occurrences(tokens_of(#[trigger] prev[k].0), t) == 0 by {
            assert(prev[k] == history[k]);
        }
        lemma_unseen_keys(prev, is_spam, t);
        let last = history[history.len() - 1];
        lemma_add_tokens(after(FilterView::empty(), prev).counts(last.1), tokens_of(last.0), t);
    }
}

/// A token that occurs in no trained message adds nothing to either class's score:
/// inserting it anywhere into a query leaves both evidence terms as they were.
pub proof fn lemma_unseen_token_neutral(
    history: Seq<(Seq<char>, bool)>,
    query: Seq<Seq<char>>,
    i: int,
    t: Seq<char>,
)
    requires
        0 <= i <= query.len(),
        forall|k: int| 0 <= k < history.len() ==> occurrences(tokens_of(#[trigger] history[k].0), t) == 0,
    ensures
        evidence(query.insert(i, t), after(FilterView::empty(), history).spam_counts) == evidence(
            query,
            after(FilterView::empty(), history).spam_counts,
        ),
        evidence(query.insert(i, t), after(FilterView::empty(), history).ham_counts) == evidence(
            query,
            after(FilterView::empty(), history).ham_counts,
        ),
{
    let v = after(FilterView::empty(), history);
    lemma_unseen_keys(history, true, t);
    lemma_unseen_keys(history, false, t);
    let pre = query.take(i);
    let post = query.skip(i);
    assert(query =~= pre + post);
    assert(query.insert(i, t) =~= (pre + seq![t]) + post);
    assert(seq![t].drop_last() =~= Seq::<Seq<char>>::empty());
    assert(seq![t].last() == t);
    assert(seq![t].len() == 1);
    assert(!v.spam_counts.contains_key(t) && !v.ham_counts.contains_key(t));
    assert(evidence(seq![t].drop_last(), v.spam_counts) == 0);
    assert(evidence(seq![t].drop_last(), v.ham_counts) == 0);
    assert(evidence(seq![t], v.spam_counts) == 0);
    assert(evidence(seq![t], v.ham_counts) == 0);
    lemma_evidence_concat(pre + seq![t], post, v.spam_counts);
    lemma_evidence_concat(pre, seq![t], v.spam_counts);
    lemma_evidence_concat(pre, post, v.spam_counts);
    lemma_evidence_concat(pre + seq![t], post, v.ham_counts);
    lemma_evidence_concat(pre, seq![t], v.ham_counts);
    lemma_evidence_concat(pre, post, v.ham_counts);
}

/// Training two messages whose tokens are the same up to order has the same effect.
pub proof fn lemma_token_order_irrelevant(
    v: FilterView,
    m1: Seq<char>,
    m2: Seq<char>,
    is_spam: bool,
)
    requires
        forall|w: Seq<char>| occurrences(tokens_of(m1), w) == occurrences(tokens_of(m2), w),
    ensures
        v.trained(m1, is_spam) == v.trained(m2, is_spam),
{
    let base = v.counts(is_spam);
    let t1 = add_tokens(base, tokens_of(m1));
    let t2 = add_tokens(base, tokens_of(m2));
    assert forall|w: Seq<char>| #[trigger] t1.contains_key(w) == t2.contains_key(w) by {
        lemma_add_tokens(base, tokens_of(m1), w);
        lemma_add_tokens(base, tokens_of(m2), w);
    }
    assert forall|w: Seq<char>| t1.contains_key(w) implies #[trigger] t1[w] == t2[w] by {
        lemma_add_tokens(base, tokens_of(m1), w);
        lemma_add_tokens(base, tokens_of(m2), w);
    }
    assert(t1 =~= t2);
}

} // verus!
