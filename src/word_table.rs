//! A table from words to occurrence counts.
use vstd::prelude::*;

verus! {

/// The count of `w` in `m`; a word that is not a key counts 0.
pub open spec fn count_in(m: Map<Seq<char>, nat>, w: Seq<char>) -> nat {
    if m.contains_key(w) {
        m[w]
    } else {
        0
    }
}

/// `m` with the count of `w` raised by one.
pub open spec fn bump(m: Map<Seq<char>, nat>, w: Seq<char>) -> Map<Seq<char>, nat> {
    m.insert(w, count_in(m, w) + 1)
}

/// The map made by the first `n` pairs of `words` and `counts`.
spec fn entries_map(words: Seq<String>, counts: Seq<usize>, n: int) -> Map<Seq<char>, nat>
    decreases n,
{
    if n <= 0 {
        Map::empty()
    } else {
        entries_map(words, counts, n - 1).insert(words[n - 1]@, counts[n - 1] as nat)
    }
}

spec fn distinct_words(words: Seq<String>) -> bool {
    forall|i: int, j: int|
        0 <= i < words.len() && 0 <= j < words.len() && i != j ==> words[i]@ != words[j]@
}

proof fn lemma_entries_dom(words: Seq<String>, counts: Seq<usize>, n: int, w: Seq<char>)
    requires
        0 <= n <= words.len(),
    ensures
        entries_map(words, counts, n).contains_key(w) <==> exists|i: int|
            0 <= i < n && words[i]@ == w,
    decreases n,
{
    if n > 0 {
        lemma_entries_dom(words, counts, n - 1, w);
        if entries_map(words, counts, n - 1).contains_key(w) {
            let i = choose|i: int| 0 <= i < n - 1 && words[i]@ == w;
            assert(0 <= i < n && words[i]@ == w);
        }
    }
}

proof fn lemma_entries_at(words: Seq<String>, counts: Seq<usize>, n: int, i: int)
    requires
        0 <= i < n <= words.len(),
        distinct_words(words),
    ensures
        entries_map(words, counts, n).contains_key(words[i]@),
        entries_map(words, counts, n)[words[i]@] == counts[i] as nat,
    decreases n,
{
    if i < n - 1 {
        lemma_entries_at(words, counts, n - 1, i);
    }
}

proof fn lemma_entries_update(words: Seq<String>, counts: Seq<usize>, n: int, i: int, v: usize)
    requires
        0 <= i < n <= words.len(),
        n <= counts.len(),
        distinct_words(words),
    ensures
        entries_map(words, counts.update(i, v), n) == entries_map(words, counts, n).insert(
            words[i]@,
            v as nat,
        ),
    decreases n,
{
    if i < n - 1 {
        lemma_entries_update(words, counts, n - 1, i, v);
        assert(entries_map(words, counts.update(i, v), n) =~= entries_map(words, counts, n).insert(
            words[i]@,
            v as nat,
        ));
    } else {
        lemma_entries_frame(words, counts, counts.update(i, v), n - 1);
        lemma_entries_dom(words, counts, n - 1, words[i]@);
        assert(entries_map(words, counts.update(i, v), n) =~= entries_map(words, counts, n).insert(
            words[i]@,
            v as nat,
        ));
    }
}

/// Only the first `n` pairs matter.
proof fn lemma_entries_frame(words: Seq<String>, c1: Seq<usize>, c2: Seq<usize>, n: int)
    requires
        0 <= n <= c1.len(),
        n <= c2.len(),
        forall|k: int| 0 <= k < n ==> c1[k] == c2[k],
    ensures
        entries_map(words, c1, n) == entries_map(words, c2, n),
    decreases n,
{
    if n > 0 {
        lemma_entries_frame(words, c1, c2, n - 1);
    }
}

proof fn lemma_entries_prefix(
    w1: Seq<String>,
    c1: Seq<usize>,
    w2: Seq<String>,
    c2: Seq<usize>,
    n: int,
)
    requires
        0 <= n <= w1.len(),
        n <= w2.len(),
        n <= c1.len(),
        n <= c2.len(),
        forall|k: int| 0 <= k < n ==> w1[k] == w2[k] && c1[k] == c2[k],
    ensures
        entries_map(w1, c1, n) == entries_map(w2, c2, n),
    decreases n,
{
    if n > 0 {
        lemma_entries_prefix(w1, c1, w2, c2, n - 1);
    }
}

/// Occurrence counts of words, with the total number of occurrences recorded.
pub struct WordTable {
    words: Vec<String>,
    counts: Vec<usize>,
    total: usize,
}

impl View for WordTable {
    type V = Map<Seq<char>, nat>;

    closed spec fn view(&self) -> Map<Seq<char>, nat> {
        entries_map(self.words@, self.counts@, self.words.len() as int)
    }
}

impl WordTable {
    /// The words are distinct, and no count exceeds the recorded total.
    pub closed spec fn wf(&self) -> bool {
        &&& self.words.len() == self.counts.len()
        &&& distinct_words(self.words@)
        &&& forall|i: int| 0 <= i < self.counts.len() ==> self.counts[i] <= self.total
    }

    /// The number of occurrences added to the table so far.
    pub closed spec fn total_spec(&self) -> nat {
        self.total as nat
    }

    /// An empty table.
    pub fn new() -> (r: WordTable)
        ensures
            r.wf(),
            r@ == Map::<Seq<char>, nat>::empty(),
            r.total_spec() == 0,
    {
        WordTable { words: Vec::new(), counts: Vec::new(), total: 0 }
    }

    /// The number of occurrences added to the table so far.
    pub fn total(&self) -> (r: usize)
        ensures
            r == self.total_spec(),
    {
        self.total
    }

    fn find(&self, w: &String) -> (r: Option<usize>)
        requires
            self.wf(),
        ensures
            match r {
                Some(i) => i < self.words.len() && self.words@[i as int]@ == w@,
                None => forall|i: int| 0 <= i < self.words.len() ==> self.words@[i]@ != w@,
            },
    {
        let mut i: usize = 0;
        while i < self.words.len()
            invariant
                i <= self.words.len(),
                forall|k: int| 0 <= k < i ==> self.words@[k]@ != w@,
            decreases self.words.len() - i,
        {
            if self.words[i] == *w {
                return Some(i);
            }
            i = i + 1;
        }
        None
    }

    /// The count of `w`, or `None` where `w` is not a key.
    pub fn get(&self, w: &String) -> (r: Option<usize>)
        requires
            self.wf(),
        ensures
            r == (if self@.contains_key(w@) {
                Some(self@[w@] as usize)
            } else {
                None::<usize>
            }),
            r is Some ==> self@[w@] <= usize::MAX,
    {
        proof {
            lemma_entries_dom(self.words@, self.counts@, self.words.len() as int, w@);
        }
        match self.find(w) {
            Some(i) => {
                proof {
                    lemma_entries_at(self.words@, self.counts@, self.words.len() as int, i as int);
                }
                Some(self.counts[i])
            },
            None => None,
        }
    }

    /// Adds one occurrence of `w`.
    pub fn add_one(&mut self, w: String)
        requires
            old(self).wf(),
            old(self).total_spec() < usize::MAX,
        ensures
            final(self).wf(),
            final(self)@ == bump(old(self)@, w@),
            final(self).total_spec() == old(self).total_spec() + 1,
    {
        let ghost n = self.words.len() as int;
        proof {
            lemma_entries_dom(self.words@, self.counts@, n, w@);
        }
        match self.find(&w) {
            Some(i) => {
                proof {
                    lemma_entries_at(self.words@, self.counts@, n, i as int);
                    lemma_entries_update(self.words@, self.counts@, n, i as int, (self.counts[i as int] + 1) as usize);
                }
                let c = self.counts[i];
                self.counts.set(i, c + 1);
            },
            None => {
                let ghost w_old = self.words@;
                let ghost c_old = self.counts@;
                self.words.push(w);
                self.counts.push(1);
                proof {
                    lemma_entries_prefix(w_old, c_old, self.words@, self.counts@, n);
                }
            },
        }
        self.total = self.total + 1;
    }
}

} // verus!
