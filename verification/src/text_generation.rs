//! Random text from a table of word pairs: for every two words that follow
//! each other in a sample, the table lists the words that came next.

use crate::words::{split, texts, to_ascii_lowercase};
use rand::Rng;
use vstd::hash_map::StringHashMap;
use vstd::prelude::*;
use vstd::string::StringExecFns;

verus! {

/// The word that stands before the first word of a sample and behind its
/// last.
pub open spec fn boundary() -> Seq<char> {
    "\n"@
}

/// The key under which the followers of the pair `before`, `last` are kept.
pub open spec fn key_of(before: Seq<char>, last: Seq<char>) -> Seq<char> {
    before + " "@ + last
}

/// Word number `i` of a sample, with the boundary word before its start and
/// behind its end.
pub open spec fn word_at(words: Seq<Seq<char>>, i: int) -> Seq<char> {
    if 0 <= i < words.len() {
        words[i]
    } else {
        boundary()
    }
}

/// The key of transition `i` of a sample: the two words before word `i`.
pub open spec fn key_at(words: Seq<Seq<char>>, i: int) -> Seq<char> {
    key_of(word_at(words, i - 2), word_at(words, i - 1))
}

/// The table after the first `n` transitions of a sample have been entered,
/// each follower behind those that its key already has.
pub open spec fn entered(words: Seq<Seq<char>>, n: nat) -> Map<Seq<char>, Seq<Seq<char>>>
    decreases n,
{
    if n == 0 {
        Map::empty()
    } else {
        let before = entered(words, (n - 1) as nat);
        let key = key_at(words, n - 1);
        let known = if before.contains_key(key) {
            before[key]
        } else {
            Seq::empty()
        };
        before.insert(key, known.push(word_at(words, n - 1)))
    }
}

/// The table of a sample: one transition for every word, and one more from
/// the last two words to the boundary.
pub open spec fn table_of(words: Seq<Seq<char>>) -> Map<Seq<char>, Seq<Seq<char>>> {
    entered(words, words.len() + 1)
}

/// Every transition that has been entered is found in the table: its key is
/// there, and its follower is among the key's followers. No key is without a
/// follower.
pub proof fn lemma_entered(words: Seq<Seq<char>>, n: nat, i: int)
    requires
        0 <= i < n,
    ensures
        entered(words, n).contains_key(key_at(words, i)),
        entered(words, n)[key_at(words, i)].contains(word_at(words, i)),
        forall|k: Seq<char>| #[trigger]
            entered(words, n).contains_key(k) ==> entered(words, n)[k].len() > 0,
    decreases n,
{
    let before = entered(words, (n - 1) as nat);
    let key = key_at(words, n - 1);
    let known = if before.contains_key(key) {
        before[key]
    } else {
        Seq::empty()
    };
    let grown = known.push(word_at(words, n - 1));
    assert(grown[grown.len() - 1] == word_at(words, n - 1));
    if n > 1 {
        lemma_entered(words, (n - 1) as nat, 0);
    }
    if i < n - 1 {
        lemma_entered(words, (n - 1) as nat, i);
        if key_at(words, i) == key {
            let j = choose|j: int| 0 <= j < known.len() && known[j] == word_at(words, i);
            assert(grown[j] == word_at(words, i));
        }
    }
}

/// The table of word pairs.
pub struct StateTable {
    index: StringHashMap<usize>,
    followers: Vec<Vec<String>>,
}

impl View for StateTable {
    type V = Map<Seq<char>, Seq<Seq<char>>>;

    closed spec fn view(&self) -> Map<Seq<char>, Seq<Seq<char>>> {
        Map::new(
            |k: Seq<char>| self.index@.contains_key(k),
            |k: Seq<char>| texts(self.followers@[self.index@[k] as int]@),
        )
    }
}

impl StateTable {
    /// Every key has its own list of followers, and no list is empty.
    pub closed spec fn wf(&self) -> bool {
        &&& forall|k: Seq<char>| #[trigger]
            self.index@.contains_key(k) ==> self.index@[k] < self.followers@.len()
        &&& forall|k1: Seq<char>, k2: Seq<char>|
            self.index@.contains_key(k1) && self.index@.contains_key(k2) && k1 != k2
                ==> self.index@[k1] != self.index@[k2]
        &&& forall|i: int| 0 <= i < self.followers@.len() ==> (#[trigger] self.followers@[i])@.len() > 0
    }

    /// In a well-formed table every key has a follower.
    pub proof fn lemma_followers_nonempty(&self, key: Seq<char>)
        requires
            self.wf(),
            self@.contains_key(key),
        ensures
            self@[key].len() > 0,
    {
    }

    /// A table without entries.
    pub fn new() -> (t: StateTable)
        ensures
            t.wf(),
            t@ == Map::<Seq<char>, Seq<Seq<char>>>::empty(),
    {
        let t = StateTable { index: StringHashMap::new(), followers: Vec::new() };
        assert(t@ =~= Map::<Seq<char>, Seq<Seq<char>>>::empty());
        t
    }

    /// Enters `follower` behind the followers that `key` already has.
    pub fn enter(&mut self, key: String, follower: String)
        requires
            old(self).wf(),
        ensures
            final(self).wf(),
            final(self)@ == old(self)@.insert(
                key@,
                (if old(self)@.contains_key(key@) {
                    old(self)@[key@]
                } else {
                    Seq::empty()
                }).push(follower@),
            ),
    {
        let ghost before = *self;
        let found: Option<usize> = match self.index.get(key.as_str()) {
            Some(at) => Some(*at),
            None => None,
        };
        match found {
            Some(at) => {
                let mut list: Vec<String> = Vec::new();
                std::mem::swap(&mut list, &mut self.followers[at]);
                let ghost prior = list@;
                list.push(follower);
                assert(texts(list@) =~= texts(prior).push(follower@));
                std::mem::swap(&mut list, &mut self.followers[at]);
                assert(self@ =~= before@.insert(key@, before@[key@].push(follower@)));
            },
            None => {
                let at = self.followers.len();
                let mut list: Vec<String> = Vec::new();
                list.push(follower);
                assert(texts(list@) =~= Seq::<Seq<char>>::empty().push(follower@));
                self.followers.push(list);
                self.index.insert(key, at);
                assert(self@ =~= before@.insert(
                    key@,
                    Seq::<Seq<char>>::empty().push(follower@),
                ));
            },
        }
    }

    /// The followers of the pair `before`, `last`, if the pair has any.
    pub fn followers_of(&self, before: &str, last: &str) -> (list: Option<&Vec<String>>)
        requires
            self.wf(),
        ensures
            match list {
                Some(found) => self@.contains_key(key_of(before@, last@)) && texts(found@)
                    == self@[key_of(before@, last@)] && found@.len() > 0,
                None => !self@.contains_key(key_of(before@, last@)),
            },
    {
        let key = state_key(before, last);
        match self.index.get(key.as_str()) {
            Some(at) => Some(&self.followers[*at]),
            None => None,
        }
    }

    /// The follower of the pair `before`, `last` that `pick` selects: the
    /// one at that place among the pair's followers, none if the pair has no
    /// followers or fewer than that.
    pub fn follow(&self, before: &str, last: &str, pick: usize) -> (next: Option<&String>)
        requires
            self.wf(),
        ensures
            match next {
                Some(word) => self@.contains_key(key_of(before@, last@)) && pick < self@[key_of(
                    before@,
                    last@,
                )].len() && word@ == self@[key_of(before@, last@)][pick as int],
                None => !self@.contains_key(key_of(before@, last@)) || pick >= self@[key_of(
                    before@,
                    last@,
                )].len(),
            },
    {
        match self.followers_of(before, last) {
            Some(list) => if pick < list.len() {
                Some(&list[pick])
            } else {
                None
            },
            None => None,
        }
    }
}

/// Writes the key of the pair `before`, `last`.
pub fn state_key(before: &str, last: &str) -> (key: String)
    ensures
        key@ == key_of(before@, last@),
{
    let mut key = String::from_str(before);
    key.append(" ");
    key.append(last);
    key
}

/// The words of a line: its pieces between single spaces, in lower case.
pub open spec fn words_of(line: Seq<char>) -> Seq<Seq<char>> {
    crate::words::split_at(line, ' ').map_values(
        |w: Seq<char>| w.map_values(|c: char| crate::words::lower(c)),
    )
}

/// Splits a line into its words.
pub fn split_words(line: &str) -> (words: Vec<String>)
    ensures
        texts(words@) == words_of(line@),
{
    let pieces = split(line, ' ');
    let mut words: Vec<String> = Vec::new();
    let mut i: usize = 0;
    while i < pieces.len()
        invariant
            i <= pieces@.len(),
            words@.len() == i,
            forall|j: int|
                0 <= j < i ==> (#[trigger] words@[j])@ == pieces@[j]@.map_values(
                    |c: char| crate::words::lower(c),
                ),
        decreases pieces@.len() - i,
    {
        words.push(to_ascii_lowercase(pieces[i].as_str()));
        i += 1;
    }
    assert(texts(words@) =~= texts(pieces@).map_values(
        |w: Seq<char>| w.map_values(|c: char| crate::words::lower(c)),
    ));
    words
}

/// Builds the table of a sample of words.
pub fn build_state_table(words: Vec<String>) -> (table: StateTable)
    ensures
        table.wf(),
        table@ == table_of(texts(words@)),
{
    let mut table = StateTable::new();
    let ghost sample = texts(words@);

    let mut i: usize = 0;
    while i < words.len()
        invariant
            i <= words@.len(),
            sample == texts(words@),
            table.wf(),
            table@ == entered(sample, i as nat),
        decreases words@.len() - i,
    {
        let key = if i >= 2 {
            state_key(words[i - 2].as_str(), words[i - 1].as_str())
        } else if i == 1 {
            state_key("\n", words[0].as_str())
        } else {
            state_key("\n", "\n")
        };
        assert(key@ == key_at(sample, i as int));
        let follower = words[i].clone();
        assert(follower@ == word_at(sample, i as int));
        table.enter(key, follower);
        i += 1;
    }
    let n = words.len();
    let key = if n >= 2 {
        state_key(words[n - 2].as_str(), words[n - 1].as_str())
    } else if n == 1 {
        state_key("\n", words[0].as_str())
    } else {
        state_key("\n", "\n")
    };
    assert(key@ == key_at(sample, n as int));
    table.enter(key, String::from_str("\n"));

    table
}

/// `rand::Rng::gen_range(low, high)` on the generator of `rand::thread_rng`:
/// it returns a number that is at least `low` and below `high`, and panics
/// if `low` is not below `high`. Which number it is depends on chance, so
/// nothing more is claimed.
#[verifier::external_body]
fn random_below(bound: usize) -> (pick: usize)
    requires
        bound > 0,
    ensures
        pick < bound,
{
    rand::thread_rng().gen_range(0, bound)
}

/// Whether `text` is a walk through `table` that starts at the boundary:
/// every word of it is a follower of the two words before it.
pub open spec fn is_walk(table: Map<Seq<char>, Seq<Seq<char>>>, text: Seq<Seq<char>>) -> bool {
    forall|j: int|
        0 <= j < text.len() ==> table.contains_key(#[trigger] key_at(text, j)) && table[key_at(
            text,
            j,
        )].contains(text[j])
}

/// Generates at most `count` words by a random walk through `table` from
/// the boundary. The text ends early only where the last two words have no
/// follower.
pub fn generate(table: &StateTable, count: usize) -> (text: Vec<String>)
    requires
        table.wf(),
    ensures
        text@.len() <= count,
        is_walk(table@, texts(text@)),
        text@.len() < count ==> !table@.contains_key(key_at(texts(text@), text@.len() as int)),
{
    let mut text: Vec<String> = Vec::new();
    let mut i: usize = 0;
    while i < count
        invariant_except_break
            text@.len() == i,
        invariant
            i <= count,
            table.wf(),
            text@.len() <= count,
            is_walk(table@, texts(text@)),
        ensures
            text@.len() < count ==> !table@.contains_key(key_at(texts(text@), text@.len() as int)),
        decreases count - i,
    {
        let ghost so_far = texts(text@);
        let n = text.len();
        let next: Option<String> = {
            let before: &str = if n >= 2 {
                text[n - 2].as_str()
            } else {
                "\n"
            };
            let last: &str = if n >= 1 {
                text[n - 1].as_str()
            } else {
                "\n"
            };
            assert(key_of(before@, last@) == key_at(so_far, n as int));
            match table.followers_of(before, last) {
                Some(list) => {
                    let pick = random_below(list.len());
                    assert(texts(list@).len() == list@.len());
                    match table.follow(before, last, pick) {
                        Some(word) => Some(word.clone()),
                        None => None,
                    }
                },
                None => None,
            }
        };
        match next {
            Some(word) => {
                text.push(word);
                proof {
                    let grown = texts(text@);
                    assert(grown =~= so_far.push(word@));
                    assert forall|j: int| 0 <= j < grown.len() implies table@.contains_key(
                        #[trigger] key_at(grown, j),
                    ) && table@[key_at(grown, j)].contains(grown[j]) by {
                        if j < n {
                            assert(key_at(grown, j) == key_at(so_far, j));
                            assert(grown[j] == so_far[j]);
                        } else {
                            assert(key_at(grown, j) == key_at(so_far, n as int));
                        }
                    }
                }
            },
            None => {
                break ;
            },
        }
        i += 1;
    }
    text
}

} // verus!
