use vstd::prelude::*;

use crate::strings::str_eq;

verus! {

/// One static documentation topic: a name, a one-line description for listing,
/// and the full text emitted when the topic is requested.
pub struct Keyword {
    pub name: String,
    pub description: String,
    pub content: String,
}

/// Mathematical image of a `Keyword`: each field as a character sequence.
pub ghost struct KeywordView {
    pub name: Seq<char>,
    pub description: Seq<char>,
    pub content: Seq<char>,
}

impl View for Keyword {
    type V = KeywordView;

    open spec fn view(&self) -> KeywordView {
        KeywordView { name: self.name@, description: self.description@, content: self.content@ }
    }
}

/// First entry of `entries` whose name is `name`, if any.
pub open spec fn find_in(entries: Seq<KeywordView>, name: Seq<char>) -> Option<KeywordView>
    decreases entries.len(),
{
    if entries.len() == 0 {
        None
    } else if entries[0].name == name {
        Some(entries[0])
    } else {
        find_in(entries.drop_first(), name)
    }
}

/// The registry of documentation topics. Built once by the embedding
/// application; this engine only reads it. No two entries share a name.
pub struct KeywordTable {
    entries: Vec<Keyword>,
}

impl View for KeywordTable {
    type V = Seq<KeywordView>;

    closed spec fn view(&self) -> Seq<KeywordView> {
        Seq::new(self.entries@.len(), |i: int| self.entries@[i]@)
    }
}

impl KeywordTable {
    /// Names are pairwise distinct.
    pub open spec fn wf(&self) -> bool {
        forall|i: int, j: int|
            0 <= i < j < self@.len() ==> self@[i].name != self@[j].name
    }

    pub fn new() -> (r: KeywordTable)
        ensures
            r@ =~= Seq::<KeywordView>::empty(),
            r.wf(),
    {
        KeywordTable { entries: Vec::new() }
    }

    /// Appends a topic unless its name is already registered; reports whether
    /// the entry was taken.
    pub fn add(&mut self, keyword: Keyword) -> (added: bool)
        requires
            old(self).wf(),
        ensures
            final(self).wf(),
            added == (find_in(old(self)@, keyword@.name) is None),
            added ==> final(self)@ =~= old(self)@.push(keyword@),
            !added ==> final(self)@ == old(self)@,
    {
        let existing = find_keyword(self, keyword.name.as_str());
        proof {
            lemma_find_in_exists(self@, keyword@.name);
        }
        if existing.is_some() {
            return false;
        }
        self.entries.push(keyword);
        proof {
            lemma_find_in_exists(old(self)@, keyword@.name);
            assert(self@ =~= old(self)@.push(keyword@));
            assert forall|i: int, j: int|
                0 <= i < j < self@.len() implies self@[i].name != self@[j].name by {
                if j < self@.len() - 1 {
                    assert(old(self)@[i].name != old(self)@[j].name);
                } else {
                    assert(self@[i] == old(self)@[i]);
                }
            }
        }
        true
    }
}

/// `find_in` returns an entry exactly when one of the entries carries the
/// name, and then the first such entry.
pub proof fn lemma_find_in_exists(entries: Seq<KeywordView>, name: Seq<char>)
    ensures
        (find_in(entries, name) is Some) == (exists|i: int|
            0 <= i < entries.len() && entries[i].name == name),
        find_in(entries, name) matches Some(k) ==> exists|i: int|
            0 <= i < entries.len() && entries[i] == k && entries[i].name == name,
    decreases entries.len(),
{
    if entries.len() > 0 {
        lemma_find_in_exists(entries.drop_first(), name);
        if entries[0].name != name {
            assert((exists|i: int|
                0 <= i < entries.drop_first().len() && entries.drop_first()[i].name == name)
                == (exists|i: int| 0 <= i < entries.len() && entries[i].name == name)) by {
                if exists|i: int| 0 <= i < entries.len() && entries[i].name == name {
                    let i = choose|i: int| 0 <= i < entries.len() && entries[i].name == name;
                    assert(entries.drop_first()[i - 1].name == name);
                }
            }
            match find_in(entries.drop_first(), name) {
                Some(k) => {
                    let i = choose|i: int|
                        0 <= i < entries.drop_first().len() && entries.drop_first()[i] == k
                            && entries.drop_first()[i].name == name;
                    assert(entries[i + 1] == k);
                },
                None => {},
            }
        }
    }
}

/// Looks a documentation topic up by exact name.
pub fn find_keyword<'a>(table: &'a KeywordTable, name: &str) -> (r: Option<&'a Keyword>)
    ensures
        match r {
            Some(k) => find_in(table@, name@) == Some(k@),
            None => find_in(table@, name@) is None,
        },
{
    let n = table.entries.len();
    proof {
        assert(table@.skip(0) =~= table@);
    }
    let mut i: usize = 0;
    while i < n
        invariant
            i <= n,
            n == table.entries@.len(),
            find_in(table@, name@) == find_in(table@.skip(i as int), name@),
        decreases n - i,
    {
        proof {
            assert(table@.skip(i as int)[0] == table@[i as int]);
            assert(table@.skip(i as int).drop_first() =~= table@.skip(i as int + 1));
        }
        if str_eq(table.entries[i].name.as_str(), name) {
            return Some(&table.entries[i]);
        }
        i += 1;
    }
    proof {
        assert(table@.skip(n as int) =~= Seq::<KeywordView>::empty());
    }
    None
}

} // verus!
