use vstd::prelude::*;

use crate::error::HelpError;
use crate::error::HelpErrorView;
use crate::strings::append_tokens;
use crate::strings::clone_tokens;
use crate::strings::str_eq;
use crate::strings::tail_of;

verus! {

/// The configured alias definitions: alias name to token sequence. The table
/// is read-only to the resolution engine; the embedding application fills it
/// from user configuration, whose keys are unique.
pub struct AliasTable {
    entries: Vec<(String, Vec<String>)>,
}

/// Alias names of `s` are pairwise distinct.
spec fn unique_names(s: Seq<(String, Vec<String>)>) -> bool {
    forall|i: int, j: int| 0 <= i < j < s.len() ==> s[i].0@ != s[j].0@
}

/// The mapping that a sequence of entries denotes.
spec fn entries_map(s: Seq<(String, Vec<String>)>) -> Map<Seq<char>, Seq<Seq<char>>>
    decreases s.len(),
{
    if s.len() == 0 {
        Map::empty()
    } else {
        entries_map(s.drop_last()).insert(s.last().0@, s.last().1.deep_view())
    }
}

proof fn lemma_entries_map_dom(s: Seq<(String, Vec<String>)>)
    ensures
        entries_map(s).dom().finite(),
        forall|k: Seq<char>|
            entries_map(s).dom().contains(k) <==> (exists|i: int| 0 <= i < s.len() && s[i].0@ == k),
    decreases s.len(),
{
    if s.len() > 0 {
        lemma_entries_map_dom(s.drop_last());
        assert forall|k: Seq<char>|
            entries_map(s).dom().contains(k) implies (exists|i: int|
            0 <= i < s.len() && s[i].0@ == k) by {
            if k == s.last().0@ {
                assert(s[s.len() - 1].0@ == k);
            } else {
                let i = choose|i: int| 0 <= i < s.drop_last().len() && s.drop_last()[i].0@ == k;
                assert(s[i].0@ == k);
            }
        }
        assert forall|k: Seq<char>| (exists|i: int|
            0 <= i < s.len() && s[i].0@ == k) implies entries_map(s).dom().contains(k) by {
            let i = choose|i: int| 0 <= i < s.len() && s[i].0@ == k;
            if i < s.len() - 1 {
                assert(s.drop_last()[i].0@ == k);
            }
        }
    }
}

proof fn lemma_entries_map_value(s: Seq<(String, Vec<String>)>, i: int)
    requires
        unique_names(s),
        0 <= i < s.len(),
    ensures
        entries_map(s).dom().contains(s[i].0@),
        entries_map(s)[s[i].0@] == s[i].1.deep_view(),
    decreases s.len(),
{
    lemma_entries_map_dom(s);
    if i < s.len() - 1 {
        assert(unique_names(s.drop_last()));
        lemma_entries_map_value(s.drop_last(), i);
        assert(s.drop_last()[i] == s[i]);
        assert(s[i].0@ != s.last().0@);
    }
}

impl View for AliasTable {
    type V = Map<Seq<char>, Seq<Seq<char>>>;

    closed spec fn view(&self) -> Map<Seq<char>, Seq<Seq<char>>> {
        entries_map(self.entries@)
    }
}

/// What expanding one alias name yields: its fully expanded token sequence,
/// or the name that the expansion chain revisited.
pub ghost enum Expansion {
    Expanded(Seq<Seq<char>>),
    Cycle(Seq<char>),
}

/// Appends `extra` behind the tokens of a successful expansion; a cycle is
/// passed through.
pub open spec fn append_expansion(e: Expansion, extra: Seq<Seq<char>>) -> Expansion {
    match e {
        Expansion::Expanded(tokens) => Expansion::Expanded(tokens + extra),
        Expansion::Cycle(name) => Expansion::Cycle(name),
    }
}

/// Recursive expansion of the alias `name` under `table`, with `seen` the
/// names already on the expansion chain. While the leading token of a
/// definition is itself an alias, that token is replaced by its own expansion,
/// the rest appended unchanged; a name met twice is a cycle. Callers pass an
/// alias name (one in the table's domain) and an empty `seen`.
pub open spec fn expand_alias(
    table: Map<Seq<char>, Seq<Seq<char>>>,
    name: Seq<char>,
    seen: Set<Seq<char>>,
) -> Expansion
    decreases table.dom().difference(seen).len()
        when table.dom().finite()
        via expand_alias_decreases
{
    if seen.contains(name) {
        Expansion::Cycle(name)
    } else if !table.dom().contains(name) {
        Expansion::Expanded(Seq::empty())
    } else {
        let def = table[name];
        if def.len() > 0 && table.dom().contains(def[0]) {
            append_expansion(expand_alias(table, def[0], seen.insert(name)), def.drop_first())
        } else {
            Expansion::Expanded(def)
        }
    }
}

#[via_fn]
proof fn expand_alias_decreases(
    table: Map<Seq<char>, Seq<Seq<char>>>,
    name: Seq<char>,
    seen: Set<Seq<char>>,
) {
    if !seen.contains(name) && table.dom().contains(name) {
        let def = table[name];
        if def.len() > 0 && table.dom().contains(def[0]) {
            lemma_difference_insert_shrinks(table.dom(), seen, name);
        }
    }
}

/// Inserting into `seen` an element of finite `dom` that `seen` lacks shrinks
/// the difference.
proof fn lemma_difference_insert_shrinks(dom: Set<Seq<char>>, seen: Set<Seq<char>>, x: Seq<char>)
    requires
        dom.finite(),
        dom.contains(x),
        !seen.contains(x),
    ensures
        dom.difference(seen.insert(x)).len() < dom.difference(seen).len(),
{
    assert(dom.difference(seen.insert(x)) =~= dom.difference(seen).remove(x));
    assert(dom.difference(seen).contains(x));
}

impl AliasTable {
    /// Entry names are pairwise distinct, so the table denotes a mapping.
    pub closed spec fn wf(&self) -> bool {
        unique_names(self.entries@)
    }

    pub fn new() -> (r: AliasTable)
        ensures
            r@ =~= Map::<Seq<char>, Seq<Seq<char>>>::empty(),
            r.wf(),
    {
        AliasTable { entries: Vec::new() }
    }

    /// Registers `name` as an alias for `definition` unless the name is
    /// already taken; reports whether the entry was taken.
    pub fn add(&mut self, name: String, definition: Vec<String>) -> (added: bool)
        requires
            old(self).wf(),
        ensures
            final(self).wf(),
            added == !old(self)@.dom().contains(name@),
            added ==> final(self)@ == old(self)@.insert(name@, definition.deep_view()),
            !added ==> final(self)@ == old(self)@,
    {
        proof {
            lemma_entries_map_dom(self.entries@);
        }
        if self.lookup(name.as_str()).is_some() {
            return false;
        }
        let ghost pre = self.entries@;
        self.entries.push((name, definition));
        proof {
            assert(self.entries@.drop_last() =~= pre);
        }
        true
    }

    /// Whether `name` is a configured alias.
    pub fn is_alias(&self, name: &str) -> (r: bool)
        requires
            self.wf(),
        ensures
            r == self@.dom().contains(name@),
    {
        self.lookup(name).is_some()
    }

    /// The configured definition of `name`, if `name` is an alias.
    fn lookup<'a>(&'a self, name: &str) -> (r: Option<&'a Vec<String>>)
        requires
            self.wf(),
        ensures
            match r {
                Some(d) => self@.dom().contains(name@) && d.deep_view() == self@[name@],
                None => !self@.dom().contains(name@),
            },
    {
        let n = self.entries.len();
        let mut i: usize = 0;
        while i < n
            invariant
                i <= n,
                n == self.entries@.len(),
                self.wf(),
                forall|j: int| 0 <= j < i ==> self.entries@[j].0@ != name@,
            decreases n - i,
        {
            if str_eq(self.entries[i].0.as_str(), name) {
                proof {
                    lemma_entries_map_value(self.entries@, i as int);
                }
                return Some(&self.entries[i].1);
            }
            i += 1;
        }
        proof {
            lemma_entries_map_dom(self.entries@);
        }
        None
    }
}

/// The set of names that a chain of visited aliases holds.
pub open spec fn seen_set(s: Seq<Seq<char>>) -> Set<Seq<char>> {
    Set::new(|k: Seq<char>| s.contains(k))
}

proof fn lemma_push_contains<A>(s: Seq<A>, x: A, k: A)
    ensures
        s.push(x).contains(k) <==> (s.contains(k) || k == x),
{
    if s.push(x).contains(k) {
        let j = choose|j: int| 0 <= j < s.push(x).len() && s.push(x)[j] == k;
        if j < s.len() {
            assert(s[j] == k);
        }
    }
    if s.contains(k) {
        let j = choose|j: int| 0 <= j < s.len() && s[j] == k;
        assert(s.push(x)[j] == k);
    }
    if k == x {
        assert(s.push(x)[s.len() as int] == k);
    }
}

/// Whether some element of `v` reads `s`.
fn vec_contains_string(v: &Vec<String>, s: &String) -> (r: bool)
    ensures
        r == v.deep_view().contains(s@),
{
    let n = v.len();
    let mut i: usize = 0;
    while i < n
        invariant
            i <= n,
            n == v@.len(),
            forall|j: int| 0 <= j < i ==> v.deep_view()[j] != s@,
        decreases n - i,
    {
        if str_eq(v[i].as_str(), s.as_str()) {
            proof {
                assert(v.deep_view()[i as int] == s@);
            }
            return true;
        }
        i += 1;
    }
    false
}

/// Resolves `name` against the alias table.
///
/// Yields `None` when `name` is not an alias; otherwise the tokens exactly as
/// configured together with the recursively expanded token sequence, or the
/// cyclic-alias error when the expansion revisits a name of its own chain.
/// Resolution reads only the table: it performs no output and has no side
/// effects.
pub fn resolve_alias(table: &AliasTable, name: &str) -> (r: Result<
    Option<(Vec<String>, Vec<String>)>,
    HelpError,
>)
    requires
        table.wf(),
    ensures
        !table@.dom().contains(name@) ==> (r matches Ok(o) && o is None),
        table@.dom().contains(name@) ==> match expand_alias(
            table@,
            name@,
            Set::empty(),
        ) {
            Expansion::Expanded(exp) => r matches Ok(Some(p)) && p.0.deep_view() == table@[name@]
                && p.1.deep_view() == exp,
            Expansion::Cycle(c) => r matches Err(e) && e@ == (HelpErrorView::CyclicAlias {
                name: c,
            }),
        },
{
    let original = match table.lookup(name) {
        None => {
            return Ok(None);
        },
        Some(d) => clone_tokens(d),
    };
    let mut seen: Vec<String> = Vec::new();
    let mut current: String = name.to_owned();
    let mut suffix: Vec<String> = Vec::new();
    proof {
        lemma_entries_map_dom(table.entries@);
        assert(seen_set(seen.deep_view()) =~= Set::<Seq<char>>::empty());
        match expand_alias(table@, name@, Set::empty()) {
            Expansion::Expanded(tokens) => {
                assert(tokens + suffix.deep_view() =~= tokens);
            },
            Expansion::Cycle(_) => {},
        }
    }
    loop
        invariant
            table.wf(),
            table@.dom().finite(),
            table@.dom().contains(name@),
            table@.dom().contains(current@),
            original.deep_view() == table@[name@],
            expand_alias(table@, name@, Set::empty()) == append_expansion(
                expand_alias(table@, current@, seen_set(seen.deep_view())),
                suffix.deep_view(),
            ),
        decreases table@.dom().difference(seen_set(seen.deep_view())).len(),
    {
        let ghost seen0 = seen_set(seen.deep_view());
        let ghost seen0_seq = seen.deep_view();
        if vec_contains_string(&seen, &current) {
            return Err(HelpError::CyclicAlias { name: current });
        }
        seen.push(current.clone());
        proof {
            assert(seen.deep_view() =~= seen0_seq.push(current@));
            assert forall|k: Seq<char>|
                seen_set(seen.deep_view()).contains(k) == seen0.insert(current@).contains(k) by {
                lemma_push_contains(seen0_seq, current@, k);
            }
            assert(seen_set(seen.deep_view()) =~= seen0.insert(current@));
        }
        let def = clone_tokens(table.lookup(current.as_str()).unwrap());
        proof {
            assert(def.deep_view() =~= table@[current@]);
        }
        if def.len() > 0 && table.is_alias(def[0].as_str()) {
            let next = def[0].clone();
            let mut rest = tail_of(&def);
            append_tokens(&mut rest, &suffix);
            proof {
                let t = table@;
                let snew = seen_set(seen.deep_view());
                assert(t[current@][0] == def.deep_view()[0]);
                assert(expand_alias(t, current@, seen0) == append_expansion(
                    expand_alias(t, next@, snew),
                    def.deep_view().drop_first(),
                ));
                assert(rest.deep_view() =~= def.deep_view().drop_first() + suffix.deep_view());
                match expand_alias(t, next@, snew) {
                    Expansion::Expanded(e) => {
                        assert((e + def.deep_view().drop_first()) + suffix.deep_view() =~= e + (
                        def.deep_view().drop_first() + suffix.deep_view()));
                    },
                    Expansion::Cycle(_) => {},
                }
                lemma_difference_insert_shrinks(t.dom(), seen0, current@);
            }
            suffix = rest;
            current = next;
        } else {
            let ghost def_dv = def.deep_view();
            let mut expanded = def;
            append_tokens(&mut expanded, &suffix);
            proof {
                assert(expand_alias(table@, current@, seen0) == Expansion::Expanded(def_dv));
                assert(expanded.deep_view() == def_dv + suffix.deep_view());
            }
            return Ok(Some((original, expanded)));
        }
    }
}

} // verus!
