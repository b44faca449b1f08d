//! The symbol table that the parser fills: symbols by name, kept in the
//! order of their names, as a `BTreeMap<String, Symbol>` keeps them.
use vstd::prelude::*;

use crate::symbol::{default_symbol, Symbol, SymbolModel};
use crate::text::{chars_eq, copy_range, from_chars, to_chars};

verus! {

// ---------------------------------------------------------------------------
// The order of names
// ---------------------------------------------------------------------------

/// The order of `String`s: lexicographic by character (UTF-8 bytes compare
/// in the order of the code points they encode), a proper prefix first.
pub open spec fn lex_lt(a: Seq<char>, b: Seq<char>) -> bool
    decreases a.len(),
{
    if a.len() == 0 {
        b.len() > 0
    } else if b.len() == 0 {
        false
    } else if a[0] != b[0] {
        a[0] < b[0]
    } else {
        lex_lt(a.drop_first(), b.drop_first())
    }
}

pub proof fn lemma_lex_irreflexive(a: Seq<char>)
    ensures
        !lex_lt(a, a),
    decreases a.len(),
{
    if a.len() > 0 {
        lemma_lex_irreflexive(a.drop_first());
    }
}

pub proof fn lemma_lex_transitive(a: Seq<char>, b: Seq<char>, c: Seq<char>)
    requires
        lex_lt(a, b),
        lex_lt(b, c),
    ensures
        lex_lt(a, c),
    decreases a.len(),
{
    if a.len() > 0 && b.len() > 0 && c.len() > 0 {
        if a[0] == b[0] && b[0] == c[0] {
            lemma_lex_transitive(a.drop_first(), b.drop_first(), c.drop_first());
        }
    }
}

pub proof fn lemma_lex_total(a: Seq<char>, b: Seq<char>)
    requires
        a != b,
    ensures
        lex_lt(a, b) || lex_lt(b, a),
    decreases a.len(),
{
    if a.len() > 0 && b.len() > 0 && a[0] == b[0] {
        if a.drop_first() == b.drop_first() {
            assert(a =~= seq![a[0]] + a.drop_first());
            assert(b =~= seq![b[0]] + b.drop_first());
        }
        lemma_lex_total(a.drop_first(), b.drop_first());
    } else if a.len() == 0 && b.len() == 0 {
        assert(a =~= b);
    } else if a.len() > 0 && b.len() > 0 {
        assert(a[0] != b[0]);
    }
}

/// Whether `a` comes before `b` in the order of names.
pub fn lex_less(a: &[char], b: &[char]) -> (r: bool)
    ensures
        r == lex_lt(a@, b@),
{
    let mut i: usize = 0;
    assert(a@.skip(0) =~= a@);
    assert(b@.skip(0) =~= b@);
    while i < a.len() && i < b.len()
        invariant
            i <= a.len(),
            i <= b.len(),
            lex_lt(a@, b@) == lex_lt(a@.skip(i as int), b@.skip(i as int)),
        decreases a.len() - i,
    {
        assert(a@.skip(i as int)[0] == a@[i as int]);
        assert(b@.skip(i as int)[0] == b@[i as int]);
        if a[i] != b[i] {
            return a[i] < b[i];
        }
        assert(a@.skip(i as int).drop_first() =~= a@.skip(i + 1));
        assert(b@.skip(i as int).drop_first() =~= b@.skip(i + 1));
        i += 1;
    }
    a.len() < b.len()
}

// ---------------------------------------------------------------------------
// The table
// ---------------------------------------------------------------------------

struct Entry {
    name: Vec<char>,
    symbol: Symbol,
}

/// Symbols by name. The entries are kept in the order of their names, each
/// name once.
pub struct SymbolTable {
    entries: Vec<Entry>,
}

/// The names strictly increase along `names`, so none occurs twice.
pub open spec fn strictly_sorted(names: Seq<Seq<char>>) -> bool {
    forall|i: int, j: int| 0 <= i < j < names.len() ==> lex_lt(#[trigger] names[i], #[trigger] names[j])
}

impl SymbolTable {
    /// The names of the symbols, in the table's order.
    pub closed spec fn names(self) -> Seq<Seq<char>> {
        self.entries@.map_values(|e: Entry| e.name@)
    }

    closed spec fn symbols(self) -> Seq<SymbolModel> {
        self.entries@.map_values(|e: Entry| e.symbol@)
    }

    #[verifier::type_invariant]
    closed spec fn inv(self) -> bool {
        strictly_sorted(self.names())
    }

    closed spec fn index_of_name(self, k: Seq<char>) -> int {
        choose|i: int| 0 <= i < self.names().len() && self.names()[i] == k
    }

    proof fn lemma_index_unique(self, i: int)
        requires
            self.inv(),
            0 <= i < self.names().len(),
        ensures
            self.index_of_name(self.names()[i]) == i,
            self@.contains_key(self.names()[i]),
            self@[self.names()[i]] == self.symbols()[i],
    {
        let k = self.names()[i];
        let j = self.index_of_name(k);
        assert(0 <= j < self.names().len() && self.names()[j] == k);
        lemma_lex_irreflexive(k);
    }

    /// The table's names, in its order: strictly increasing, and exactly the
    /// names that it maps.
    proof fn lemma_names(self)
        requires
            self.inv(),
        ensures
            strictly_sorted(self.names()),
            forall|k: Seq<char>| self@.contains_key(k) <==> self.names().contains(k),
            self.names().no_duplicates(),
    {
        assert forall|k: Seq<char>| self@.contains_key(k) <==> self.names().contains(k) by {
            if self.names().contains(k) {
                let i = choose|i: int| 0 <= i < self.names().len() && self.names()[i] == k;
                self.lemma_index_unique(i);
            }
        }
        assert forall|i: int, j: int|
            0 <= i < self.names().len() && 0 <= j < self.names().len() && i != j implies self.names()[i]
            != self.names()[j] by {
            if i < j {
                lemma_lex_irreflexive(self.names()[i]);
            } else {
                lemma_lex_irreflexive(self.names()[j]);
            }
        }
    }

    pub fn new() -> (t: SymbolTable)
        ensures
            t@ == Map::<Seq<char>, SymbolModel>::empty(),
            t.names() == Seq::<Seq<char>>::empty(),
    {
        let t = SymbolTable { entries: Vec::new() };
        assert(t@ =~= Map::<Seq<char>, SymbolModel>::empty());
        assert(t.names() =~= Seq::<Seq<char>>::empty());
        t
    }

    /// The number of symbols.
    pub fn len(&self) -> (n: usize)
        ensures
            n == self.names().len(),
            n == self@.dom().len(),
    {
        proof {
            use_type_invariant(self);
            self.lemma_names();
            self.names().unique_seq_to_set();
            assert(self@.dom() =~= self.names().to_set());
        }
        self.entries.len()
    }

    pub fn is_empty(&self) -> (b: bool)
        ensures
            b == (self@.dom() == Set::<Seq<char>>::empty()),
    {
        proof {
            use_type_invariant(self);
            self.lemma_names();
            if self.entries.len() > 0 {
                assert(self.names().contains(self.names()[0]));
            }
        }
        let b = self.entries.len() == 0;
        if b {
            assert(self@.dom() =~= Set::<Seq<char>>::empty());
        }
        b
    }

    /// Where `name` is, or where it would go.
    fn find(&self, name: &[char]) -> (r: Result<usize, usize>)
        ensures
            match r {
                Ok(i) => i < self.names().len() && self.names()[i as int] == name@,
                Err(p) => {
                    &&& p <= self.names().len()
                    &&& forall|j: int| 0 <= j < p ==> lex_lt(#[trigger] self.names()[j], name@)
                    &&& forall|j: int|
                        p <= j < self.names().len() ==> lex_lt(name@, #[trigger] self.names()[j])
                },
            },
    {
        proof {
            use_type_invariant(self);
        }
        let n = self.entries.len();
        let mut i: usize = 0;
        while i < n && lex_less(self.entries[i].name.as_slice(), name)
            invariant
                i <= n == self.entries.len(),
                self.names().len() == n,
                forall|j: int| 0 <= j < i ==> lex_lt(#[trigger] self.names()[j], name@),
            decreases n - i,
        {
            assert(self.names()[i as int] == self.entries@[i as int].name@);
            i += 1;
        }
        if i < n && chars_eq(self.entries[i].name.as_slice(), name) {
            return Ok(i);
        }
        proof {
            if i < n {
                let ni = self.names()[i as int];
                assert(ni == self.entries@[i as int].name@);
                lemma_lex_total(ni, name@);
                assert forall|j: int| i <= j < self.names().len() implies lex_lt(
                    name@,
                    #[trigger] self.names()[j],
                ) by {
                    if j > i {
                        lemma_lex_transitive(name@, ni, self.names()[j]);
                    }
                }
            }
        }
        Err(i)
    }

    /// The symbol named `name`, if there is one.
    pub fn get(&self, name: &str) -> (r: Option<&Symbol>)
        ensures
            match r {
                Some(s) => self@.contains_key(name@) && s@ == self@[name@],
                None => !self@.contains_key(name@),
            },
    {
        let cs = to_chars(name);
        self.get_chars(cs.as_slice())
    }

    pub fn get_chars(&self, name: &[char]) -> (r: Option<&Symbol>)
        ensures
            match r {
                Some(s) => self@.contains_key(name@) && s@ == self@[name@],
                None => !self@.contains_key(name@),
            },
    {
        proof {
            use_type_invariant(self);
            self.lemma_names();
        }
        match self.find(name) {
            Ok(i) => {
                proof {
                    self.lemma_index_unique(i as int);
                }
                Some(&self.entries[i].symbol)
            },
            Err(p) => {
                proof {
                    assert forall|j: int| 0 <= j < self.names().len() implies self.names()[j]
                        != name@ by {
                        lemma_lex_irreflexive(name@);
                    }
                }
                None
            },
        }
    }

    /// Whether a symbol named `name` is in the table.
    pub fn contains_key(&self, name: &str) -> (b: bool)
        ensures
            b == self@.contains_key(name@),
    {
        self.get(name).is_some()
    }

    /// The names of the symbols, in order: strictly increasing, each once,
    /// and exactly the names in the table.
    pub fn names_vec(&self) -> (v: Vec<String>)
        ensures
            v@.map_values(|s: String| s@) == self.names(),
            strictly_sorted(self.names()),
            forall|k: Seq<char>| self@.contains_key(k) <==> self.names().contains(k),
    {
        proof {
            use_type_invariant(self);
            self.lemma_names();
        }
        let mut v: Vec<String> = Vec::new();
        let n = self.entries.len();
        for i in 0..n
            invariant
                n == self.entries.len(),
                v.len() == i,
                forall|j: int| 0 <= j < i ==> (#[trigger] v@[j])@ == self.names()[j],
        {
            let s = from_chars(self.entries[i].name.as_slice());
            v.push(s);
        }
        assert(v@.map_values(|s: String| s@) =~= self.names());
        v
    }

    /// The `i`-th entry in the table's order: its name and its symbol.
    /// Walking `i` from 0 to `len()` visits the symbols in the order of their
    /// names.
    pub fn entry_at(&self, i: usize) -> (e: (String, &Symbol))
        requires
            i < self.names().len(),
        ensures
            e.0@ == self.names()[i as int],
            self@.contains_key(e.0@),
            e.1@ == self@[e.0@],
    {
        proof {
            use_type_invariant(self);
            self.lemma_index_unique(i as int);
        }
        assert(self.entries@[i as int].name@ == self.names()[i as int]);
        (from_chars(self.entries[i].name.as_slice()), &self.entries[i].symbol)
    }

    /// Puts `symbol` under `name`, in place of the symbol that was there, if
    /// any, which is handed back.
    pub fn insert(&mut self, name: &str, symbol: Symbol) -> (prev: Option<Symbol>)
        ensures
            final(self)@ == old(self)@.insert(name@, symbol@),
            match prev {
                Some(p) => old(self)@.contains_key(name@) && p@ == old(self)@[name@],
                None => !old(self)@.contains_key(name@),
            },
    {
        let cs = to_chars(name);
        let had = self.get_chars(cs.as_slice()).is_some();
        let idx = self.index_or_insert_default(cs.as_slice());
        let p = self.replace_at(idx, symbol);
        assert(self@ =~= old(self)@.insert(name@, symbol@));
        if had {
            Some(p)
        } else {
            None
        }
    }

    /// The index of the symbol named `name`, which is added, as a new symbol,
    /// if the table had none of that name.
    pub(crate) fn index_or_insert_default(&mut self, name: &[char]) -> (idx: usize)
        ensures
            final(self)@ == (if old(self)@.contains_key(name@) {
                old(self)@
            } else {
                old(self)@.insert(name@, default_symbol())
            }),
            idx < final(self).names().len(),
            final(self).names()[idx as int] == name@,
    {
        proof {
            use_type_invariant(&*self);
            self.lemma_names();
        }
        match self.find(name) {
            Ok(i) => {
                proof {
                    self.lemma_index_unique(i as int);
                }
                i
            },
            Err(p) => {
                let ghost old_entries = self.entries@;
                let ghost old_view = self@;
                let ghost old_names = self.names();
                let e = Entry { name: copy_range(name, 0, name.len()), symbol: Symbol::default() };
                assert(e.name@ =~= name@);
                let ghost new_entries = old_entries.insert(p as int, e);
                let ghost new_names = new_entries.map_values(|e: Entry| e.name@);
                assert(new_names =~= old_names.insert(p as int, name@));
                assert(strictly_sorted(new_names)) by {
                    assert forall|a: int, b: int| 0 <= a < b < new_names.len() implies lex_lt(
                        #[trigger] new_names[a],
                        #[trigger] new_names[b],
                    ) by {
                        if a < p && b < p {
                        } else if a < p && b == p {
                        } else if a < p && b > p {
                            assert(new_names[b] == old_names[b - 1]);
                        } else if a == p {
                            assert(new_names[b] == old_names[b - 1]);
                        } else {
                            assert(new_names[a] == old_names[a - 1]);
                            assert(new_names[b] == old_names[b - 1]);
                        }
                    }
                }
                let mut entries: Vec<Entry> = Vec::new();
                std::mem::swap(&mut entries, &mut self.entries);
                entries.insert(p, e);
                self.entries = entries;
                proof {
                    assert(self.entries@ == new_entries);
                    assert(self.names() == new_names);
                    assert(!old_view.contains_key(name@)) by {
                        assert forall|j: int| 0 <= j < old_names.len() implies old_names[j]
                            != name@ by {
                            lemma_lex_irreflexive(name@);
                        }
                    }
                    self.lemma_names();
                    assert(self.symbols() =~= old_entries.map_values(|e: Entry| e.symbol@).insert(
                        p as int,
                        default_symbol(),
                    ));
                    assert forall|k: Seq<char>| #[trigger] self@.contains_key(k) implies self@[k]
                        == old_view.insert(name@, default_symbol())[k] by {
                        let j = choose|j: int| 0 <= j < self.names().len() && self.names()[j] == k;
                        self.lemma_index_unique(j);
                        if j < p {
                            old(self).lemma_index_unique(j);
                        } else if j > p {
                            old(self).lemma_index_unique(j - 1);
                        }
                    }
                    assert forall|k: Seq<char>|
                        #![trigger old_view.contains_key(k)]
                        old_view.contains_key(k) implies self@.contains_key(k) by {
                        let j = choose|j: int| 0 <= j < old_names.len() && old_names[j] == k;
                        if j < p {
                            assert(self.names()[j] == k);
                        } else {
                            assert(self.names()[j + 1] == k);
                        }
                    }
                    assert(self@.contains_key(name@)) by {
                        assert(self.names()[p as int] == name@);
                    }
                    assert(self@ =~= old_view.insert(name@, default_symbol()));
                }
                p
            },
        }
    }

    /// Puts `s` in place of the symbol at `idx` and hands back the one that
    /// was there.
    pub(crate) fn replace_at(&mut self, idx: usize, s: Symbol) -> (prev: Symbol)
        requires
            idx < old(self).names().len(),
        ensures
            final(self).names() == old(self).names(),
            prev@ == old(self)@[old(self).names()[idx as int]],
            final(self)@ == old(self)@.insert(old(self).names()[idx as int], s@),
    {
        proof {
            use_type_invariant(&*self);
            self.lemma_index_unique(idx as int);
            self.lemma_names();
        }
        let ghost old_view = self@;
        let ghost old_names = self.names();
        assert(strictly_sorted(old_names));
        let ghost k = self.names()[idx as int];
        let mut s = s;
        let ghost new_sym = s@;
        let mut entries: Vec<Entry> = Vec::new();
        std::mem::swap(&mut entries, &mut self.entries);
        std::mem::swap(&mut entries[idx].symbol, &mut s);
        assert(entries@.map_values(|e: Entry| e.name@) =~= old_names);
        self.entries = entries;
        proof {
            assert(self.names() =~= old(self).names());
            self.lemma_names();
            self.lemma_index_unique(idx as int);
            assert forall|x: Seq<char>| #[trigger] self@.contains_key(x) implies self@[x]
                == old_view.insert(k, new_sym)[x] by {
                let j = choose|j: int| 0 <= j < self.names().len() && self.names()[j] == x;
                self.lemma_index_unique(j);
                old(self).lemma_index_unique(j);
            }
            assert forall|x: Seq<char>|
                #![trigger old_view.contains_key(x)]
                old_view.contains_key(x) implies self@.contains_key(x) by {
            }
            assert(self@ =~= old_view.insert(k, new_sym));
        }
        s
    }
}

impl View for SymbolTable {
    type V = Map<Seq<char>, SymbolModel>;

    closed spec fn view(&self) -> Map<Seq<char>, SymbolModel> {
        Map::new(
            |k: Seq<char>| self.names().contains(k),
            |k: Seq<char>| self.symbols()[self.index_of_name(k)],
        )
    }
}

} // verus!

verus! {

/// In the order of names a proper prefix comes first: `a` before `a + t`
/// for every non-empty `t`, and never after it.
pub proof fn law_prefix_first(a: Seq<char>, t: Seq<char>)
    requires
        t.len() > 0,
    ensures
        lex_lt(a, a + t),
        !lex_lt(a + t, a),
    decreases a.len(),
{
    if a.len() > 0 {
        assert((a + t)[0] == a[0]);
        assert((a + t).drop_first() =~= a.drop_first() + t);
        law_prefix_first(a.drop_first(), t);
    } else {
        assert(a + t =~= t);
    }
}

/// Past a common prefix, the first differing characters decide the order of
/// names, by their code points.
pub proof fn law_first_difference_decides(
    p: Seq<char>,
    c1: char,
    s1: Seq<char>,
    c2: char,
    s2: Seq<char>,
)
    requires
        c1 < c2,
    ensures
        lex_lt(p.push(c1) + s1, p.push(c2) + s2),
        !lex_lt(p.push(c2) + s2, p.push(c1) + s1),
    decreases p.len(),
{
    let a = p.push(c1) + s1;
    let b = p.push(c2) + s2;
    if p.len() > 0 {
        assert(a[0] == p[0] && b[0] == p[0]);
        assert(a.drop_first() =~= p.drop_first().push(c1) + s1);
        assert(b.drop_first() =~= p.drop_first().push(c2) + s2);
        law_first_difference_decides(p.drop_first(), c1, s1, c2, s2);
    } else {
        assert(a[0] == c1 && b[0] == c2);
    }
}

} // verus!
