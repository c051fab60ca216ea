use vstd::prelude::*;
use crate::symbol::{spec_id, symbol_view_wf, Symbol, SymbolView};

verus! {

/// No two symbols of the sequence have the same identifier.
pub open spec fn ids_distinct(symbols: Seq<SymbolView>) -> bool {
    forall|i: int, j: int|
        0 <= i < j < symbols.len() ==> #[trigger] spec_id(symbols[i]) != #[trigger] spec_id(symbols[j])
}

/// Two symbols of a sequence collide exactly when their identifiers are equal:
/// nothing but the identifier decides it.
pub proof fn lemma_ids_distinct_iff(symbols: Seq<SymbolView>)
    ensures
        ids_distinct(symbols) <==> forall|i: int, j: int|
            0 <= i < symbols.len() && 0 <= j < symbols.len() && i != j ==> spec_id(symbols[i])
                != spec_id(symbols[j]),
{
    if ids_distinct(symbols) {
        assert forall|i: int, j: int|
            0 <= i < symbols.len() && 0 <= j < symbols.len() && i != j implies spec_id(symbols[i])
                != spec_id(symbols[j]) by {
            if i < j {
                assert(spec_id(symbols[i]) != spec_id(symbols[j]));
            } else {
                assert(spec_id(symbols[j]) != spec_id(symbols[i]));
            }
        }
    }
}

/// Every symbol of the sequence is usable in text mode or in math mode.
pub open spec fn all_symbols_wf(symbols: Seq<SymbolView>) -> bool {
    forall|i: int| 0 <= i < symbols.len() ==> #[trigger] symbol_view_wf(symbols[i])
}

/// The first symbol of the sequence whose identifier is `id`, if any.
pub open spec fn spec_lookup(symbols: Seq<SymbolView>, id: Seq<char>) -> Option<SymbolView>
    decreases symbols.len(),
{
    if symbols.len() == 0 {
        None
    } else if spec_id(symbols[0]) == id {
        Some(symbols[0])
    } else {
        spec_lookup(symbols.drop_first(), id)
    }
}

/// `j` is the first position at which a symbol repeats the identifier of an
/// earlier one.
pub open spec fn first_duplicate_at(symbols: Seq<SymbolView>, j: int) -> bool {
    &&& 0 <= j < symbols.len()
    &&& ids_distinct(symbols.take(j))
    &&& !ids_distinct(symbols.take(j + 1))
}

/// Returned by [`SymbolTable::from_symbols`] when two symbols share an identifier.
#[derive(Debug)]
pub struct DuplicateId {
    /// The identifier that occurs twice.
    pub id: String,
}

/// Symbols, each found again by its identifier. The crate holds no symbol
/// data of its own: a table holds the symbols that its caller supplies.
#[derive(Debug)]
pub struct SymbolTable {
    symbols: Vec<Symbol>,
    ids: Vec<String>,
}

impl View for SymbolTable {
    type V = Seq<SymbolView>;

    closed spec fn view(&self) -> Seq<SymbolView> {
        self.symbols@.map_values(|s: Symbol| s@)
    }
}

impl SymbolTable {
    /// Each stored identifier is that of the symbol beside it, no
    /// identifier occurs twice, and every symbol is usable in text or math mode.
    #[verifier::type_invariant]
    pub closed spec fn well_formed(self) -> bool {
        &&& self.symbols.len() == self.ids.len()
        &&& forall|i: int| 0 <= i < self.ids.len() ==> #[trigger] self.ids[i]@ == spec_id(self.symbols[i]@)
        &&& ids_distinct(self@)
        &&& all_symbols_wf(self@)
    }

    /// A well-formed table holds no identifier twice, and each of its symbols
    /// is usable in text mode or in math mode.
    pub proof fn lemma_ids_distinct(table: SymbolTable)
        requires
            table.well_formed(),
        ensures
            ids_distinct(table@),
            all_symbols_wf(table@),
    {
    }

    /// Builds a table of the given symbols, in their order. Fails on the
    /// first symbol whose identifier an earlier symbol already has.
    pub fn from_symbols(symbols: Vec<Symbol>) -> (result: Result<SymbolTable, DuplicateId>)
        ensures
            result is Ok <==> forall|i: int, j: int|
                0 <= i < j < symbols.len() ==> #[trigger] spec_id(symbols@[i]@) != #[trigger] spec_id(
                    symbols@[j]@,
                ),
            match result {
                Ok(table) => ids_distinct(symbols@.map_values(|s: Symbol| s@)) && all_symbols_wf(table@)
                    && table@ == symbols@.map_values(|s: Symbol| s@),
                Err(e) => !ids_distinct(symbols@.map_values(|s: Symbol| s@)) && exists|j: int|
                    first_duplicate_at(symbols@.map_values(|s: Symbol| s@), j) && e.id@ == spec_id(
                        symbols@[j]@,
                    ),
            },
    {
        let ghost views = symbols@.map_values(|s: Symbol| s@);
        let n = symbols.len();
        let mut ids: Vec<String> = Vec::new();
        let mut i: usize = 0;
        while i < n
            invariant
                i <= n,
                n == symbols.len(),
                views == symbols@.map_values(|s: Symbol| s@),
                ids.len() == i,
                forall|k: int| 0 <= k < i ==> #[trigger] ids[k]@ == spec_id(views[k]),
                ids_distinct(views.take(i as int)),
                forall|k: int| 0 <= k < i ==> #[trigger] symbol_view_wf(views[k]),
            decreases n - i,
        {
            let current = &symbols[i];
            proof {
                use_type_invariant(current);
            }
            let id = current.id();
            let mut j: usize = 0;
            while j < i
                invariant
                    j <= i,
                    i < n,
                    n == symbols.len(),
                    views == symbols@.map_values(|s: Symbol| s@),
                    ids.len() == i,
                    forall|k: int| 0 <= k < i ==> #[trigger] ids[k]@ == spec_id(views[k]),
                    id@ == spec_id(views[i as int]),
                    forall|k: int| 0 <= k < j ==> spec_id(#[trigger] views[k]) != id@,
                    ids_distinct(views.take(i as int)),
                decreases i - j,
            {
                if ids[j] == id {
                    proof {
                        let t = views.take(i + 1);
                        assert(spec_id(t[j as int]) == spec_id(t[i as int]));
                        assert(!ids_distinct(t));
                        assert(first_duplicate_at(views, i as int));
                        assert(views.take(n as int) =~= views);
                        lemma_prefix_not_distinct(views, i + 1, n as int);
                    }
                    return Err(DuplicateId { id });
                }
                j = j + 1;
            }
            proof {
                let t = views.take(i + 1);
                assert forall|a: int, b: int| 0 <= a < b < t.len() implies #[trigger] spec_id(t[a])
                    != #[trigger] spec_id(t[b]) by {
                    if b < i {
                        assert(views.take(i as int)[a] == t[a]);
                        assert(views.take(i as int)[b] == t[b]);
                    }
                }
            }
            ids.push(id);
            i = i + 1;
        }
        assert(views.take(n as int) =~= views);
        assert forall|a: int, b: int| 0 <= a < b < symbols.len() implies #[trigger] spec_id(
            symbols@[a]@,
        ) != #[trigger] spec_id(symbols@[b]@) by {
            assert(views[a] == symbols@[a]@);
            assert(views[b] == symbols@[b]@);
        }
        let table = SymbolTable { symbols, ids };
        Ok(table)
    }

    /// The number of symbols in the table.
    pub fn len(&self) -> (n: usize)
        ensures
            n == self@.len(),
    {
        self.symbols.len()
    }

    /// The symbols of the table, in its order.
    pub fn symbols(&self) -> (symbols: Vec<Symbol>)
        ensures
            symbols@.map_values(|s: Symbol| s@) == self@,
            all_symbols_wf(self@),
    {
        proof {
            use_type_invariant(self);
        }
        self.symbols.clone()
    }

    /// Returns the symbol that `id` identifies, if the table holds one. A
    /// symbol found is usable in text mode or in math mode.
    pub fn get(&self, id: &str) -> (symbol: Option<Symbol>)
        ensures
            match symbol {
                Some(s) => spec_lookup(self@, id@) == Some(s@) && symbol_view_wf(s@),
                None => spec_lookup(self@, id@) is None,
            },
    {
        proof {
            use_type_invariant(self);
        }
        let key = String::from_str(id);
        let n = self.ids.len();
        let mut i: usize = 0;
        while i < n
            invariant
                i <= n,
                n == self.ids.len(),
                self.symbols.len() == n,
                key@ == id@,
                forall|k: int| 0 <= k < n ==> #[trigger] self.ids[k]@ == spec_id(self.symbols[k]@),
                forall|k: int| 0 <= k < i ==> spec_id(#[trigger] self@[k]) != id@,
                self@.len() == n,
            decreases n - i,
        {
            if self.ids[i] == key {
                proof {
                    lemma_lookup_at(self@, id@, i as int);
                }
                let found = self.symbols[i];
                proof {
                    use_type_invariant(&found);
                }
                return Some(found);
            }
            i = i + 1;
        }
        proof {
            lemma_lookup_none(self@, id@);
        }
        None
    }
}

impl Symbol {
    /// Returns the symbol of `table` that the `id` specifies. A symbol found is
    /// usable in text mode or in math mode.
    pub fn from_id(id: &str, table: &SymbolTable) -> (symbol: Option<Symbol>)
        ensures
            match symbol {
                Some(s) => spec_lookup(table@, id@) == Some(s@) && symbol_view_wf(s@),
                None => spec_lookup(table@, id@) is None,
            },
    {
        table.get(id)
    }
}

/// Looking up the identifier of any symbol of a table gives that symbol back.
pub proof fn lemma_lookup_of_id(symbols: Seq<SymbolView>, s: SymbolView)
    requires
        ids_distinct(symbols),
        symbols.contains(s),
    ensures
        spec_lookup(symbols, spec_id(s)) == Some(s),
{
    let i = choose|i: int| 0 <= i < symbols.len() && symbols[i] == s;
    assert forall|k: int| 0 <= k < i implies spec_id(#[trigger] symbols[k]) != spec_id(s) by {
        assert(spec_id(symbols[k]) != spec_id(symbols[i]));
    }
    lemma_lookup_at(symbols, spec_id(s), i);
}

/// A lookup finds only a symbol of the table whose identifier is the one asked
/// for, and finds nothing exactly when no symbol of the table has that identifier.
pub proof fn lemma_lookup_sound(symbols: Seq<SymbolView>, id: Seq<char>)
    ensures
        spec_lookup(symbols, id) matches Some(s) ==> symbols.contains(s) && spec_id(s) == id,
        spec_lookup(symbols, id) is None <==> forall|k: int|
            0 <= k < symbols.len() ==> spec_id(#[trigger] symbols[k]) != id,
    decreases symbols.len(),
{
    if symbols.len() > 0 {
        let rest = symbols.drop_first();
        lemma_lookup_sound(rest, id);
        if spec_id(symbols[0]) != id {
            if let Some(s) = spec_lookup(rest, id) {
                let k = choose|k: int| 0 <= k < rest.len() && rest[k] == s;
                assert(symbols[k + 1] == s);
            }
            assert forall|k: int|
                0 <= k < symbols.len() && (forall|m: int|
                    0 <= m < rest.len() ==> spec_id(#[trigger] rest[m]) != id) implies spec_id(
                #[trigger] symbols[k],
            ) != id by {
                if k > 0 {
                    assert(symbols[k] == rest[k - 1]);
                }
            }
            assert forall|m: int|
                0 <= m < rest.len() && (forall|k: int|
                    0 <= k < symbols.len() ==> spec_id(#[trigger] symbols[k]) != id) implies spec_id(
                #[trigger] rest[m],
            ) != id by {
                assert(rest[m] == symbols[m + 1]);
            }
        } else {
            assert(symbols.contains(symbols[0]));
        }
    }
}

/// A sequence whose prefix repeats an identifier repeats it in every longer prefix.
proof fn lemma_prefix_not_distinct(symbols: Seq<SymbolView>, a: int, b: int)
    requires
        0 <= a <= b <= symbols.len(),
        !ids_distinct(symbols.take(a)),
    ensures
        !ids_distinct(symbols.take(b)),
{
    let ta = symbols.take(a);
    let tb = symbols.take(b);
    let (i, j) = choose|i: int, j: int|
        0 <= i < j < ta.len() && #[trigger] spec_id(ta[i]) == #[trigger] spec_id(ta[j]);
    assert(ta[i] == tb[i] && ta[j] == tb[j]);
}

/// The lookup finds the first symbol with the identifier.
proof fn lemma_lookup_at(symbols: Seq<SymbolView>, id: Seq<char>, i: int)
    requires
        0 <= i < symbols.len(),
        spec_id(symbols[i]) == id,
        forall|k: int| 0 <= k < i ==> spec_id(#[trigger] symbols[k]) != id,
    ensures
        spec_lookup(symbols, id) == Some(symbols[i]),
    decreases i,
{
    if i > 0 {
        assert(spec_id(symbols[0]) != id);
        let rest = symbols.drop_first();
        assert forall|k: int| 0 <= k < i - 1 implies spec_id(#[trigger] rest[k]) != id by {
            assert(rest[k] == symbols[k + 1]);
        }
        lemma_lookup_at(rest, id, i - 1);
    }
}

/// The lookup finds nothing where no symbol has the identifier.
proof fn lemma_lookup_none(symbols: Seq<SymbolView>, id: Seq<char>)
    requires
        forall|k: int| 0 <= k < symbols.len() ==> spec_id(#[trigger] symbols[k]) != id,
    ensures
        spec_lookup(symbols, id) is None,
    decreases symbols.len(),
{
    if symbols.len() > 0 {
        assert(spec_id(symbols[0]) != id);
        let rest = symbols.drop_first();
        assert forall|k: int| 0 <= k < rest.len() implies spec_id(#[trigger] rest[k]) != id by {
            assert(rest[k] == symbols[k + 1]);
        }
        lemma_lookup_none(rest, id);
    }
}

} // verus!
