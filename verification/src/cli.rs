use vstd::prelude::*;

use crate::symbol::Symbol;
use crate::table::{lemma_lookup_sound, spec_lookup, SymbolTable};
use crate::symbol::{spec_id, SymbolView};

verus! {

/// The arguments after the program name and the first argument.
pub open spec fn arguments_after_second(arguments: Seq<Option<String>>) -> Seq<Option<String>> {
    if arguments.len() <= 2 {
        Seq::empty()
    } else {
        arguments.skip(2)
    }
}

/// A command line is refused when it has a first argument other than `--show-only`
/// (an argument that is not valid UTF-8 is `None`, and is never `--show-only`).
pub open spec fn command_line_refused(arguments: Seq<Option<String>>) -> bool {
    arguments.len() > 1 && !(arguments[1] matches Some(first) && first@ == "--show-only"@)
}

/// The arguments, in their order, that are identifiers of symbols of the table.
pub open spec fn known_ids(arguments: Seq<Option<String>>, symbols: Seq<SymbolView>) -> Seq<Seq<char>>
    decreases arguments.len(),
{
    if arguments.len() == 0 {
        Seq::empty()
    } else {
        known_ids(arguments.drop_last(), symbols) + match arguments.last() {
            Some(a) => if spec_lookup(symbols, a@) is Some {
                seq![a@]
            } else {
                Seq::empty()
            },
            None => Seq::empty(),
        }
    }
}

/// Decides what the application does with its command line
/// (`program [--show-only [ID...]]`, each argument already decoded, `None`
/// where it is not valid UTF-8). Returns `None` where the command line is
/// refused; otherwise the identifiers of the symbols that are to be shown: the
/// identifiers of the symbols of `table` that the arguments after `--show-only` name,
/// in their order, with those that name no symbol left out.
pub fn command_line_symbol_filter(arguments: &Vec<Option<String>>, table: &SymbolTable) -> (filter: Option<Vec<String>>)
    ensures
        match filter {
            None => command_line_refused(arguments@),
            Some(ids) => !command_line_refused(arguments@) && ids@.map_values(|s: String| s@)
                == known_ids(arguments_after_second(arguments@), table@),
        },
        filter is None <==> (arguments@.len() > 1 && !(arguments@[1] matches Some(first) && first@
            == "--show-only"@)),
        filter matches Some(ids) ==> if arguments@.len() <= 2 {
            ids@.len() == 0
        } else {
            ids@.map_values(|s: String| s@) == arguments@.skip(2).filter_map(
                |a: Option<String>| shown_id(table@, a),
            )
        },
{
    let n = arguments.len();
    if n > 1 {
        let show_only = String::from_str("--show-only");
        let accepted = match &arguments[1] {
            Some(first) => *first == show_only,
            None => false,
        };
        if !accepted {
            return None;
        }
    }
    let mut ids: Vec<String> = Vec::new();
    if n <= 2 {
        return Some(ids);
    }
    let mut i: usize = 2;
    assert(arguments@.subrange(2, 2) =~= Seq::<Option<String>>::empty());
    while i < n
        invariant
            2 <= i <= n,
            n == arguments.len(),
            ids@.map_values(|s: String| s@) == known_ids(arguments@.subrange(2, i as int), table@),
        decreases n - i,
    {
        let ghost before = arguments@.subrange(2, i as int);
        let ghost after = arguments@.subrange(2, i + 1);
        assert(after.drop_last() =~= before);
        assert(after.last() == arguments@[i as int]);
        match &arguments[i] {
            Some(argument) => {
                match Symbol::from_id(argument.as_str(), table) {
                    Some(symbol) => {
                        proof {
                            lemma_lookup_sound(table@, argument@);
                        }
                        let id = symbol.id();
                        ids.push(id);
                        assert(ids@.map_values(|s: String| s@) =~= known_ids(before, table@)
                            + seq![argument@]);
                    },
                    None => {},
                }
            },
            None => {},
        }
        i = i + 1;
    }
    assert(arguments@.subrange(2, n as int) =~= arguments@.skip(2));
    proof {
        lemma_known_ids_are_shown_ids(arguments@.skip(2), table@);
    }
    Some(ids)
}

/// The identifier that an argument puts in the filter: that of the symbol of the
/// table that the argument names, if it is text and names one.
pub open spec fn shown_id(symbols: Seq<SymbolView>, argument: Option<String>) -> Option<Seq<char>> {
    match argument {
        Some(a) => match spec_lookup(symbols, a@) {
            Some(symbol) => Some(spec_id(symbol)),
            None => None,
        },
        None => None,
    }
}

/// The known identifiers among some arguments are, in order, the identifiers of
/// the symbols that those arguments name; each is the argument itself.
pub proof fn lemma_known_ids_are_shown_ids(arguments: Seq<Option<String>>, symbols: Seq<SymbolView>)
    ensures
        known_ids(arguments, symbols) == arguments.filter_map(|a: Option<String>| shown_id(symbols, a)),
    decreases arguments.len(),
{
    if arguments.len() > 0 {
        lemma_known_ids_are_shown_ids(arguments.drop_last(), symbols);
        if let Some(a) = arguments.last() {
            lemma_lookup_sound(symbols, a@);
        }
    }
}

/// A command line is refused exactly when it has a first argument and that
/// argument is not the text `--show-only`.
pub proof fn lemma_command_line_refused_iff(arguments: Seq<Option<String>>)
    ensures
        command_line_refused(arguments) <==> (arguments.len() >= 2 && (arguments[1] is None
            || arguments[1]->0@ != "--show-only"@)),
{
}

} // verus!
