use vstd::prelude::*;

use crate::markup::MarkupLanguageMode;
use crate::symbol::{mode_description_text, spec_id, Symbol};

verus! {

/// `text` without the `=` characters at its end.
pub open spec fn trim_trailing_padding(text: Seq<char>) -> Seq<char>
    decreases text.len(),
{
    if text.len() > 0 && text.last() == '=' {
        trim_trailing_padding(text.drop_last())
    } else {
        text
    }
}

/// Trimming keeps a prefix of the text: the longest one that does not end in
/// `=`, all of whose removed characters are `=`.
pub proof fn lemma_trim_trailing_padding(text: Seq<char>)
    ensures
        exists|kept: int|
            #![trigger text.take(kept)]
            {
                &&& 0 <= kept <= text.len()
                &&& trim_trailing_padding(text) == text.take(kept)
                &&& (kept == 0 || text[kept - 1] != '=')
                &&& forall|i: int| kept <= i < text.len() ==> #[trigger] text[i] == '='
            },
    decreases text.len(),
{
    if text.len() > 0 && text.last() == '=' {
        let rest = text.drop_last();
        lemma_trim_trailing_padding(rest);
        let kept = choose|kept: int|
            #![trigger rest.take(kept)]
            {
                &&& 0 <= kept <= rest.len()
                &&& trim_trailing_padding(rest) == rest.take(kept)
                &&& (kept == 0 || rest[kept - 1] != '=')
                &&& forall|i: int| kept <= i < rest.len() ==> #[trigger] rest[i] == '='
            };
        assert(rest.take(kept) =~= text.take(kept));
        assert forall|i: int| kept <= i < text.len() implies #[trigger] text[i] == '=' by {
            if i < rest.len() {
                assert(rest[i] == text[i]);
            }
        }
    } else {
        assert(text.take(text.len() as int) =~= text);
    }
}

/// The name of the icon that shows the symbol with identifier `id`:
/// the identifier without its trailing `=`, then `-symbolic`.
pub open spec fn spec_icon_name(id: Seq<char>) -> Seq<char> {
    trim_trailing_padding(id) + "-symbolic"@
}

/// Returns the name of the icon of the symbol whose identifier is `id`
/// (icon file names hold no trailing `=`).
pub fn icon_name(id: &str) -> (name: String)
    ensures
        name@ == spec_icon_name(id@),
        exists|kept: int|
            #![trigger id@.take(kept)]
            {
                &&& 0 <= kept <= id@.len()
                &&& name@ == id@.take(kept) + "-symbolic"@
                &&& (kept == 0 || id@[kept - 1] != '=')
                &&& forall|i: int| kept <= i < id@.len() ==> #[trigger] id@[i] == '='
            },
{
    proof {
        lemma_trim_trailing_padding(id@);
    }
    let mut end = id.unicode_len();
    assert(id@.take(end as int) =~= id@);
    while end > 0 && id.get_char(end - 1) == '='
        invariant
            end <= id@.len(),
            trim_trailing_padding(id@) == trim_trailing_padding(id@.take(end as int)),
        decreases end,
    {
        assert(id@.take(end as int).drop_last() =~= id@.take(end - 1));
        end = end - 1;
    }
    let kept = id.substring_char(0, end);
    assert(kept@ =~= trim_trailing_padding(id@)) by {
        if end > 0 {
            assert(id@.take(end as int).last() != '=');
        }
    }
    let mut name = String::from_str(kept);
    name.append("-symbolic");
    name
}

/// The values with which an item showing a symbol is created.
pub struct SymbolItemProperties {
    /// The identifier of the symbol.
    pub id: String,
    /// The name of its icon.
    pub icon: String,
    /// The command that writes it, where the language has one.
    pub command: Option<String>,
    /// The package that provides it, where the language has one.
    pub package: Option<String>,
    /// The modes in which it can be used, where the language has them.
    pub mode: Option<String>,
}

/// The view of an optional text.
pub open spec fn option_text(text: Option<String>) -> Option<Seq<char>> {
    match text {
        Some(t) => Some(t@),
        None => None,
    }
}

fn owned_text(text: Option<&'static str>) -> (owned: Option<String>)
    ensures
        match text {
            Some(t) => owned matches Some(o) && o@ == t@,
            None => owned is None,
        },
{
    match text {
        Some(t) => Some(String::from_str(t)),
        None => None,
    }
}

impl SymbolItemProperties {
    /// The values with which an item is created for `symbol` in `language`.
    pub fn of(symbol: &Symbol, language: &MarkupLanguageMode) -> (properties: SymbolItemProperties)
        ensures
            properties.id@ == spec_id(symbol@),
            properties.icon@ == spec_icon_name(spec_id(symbol@)),
            option_text(properties.command) == match language {
                MarkupLanguageMode::Latex => Some(symbol@.command),
                MarkupLanguageMode::Typst => symbol@.typst_command,
            },
            option_text(properties.package) == match language {
                MarkupLanguageMode::Latex => Some(symbol@.package),
                MarkupLanguageMode::Typst => None,
            },
            option_text(properties.mode) == match language {
                MarkupLanguageMode::Latex => Some(mode_description_text(symbol@.math_mode, symbol@.text_mode)),
                MarkupLanguageMode::Typst => None,
            },
    {
        let id = symbol.id();
        let icon = icon_name(id.as_str());
        let command = owned_text(symbol.command(language));
        let package = owned_text(symbol.package(language));
        let mode = owned_text(symbol.mode_description(language));
        SymbolItemProperties { id, icon, command, package, mode }
    }
}

/// The values to which an existing item is set to show another symbol; unlike
/// a new item, an item that is set always shows a command.
pub struct SymbolItemUpdate {
    /// The identifier of the symbol.
    pub id: String,
    /// The name of its icon.
    pub icon: String,
    /// The command that writes it.
    pub command: String,
    /// The package that provides it, where the language has one.
    pub package: Option<String>,
    /// The modes in which it can be used, where the language has them.
    pub mode: Option<String>,
}

/// Whether `symbol` can be written in `language`: LaTeX always has a command,
/// Typst only where the symbol has an equivalent.
pub open spec fn has_command(symbol: Symbol, language: MarkupLanguageMode) -> bool {
    language is Latex || symbol@.typst_command is Some
}

impl SymbolItemUpdate {
    /// The values to which an item is set to show `symbol` in `language`.
    pub fn of(symbol: &Symbol, language: &MarkupLanguageMode) -> (update: SymbolItemUpdate)
        requires
            has_command(*symbol, *language),
        ensures
            update.id@ == spec_id(symbol@),
            update.icon@ == spec_icon_name(spec_id(symbol@)),
            Some(update.command@) == match language {
                MarkupLanguageMode::Latex => Some(symbol@.command),
                MarkupLanguageMode::Typst => symbol@.typst_command,
            },
            option_text(update.package) == match language {
                MarkupLanguageMode::Latex => Some(symbol@.package),
                MarkupLanguageMode::Typst => None,
            },
            option_text(update.mode) == match language {
                MarkupLanguageMode::Latex => Some(mode_description_text(symbol@.math_mode, symbol@.text_mode)),
                MarkupLanguageMode::Typst => None,
            },
    {
        let id = symbol.id();
        let icon = icon_name(id.as_str());
        let command = match symbol.command(language) {
            Some(c) => String::from_str(c),
            None => {
                proof {
                    assert(false);
                }
                String::new()
            },
        };
        let package = owned_text(symbol.package(language));
        let mode = owned_text(symbol.mode_description(language));
        SymbolItemUpdate { id, icon, command, package, mode }
    }
}

} // verus!
