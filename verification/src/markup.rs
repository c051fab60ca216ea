use vstd::prelude::*;

verus! {

/// The markup language in which a symbol is to be written.
#[derive(Clone, Copy, Debug, PartialEq, Eq, Structural)]
pub enum MarkupLanguageMode {
    /// LaTeX, where every symbol has a command and a package.
    Latex,
    /// Typst, where a symbol may have an equivalent command.
    Typst,
}

} // verus!
