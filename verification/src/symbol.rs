use vstd::prelude::*;
use vstd::utf8::encode_utf8;

use crate::encoding::{base64_len_fits, base64_standard_encode, spec_base64_standard};
use crate::markup::MarkupLanguageMode;

verus! {

/// What a [`Symbol`] holds, as mathematical values.
pub struct SymbolView {
    pub command: Seq<char>,
    pub package: Seq<char>,
    pub font_encoding: Seq<char>,
    pub text_mode: bool,
    pub math_mode: bool,
    pub typst_command: Option<Seq<char>>,
}

/// A LaTeX symbol, with its Typst equivalent where there is one.
#[derive(Clone, Copy, Debug, PartialEq, Eq)]
pub struct Symbol {
    /// Command to display the symbol.
    command: &'static str,
    /// Package which the symbol belongs to.
    package: &'static str,
    /// Font encoding used for the symbol.
    font_encoding: &'static str,
    /// Whether the symbol is available in text mode.
    text_mode: bool,
    /// Whether the symbol is available in math mode.
    math_mode: bool,
    /// Equivalent Typst command, if there is one.
    typst_command: Option<&'static str>,
}

/// Replaces every backslash by an underscore.
pub open spec fn escape_backslashes(command: Seq<char>) -> Seq<char> {
    command.map_values(|c: char| if c == '\\' { '_' } else { c })
}

/// The text whose Base64 encoding is a symbol's identifier:
/// `package-font_encoding-command`, with each backslash of the command
/// replaced by an underscore.
pub open spec fn id_source(s: SymbolView) -> Seq<char> {
    s.package + seq!['-'] + s.font_encoding + seq!['-'] + escape_backslashes(s.command)
}

/// The identifier of a symbol: the standard Base64 encoding of its [`id_source`].
pub open spec fn spec_id(s: SymbolView) -> Seq<char> {
    spec_base64_standard(id_source(s))
}

/// What every symbol satisfies: it can be used in text mode or in math mode
/// (or both), and its identifier's length fits in a `usize`.
pub open spec fn symbol_view_wf(s: SymbolView) -> bool {
    &&& (s.text_mode || s.math_mode)
    &&& base64_len_fits(encode_utf8(id_source(s)).len())
}

impl View for Symbol {
    type V = SymbolView;

    closed spec fn view(&self) -> SymbolView {
        SymbolView {
            command: self.command@,
            package: self.package@,
            font_encoding: self.font_encoding@,
            text_mode: self.text_mode,
            math_mode: self.math_mode,
            typst_command: match self.typst_command {
                Some(t) => Some(t@),
                None => None,
            },
        }
    }
}

impl Symbol {
    /// Every symbol is usable in text mode or in math mode (or both), and its
    /// identifier can be computed.
    #[verifier::type_invariant]
    pub open spec fn well_formed(self) -> bool {
        symbol_view_wf(self@)
    }

    /// Makes a symbol from its fields.
    pub fn new(
        command: &'static str,
        package: &'static str,
        font_encoding: &'static str,
        text_mode: bool,
        math_mode: bool,
        typst_command: Option<&'static str>,
    ) -> (s: Symbol)
        requires
            text_mode || math_mode,
            base64_len_fits(
                encode_utf8(package@ + seq!['-'] + font_encoding@ + seq!['-'] + escape_backslashes(command@)).len(),
            ),
        ensures
            s@.command == command@,
            s@.package == package@,
            s@.font_encoding == font_encoding@,
            s@.text_mode == text_mode,
            s@.math_mode == math_mode,
            s@.typst_command == (match typst_command {
                Some(t) => Some(t@),
                None => None,
            }),
            symbol_view_wf(s@),
    {
        Symbol { command, package, font_encoding, text_mode, math_mode, typst_command }
    }

    /// Returns the identifier of the symbol: the standard Base64 encoding of
    /// `package-font_encoding-command`, where each backslash of the command is
    /// written as `_` and every other character is kept.
    pub fn id(&self) -> (id: String)
        ensures
            id@ == spec_id(self@),
            exists|written: Seq<char>|
                #![trigger spec_base64_standard(self@.package + seq!['-'] + self@.font_encoding + seq!['-'] + written)]
                {
                    &&& id@ == spec_base64_standard(
                        self@.package + seq!['-'] + self@.font_encoding + seq!['-'] + written,
                    )
                    &&& written.len() == self@.command.len()
                    &&& forall|i: int|
                        0 <= i < written.len() ==> #[trigger] written[i] == (if self@.command[i] == '\\' {
                            '_'
                        } else {
                            self@.command[i]
                        })
                },
    {
        proof {
            use_type_invariant(self);
            reveal_strlit("-");
        }
        let mut source = String::from_str(self.package);
        source.append("-");
        source.append(self.font_encoding);
        source.append("-");
        let ghost prefix = source@;
        let n = self.command.unicode_len();
        let mut i: usize = 0;
        while i < n
            invariant
                i <= n,
                n == self.command@.len(),
                source@ == prefix + escape_backslashes(self.command@.take(i as int)),
            decreases n - i,
        {
            let c = self.command.get_char(i);
            let ghost before = source@;
            if c == '\\' {
                source.append("_");
                proof {
                    reveal_strlit("_");
                }
                assert("_"@ =~= seq!['_']);
            } else {
                let single = self.command.substring_char(i, i + 1);
                assert(single@ =~= seq![c]);
                source.append(single);
            }
            assert(source@ =~= before + seq![if c == '\\' { '_' } else { c }]);
            assert(escape_backslashes(self.command@.take(i + 1)) =~= escape_backslashes(
                self.command@.take(i as int),
            ) + seq![if c == '\\' { '_' } else { c }]);
            i = i + 1;
        }
        assert(self.command@.take(n as int) =~= self.command@);
        assert(source@ =~= id_source(self@));
        proof {
            lemma_id_source_characters(self@);
        }
        base64_standard_encode(source.as_str())
    }

    /// Command to use the symbol in the specified markup language.
    pub fn command(&self, language: &MarkupLanguageMode) -> (command: Option<&'static str>)
        ensures
            match language {
                MarkupLanguageMode::Latex => command.is_some() && command.unwrap()@ == self@.command,
                MarkupLanguageMode::Typst => match command {
                    Some(c) => self@.typst_command == Some(c@),
                    None => self@.typst_command is None,
                },
            },
    {
        match language {
            MarkupLanguageMode::Latex => Some(self.command),
            MarkupLanguageMode::Typst => self.typst_command,
        }
    }

    /// Package which provides the symbol for the specified markup language.
    pub fn package(&self, language: &MarkupLanguageMode) -> (package: Option<&'static str>)
        ensures
            match language {
                MarkupLanguageMode::Latex => package.is_some() && package.unwrap()@ == self@.package,
                MarkupLanguageMode::Typst => package is None,
            },
    {
        match language {
            MarkupLanguageMode::Latex => Some(self.package),
            MarkupLanguageMode::Typst => None,
        }
    }

    /// Textual representation of the mode in which the symbol can be used.
    pub fn mode_description(&self, language: &MarkupLanguageMode) -> (description: Option<&'static str>)
        ensures
            match language {
                MarkupLanguageMode::Typst => description is None,
                MarkupLanguageMode::Latex => description.is_some() && description.unwrap()@
                    == mode_description_text(self@.math_mode, self@.text_mode),
            },
            *language == MarkupLanguageMode::Latex && self@.math_mode && self@.text_mode
                ==> description == Some("mathmode & textmode"),
            *language == MarkupLanguageMode::Latex && !self@.math_mode && self@.text_mode
                ==> description == Some("textmode"),
            *language == MarkupLanguageMode::Latex && self@.math_mode && !self@.text_mode
                ==> description == Some("mathmode"),
    {
        proof {
            use_type_invariant(self);
        }
        if matches!(language, MarkupLanguageMode::Typst) {
            return None;
        }
        if self.math_mode && self.text_mode {
            Some("mathmode & textmode")
        } else if self.text_mode {
            Some("textmode")
        } else {
            Some("mathmode")
        }
    }
}

/// The description of the modes in which a symbol can be used.
pub open spec fn mode_description_text(math_mode: bool, text_mode: bool) -> Seq<char> {
    if math_mode && text_mode {
        "mathmode & textmode"@
    } else if text_mode {
        "textmode"@
    } else {
        "mathmode"@
    }
}

/// The text whose encoding is a symbol's identifier is the package, `-`, the
/// font encoding, `-`, then the command with each backslash written as `_` and
/// every other character kept, in its place.
pub proof fn lemma_id_source_characters(s: SymbolView)
    ensures
        id_source(s).len() == s.package.len() + s.font_encoding.len() + s.command.len() + 2,
        id_source(s).subrange(0, (s.package.len() + s.font_encoding.len() + 2) as int)
            == s.package + seq!['-'] + s.font_encoding + seq!['-'],
        forall|i: int|
            0 <= i < s.command.len() ==> #[trigger] id_source(s)[s.package.len() + s.font_encoding.len() + 2 + i]
                == (if s.command[i] == '\\' {
                '_'
            } else {
                s.command[i]
            }),
        escape_backslashes(s.command).len() == s.command.len(),
        forall|i: int|
            0 <= i < s.command.len() ==> #[trigger] escape_backslashes(s.command)[i] == (if s.command[i]
                == '\\' {
                '_'
            } else {
                s.command[i]
            }),
        id_source(s) == s.package + seq!['-'] + s.font_encoding + seq!['-'] + escape_backslashes(s.command),
{
    let prefix = s.package + seq!['-'] + s.font_encoding + seq!['-'];
    assert(id_source(s).subrange(0, prefix.len() as int) =~= prefix);
}

} // verus!
