use hieroglyphic::markup::MarkupLanguageMode;
use hieroglyphic::symbol::Symbol;
use hieroglyphic::table::SymbolTable;

fn textasciicircum() -> Symbol {
    Symbol::new("\\textasciicircum", "latex2e", "OT1", true, false, Some("\\^"))
}

fn bigcup() -> Symbol {
    Symbol::new("\\bigcup", "latex2e", "OT1", false, true, None)
}

fn alpha() -> Symbol {
    Symbol::new("\\alpha", "amssymb", "OML", false, true, Some("alpha"))
}

fn sample_table() -> SymbolTable {
    SymbolTable::from_symbols(vec![bigcup(), textasciicircum(), alpha()]).unwrap()
}

#[test]
fn test_from_id() {
    let table = sample_table();
    let symbol = Symbol::from_id("bGF0ZXgyZS1PVDEtX3RleHRhc2NpaWNpcmN1bQ==", &table);

    assert_eq!(
        symbol,
        Some(Symbol::new(
            "\\textasciicircum",
            "latex2e",
            "OT1",
            true,
            false,
            Some("\\^"),
        ))
    );
}

#[test]
fn test_id_get_id() {
    let table = sample_table();
    for symbol in table.symbols() {
        assert_eq!(Symbol::from_id(symbol.id().as_str(), &table).unwrap(), symbol);
    }
}

#[test]
fn id_is_base64_of_package_encoding_and_escaped_command() {
    assert_eq!(textasciicircum().id(), "bGF0ZXgyZS1PVDEtX3RleHRhc2NpaWNpcmN1bQ==");
    assert_eq!(bigcup().id(), "bGF0ZXgyZS1PVDEtX2JpZ2N1cA==");
    assert_eq!(alpha().id(), "YW1zc3ltYi1PTUwtX2FscGhh");
}

#[test]
fn id_escapes_every_backslash() {
    let symbol = Symbol::new("\\\\", "latex2e", "OT1", true, true, None);
    // "latex2e-OT1-__"
    assert_eq!(symbol.id(), "bGF0ZXgyZS1PVDEtX18=");
}

#[test]
fn from_id_of_unknown_id_is_none() {
    let table = sample_table();
    assert_eq!(Symbol::from_id("", &table), None);
    assert_eq!(Symbol::from_id("latex2e-OT1-_textasciicircum", &table), None);
    // The identifier must match exactly, padding included.
    assert_eq!(Symbol::from_id("bGF0ZXgyZS1PVDEtX2JpZ2N1cA", &table), None);
}

#[test]
fn mode_description_of_bigcup_is_mathmode() {
    let table = sample_table();
    let symbol = Symbol::from_id("bGF0ZXgyZS1PVDEtX2JpZ2N1cA==", &table).unwrap();
    assert_eq!(symbol, bigcup());
    assert_eq!(symbol.package(&MarkupLanguageMode::Latex), Some("latex2e"));
    assert_eq!(symbol.mode_description(&MarkupLanguageMode::Latex), Some("mathmode"));
}

#[test]
fn command_per_language() {
    let symbol = textasciicircum();
    assert_eq!(symbol.command(&MarkupLanguageMode::Latex), Some("\\textasciicircum"));
    assert_eq!(symbol.command(&MarkupLanguageMode::Typst), Some("\\^"));
    assert_eq!(bigcup().command(&MarkupLanguageMode::Typst), None);
}

#[test]
fn package_per_language() {
    let symbol = textasciicircum();
    assert_eq!(symbol.package(&MarkupLanguageMode::Latex), Some("latex2e"));
    assert_eq!(symbol.package(&MarkupLanguageMode::Typst), None);
}

#[test]
fn mode_description_per_mode() {
    assert_eq!(bigcup().mode_description(&MarkupLanguageMode::Latex), Some("mathmode"));
    assert_eq!(
        textasciicircum().mode_description(&MarkupLanguageMode::Latex),
        Some("textmode")
    );
    let both = Symbol::new("\\$", "latex2e", "OT1", true, true, Some("\\$"));
    assert_eq!(
        both.mode_description(&MarkupLanguageMode::Latex),
        Some("mathmode & textmode")
    );
    assert_eq!(both.mode_description(&MarkupLanguageMode::Typst), None);
}
