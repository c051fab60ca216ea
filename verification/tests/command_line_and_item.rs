use hieroglyphic::cli::command_line_symbol_filter;
use hieroglyphic::item::{icon_name, SymbolItemProperties, SymbolItemUpdate};
use hieroglyphic::markup::MarkupLanguageMode;
use hieroglyphic::symbol::Symbol;
use hieroglyphic::table::SymbolTable;

const KNOWN: &str = "bGF0ZXgyZS1PVDEtX3RleHRhc2NpaWNpcmN1bQ==";
const BIGCUP: &str = "bGF0ZXgyZS1PVDEtX2JpZ2N1cA==";

fn textasciicircum() -> Symbol {
    Symbol::new("\\textasciicircum", "latex2e", "OT1", true, false, Some("\\^"))
}

fn bigcup() -> Symbol {
    Symbol::new("\\bigcup", "latex2e", "OT1", false, true, None)
}

fn sample_table() -> SymbolTable {
    SymbolTable::from_symbols(vec![textasciicircum(), bigcup()]).unwrap()
}

fn args(items: &[Option<&str>]) -> Vec<Option<String>> {
    items.iter().map(|a| a.map(|s| s.to_string())).collect()
}

#[test]
fn command_line_without_arguments_shows_all() {
    assert_eq!(command_line_symbol_filter(&args(&[Some("hieroglyphic")]), &sample_table()), Some(vec![]));
    assert_eq!(command_line_symbol_filter(&args(&[]), &sample_table()), Some(vec![]));
}

#[test]
fn command_line_with_other_first_argument_is_refused() {
    assert_eq!(
        command_line_symbol_filter(&args(&[Some("hieroglyphic"), Some("--show")]), &sample_table()),
        None
    );
    assert_eq!(command_line_symbol_filter(&args(&[Some("hieroglyphic"), None]), &sample_table()), None);
}

#[test]
fn command_line_show_only_keeps_known_ids() {
    let filter = command_line_symbol_filter(&args(&[
        Some("hieroglyphic"),
        Some("--show-only"),
        Some("unknown"),
        None,
        Some(KNOWN),
        Some("bGF0ZXgyZS1PVDEtX2JpZ2N1cA"),
        Some(BIGCUP),
        Some(KNOWN),
    ]), &sample_table());
    assert_eq!(
        filter,
        Some(vec![KNOWN.to_string(), BIGCUP.to_string(), KNOWN.to_string()])
    );
    let one_known = command_line_symbol_filter(
        &args(&[Some("hieroglyphic"), Some("--show-only"), Some("not-an-id"), Some(BIGCUP)]),
        &sample_table(),
    );
    assert_eq!(one_known, Some(vec![BIGCUP.to_string()]));
    assert_eq!(
        command_line_symbol_filter(&args(&[Some("hieroglyphic"), Some("--show-only")]), &sample_table()),
        Some(vec![])
    );
}

#[test]
fn icon_name_drops_trailing_padding() {
    assert_eq!(icon_name(KNOWN), "bGF0ZXgyZS1PVDEtX3RleHRhc2NpaWNpcmN1bQ-symbolic");
    assert_eq!(icon_name("YW1zc3ltYi1PTUwtX2FscGhh"), "YW1zc3ltYi1PTUwtX2FscGhh-symbolic");
    assert_eq!(icon_name("a=b="), "a=b-symbolic");
    assert_eq!(icon_name("==="), "-symbolic");
}

#[test]
fn item_properties_per_language() {
    let symbol = textasciicircum();
    let latex = SymbolItemProperties::of(&symbol, &MarkupLanguageMode::Latex);
    assert_eq!(latex.id, KNOWN);
    assert_eq!(latex.icon, "bGF0ZXgyZS1PVDEtX3RleHRhc2NpaWNpcmN1bQ-symbolic");
    assert_eq!(latex.command.as_deref(), Some("\\textasciicircum"));
    assert_eq!(latex.package.as_deref(), Some("latex2e"));
    assert_eq!(latex.mode.as_deref(), Some("textmode"));
    let typst = SymbolItemProperties::of(&symbol, &MarkupLanguageMode::Typst);
    assert_eq!(typst.command.as_deref(), Some("\\^"));
    assert_eq!(typst.package, None);
    assert_eq!(typst.mode, None);
}

#[test]
fn item_update_per_language() {
    let latex = SymbolItemUpdate::of(&bigcup(), &MarkupLanguageMode::Latex);
    assert_eq!(latex.id, BIGCUP);
    assert_eq!(latex.icon, "bGF0ZXgyZS1PVDEtX2JpZ2N1cA-symbolic");
    assert_eq!(latex.command, "\\bigcup");
    assert_eq!(latex.package.as_deref(), Some("latex2e"));
    assert_eq!(latex.mode.as_deref(), Some("mathmode"));
    let typst = SymbolItemUpdate::of(&textasciicircum(), &MarkupLanguageMode::Typst);
    assert_eq!(typst.command, "\\^");
    assert_eq!(typst.package, None);
    assert_eq!(typst.mode, None);
}
