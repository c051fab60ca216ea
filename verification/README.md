# hieroglyphic

Verified core of a LaTeX/Typst symbol finder.

- `src/symbol.rs`: a symbol (command, package, font encoding, modes, Typst
  equivalent), its identifier (standard Base64 of
  `package-encoding-command`, backslashes of the command written as `_`), and
  what it writes in each markup language.
- `src/table.rs`: a table of symbols with pairwise distinct identifiers, the
  lookup of a symbol by identifier, and the laws that relate the two.
- `src/cli.rs`: what the command line `[--show-only ID...]` selects from a table.
- `src/item.rs`: the values that the view of one symbol displays.
- `src/encoding.rs`: the call into the `base64` crate.
