# quote

Quasi-quoting support: a token list (`Tokens`) that quotations fill, and the
runtime functions their expansions call.

- `src/tokens.rs` — `Token` (span and kind of one token tree) and `Tokens`,
  whose view is the sequence of tokens appended so far.
- `src/__rt.rs` — `parse` (lex text, stamp every token with one span, append
  in order), `try_parse` (the same, reporting invalid text instead of
  requiring valid text), `append_respanned`, `append_kind`, and the laws
  about re-spanning.
- `src/outside.rs` — the `proc_macro2` types that the contracts carry.
- `app/lib.rs` — the `quote!` / `quote_spanned!` macros, which expand to
  calls of the runtime functions.
