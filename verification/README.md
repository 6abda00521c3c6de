# conversations_zine — cadence intake

Turns the quarter's monthly cadence letters (Markdown) into ranked candidate
moments for the zine, with the logic verified by Verus.

- `src/` — the verified library:
  - `markdown` — the parser events that chunk extraction reads (`pulldown_cmark`);
  - `chunks` — splitting a letter into trimmed paragraph/heading/quote chunks of
    at most 300 characters, with their emphasis-span counts;
  - `ranking` — the stable descending sort by score key, cut to the top `k`;
  - `moments` — tagging the best chunks as moments of their record;
  - `cadence_intake` — configuration, which record to read, folding outcomes;
  - `quarterly` — the arguments of `cadence record quarterly`;
  - `options` — the decisions `zine extract` takes from its flags;
  - `text` — whitespace, trimming, UTF-8 length, decimal rendering.
- `app/` — running `cadence`, reading letter files, the floating-point chunk
  score, and JSON (de)serialisation.
- `tests/` — tests of the library.
