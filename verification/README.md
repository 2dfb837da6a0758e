# bumper

Semantic version strings — `MAJOR.MINOR.PATCH` with an optional `-` or `+`
suffix — parsed, printed and incremented, with the behaviour proved in Verus.

- `src/component.rs`: the `Component` trait for the integer type of a version's numbers.
- `src/text.rs`: digits, decimal numerals, white space; printing numbers.
- `src/types/`: `SemVer`, `SuffixedSemVer`, `Version` and their models.
- `src/parse.rs`: the grammar as spec functions, and the parsers proved against it.
- `src/laws.rs`: printing then parsing gives the version back; parsed text is
  canonical; the version and plain readings agree; `successor` increases.
- `app/`: serde and thiserror copies of the types, `Display`, and a nom parser.
