# sevenmark

The verified core of the SevenMark wiki tooling.

- Language server: JSON-RPC message handling, completion, semantic tokens,
  hover, diagnostics, definitions, folding and symbols. These answers are
  computed from the elements the SevenMark parser reads of a document, which
  the caller hands in with `DocumentState::with_elements` or
  `LspState::set_elements`; this crate holds no parser, so a document opened
  through `handle_message` alone has no elements and gets empty answers.
- HTML renderer: what each element renders as (`rendering`), the labels of
  the table of contents (`toc_label`), footnote ids and references, style
  handling, CSS policy decisions, media links and embed URLs. The markup
  text itself (tags and class names) is left to the caller.

Verus proves the contract of every function in `src/` except the trusted
items it rests on, whose contracts are believed:

- `fmt::push_char` (`String::push`)
- `style::hash_str_into` (`<str as Hash>::hash`, its result named
  `str_hash_writes`)
- `rpc::decode_message` and `rpc::decode_params` (`serde_json` parsing,
  their results named) and `rpc::quote_json` (`serde_json` string quoting,
  stated by its escape table)
- the `assume_specification` items for `percent_encoding::percent_encode_byte`
  and `ls_types::Position::new`, and the declared type `ls_types::Position`

Layout:

- `src/` the verified library
- `tests/` tests of the library
- `app/` the CSS sanitizer glue (`css-sanitizer` with the library's policy
  decisions) and the transport of the language server over standard input
  and output
