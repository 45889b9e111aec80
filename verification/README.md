# markitdown

Converts documents of many formats (Office, OpenDocument, iWork, PDF pages,
e-books, e-mail, feeds, calendars, archives, data and text formats) to
Markdown, as pages of content blocks.

- `src/` is the library, written in Verus: every converter states what it
  returns in its contract, over spec functions of the formats and views of
  the document model (`model.rs`). Calls into outside crates (ZIP, XML,
  regular expressions, mail, feeds, spreadsheets and the rest) go through
  small trusted wrappers whose contracts say what the crates' sources show;
  `laws.rs` and the `pub proof fn`s beside the converters hold the
  properties that span several functions.
- `tests/` runs the library on concrete inputs.
- `app/` is the command line: it reads the file, picks the converter by the
  detected extension and prints or writes the Markdown.
