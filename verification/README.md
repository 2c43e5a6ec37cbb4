# imessage_yaml

Writes conversations as YAML documents. `src/` is a library verified with Verus,
`tests/` are its tests, and `app/` is the program around it, which reads the
messages, copies attachments and writes files. `app/` has no implementation of
its trait `Archive`, which stands for the database of messages and the settings
of the export: to run an export, implement it.

- `text`, `scalar`: characters, indentation, quoting, numbers, and the entries of
  a mapping.
- `tree`: a document as a tree, and the text of a tree. The contracts of what
  writes a part of a document are stated over it.
- `record`, `who`: what is known of a message, as plain values, and whose name is
  asked for.
- `variant`, `component`, `tapback`, `reply`, `rendered`, `message`, `header`: the
  parts of a document.
- `export`: which messages are written, and to which file.
- `run`: what each file holds after a whole run over the messages.
- `reading`, `layout`, `columns`, `unique`, `laws`: what holds of every document.
  Scalars, numbers and literal blocks can be read back by the readers in `reading`;
  no text that a message holds can pass for another part of the document; and
  documents that are the same text say the same. The reader of literal blocks knows
  the column of a block and takes off only the newline after its last line. A
  general YAML reader clips the blank lines at the end of a `|` block.

What is taken for granted besides `vstd`: that `String::push` appends a character.
