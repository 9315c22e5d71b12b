# phpcs-lsp-server

A language server for PHP_CodeSniffer, and the extension that runs it in the Zed editor. Its logic is
a library written in Verus; what touches files, processes and the protocol is ordinary Rust around it.

- `src/` is the verified library.
  - `text`, `range`, `json`, `uri_map`: text, positions, JSON values and maps from URIs.
  - `document`: compressed documents with their checksums.
  - `diagnostics`, `doc_url`: what a report of `phpcs` means to an editor.
  - `edits`, `actions`: what `phpcbf` changed, and the actions that are offered for it.
  - `tools`, `command`, `config`: where the tools and the coding standard are found, the command lines,
    and what the outcome of a run means.
  - `server`: the state of the server, and what each message does to it.
  - `extension`: which server binary the editor runs, and what it tells the server.
  - `laws`: what holds of the server over several messages.
- `app/` runs the library: it performs the steps that the library asks for and hands back what came of
  them.
- `tests/` runs the library on examples.

Functions of the library that need the host return a step (`DiagnosticStep`, `ActionStep`,
`DetectStep`, `RunAction`, `DownloadAction`); the host performs it and calls the function that takes its
outcome. Every contract speaks of the views of the types involved, so the laws are stated over the same
functions as the contracts.

What is taken from outside without proof stands in the functions marked `external_body` and in the
`assume_specification` items, each with a comment that says what it claims.
