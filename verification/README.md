# tusk_php

The Tusk PHP extension for the Zed editor: it finds and starts the `tusk-php` language
server, and has two slash commands, `tusk-copy-namespace` and `tusk-namespace-for-path`.

* `src/` is the library with every decision of the extension, verified with Verus.
* `app/` is the extension itself: it asks the editor and the file system, and hands the
  answers to the library.
* `tests/` runs the library on concrete values.

The release of the language server and the checksums of its binaries are stated in
`tusk-lsp.toml`. The build of `app/` takes the text of that file from the environment
variable `TUSK_LSP_TOML`, and stops without it.
