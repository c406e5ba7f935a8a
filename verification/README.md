# rustagent

The verified core of a desktop coding assistant (chat, code editor and
terminal in one window).

- `src/` is the library, verified with Verus: recognising what a chat message
  asks for (`flow`, `language`), extracting code from the model's answer
  (`flow`), the commands that run each language (`language`, `platform`), the
  API-key configuration and its directory (`config`, `platform`), error
  classification and the retry policy (`api`), the file-tree listing order
  and display names (`file_tree`) and the colour palette (`theme`). `text`
  holds the string primitives they are built on.
- `tests/` exercises the library.
- `app/` is the desktop program around it: the Freya user interface, the
  completion client, file and environment access, and the async retry loop
  that follows `api::RetryState`.
