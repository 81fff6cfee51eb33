# http_tui

A terminal HTTP client: compose a request (method, URL, headers, body),
send it, and read the reply; import requests from cURL commands, save
them as `.curl` files, browse and search the working directory for them.

- `src/` is the library, verified with Verus: the request fields and the
  cURL reading and writing, the file explorer, the dialogs (cURL import,
  search, save, folder picker), the key routing of the whole application,
  the request sent and the reply shown. Each public function states what it
  does in its contract, as far as the text widgets' own key handling is
  stated (typed characters, line breaks and Backspace; not paste, undo or
  the editor's other commands); the laws (proof functions named `law_*`) state what
  holds across calls, such as a saved request reading back as itself.
- `app/` is the program around it: the terminal, the event loop, drawing,
  and the file system, ripgrep and network calls that the library asks for.
- `tests/` runs the library on concrete inputs.
