# cli_assistant

A command-line assistant for RHEL system management (`c` for the client,
`clad` for the D-Bus daemon), with its logic written in Verus and proved
against its contracts.

## Layout

- `src/` — the verified library.
  - `text`, `json` — string models (characters, UTF-8 lengths, lines) and a
    plain JSON value type that the HTTP layer converts to and from.
  - `config`, `constants`, `paths`, `files`, `system` — configuration
    defaults and the configuration template, endpoint URLs, XDG paths,
    MIME guessing, `/etc/os-release` parsing.
  - `errors` — the error type, its exit codes and messages.
  - `session` — user IDs derived from the machine ID (UUID v5).
  - `query` — request payloads, token estimates, the compaction rule and
    the retry state machine for the chat endpoint.
  - `terminal` — terminal capture blocks, ANSI stripping and lookup.
  - `dbus`, `daemon` — the D-Bus structures and errors, authorization,
    history filtering and conversation compaction.
  - `rendering` — markdown to ANSI and to screen lines, colours, themes.
  - `client` — the command-line decisions: default command, input
    gathering, question checks, history views, and the state machines of
    the `chat` command, the setup wizard and the interactive screen.
- `app/` — the program around it: argument parsing, D-Bus service and
  client, HTTP, SQLite, terminal capture, the interactive screen. It makes
  the outside calls and hands plain values to the library.
- `tests/` — tests of the library on concrete values.

Each public function states its result in `ensures`; the properties that
span several functions are public `lemma_*` proof functions beside them.
