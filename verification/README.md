# znaide_tui

The interactive terminal interface of znaide, an AI assistant for the terminal: a
library whose behaviour is stated in contracts and proved with Verus (`src/`), and the
terminal around it (`app/`).

## The library

| Modules | What they hold |
| --- | --- |
| `text`, `scan`, `style`, `layout`, `input`, `dates` | characters, texts, styled lines, areas, keys, dates |
| `ansi`, `md` | text with control sequences, Markdown |
| `editor`, `input_box` | the text that is being typed and how it is drawn |
| `completion`, `completion_menu` | candidates for slash commands and `@` references |
| `settings`, `config_ui`, `config_draw` | the settings and the wizard that edits them |
| `quick_cfg`, `quick_draw` | the panel that edits one setting at a time |
| `session_rows`, `sessions_ui`, `sessions_draw` | the manager of sessions and memories |
| `messages`, `transcript`, `content`, `live`, `meter`, `tool_args` | what is shown of a session |
| `command`, `agent`, `mode`, `scroll` | commands, notices, permission modes, scrolling |
| `chat`, `screen` | the program as a whole: its state, its keys, and how it is drawn |
| `clean`, `clean_pages` | laws: nothing that is drawn is a control character |
| `manager_laws`, `run_laws` | laws: the session manager over any keys, the program from start to end |

Each module states its model first (spec functions over `Seq<char>` and plain values),
then the code, then the laws: public proof functions named `law_...`.

The library does no input or output. What has to be done outside is handed out as a
value (`Action`, `WizardAction`, `QuickCfgAction`, `UiAction`, `Refresh`), and what came
of it is handed back to a function of the library.

Believed without proof, each next to what it is for: `String::push`,
`str::to_lowercase` and `char::to_lowercase` (`text`), reading JSON with `serde_json` (`tool_args`), and splitting
an area with `ratatui` (`layout`).

## The terminal

`app/` draws with `ratatui`, reads keys with `crossterm`, and runs the session in a
`tokio` task. The session engine, the settings on disk and the files are behind the
traits of `app/host.rs`.
