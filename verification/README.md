# cdc

An orchestrator for several interactive programs in one terminal: an orchestrator pane, any
number of worker panes above it, and voice commands that are corrected by the orchestrator and
sent on to the worker that they name.

The library under `src/` is written in Verus and holds the logic, with a contract on every
function:

| Module | What it holds |
|--------|---------------|
| `pane` | terminal emulation: the screen, its scrollback, escape sequences, the text on it |
| `vt`, `width` | the escape sequence parser and the character widths that `pane` builds on |
| `event` | keys and mouse events as bytes for a program |
| `ui` | layout, frames, titles, alerts, dialogs, and the painting of a screen |
| `app` | focus, dialogs, selection, keys, mouse and voice events, as steps of one state |
| `route`, `correction` | where a spoken command goes, and how it is corrected |
| `complete`, `paths` | completion of directories, one directory listing at a time |
| `voice` | recording and transcription as a state machine; WAV files |
| `session`, `pty`, `logo` | saved sessions, output of programs, the logo |

`src/pane/state.rs` and `src/app/state.rs` are the models that the contracts speak of;
`src/pane/laws.rs` and `src/app/laws.rs` state what holds of them as a whole.

The program under `app/` runs the terminal, the programs in the panes, the file system and the
microphone, and does what the library asks for.

## Keys

| Key | Action |
|-----|--------|
| Ctrl+R | Voice recording toggle |
| Ctrl+N | Add worker |
| Ctrl+O | Focus orchestrator |
| Ctrl+1~9 | Focus worker N |
| Ctrl+Z | Fullscreen toggle |
| Ctrl+W | Close worker |
| Ctrl+S | Save session |
| Ctrl+Q | Quit |
| Shift+PgUp/Down | Scrollback |

## Environment

| Variable | Default | Description |
|----------|---------|-------------|
| `CDC_CMD` | the shell | Command to spawn in panes |
| `CDC_VOICE_LOG` | — | Path to log transcriptions |
| `CDC_PTY_LOG` | — | Path to log raw output |
| `CDC_CORRECTION_TIMEOUT_MS` | `5000` | Longest wait for a correction |
| `CDC_CORRECTION_QUIESCENCE_MS` | `500` | Time without output that ends the wait |
