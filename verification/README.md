# Aili

A terminal chat client. The library in `src/` holds its logic, verified with Verus: the
configuration and the secrets file, the requests and what each event of a stream leads to, the
setup wizard's answers, and the terminal interface from key bindings and text wrapping to the
state of the application and what is drawn where. `app/` is the program around it: arguments,
files, connections and the terminal. `tests/` runs the library.

## Layout of `src/`

- `text`, `width`: characters, strings and their widths on a terminal
- `style`, `logo`: styled text, and the logo
- `provider`, `config`, `secrets`, `wizard`: models, configuration, API keys, first-time setup
- `chat`, `json`, `stream`: messages, and the OpenAI-compatible, Anthropic and Gemini streams
- `tui`: the interface
  - `keymap`, `scrollbox`, `stream_state`, `dialog`: its parts
  - `app`, `laws`: its state, what each event makes of it, and what holds throughout
  - `wrap`, `fit`, `paint`, `area`: lines, their widths, cells and rectangles
  - `render`, `welcome`, `pages`, `draw`: what is shown

Each executable type has a view, a mathematical value that the contracts speak of. Functions whose
names begin with `law_` state what holds of several operations together.
