# codex_gemini

Native support for Gemini models in Codex, and the WebSocket bridge of its app server, as a
verified Rust library. The library's functions carry contracts that Verus proves; the program
around it does the I/O.

- `src/` is the library.
  - `gemini`, `gemini_models`: a conversation's history becomes a request to the Gemini API.
  - `gemini_stream`, `gemini_session`, `gemini_run`: an answer, streamed or not, becomes the events of a turn.
  - `driver`, `gemini_driver`, `openai_driver`, `client`: which driver serves a model, what it
    sends, and when it tries again.
  - `conversation_manager`: the conversations in memory, and cutting a history short.
  - `session_scan`, `session_search`, `session_page`, `order`: searching the recorded sessions,
    newest first.
  - `ws`, `headers`: what a socket is asked for and answers, and who may open one.
  - `plan`, `plan_tool`: the tool with which a model keeps a plan.
  - `protocol`, `json`, `text`, `lists`: the types that all of them share, and the operations on
    JSON values, on text and on lists.
- `tests/` runs the library on given values.
- `app/` is the program: the command line, the sockets, the network, the disk and the formats
  on the wire.

What the library promises as a whole stands in the proof functions whose names begin with
`law_`. What it trusts stands in the functions marked `external_body` in `json`, `headers`,
`text` and `gemini_session`, one for each function of another crate that it calls, in the
`assume_specification` for the `clone` of a JSON value in `json`, and in the declarations of
outside types and the names of outside results (`uninterp`) beside them.
