# ollama_chat

The verified core of a desktop chat client (a Tauri application) that talks to a
local Ollama server.

- `src/` is the library, verified with Verus:
  - `ndjson`: cutting newline-delimited records off a byte buffer, with the proof
    that the records found do not depend on how the bytes were cut into chunks;
  - `text`: trimming, blank checks and message text;
  - `ollama`: the values exchanged with the Ollama API, the API addresses, and the
    conversion of the model list;
  - `chat`: checking a chat message, building the request, describing failures;
  - `events`: the events a streamed answer is reported with;
  - `session`: the decisions of one streamed chat, as a state machine that is
    handed what happened and answers with what to do next.
- `app/` is the application around it: HTTP calls, JSON (de)serialisation with
  serde, Tauri commands and events, and the loop that runs a streamed chat.
- `tests/` exercises the library.
