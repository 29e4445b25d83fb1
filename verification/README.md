# ponder

A small command-line client that sends a prompt to an OpenAI-compatible chat
completions endpoint, optionally letting the model call two built-in tools
(`current_time` and a Tavily-backed `web_search`), or streaming the answer.

- `src/` is the verified library, checked by Verus: settings resolution
  (`config`), the prompt (`cli`), the chat protocol values and answer
  extraction (`client`), the tool-calling conversation as a state machine
  (`session`), the streamed-body line decoder (`stream`), the tools' descriptions and checks
  (`tools`), the wait indicator's frames (`ui`), and the text operations they
  rest on (`text`).
- `app/` is the program around it: argument parsing, the config file and
  environment, HTTP, the terminal and the clock.
- `tests/` exercises the library on concrete values.
