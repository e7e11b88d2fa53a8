# sg_agent

A Neovim companion window that sends prompts to an AI. The library in
`src/` holds its decisions, each verified with Verus against a contract:

- `prompt`: splitting a typed prompt into plain text, `@file` mentions and
  the `@selected` keyword, by byte offsets; expanding and re-joining it.
  Proved: the segments tile the prompt, and re-joining them gives it back
  wherever every segment ends in a one-byte character (where one ends in a
  wider character, slicing it out panics).
- `agent`: the agent window's state machine (chat, busy flag, sidebar,
  previous response id) and the text helpers used while editing.
- `window_manager`, `settings`, `shell`: the window registry, the settings
  page, the application's event handling, and the assembly of the text sent
  to the AI (with the Neovim selection).
- `ai`: the request, the authenticated OpenAI client (through `reqwest`),
  and the extraction of the answer from the Responses API output.
- `nvim`: the Neovim selection as a Markdown code block, and what Neovim
  notifications mean.
- `animated`, `spinner`: animation timing and the spinner's bar heights.
- `text`: whitespace, UTF-8 byte offsets and slicing by byte ranges.

`app/` is the iced application around it: windows, drawing, the Neovim RPC
connection and the HTTP requests. `tests/` exercises the library.
