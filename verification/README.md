# handy

The verified core of Handy's custom hotkey prompts and of its
OpenAI-compatible LLM client, written in Verus.

- `src/text.rs` — the text operations the rest rests on (`str::trim`,
  `trim_end_matches`, `strip_prefix`, `replace`, integer formatting and
  `parse::<i32>`), each proved against a short specification.
- `src/prompts.rs` — custom prompts: field checks, hotkey conflicts, and what
  create, update and delete do to the stored list.
- `src/action.rs` — the shortcut that runs a prompt: which prompt a binding
  runs, how the LLM step is made, and the selection and voice flows as
  step functions.
- `src/llm.rs` — the LLM client's decisions: headers, timeouts, endpoint URLs,
  request bodies, when to retry on the fallback URL, and what a reply yields.
- `src/laws.rs` — properties across calls: consistency of the stored prompts,
  delete undoing create, fallback only on unreachable URLs, and more.
- `app/` — the host side: HTTP through reqwest, serde copies of the wire types,
  and the commands and shortcut runner over a `Host` trait that stands for the
  desktop application.
