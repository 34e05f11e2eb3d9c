# blooket_engine

An automated Blooket game engine whose core is verified with Verus.

- `src/` — the verified library:
  - `json.rs`: the model of `serde_json::Value` (`JsonData`) and its accessors;
  - `text.rs`: character access, comparison, decimal notation, trimming;
  - `types.rs`: configuration, questions, answers and the game state;
  - `client.rs`: service addresses, reply reading, question-set parsing;
  - `crypto.rs`: player ids, session tokens, Base64 text, join payload, delays;
  - `answer.rs`: answer selection, the model prompt and reply, hints;
  - `game.rs`: the decisions of the game loop.
- `app/` — the command-line program: HTTP, sleeping, printing, and the values
  that are floating point (confidences, accuracy).
- `tests/` — tests of the library.

The model asked in LLM mode is named by the `BLOOKET_LLM_MODEL` environment
variable; the API key comes from `--api-key` or `ANTHROPIC_API_KEY`.
