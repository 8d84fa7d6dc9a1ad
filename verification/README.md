# assistant

A silent live-meeting assistant. While a meeting is transcribed, it watches
the other side of the call for questions aimed at Joseph, answers them on a
small card through two CLI model lanes (a fast one that drafts, a deep one
that checks and settles the card), takes spoken questions through a
push-to-talk voice ask, and drafts an end-of-meeting note for his vault.

The library (`src/`) holds every decision, verified with Verus:

- `card`: the card wire format (`LEAD:`, bullets, `SOURCE:`, or `SKIP`), and
  how two cards agree or contradict.
- `claude_cli`: the argument vector of one non-interactive CLI turn, the
  reading of its streamed JSON lines, and the turn's outcome.
- `transcript`: utterance assembly from recognizer segments, and the labeled
  views of the log the lanes read.
- `trigger`: when the assistant volunteers an answer.
- `voice_ask`: the push-to-talk capture as a state machine.
- `lanes`: the two lanes' bookkeeping, the turns they run, and how a card
  settles.
- `note`: parsing the drafted note and laying out the files a save writes.
- `settings`: the settings row as the session reads it, and what a probe of
  the CLI binary means.
- `session`: the live session and its entry points, each returning what the
  caller has to do next.
- `text`: character-level tools shared by the above.

`app/` is ordinary Rust around it: running turns as processes, timers, the
settings database, writing notes into the vault, and the lanes' prompts.
