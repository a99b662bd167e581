# hoosh

The tools and the terminal-interface state of a coding agent, written in
Verus: each function states what it returns or changes, and Verus proves it.

- `src/tools/bash/` splits shell command lines, sorts them into shapes
  (heredoc, subshell, pipeline, redirection, network read, chain, single
  command), suggests the permission rule for each and decides whether a
  stored rule covers a command. `round_trip.rs` proves that a rule suggested
  for a pipeline or chain matches the command it came from.
- `src/tools/` also holds the file tools (read, write, edit with its diff
  preview, directory listing), glob and grep, the todo list, the command
  blacklist, the tool sets given to agents (`providers.rs`) and the tool
  errors. Where a path leads is decided in text, and a
  path outside the working directory is refused (`file_ops/common.rs`);
  the platform builds the path itself.
- `src/tui/` holds the interface state: the conversation lines, the tool
  calls in flight, dialogs, completion pop-up, attachments, and how each
  agent event changes them (`agent_events.rs`); the text of the permission
  dialog; and the event loop's steps (`event_loop.rs`): what each agent
  event and each input handler's answer does, and when frames are drawn.
- `src/text.rs` holds the text specifications and helpers everything uses.

Calls into `shlex`, `indexmap`, `serde_json`, `glob`, `similar` and `rand`
stand behind small trusted wrappers whose contracts say what the crates
document. `app/` is the unverified rim: processes, files, directories,
terminal colours, serde records and the floating-point parts.
