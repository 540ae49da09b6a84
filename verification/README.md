# hooks

Hooks that run an external command around the use of tools, and a hook command that shortens
the output of tools. The decisions are verified with Verus; processes, standard streams and
JSON are handled around them.

- `src/command_hook.rs`: what a hook starts, what the end of its process means, and what the
  output of its command means.
- `src/compress/`: shortening the output of tools. `mod.rs` decides, `git.rs` and `tools.rs`
  know particular commands, `general.rs` handles any other output, `patterns.rs` holds the
  regular expressions, `laws.rs` states what holds of shortened output as a whole.
- `src/select.rs`, `src/text.rs`, `src/number.rs`: picking lines, text, and decimal numbers.
- `app/`: running hooks with tokio and serde.
