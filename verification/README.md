# delta_grep

Reads the output of `git grep`, `grep`, `rg` and their kin, and decides how each
line is displayed. The library in `src/` is verified with Verus.

- `format`: what the lines look like, and the laws of reading them
- `pattern`: the same as regular expressions, matched with the `regex` crate
- `parse`: reading a line
- `decimal`: line numbers as text
- `line`, `process`: the lines, and the command that writes them
- `output_config`: how lines are displayed, by the options of that command
- `text`, `graphemes`, `sections`: code in pieces, each with its style
- `machine`: what to do with a line

`app/` carries out what the library decides.
