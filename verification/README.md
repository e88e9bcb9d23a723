# sbc

`sbc` connects a terminal to a Docker Sandbox, on this machine or over SSH. It
reconnects to the sandbox's coding agent or runs any other interactive command.
The paste shortcut works across the boundary: text pastes as text, an image is
copied into the sandbox and inserted as a readable path.

The library under `src/` holds what the program decides and computes, with
contracts proved by Verus. The program under `app/` reads, writes and waits: each
of its loops hands the library what happened and does what the library says next.

| Module | What it holds |
| --- | --- |
| `run`, `program` | from the command line to a session or a configuration command |
| `cli` | the arguments, and which grammar they follow |
| `config` | the configuration, its commands, and how its file is replaced (`config::save`) |
| `target` | which sandbox a connection leads to |
| `command`, `shell` | the commands that are run, their quoting, and how a shell reads them |
| `clipboard` | what the clipboard holds, and PNG files of its images |
| `transfer` | the helper that takes images into the sandbox, and a model of what its script stores (`transfer::receiver`) |
| `session` | the course of a session; below it the input relay (`relay`, `keys`, `escape`), the input and output loops (`input`, `output`, `modes`) and the clipboard worker (`paste`) |
| `error`, `text` | failures and their messages; characters, numbers and encodings |

What is believed without proof: std's formatting of quoted text, its UTF-8
decoding and `String::push` (in `text`), and the encoder of the `png` crate (in
`clipboard`).
