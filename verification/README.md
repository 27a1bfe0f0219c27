# OmniSync

OmniSync keeps files in Telegram channels: a channel is a folder, a message with an
attachment is a file. It streams media to a local player, counts what is transferred against
a daily allowance, and brings new files over from Google Drive.

`src/` is the library. It holds what the application decides and computes, written in Verus,
with contracts that say what comes of every input, as far as the clock, chance and the
system's notion of a path leave it open:

| module | subject |
| --- | --- |
| `bandwidth`, `size`, `percent` | the daily allowance, byte counts and percentages as text |
| `server`, `cursor` | who may stream, which bytes are asked for, cutting chunks down to them |
| `commands::folders`, `listing`, `moving`, `transfer`, `retry`, `streaming` | the commands on folders and files |
| `commands::gdrive` | signing in, tokens, the store, listing and synchronising Google Drive |
| `text`, `number`, `pairs` | text, numbers as text, named values |
| `clock`, `random` | the clocks and the random bytes |

A command that waits for a remote service is cut there: one function says what to ask for,
another what follows from the answer. Functions that look at the clock come in two forms, one
of which takes the day or the second as an argument.

Public proof functions whose names begin with `law_` state what holds across functions.

`app/` is the application around the library: the Tauri commands, the network, the files.
`tests/` runs the library on concrete values.
