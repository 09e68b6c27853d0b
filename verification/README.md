# sakura

A library for controlling Yeelight smart bulbs over the local network, with its logic verified
in [Verus](https://github.com/verus-lang/verus).

- `src/` is the verified library. It decides what is said to a bulb, understands what the bulb
  says, and keeps the last known state of it. It does no input or output.
- `app/` holds the sockets and threads around it: a `YeelightClient` that connects to a bulb, and
  `discovery::discover`, which looks for bulbs on the LAN.
- `tests/` runs the library on concrete values.

## Modules of the library

| Module | What it holds |
|---|---|
| `client` | `YeelightClient`: the commands, the ids of their lines, the second attempt over a new connection, and the state |
| `command` | `Transition`, `AdjustAction`, `AdjustProp`, `PowerMode`, and what a command is |
| `state` | `LightState`, how reports and sent commands change it, and the laws of both |
| `message` | what the client reads of a line that the bulb sends |
| `wire` | lines on the connection: writing a command as one, and gathering bytes into lines |
| `discovery` | the search request, the answers to it, and the list of devices found |
| `json` | JSON documents, and the calls of `serde_json` |
| `entries`, `text` | named values; white space, lines, words and decimal numbers |
| `error` | `YeelightError` |

## What is proved

Every public function says in its contract what it returns for every input. Beyond single
functions:

- a parameter out of range is refused before anything is written, and changes nothing;
- a command is one line, and reading that line gives back its id, its method and its parameters;
- bytes may arrive in any pieces;
- a command succeeds exactly if one of its at most two attempts does, and only then changes the
  known state;
- the state known after connecting is the one that the bulb reports;
- ids count up from 2, and no two lines get the same id before all ids are used up;
- every outgoing command updates the known state, as far as its outcome is known, to the one that
  the bulb reports when it carries the command out;
- what is known lies in its documented range, whatever the bulb sends;
- a report sets what it mentions and leaves the rest, in whatever order it mentions it, unless it
  mentions a property twice;
- discovery lists each address once, with its first answer, and those that answer in time only;
- blank lines and unknown headers in an answer do not matter, and neither does the order of its
  lines, unless a header that is read comes twice.

What `serde_json` and a few functions of the standard library do is not proved. Each such call
stands behind one function whose doc comment says what is relied on.
