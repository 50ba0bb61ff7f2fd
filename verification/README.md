# mykvm

One keyboard and mouse for several machines: the pointer leaves one screen and
enters the next, keys and clicks follow it, and the clipboard goes along.

The library under `src/` holds the decisions, each with a contract that Verus
proves:

- `key_sequence`, `remote_mouse`, `session`, `session_laws`, `receiver`: what a
  controlled machine accepts, in which order, from whom and for how long, and
  what it injects.
- `capture`, `targets`, `switch`, `placement`, `control`: when the pointer
  crosses to another machine, where it lands, what is sent while it is there and
  how it comes back.
- `macos_capture`, `macos_cursor`, `macos_loop`, `windows_hooks`,
  `windows_worker`, `windows_pump`: the capture of both platforms as steps from
  a state and an event to a state and an action.
- `macos_inject`, `windows_inject`, `injected_keys`, `modifiers`, `keymap`,
  `hotkeys`: keys, modifiers and the routes they are injected by.
- `packets`, `layout`, `status`, `runtime`, `clipboard_target`: packets and their
  authorization, the layout, what the user is told, and the life of the runtime.
- `clipboard`, `clipboard_image`, `encoding`: what is exchanged of a clipboard.
- `shared_input`, `origin_map`, `text`: the values that the rest is made of.

Time is a number of nanoseconds that the caller hands in. A lock that is taken
is the absence of the value behind it. A pointer position is a floating point
number that the library never sees: it decides on the whole numbers around it,
and answers with rules in half pixels.

`app/` is the host: clocks, threads, locks, the wire format, the system
clipboard, the floating point geometry and the calls of each platform.
`encoding` holds the only calls into other crates; each states what it relies on.
