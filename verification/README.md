# sorted

A terminal program that imports media from removable devices into
`<destination>/<theme><formatted-date>/<device-name>/`, with every folder
name made safe to use on any platform.

- `src/` is the library, verified with Verus: archive naming, settings and
  date-format checks, media file selection and copy planning, the steps of a
  copy run, device discovery rules, the folder browsers and the state machine
  of the screens (`state.rs`), which answers keys and background results and
  names the outside work to do next.
- `app/` is the program around it: the terminal, drawing, threads, the
  clock, the file system, the settings file and the system's disk list. The
  library never reads the clock: the functions that render dates take the
  date-time to render.
- `tests/` exercises the library on concrete values.

Collections keyed by text are kept in the library's own types rather than
std maps and sets: `DeviceRegistry` (devices by id, in id order, a later
device replacing an earlier one with the same id), `DirectoryStates` (what
is known of each folder) and `PathSet` (expanded folders, folders being
loaded). Each is a `Vec` with a stated invariant (ids ascending, no path
twice), so that the contracts can say what a lookup, insert or removal does;
Verus proves nothing of that kind for a `BTreeMap`, `HashMap` or `HashSet`
keyed by `String`.

Paths are modelled as text with `/` as the separator, as on Linux and
macOS. Device names taken from a mount path follow the platform's rules: on
Windows `\` separates too, and a drive prefix (`E:`) or a server and share
(`\\server\share`) is set aside, so a drive root such as `E:\` names no
device. Archive paths are still joined with `/` on every platform.
