# otlyra-app

What a browser window decides, verified with Verus, and the shell that carries it out.

- `src/` is the library. A window is a value: its tabs and where they have been, what each load
  asks for and waits for, which surface has the keyboard, what is zoomed, kept and offered. Every
  public function says in its contract what it makes of that value. The engine, the interface, the
  wire and the disk are not in it: what they have to tell comes in as plain facts, and what they
  have to do goes out as requests (`Browser::requests`), commands (`Browser::told`) and finished
  loads (`Browser::finished`).
- `src/promises.rs` holds what is true of whole journeys: a refused navigation, back and forward,
  a stopped load, a script that will not stop navigating. The laws of one part stand beside it.
- `tests/` runs the library on concrete values.
- `app/` is the shell: it turns events and responses into facts, and carries out what the library
  says through the traits of `app/seams.rs`. Geometry is floating point and lives there.
