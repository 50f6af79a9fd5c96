# nilkit

The decision-making core of a handful of small Wayland desktop programs — a
notification daemon, a wallpaper picker, a power menu, a greetd greeter and a
system-monitor widget panel — written as a Rust library whose behaviour is
stated in `requires`/`ensures` contracts and proved with Verus.

- `src/` — the verified library: notification ids and stacking, the picker's
  and the greeter's state machines, key handling, configuration and
  `/proc` parsing, wallpaper selection and ordering, sensor discovery, the
  calendar grid and the clock texts.
- `app/` — the programs around it: GTK windows, D-Bus, the greetd socket,
  files, processes and timers. It hands plain values to the library and acts
  on what comes back.
- `tests/` — tests of the library on concrete values.
