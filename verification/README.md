# servo_shield

Privacy and media components for a browser: ad blocking (configuration,
engine, statistics, filter-list updates), tracker poisoning, audio focus
between media players, and the control logic of an mpv-based media player.

- `src/` is the library, verified with Verus. Each public function states
  its behaviour in `requires` / `ensures`; the laws that relate several
  functions are public proof functions named `law_*`. Calls into `adblock`, `http`,
  `rand`, `uuid` and a few std functions go through small trusted wrappers
  whose doc comments say what is assumed of them.
- `tests/` runs the library on concrete values.
- `app/` is the unverified shell: file and network I/O, the mpv FFI and
  player thread, floating-point values, serde copies of the library's
  types, and the process-wide audio-focus registry.
