# localdesktop

The decisions behind setting up and launching a Linux desktop in a PRoot container on Android,
written in Verus: every function in `src/` has a contract that is proved.

- `src/` is the library. It reads no file, opens no connection and starts no process. It rewrites the
  texts of configuration files, plans the steps of a stage, and decides from a state and an event
  what to do next. What holds of several functions together is proved in the functions whose names
  begin with `law_`.
- `app/` performs what the library decides: files, downloads, the Java virtual machine, threads and
  the container. Its trait `Host` stands for the rest of the application.
- `tests/` runs the library on concrete values.

Two functions of the standard library are given contracts without proof, in `src/text.rs`:
`char::is_whitespace` and `String::push`.
