# wist-agentd

The decisions of an edge daemon, written in Rust and proved with Verus: its command line, its
configuration paths, its service definitions for systemd and launchd, the log lines of its health
and the lock that keeps it single.

- `src/` is the library. It reads no file, no clock and no environment: what it needs of the host
  comes in as a value, and what is to be done goes out as a value.
  - `text`, `os_text`, `paths`, `path_laws`: texts, operating system strings and Unix paths.
  - `config`: the default paths of a configuration, environment references in it, and how its
    paths are resolved.
  - `control`: the command line, the start of the daemon, enrollment, the flow of the `service`
    commands, the choice of the `wist-exec` binary and the runtime identity.
  - `service`: systemd units, launchd property lists, the commands of the service managers,
    installation and status.
  - `runtime`: health lines, and when unchanged ones are held back.
  - `single_instance`: the outcome of taking the instance lock.
- `app/` is the program around it: files, processes, the lock and the terminal.
- `tests/` runs the library on concrete values.

Names that begin with `law_` are proved statements about the library as a whole: that a shown
command reads back as its words, that a written service definition is the rendered one, that
unchanged health is printed once per heartbeat, and so on.
