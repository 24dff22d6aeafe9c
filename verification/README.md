# docker_rs_desktop

A desktop front end for a local OCI image store and a container runtime
bridge (the Docker CLI, or native processes when no Docker is present).

The decision logic is a Verus library under `src/`, proved against its
contracts:

- `desktop`: the application state machine (pages, history, requests to the
  engine, worker events, keyboard shortcuts).
- `store`, `oci`, `builder`, `dockerfile`: the image store, image references,
  digests, garbage collection, and the Dockerfile instruction interpreter
  (metadata instructions, and `COPY` layers with `--chown`/`--chmod` and glob
  sources).
- `runtime`, `docker_cli`: native container records and their life cycle, and
  the Docker command lines and the parsing of their output.
- `tasks`: what each engine task reports back.
- `ui`, `text`, `numfmt`, `units`, `order`, `paths`, `model`: filters, labels,
  text and number formatting, orderings and the shared data model.

`app/` holds the program around it: the egui window, threads, processes,
files, the registry client and JSON on disk. `tests/` runs the library on
concrete values.
