# docker_git_android_connection

The Android runtime of a docker-git project, verified with Verus: the names and Docker arguments
of its container, the ADB commands for it, a server that offers it to tools, and a browser bridge
to a phone.

- `src/` is the library. Verus proves the contracts of its functions, and the promises of the
  library as a whole stand beside the functions that they are about, as public proof functions.
  Calls into `std`, `serde_json` and `base64` that Verus has no contract for go through small
  wrappers in `text`, `decimal`, `json` and `phone`, marked `external_body`, and `String::push`
  has an `assume_specification`. Their contracts, and what they say of the type
  `serde_json::Value`, are believed and not proved; each says above it what it claims.
- `app/` is the program around it: the command line, processes, sockets and files. It asks the
  library what to do, does it, and hands back what came of it.
  Paths are Unix paths: where the platform separates the parts of a path by anything but a slash,
  the tool server and the browser connector refuse to start. The connector reads its page from the
  directory `web`.
- `tests/` runs the library on concrete values.

## Modules

| Module | What it holds |
| --- | --- |
| `names`, `runtime`, `settings` | project names, the container and its profiles, settings as they are spelled |
| `lifecycle` | `start`, `status`, `stop` and the ADB commands of a project |
| `adb`, `docker_command` | ADB arguments and jobs, what processes leave |
| `mcp`, `frames` | the tools of the server, its requests, and messages on a byte stream |
| `web`, `bridge`, `phone` | the browser connector, the bridge to the phone, and commands for it |
| `http`, `exchange`, `wire` | HTTP as the bridge speaks it, and that what is written is read back |
| `json`, `decimal`, `scan`, `text`, `paths` | JSON through `serde_json`, numbers, lines and words, texts, paths |
