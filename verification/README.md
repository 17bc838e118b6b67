# Soul Agent Launcher core

The logic of a local llama.cpp launcher, as a library verified with Verus,
and the program around it.

- `src/` — the verified library: the HTTP proxy's request handling and reply
  conversion (`proxy`, `reply`, `chatml`, `json`), the model routing table
  and running-model registry (`router`, `registry`), the server's start,
  wake and sleep decisions (`server`), chat sessions (`sessions`), local
  model files and catalogue search (`models`, `catalog`), downloads and
  their checks (`download`), hardware and installation decisions
  (`hardware`, `config`), logging (`logger`), and the text, time and size
  formats they share (`text`, `clock`, `calendar`, `sizes`, `order`).
- `tests/` — tests of the library on concrete values.
- `app/` — the command host: sockets, processes, files, HTTP requests and
  the floating-point figures, calling the library for every decision.
