# llama-mesh

Serves language models from the GPUs of several machines. Workers announce their
GPUs to a coordinator over WebSocket; the coordinator plans how a model is spread
over them, writes a configuration for llama-swap, and tunnels llama-server's RPC
connections to the workers.

`src/` is the verified library: it takes every decision and does no I/O.

- `text`: decimal numerals, joining, trimming and comparison
- `table`: values under distinct names
- `protocol`: the control messages
- `tunnel`: frames, streams and the tasks that carry their bytes
- `ffi`, `rpc_server`: the devices of a machine and what is served of them
- `topology`: the plan for a set of workers
- `coord`: llama-swap's configuration, and what events do to the workers
- `reload`: how llama-swap is brought to a new plan
- `coordinator`: the coordinator's main loop
- `connection`: connection IDs, one worker's connection, and its proxy port
- `worker`, `child_worker`: the two kinds of worker

Each loop that waits for the outside world is a step function: it takes what
happened and returns what to do next. `app/` performs the actions and reports what
came of them. It also holds the JSON, TOML and YAML forms of the library's types.
