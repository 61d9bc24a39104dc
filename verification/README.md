# NocoBase Desktop

The logic of a desktop shell that runs a bundled NocoBase server, written and proved in Verus.

Everything lies in `~/.nocobase-desktop`: the unpacked runtime, the database configuration, the
log and the `nb` command. The server listens on `http://127.0.0.1:14300`.

Each command of the shell is a machine. It says what is to be done next (read a file, run a
program, send a signal), takes the reply, and goes on until it has a result. What is done for
every reply is in the contracts. What holds of whole runs is in the laws, the public proof
functions whose names begin with `law_`.

- `src/` holds the machines, their contracts and the laws.
- `tests/` runs them against a made-up disk, a made-up child and a made-up world.
- `app/` performs what the machines ask for, and shows the windows.

| Module | What it holds |
| --- | --- |
| `text`, `path`, `layout` | texts, paths, and where each file lies |
| `config`, `config_store` | the database configuration, and keeping it in a file |
| `command`, `launch` | how Node.js is called, and calling it |
| `effect`, `disk` | requests and replies, and a model of what they do to files |
| `upgrade` | unpacking the runtime and keeping the storage |
| `start`, `api`, `register` | starting the server, waiting for it, registering it with `nb` |
| `stop`, `status`, `window`, `cli` | the other commands |
| `*_law`, `progress` | laws that span several modules |
