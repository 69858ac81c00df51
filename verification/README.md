# cg_clif_daemon

A compiler driver that hands compilations to a daemon, which keeps compiled code in memory from one
compilation to the next.

`src/` is the verified library: everything that the client and the daemon decide or compute.

| module          | what it is about                                                            |
|-----------------|-----------------------------------------------------------------------------|
| `unwind_module` | compiling functions by way of a cache of stencils, and their definitions    |
| `codegen`       | the calls into Cranelift, with what is believed of each of them             |
| `wire`          | the messages from the daemon to the client, and their encoding              |
| `client`        | who takes care of an invocation, connecting, and following the daemon       |
| `daemon`        | taking over from an earlier daemon, and answering clients                   |
| `callbacks`     | making the compiler see the directory and the environment of the client     |
| `emitter`       | how diagnostics are presented                                               |
| `jobserver`     | letting go of the job server of the build that started the daemon           |
| `paths`         | paths, and the files in the runtime directory                               |
| `text`          | splitting and joining text                                                  |

`app/` is the driver around it: sockets, files, processes, and the crates of the compiler, which
come with a nightly toolchain that has the `rustc-dev` component.  The code generation back end, a
crate of its own, calls its `main`.

`tests/` runs the library, together with the crates that it calls.
