# horizon

Pieces of a userland for the Nintendo Switch's Horizon kernel, with their
behaviour stated in contracts and proved with Verus.

`src/` is the library; every function in it is verified:

- `error`, `kernel`: result codes, their module and description fields, and
  the kernel's known codes.
- `math`, `heap_spec`, `heap`: a buddy allocator over a fixed region; freeing
  what was allocated gives back the same set of free addresses.
- `handle`, `mounts`, `environment`: handles and their pools, the table of
  mount points, the kind of environment a process runs in and its memory map.
- `ipc`: the wire format of HIPC and CMIF messages, little-endian readers and
  writers, the service manager's names and the session control requests.
- `ipcdef`: clients of `sm:`, `spl:`, `ldr:pm` and `fsp-srv`, each command
  split into the request it sends and the reading of the response.
- `ipc_parse`, `ninupdates`: reading the interface dumps published for system
  updates and the names of the files that hold them.
- `swipc`: a lexer, parser, type checker, naming checker and layout engine for
  SwIPC interface definition files. The type checker's diagnostics are stated
  exactly; a syntax error is stated as one error at a token the grammar does
  not expect (or at the end), or as the error for repeated preference markers.
  `swipc::wire_format` gathers what the code generator needs of a command:
  the signature of the function it generates, how each argument goes over
  the wire (raw data sorted by alignment, handles, buffers) and the sizes of
  the request and the response; `swipc::codegen` writes the Rust text of
  type definitions (structures, enums, bitflags, aliases) and the imports
  they need between generated modules; `message_struct`, `request_init`,
  `raw_data`, `command_body` and `interface_gen` write the client code of
  an interface: the packed request and response structures, the request's
  value, the method of each command and the client object, and
  `gen_ipc_file` the code of every item of a file; `module_files` lays the
  items out in one file per module, each declaring its child modules in
  order.
- `log`: the lines that describe an IPC call and its reply.

Calls into `regex`, `py_literal` and `convert_case` stand behind small trusted
wrappers whose contracts say what those crates do.

`app/` is the command-line tool around the library (argument parsing, files,
terminal output; `swipc gen-ipcdef` writes the generated modules); `tests/` runs the library on concrete inputs.
