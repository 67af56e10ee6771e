# webos

The logic of a small RISC-V teaching kernel and of the web gateway that
serves it to browsers, written in Verus: the library's functions carry
contracts that Verus proves, and laws relating several operations are
stated as proof functions.

- `src/` is the verified library. The kernel side models the process
  table, signals, scheduling queues, system calls, address-space mappings,
  files and locks, IPC tables, the console, the device queues (GPU, input,
  network), the interrupt controllers, the network stack, Unix sockets,
  the kernel task executor, the remote file protocol, ELF loading of the
  first program and the generator of the user-side call stubs. Hardware
  and memory work that the kernel does around these decisions is taken as
  input or handed back as a plan. The gateway side covers its
  configuration parsing, session identifiers, QEMU command lines and QMP
  messages, and the web server's header and counter decisions.
- `tests/` runs the library on concrete values.
- `app/` is the gateway program: the HTTP server, WebRTC sessions, the
  QEMU child process and the counter service. It calls into the library
  for the decisions the library holds (configuration, session ids,
  command lines, QMP messages and replies, header and counter rules).
