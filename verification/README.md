# cbnb_node

The node of a compute-sharing service: it hosts functions, applications in
a VM and block storage for a core server, and reports its resources to it.

- `src/` is the verified library (Verus): text handling (`text`), JSON
  string literals (`json`), messages (`message`), the node's measurements
  read from the kernel's status files (`sys_stat`), request routing and
  connection settings (`api`), the bookkeeping of hosted services and block
  storage (`service`), and the contents of the command-line client's
  requests (`cli`).
- `app/` is the program around it: file, network and process I/O, threads,
  timing, the floating-point figures of the measurements, serde copies of
  the reported records, and the command-line client.
- `tests/` exercises the library on concrete values.
