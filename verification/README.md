# kernel_core

The logic of a small AArch64 teaching kernel -- its text console, keyboard line editing, shell,
program loader and system calls -- written in Verus, with every function's contract proved.

- `src/` is the verified library. `console` decides what goes in which character cell and queues the
  pixel work; `keyboard` turns key events into tokens and edits the line being typed; `shell` lexes
  and parses command lines and decides what a line, a builtin or a launch asks for; `exec` validates
  ELF files, plans their loading and their argument stacks, and checks user pointers; `fs` resolves
  paths and lays out directory and `stat` records; `syscall` decodes traps and decides what each
  system call answers; `platform` and `arch` hold the device-tree discovery, the UART transcript and
  the page-table and system-register values.
- `app/` is the kernel around it: the hardware, the virtio devices, the FAT volume, EL0 entry and the
  shell's loop, carrying out what the library decides. It is ordinary Rust.
- `tests/` runs the library on concrete inputs.
