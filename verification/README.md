# screenstub

A software KVM: it switches the monitor between the host and a virtual machine
by DDC/CI, and forwards the keyboard and the mouse to the machine.

- `src/` is the library, written in Verus. It holds what the program decides:
  the configuration (`config`, `keymap`), the events of the input devices
  (`input`, `event`, `filter`, `dispatch`), the session with the X server (`x`),
  the monitor (`ddc`, `inputs`), the machine (`qemu`, `qemucomm`, `qmp`,
  `route`), the devices of the kernel (`uinput`, `sink`, `grab`), what the user
  asks for (`process`), and small parts that others use (`exec`, `error`,
  `retry`, `spawner`, `fuse`, `unzip`, `text`). Each function says in its
  contract what it returns; the public proof functions state what holds of
  several of them together.
- `app/` is the program around it: it reads the configuration file, talks to the
  X server, the kernel, the machine and the monitor, and hands what they say to
  the library.
- `tests/` runs the library on examples.

Parts of the outside world take time: an X request, a command to the machine, an
attempt. For these the library gives the next step as a value, and the program
carries it out and hands the answer back.
