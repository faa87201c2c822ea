# qcrosvm

The backend of a virtual machine: it reads the command line, sets the machine up
through the hypervisor driver, creates the virtio devices that were asked for and
serves each of them from a thread of its own.

`src/` is the verified library. It holds the decisions and does nothing to the
outside. What an argument asks for is computed from the argument and from what
the host says of it. A run of the backend, the creation of the devices, the
description of an input device, the publication of a configuration space and
the service of a device are machines that say which step comes next (`action`)
and take what came of it (`advance`). Each has a plan, a step function over
what was heard so far, and laws about it.

- `text`, `number`: texts, paths and numbers.
- `argument`, `config`, `backend`: the command line and what it asks for.
- `disk`, `net`, `input`, `console`, `hab`, `fs`, `generic`, `scmi`, `vsock`,
  `vhost_user`: the kinds of devices, with `device` for what they share and
  `wait` for sockets that do not exist yet.
- `creation`, `wiring`, `input_config`, `launch`, `config_space`: from an
  argument to a device that works.
- `events`, `driver_ok`, `reset`: a device at work.
- `run`, `vcpu`, `memory`: the machine as a whole.
- `ioctl`, `mmio`, `error`: requests, registers and errors.

`app/` is the program around it: files, sockets, threads, the log, and the
device implementations.
