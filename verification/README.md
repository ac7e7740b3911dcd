# container-runtime

A small container runtime for Linux, whose decisions are verified with Verus.

`src/` is the library. It judges the arguments of a container, works out its limits, and says,
for each of the three processes of a container, what the system is to be asked for next and
what follows from each reply:

- `run_args`, `binary64`: the arguments, and the CPU quota that a number of CPUs comes to
- `cgroup`, `creation`: the control group, its limits, and how it is made
- `filesystem`, `mapping`, `container`: the mounts, the user mapping and the command
- `ipc`: the signals between the runtime and the setup process
- `plan`, `runtime`: the tasks of each process, and the course of a container through them
- `procedure`: lists of tasks that stop where one fails
- `course`, `startup`: what holds of every course, and of both processes side by side
- `request`, `message`, `path`, `text`, `wait`: what the others speak of

`app/` is the program: it parses the command line, asks the system, and prints errors.

```
container-runtime run ./rootfs --cpus 1.0 --mem 536870912 --pids 1024 --uid 1000 --gid 1000 /bin/sh
```

It needs root privileges and control groups of version 2.
