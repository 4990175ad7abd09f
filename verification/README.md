vmsh
====

**vmsh** transparently runs a shell (or any other binary) inside a lightweight
KVM virtual machine using a provided kernel image. The host filesystem is shared
into the guest via virtiofs, and stdin/stdout/stderr are forwarded so that
everything behaves as if the command were running locally.

What vmsh decides and computes is a library that is verified with
[Verus](https://github.com/verus-lang/verus). The contracts say what each
function returns; properties that relate several functions to each other are
public proof functions next to them.

| Module        | Contents                                                        |
|---------------|-----------------------------------------------------------------|
| `args`        | what the user asked for, and which kernel that means            |
| `embed`       | the layout of a binary that carries a kernel                    |
| `environment` | environment variables, from the flags to the guest              |
| `init`        | what the init process of the guest mounts, and how it ends      |
| `ports`       | looking for virtio console ports and attaching streams to them  |
| `temp`        | names of temporary files                                        |
| `util`        | kernel formats and the host name                                |
| `vm`          | the calls that set up a VM, in order                            |
| `bytes`, `lines`, `text` | byte sequences, lines, and numbers as text           |
| `records`     | what libkrun notes down, and receipts; the calls are not proved |
| `sys`         | what is taken from `libc` and `std` without proof               |

`app/` is the program around the library. It parses the command line, reads and
writes files, and talks to the kernel and to libkrun. The init binary,
`vmsh-init`, is expected next to the `vmsh` binary.
