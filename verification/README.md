# HyperPod

A lightweight virtual machine manager and scaling engine for Windows (Windows
Hypervisor Platform) and Linux (KVM), with its logic verified by Verus.

* `src/` is the library. All of its logic is verified: contracts say what functions
  return and change, and the public proof functions named `law_...` state what holds
  across functions. Three small wrappers around the host's clock and allocator are not
  verified; see below.
  * `config` says when a machine's description is valid.
  * `scaling` is the monitor that tunes CPU shares to the host's load; `scaling::probes`
    takes apart what the host reports.
  * `vmm::common` holds guest memory, the ELF loader, the boot tables, the serial port,
    the VirtIO-MMIO transport with its descriptor walker, the token bucket and the
    geometry of disk images.
  * `vmm::vcpu`, `vmm::kvm` and `vmm::whpx` hold the registers that a virtual processor
    starts with and what to do when it exits.
  * `commands`, `text` and `codec` hold messages, text handling and byte orders.
* `app/` is the program around it: command line, TOML, files, hypervisor calls, threads,
  and what computes with floating-point numbers.
* `tests/` runs the library on concrete values.

What is believed rather than proved of code outside the library: nothing is claimed of
the host's clock (`vmm::common::device::throttle`) or of where the allocator puts a
buffer (`vmm::common::ram`); contracts only say that they were asked, and what was made of
the answer. The monitor's probe and sink are supplied by the program. They are taken to
keep a record of the calls on them (`scaling::LoadProbe`, `scaling::CpuShareSink`), and
nothing is claimed of what they answer. The record exists for the contracts alone: what
they say of a monitor holds as far as each use of its probe and sink adds to it.

A load is held as the bits of an IEEE 754 double, which order numbers as integers do.
Guest memory is an ordinary buffer that starts on a page boundary, so that a hypervisor
can map it.
