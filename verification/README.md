# vm_devices

Logic of the devices of a virtual machine monitor, in Rust verified with Verus:
what each function returns or changes is stated in its contract and proved.

| Module | What it holds |
| --- | --- |
| `vhdx` | Virtual disks in VHDX files: on-disk format, headers, block allocation table, reads and writes, page cache, log and apply pipeline, flushes, parent locators |
| `smmu` | An Arm SMMUv3: policies of streams, event queue and global errors, decisions of the translation |
| `pci` | Bus ranges, interrupt messages and their routes, devices in another process |
| `gic` | MSI doorbells of the interrupt controller: ITS and GICv2m |
| `vfio` | Passthrough devices: nesting in the IOMMU of the host, resolution, resources |
| `consomme` | Sockets of the user mode network |
| `bytes`, `text` | Integers in byte sequences; equality of texts |

Where the work alternates with I/O, the library decides and the caller acts:
it hands in what happened (`WriteEvent`, `FlushEvent`, `CommitEvent`, ...) and
gets back what to do next (`WriteAction`, `FlushAction`, `CommitAction`, ...).

Laws that span several functions are public proof functions, named `law_...`.
`vhdx::consistency` holds those that together say that a read gives back what
was written.

`app/` is ordinary Rust around the library: files, queues, locks, sockets, and
the interfaces of the host. `tests/` runs the library on concrete values.
