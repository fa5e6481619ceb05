# pci

The configuration space of a PCI function, as a virtual machine monitor emulates it: the register
file that the guest reads and writes, the BARs and capabilities behind it, and the bookkeeping that
moves a BAR when the guest gives it another address. The library under `src/` is verified with
Verus.

- `space` is the mathematical model: a configuration space as sequences and options, and what each
  operation does to it. The contracts of the executable code speak of this model.
- `configuration` is the executable configuration space, `PciConfiguration`.
- `bar`, `capability`, `class`, `device`, `error`, `interrupt` and `state` hold the types around it,
  and `bits` the arithmetic of masks, lanes and byte orders.
- `invariants` proves what every operation keeps. `laws`, `relocation` and `snapshot` state and prove
  what holds across several operations: of registers, BARs and capabilities, of the moves of a BAR,
  and of saving and restoring a space.

Bytes are decoded by the `byteorder` crate; `bits::read_u16` and `bits::read_u32` are the only
functions whose contracts are taken on trust. The traits `PciSubclass`, `PciProgrammingInterface` and
`PciCapability` are for users to implement, and their contracts are what an implementation promises.

`app/` is ordinary Rust around the library: the traits of a PCI device, error messages, the link to
the MSI-X state of a device and the serialised form of a snapshot.
