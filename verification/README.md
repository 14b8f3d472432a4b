# registers

Registers with bit-precise fields, verified with Verus.

A register is an unsigned integer of 8, 16, 32, 64 or 128 bits. A field is the run of bits
from its least significant bit `lsb` to its most significant bit `msb`, read as an unsigned
number or as a two's complement signed number.

- `src/` is the verified library:
  - `field.rs`: field kinds and fields, their masks and bounds, and the kind a declared type
    names;
  - `value.rs`: register values (`RegisterValue<u32>` and so on) and the reading and writing
    of their fields;
  - `bitfield.rs`: what a field's bits are as numbers, and the laws of reading and writing
    them (a read after a write gives the value back, a write leaves the other fields alone,
    the last write counts, writes to disjoint fields commute, writing the current value
    changes nothing);
  - `register.rs`: register descriptions, the check of their width, and the fields that get
    read and write accessors;
  - `number.rs`, `raw.rs`, `util.rs`, `arith.rs`: typed numbers, the primitive integers that
    hold a register, type descriptions, and powers of two.
- `app/` is the code generator around it: it parses a register description written as a
  struct with `#[field(..)]` attributes and writes out a register type whose accessors call
  the library.
- `tests/` exercises the library.
