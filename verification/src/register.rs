//! Register descriptions: the arguments of a register, its fields, and which of them get
//! read and write accessors.
use crate::arith::supported_width;
use crate::field::{Field, IoType};
use vstd::prelude::*;

verus! {

/// The arguments of a register description.
#[derive(Debug, Clone, Copy, PartialEq, Eq, Structural)]
pub struct MacroArgs {
    /// The register's width in bits.
    pub size: usize,
    /// Whether the register can be read from memory.
    pub read: bool,
    /// Whether the register can be written to memory.
    pub write: bool,
}

/// The error of register arguments that cannot be used.
#[derive(Debug, Clone, Copy, PartialEq, Eq, Structural)]
pub enum ArgsError {
    /// The width is none of 8, 16, 32, 64 and 128 bits.
    InvalidSize(usize),
}

/// Whether a register can have `size` bits.
pub fn is_supported_width(size: usize) -> (r: bool)
    ensures
        r == supported_width(size as nat),
{
    size == 8 || size == 16 || size == 32 || size == 64 || size == 128
}

/// Accepts register arguments whose width is supported, and refuses the others.
pub fn verify_args(args: MacroArgs) -> (r: core::result::Result<MacroArgs, ArgsError>)
    ensures
        supported_width(args.size as nat) ==> r == Ok::<MacroArgs, ArgsError>(args),
        !supported_width(args.size as nat) ==> r == Err::<MacroArgs, ArgsError>(
            ArgsError::InvalidSize(args.size),
        ),
{
    if !is_supported_width(args.size) {
        return Err(ArgsError::InvalidSize(args.size));
    }
    Ok(args)
}

/// The `read` switch of a field when `readable`, else its `write` switch.
pub open spec fn switch_on(f: Field, readable: bool) -> bool {
    if readable {
        f.read
    } else {
        f.write
    }
}

/// A field's read switch alone decides whether it gets a read accessor, and its write switch
/// alone whether it gets a write accessor, whatever its kind, width or place.
pub proof fn lemma_switch_on()
    ensures
        forall|f: Field| #[trigger] switch_on(f, true) == f.read,
        forall|f: Field| #[trigger] switch_on(f, false) == f.write,
{
}

/// `r` lists, in order, the indices of the fields of `fields` whose `read` switch (when
/// `readable`) or `write` switch (otherwise) is on.
pub open spec fn picks(fields: Seq<Field>, r: Seq<usize>, readable: bool) -> bool {
    &&& forall|a: int, b: int| 0 <= a < b < r.len() ==> r[a] < r[b]
    &&& forall|k: int|
        #![trigger r[k]]
        0 <= k < r.len() ==> r[k] < fields.len() && switch_on(fields[r[k] as int], readable)
    &&& forall|i: int|
        0 <= i < fields.len() && switch_on(#[trigger] fields[i], readable) ==> exists|k: int|
            0 <= k < r.len() && r[k] == i
}

/// A register description: its name, its fields and its arguments.
#[derive(Debug)]
pub struct Register {
    /// The register's name.
    pub ident: String,
    /// The register's fields.
    pub fields: Vec<Field>,
    /// The register's arguments.
    pub args: MacroArgs,
}

impl Register {
    /// A register description from its parts.
    pub fn new(ident: String, fields: Vec<Field>, args: MacroArgs) -> (r: Self)
        ensures
            r.ident == ident,
            r.fields@ == fields@,
            r.args == args,
    {
        Register { ident, fields, args }
    }

    /// The indices of the fields whose `read` or `write` switch, as `readable` asks, is on.
    fn fields_with(&self, readable: bool) -> (r: Vec<usize>)
        ensures
            picks(self.fields@, r@, readable),
    {
        let mut r: Vec<usize> = Vec::new();
        let mut i: usize = 0;
        while i < self.fields.len()
            invariant
                i <= self.fields.len(),
                forall|a: int, b: int| 0 <= a < b < r.len() ==> r[a] < r[b],
                forall|k: int|
                    #![trigger r[k]]
                    0 <= k < r.len() ==> r[k] < i && switch_on(self.fields@[r[k] as int], readable),
                forall|j: int|
                    0 <= j < i && switch_on(#[trigger] self.fields@[j], readable) ==> exists|k: int|
                        0 <= k < r.len() && r[k] == j,
            decreases self.fields.len() - i,
        {
            let f = &self.fields[i];
            let on = if readable {
                f.read
            } else {
                f.write
            };
            if on {
                let ghost old_r = r@;
                r.push(i);
                assert(r@ == old_r.push(i));
                assert forall|a: int, b: int| 0 <= a < b < r.len() implies r[a] < r[b] by {
                    if b < old_r.len() {
                        assert(old_r[a] < old_r[b]);
                    } else {
                        assert(old_r[a] < i);
                    }
                }
                assert forall|k: int| #![trigger r[k]] 0 <= k < r.len() implies r[k] < i + 1
                    && switch_on(self.fields@[r[k] as int], readable) by {
                    if k < old_r.len() {
                        assert(r[k] == old_r[k]);
                    }
                }
                assert forall|j: int|
                    0 <= j < i + 1 && switch_on(#[trigger] self.fields@[j], readable) implies exists|k: int|
                    0 <= k < r.len() && r[k] == j by {
                    if j < i {
                        let k = choose|k: int| 0 <= k < old_r.len() && old_r[k] == j;
                        assert(r[k] == j);
                    } else {
                        assert(r[r.len() - 1] == j);
                    }
                }
            }
            i = i + 1;
        }
        r
    }

    /// The indices of the fields that get a read accessor: the readable ones, in order.
    pub fn getter_fields(&self) -> (r: Vec<usize>)
        ensures
            picks(self.fields@, r@, true),
            forall|a: int, b: int| 0 <= a < b < r.len() ==> r[a] < r[b],
            forall|k: int|
                #![trigger r[k]]
                0 <= k < r.len() ==> r[k] < self.fields.len() && self.fields@[r[k] as int].read,
            forall|i: int|
                0 <= i < self.fields.len() && (#[trigger] self.fields@[i]).read ==> exists|k: int|
                    0 <= k < r.len() && r[k] == i,
    {
        proof {
            lemma_switch_on();
        }
        self.fields_with(true)
    }

    /// The indices of the fields that get a write accessor: the writable ones, in order.
    pub fn setter_fields(&self) -> (r: Vec<usize>)
        ensures
            picks(self.fields@, r@, false),
            forall|a: int, b: int| 0 <= a < b < r.len() ==> r[a] < r[b],
            forall|k: int|
                #![trigger r[k]]
                0 <= k < r.len() ==> r[k] < self.fields.len() && self.fields@[r[k] as int].write,
            forall|i: int|
                0 <= i < self.fields.len() && (#[trigger] self.fields@[i]).write ==> exists|k: int|
                    0 <= k < r.len() && r[k] == i,
    {
        proof {
            lemma_switch_on();
        }
        self.fields_with(false)
    }

    /// The unsigned integer type that holds the register's bits.
    pub fn inner_type(&self) -> (r: IoType)
        ensures
            r == IoType::Unsigned(self.args.size),
    {
        crate::util::unsign(self.args.size)
    }
}

} // verus!
