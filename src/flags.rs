use vstd::prelude::*;

verus! {

/// The options of a name request, as named booleans. On the wire they are
/// the bits 1 (allow replacement), 2 (replace existing) and 4 (do not queue)
/// of an unsigned 32-bit integer.
#[derive(Debug, Clone, Copy, PartialEq, Eq, Structural)]
pub struct RequestNameFlags {
    pub allow_replacement: bool,
    pub replace_existing: bool,
    pub do_not_queue: bool,
}

/// The wire value of a set of options.
pub open spec fn flags_bits(f: RequestNameFlags) -> u32 {
    ((if f.allow_replacement { 1int } else { 0int }) + (if f.replace_existing { 2int } else { 0int })
        + (if f.do_not_queue { 4int } else { 0int })) as u32
}

/// The options that the wire value `bits` encodes, if it sets no unknown bit.
pub open spec fn flags_of_bits(bits: u32) -> Option<RequestNameFlags> {
    if bits < 8 {
        Some(
            RequestNameFlags {
                allow_replacement: bits % 2 == 1,
                replace_existing: (bits / 2) % 2 == 1,
                do_not_queue: bits / 4 == 1,
            },
        )
    } else {
        None
    }
}

impl RequestNameFlags {
    /// No option set.
    pub fn empty() -> (r: RequestNameFlags)
        ensures
            flags_bits(r) == 0,
            !r.allow_replacement && !r.replace_existing && !r.do_not_queue,
    {
        RequestNameFlags { allow_replacement: false, replace_existing: false, do_not_queue: false }
    }

    /// Decodes the wire value; `None` if a bit other than the three options
    /// is set.
    pub fn from_bits(bits: u32) -> (r: Option<RequestNameFlags>)
        ensures
            r == flags_of_bits(bits),
    {
        if bits < 8 {
            Some(
                RequestNameFlags {
                    allow_replacement: bits % 2 == 1,
                    replace_existing: (bits / 2) % 2 == 1,
                    do_not_queue: bits / 4 == 1,
                },
            )
        } else {
            None
        }
    }

    /// Encodes the options as their wire value.
    pub fn bits(&self) -> (r: u32)
        ensures
            r == flags_bits(*self),
            r < 8,
    {
        let a: u32 = if self.allow_replacement { 1 } else { 0 };
        let b: u32 = if self.replace_existing { 2 } else { 0 };
        let c: u32 = if self.do_not_queue { 4 } else { 0 };
        a + b + c
    }
}

/// Encoding a set of options and decoding the result gives the same options
/// back.
pub proof fn lemma_flags_round_trip(f: RequestNameFlags)
    ensures
        flags_of_bits(flags_bits(f)) == Some(f),
{
}

/// Decoding a wire value that sets only known bits and encoding the result
/// gives the same value back.
pub proof fn lemma_bits_round_trip(bits: u32)
    requires
        bits < 8,
    ensures
        flags_bits(flags_of_bits(bits).unwrap()) == bits,
{
}

} // verus!
