use vstd::prelude::*;

verus! {

/// The largest PID value plus one: PIDs have 13 bits.
pub const PID_LIMIT: u16 = 8192;

/// The PID value reserved for null packets and for "no PID".
pub const NULL_PID: u16 = 0x1FFF;

/// A 13-bit packet identifier.
#[derive(Debug, Clone, Copy, PartialEq, Eq, Structural)]
pub struct Pid {
    value: u16,
}

impl Pid {
    #[verifier::type_invariant]
    spec fn inv(self) -> bool {
        self.value < 8192
    }

    /// The PID's numeric value.
    pub closed spec fn spec_value(self) -> u16 {
        self.value
    }

    /// Makes a PID of `value`, which must fit in 13 bits.
    pub fn new(value: u16) -> (r: Option<Pid>)
        ensures
            r.is_some() <==> value < 8192,
            r matches Some(p) ==> p.spec_value() == value,
    {
        if value < PID_LIMIT {
            Some(Pid { value })
        } else {
            None
        }
    }

    /// The PID's numeric value, always below 8192.
    pub fn as_u16(&self) -> (r: u16)
        ensures
            r == self.spec_value(),
            r < 8192,
    {
        proof {
            use_type_invariant(self);
        }
        self.value
    }
}

/// A 5-bit version number of a PSI table.
#[derive(Debug, Clone, Copy, PartialEq, Eq, Structural)]
pub struct VersionNumber {
    value: u8,
}

impl VersionNumber {
    #[verifier::type_invariant]
    spec fn inv(self) -> bool {
        self.value < 32
    }

    /// The version's numeric value.
    pub closed spec fn spec_value(self) -> u8 {
        self.value
    }

    /// Makes a version number of `value`, which must fit in 5 bits.
    pub fn new(value: u8) -> (r: Option<VersionNumber>)
        ensures
            r.is_some() <==> value < 32,
            r matches Some(v) ==> v.spec_value() == value,
    {
        if value < 32 {
            Some(VersionNumber { value })
        } else {
            None
        }
    }

    /// The version's numeric value, always below 32.
    pub fn as_u8(&self) -> (r: u8)
        ensures
            r == self.spec_value(),
            r < 32,
    {
        proof {
            use_type_invariant(self);
        }
        self.value
    }
}

} // verus!
