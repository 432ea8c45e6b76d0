//! The board's persisted configuration: its id, and the default role and
//! channel packed into one option byte (role in bits 0-1, channel in bits
//! 2-3).
use vstd::prelude::*;
use crate::protocol::{Address, CommMode, Mode};

verus! {

/// The two user option bytes.
#[derive(Debug, PartialEq, Eq, Structural, Clone, Copy)]
pub struct UserBytes {
    pub id: u8,
    pub data1: u8,
}

pub open spec fn mode_bits(data1: u8) -> u8 {
    data1 & 3
}

pub open spec fn comm_bits(data1: u8) -> u8 {
    (data1 >> 2u8) & 3
}

/// The role a board plays when nothing else decides.
pub open spec fn spec_default_mode(u: UserBytes) -> Mode {
    match Mode::spec_from_raw(mode_bits(u.data1)) {
        Some(m) => m,
        None => Mode::Panel,
    }
}

/// The channel a board uses when nothing else decides.
pub open spec fn spec_comm_mode(u: UserBytes) -> CommMode {
    match CommMode::spec_from_raw(comm_bits(u.data1)) {
        Some(c) => c,
        None => CommMode::Radio,
    }
}

impl UserBytes {
    /// The configuration read from the option bytes, with an unset or
    /// invalid role taken as Panel and an invalid channel as Radio.
    pub fn from_option_bytes(data0: u8, data1: u8) -> (r: UserBytes)
        ensures
            r.id == data0,
            Mode::spec_from_raw(mode_bits(r.data1)) == Some(spec_default_mode(UserBytes { id: data0, data1 })),
            CommMode::spec_from_raw(comm_bits(r.data1)) == Some(spec_comm_mode(UserBytes { id: data0, data1 })),
            r.data1 >> 4u8 == data1 >> 4u8,
    {
        let mut u = UserBytes { id: data0, data1 };
        if Mode::from_raw(u.default_mode()).is_none() {
            u.set_default_mode(Mode::Panel.raw());
        }
        if CommMode::from_raw(u.comm_mode()).is_none() {
            u.set_comm_mode(CommMode::Radio.raw());
        }
        u
    }

    pub fn get_id(&self) -> (r: u8)
        ensures
            r == self.id,
    {
        self.id
    }

    /// The raw default-role bits.
    pub fn default_mode(&self) -> (r: u8)
        ensures
            r == mode_bits(self.data1),
            r <= 3,
    {
        let v = self.data1;
        assert(v & 3 <= 3) by (bit_vector);
        v & 3
    }

    /// The raw channel bits.
    pub fn comm_mode(&self) -> (r: u8)
        ensures
            r == comm_bits(self.data1),
            r <= 3,
    {
        let v = self.data1;
        assert((v >> 2u8) & 3 <= 3) by (bit_vector);
        (v >> 2) & 3
    }

    /// Set the raw default-role bits, keeping the others.
    pub fn set_default_mode(&mut self, mode: u8)
        requires
            mode <= 3,
        ensures
            final(self).id == old(self).id,
            mode_bits(final(self).data1) == mode,
            comm_bits(final(self).data1) == comm_bits(old(self).data1),
            final(self).data1 >> 4u8 == old(self).data1 >> 4u8,
    {
        let v = self.data1;
        let w = (v & 0xfc) | mode;
        assert(w & 3 == mode && (w >> 2u8) & 3 == (v >> 2u8) & 3 && w >> 4u8 == v >> 4u8) by (bit_vector)
            requires
                w == (v & 0xfc) | mode,
                mode <= 3,
        ;
        self.data1 = w;
    }

    /// Set the raw channel bits, keeping the others.
    pub fn set_comm_mode(&mut self, mode: u8)
        requires
            mode <= 3,
        ensures
            final(self).id == old(self).id,
            comm_bits(final(self).data1) == mode,
            mode_bits(final(self).data1) == mode_bits(old(self).data1),
            final(self).data1 >> 4u8 == old(self).data1 >> 4u8,
    {
        let v = self.data1;
        let w = (v & 0xf3) | (mode << 2u8);
        assert((w >> 2u8) & 3 == mode && w & 3 == v & 3 && w >> 4u8 == v >> 4u8) by (bit_vector)
            requires
                w == (v & 0xf3) | (mode << 2u8),
                mode <= 3,
        ;
        self.data1 = w;
    }
}

/// The board's id.
pub fn get_my_id(config: &UserBytes) -> (r: u8)
    ensures
        r == config.id,
{
    config.get_id()
}

/// The default role; Panel when the stored bits name none.
pub fn get_default_mode(config: &UserBytes) -> (r: Mode)
    ensures
        r == spec_default_mode(*config),
{
    match Mode::from_raw(config.default_mode()) {
        Some(m) => m,
        None => Mode::Panel,
    }
}

/// Store a new default role, keeping the rest.
pub fn set_default_mode(config: &mut UserBytes, mode: Mode)
    ensures
        final(config).id == old(config).id,
        spec_default_mode(*final(config)) == mode,
        spec_comm_mode(*final(config)) == spec_comm_mode(*old(config)),
{
    config.set_default_mode(mode.raw());
}

/// The default channel; Radio when the stored bits name none.
pub fn get_comm_mode(config: &UserBytes) -> (r: CommMode)
    ensures
        r == spec_comm_mode(*config),
{
    match CommMode::from_raw(config.comm_mode()) {
        Some(c) => c,
        None => CommMode::Radio,
    }
}

/// Store a new default channel, keeping the rest.
pub fn set_comm_mode(config: &mut UserBytes, mode: CommMode)
    ensures
        final(config).id == old(config).id,
        spec_comm_mode(*final(config)) == mode,
        spec_default_mode(*final(config)) == spec_default_mode(*old(config)),
{
    config.set_comm_mode(mode.raw());
}

/// The role a board starts in: board 0 always spies; any other takes its
/// stored default.
pub fn determine_mode(address: Address, config: &UserBytes) -> (r: Mode)
    ensures
        r == (if address.0 == 0 { Mode::Spy } else { spec_default_mode(*config) }),
{
    if address.value() == 0 {
        return Mode::Spy;
    }
    get_default_mode(config)
}

} // verus!
