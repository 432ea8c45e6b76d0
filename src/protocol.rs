//! Addresses, wire tags, command letters and board roles.
use vstd::prelude::*;

verus! {

/// The largest payload a packet carries.
pub const MAX_PAYLOAD_SIZE: usize = 61;

/// The largest number of panels a master maps and drives.
pub const MAX_PANEL_SLOTS: usize = 32;

/// The address every board accepts.
pub const BROADCAST_ID: u8 = 0xFF;

/// A board's address on the bus or radio.
#[derive(Debug, PartialEq, Eq, Structural, Clone, Copy)]
pub struct Address(pub u8);

impl Address {
    pub fn value(&self) -> (r: u8)
        ensures
            r == self.0,
    {
        self.0
    }

    /// The broadcast address, accepted by every board.
    pub fn broadcast() -> (r: Address)
        ensures
            r.0 == BROADCAST_ID,
    {
        Address(BROADCAST_ID)
    }
}

/// The tag byte of a packet on the bus or radio.
#[derive(Debug, PartialEq, Eq, Structural, Clone, Copy)]
pub enum Message {
    Ping,
    SetColor,
    MapPanels,
    Reset,
    SetStatus,
    Test,
    PingReply,
    SetColorReply,
    MapPanelsReply,
}

impl Message {
    pub open spec fn spec_byte(self) -> u8 {
        match self {
            Message::Ping => 0x50,
            Message::SetColor => 0x43,
            Message::MapPanels => 0x4d,
            Message::Reset => 0x52,
            Message::SetStatus => 0x53,
            Message::Test => 0x5f,
            Message::PingReply => 0x49,
            Message::SetColorReply => 0x63,
            Message::MapPanelsReply => 0x6d,
        }
    }

    /// The tag whose wire byte is `b`, if any.
    pub open spec fn spec_from_byte(b: u8) -> Option<Message> {
        if b == 0x50 {
            Some(Message::Ping)
        } else if b == 0x43 {
            Some(Message::SetColor)
        } else if b == 0x4d {
            Some(Message::MapPanels)
        } else if b == 0x52 {
            Some(Message::Reset)
        } else if b == 0x53 {
            Some(Message::SetStatus)
        } else if b == 0x5f {
            Some(Message::Test)
        } else if b == 0x49 {
            Some(Message::PingReply)
        } else if b == 0x63 {
            Some(Message::SetColorReply)
        } else if b == 0x6d {
            Some(Message::MapPanelsReply)
        } else {
            None
        }
    }

    pub fn to_byte(self) -> (r: u8)
        ensures
            r == self.spec_byte(),
            Message::spec_from_byte(r) == Some(self),
    {
        match self {
            Message::Ping => 0x50,
            Message::SetColor => 0x43,
            Message::MapPanels => 0x4d,
            Message::Reset => 0x52,
            Message::SetStatus => 0x53,
            Message::Test => 0x5f,
            Message::PingReply => 0x49,
            Message::SetColorReply => 0x63,
            Message::MapPanelsReply => 0x6d,
        }
    }

    pub fn from_byte(b: u8) -> (r: Option<Message>)
        ensures
            r == Message::spec_from_byte(b),
            r matches Some(m) ==> m.spec_byte() == b,
    {
        match b {
            0x50 => Some(Message::Ping),
            0x43 => Some(Message::SetColor),
            0x4d => Some(Message::MapPanels),
            0x52 => Some(Message::Reset),
            0x53 => Some(Message::SetStatus),
            0x5f => Some(Message::Test),
            0x49 => Some(Message::PingReply),
            0x63 => Some(Message::SetColorReply),
            0x6d => Some(Message::MapPanelsReply),
            _ => None,
        }
    }
}

/// The first byte of a command line.
#[derive(Debug, PartialEq, Eq, Structural, Clone, Copy)]
pub enum Command {
    DefaultMode,
    Version,
    Enumerate,
    SetColor,
    MapPanels,
    Reset,
    TestMessage,
}

impl Command {
    pub open spec fn spec_from_byte(b: u8) -> Option<Command> {
        if b == 0x44 {
            Some(Command::DefaultMode)
        } else if b == 0x56 {
            Some(Command::Version)
        } else if b == 0x45 {
            Some(Command::Enumerate)
        } else if b == 0x4c {
            Some(Command::SetColor)
        } else if b == 0x4d {
            Some(Command::MapPanels)
        } else if b == 0x52 {
            Some(Command::Reset)
        } else if b == 0x5f {
            Some(Command::TestMessage)
        } else {
            None
        }
    }

    pub fn from_byte(b: u8) -> (r: Option<Command>)
        ensures
            r == Command::spec_from_byte(b),
    {
        match b {
            0x44 => Some(Command::DefaultMode),
            0x56 => Some(Command::Version),
            0x45 => Some(Command::Enumerate),
            0x4c => Some(Command::SetColor),
            0x4d => Some(Command::MapPanels),
            0x52 => Some(Command::Reset),
            0x5f => Some(Command::TestMessage),
            _ => None,
        }
    }

    /// Whether only a master may run the command.
    pub open spec fn spec_master_only(self) -> bool {
        !(self == Command::DefaultMode || self == Command::Version)
    }
}

/// The role a board plays.
#[derive(Debug, PartialEq, Eq, Structural, Clone, Copy)]
pub enum Mode {
    Master,
    Panel,
    Spy,
}

impl Mode {
    pub open spec fn spec_raw(self) -> u8 {
        match self {
            Mode::Master => 1,
            Mode::Panel => 2,
            Mode::Spy => 3,
        }
    }

    pub open spec fn spec_from_raw(v: u8) -> Option<Mode> {
        if v == 1 {
            Some(Mode::Master)
        } else if v == 2 {
            Some(Mode::Panel)
        } else if v == 3 {
            Some(Mode::Spy)
        } else {
            None
        }
    }

    /// The number that stands for the mode in persisted configuration.
    pub fn raw(self) -> (r: u8)
        ensures
            r == self.spec_raw(),
            Mode::spec_from_raw(r) == Some(self),
    {
        match self {
            Mode::Master => 1,
            Mode::Panel => 2,
            Mode::Spy => 3,
        }
    }

    pub fn from_raw(v: u8) -> (r: Option<Mode>)
        ensures
            r == Mode::spec_from_raw(v),
    {
        match v {
            1 => Some(Mode::Master),
            2 => Some(Mode::Panel),
            3 => Some(Mode::Spy),
            _ => None,
        }
    }

    pub fn name(self) -> (r: &'static str)
        ensures
            r@ == self.spec_name()@,
    {
        match self {
            Mode::Master => "Master",
            Mode::Panel => "Panel",
            Mode::Spy => "Spy",
        }
    }

    pub open spec fn spec_name(self) -> &'static str {
        match self {
            Mode::Master => "Master",
            Mode::Panel => "Panel",
            Mode::Spy => "Spy",
        }
    }
}

/// The channel that carries packets between boards.
#[derive(Debug, PartialEq, Eq, Structural, Clone, Copy)]
pub enum CommMode {
    Radio,
    Serial,
}

impl CommMode {
    pub open spec fn spec_raw(self) -> u8 {
        match self {
            CommMode::Radio => 0,
            CommMode::Serial => 1,
        }
    }

    pub open spec fn spec_from_raw(v: u8) -> Option<CommMode> {
        if v == 0 {
            Some(CommMode::Radio)
        } else if v == 1 {
            Some(CommMode::Serial)
        } else {
            None
        }
    }

    /// The number that stands for the channel in persisted configuration.
    pub fn raw(self) -> (r: u8)
        ensures
            r == self.spec_raw(),
            CommMode::spec_from_raw(r) == Some(self),
    {
        match self {
            CommMode::Radio => 0,
            CommMode::Serial => 1,
        }
    }

    pub fn from_raw(v: u8) -> (r: Option<CommMode>)
        ensures
            r == CommMode::spec_from_raw(v),
    {
        match v {
            0 => Some(CommMode::Radio),
            1 => Some(CommMode::Serial),
            _ => None,
        }
    }

    pub open spec fn spec_name(self) -> &'static str {
        match self {
            CommMode::Radio => "Radio",
            CommMode::Serial => "Serial",
        }
    }

    pub fn mode_name(self) -> (r: &'static str)
        ensures
            r@ == self.spec_name()@,
    {
        match self {
            CommMode::Radio => "Radio",
            CommMode::Serial => "Serial",
        }
    }
}

/// What the master learns of one panel during one round of replies.
#[derive(Debug, PartialEq, Eq, Structural, Clone, Copy)]
pub struct PanelInfo {
    pub id: Address,
    pub boot_count: u8,
    pub rssi_master: i8,
    pub rssi_panel: i8,
    pub pirs: u8,
    pub slot: u8,
}

impl PanelInfo {
    /// A panel seen for the first time, with nothing known of it yet.
    pub open spec fn spec_fresh(id: u8) -> PanelInfo {
        PanelInfo { id: Address(id), boot_count: 0, rssi_master: 0, rssi_panel: 0, pirs: 0, slot: 0 }
    }
}

/// One panel's colour in a set-colour payload.
#[derive(Debug, PartialEq, Eq, Structural, Clone, Copy)]
pub struct SetColorSlot {
    pub r: u8,
    pub g: u8,
    pub b: u8,
}

} // verus!
