//! A panel's handling of the packets it receives: slot mapping, colours,
//! status lights, pings, resets and test echoes.
use vstd::prelude::*;
use crate::protocol::{Address, Message, SetColorSlot};
use crate::packet::{Packet, PacketModel};
use crate::reply::{first_index, first_index_of};

verus! {

/// What the board does besides replying.
#[derive(Debug, PartialEq, Eq, Structural, Clone, Copy)]
pub enum PanelEffect {
    Nothing,
    /// Show this colour on the LED strip.
    Color(SetColorSlot),
    /// Show these four bits on the status lights.
    Status(u8),
    /// Restart the board.
    Reset,
}

/// The outcome of one packet: the reply to send, if any, shortly after the
/// packet arrived, and the effect on the board.
pub struct PanelAction {
    pub reply: Option<Packet>,
    pub effect: PanelEffect,
}

pub struct PanelActionModel {
    pub reply: Option<PacketModel>,
    pub effect: PanelEffect,
}

impl View for PanelAction {
    type V = PanelActionModel;

    open spec fn view(&self) -> PanelActionModel {
        PanelActionModel {
            reply: match self.reply {
                Some(p) => Some(p@),
                None => None,
            },
            effect: self.effect,
        }
    }
}

/// A panel's protocol state: its address and the slot it was mapped to.
pub struct PanelModel {
    pub address: u8,
    pub my_slot: Option<u8>,
}

/// The motion bits: 1 for the first sensor, 2 for the second.
pub open spec fn pir_mask(pir1: bool, pir2: bool) -> u8 {
    ((if pir1 { 1u8 } else { 0u8 }) + (if pir2 { 2u8 } else { 0u8 })) as u8
}

pub open spec fn reply_to(me: u8, p: PacketModel, tag: Message, data: Seq<u8>) -> PacketModel {
    PacketModel { from: me, to: p.from, tag, data }
}

pub open spec fn no_action() -> PanelActionModel {
    PanelActionModel { reply: None, effect: PanelEffect::Nothing }
}

/// What a panel does with a packet, given its motion sensors and boot
/// count: its new state and the action.
pub open spec fn panel_step(s: PanelModel, p: PacketModel, pir1: bool, pir2: bool, boot_count: u8) -> (
    PanelModel,
    PanelActionModel,
) {
    match p.tag {
        Message::MapPanels => {
            let k = first_index(p.data, s.address);
            if k < p.data.len() {
                (
                    PanelModel { my_slot: Some(k as u8), ..s },
                    PanelActionModel {
                        reply: Some(reply_to(s.address, p, Message::MapPanelsReply, seq![k as u8])),
                        effect: PanelEffect::Nothing,
                    },
                )
            } else {
                (PanelModel { my_slot: None, ..s }, no_action())
            }
        },
        Message::SetColor => match s.my_slot {
            None => (s, no_action()),
            Some(slot) => if (slot + 1) * 3 > p.data.len() {
                (s, no_action())
            } else {
                (
                    s,
                    PanelActionModel {
                        reply: Some(
                            reply_to(s.address, p, Message::SetColorReply, seq![pir_mask(pir1, pir2)]),
                        ),
                        effect: PanelEffect::Color(
                            SetColorSlot {
                                r: p.data[3 * slot],
                                g: p.data[3 * slot + 1],
                                b: p.data[3 * slot + 2],
                            },
                        ),
                    },
                )
            },
        },
        Message::Ping => (
            s,
            PanelActionModel {
                reply: Some(reply_to(s.address, p, Message::PingReply, seq![boot_count, 0u8])),
                effect: PanelEffect::Nothing,
            },
        ),
        Message::Reset => (s, PanelActionModel { reply: None, effect: PanelEffect::Reset }),
        Message::SetStatus => if p.data.len() == 1 {
            (s, PanelActionModel { reply: None, effect: PanelEffect::Status(p.data[0] & 0x0f) })
        } else {
            (s, no_action())
        },
        Message::Test => (
            s,
            PanelActionModel {
                reply: Some(reply_to(s.address, p, Message::Test, p.data)),
                effect: PanelEffect::Nothing,
            },
        ),
        _ => (s, no_action()),
    }
}

/// The panel side of the protocol.
pub struct Panel {
    my_address: Address,
    my_slot: Option<u8>,
}

impl View for Panel {
    type V = PanelModel;

    closed spec fn view(&self) -> PanelModel {
        PanelModel { address: self.my_address.0, my_slot: self.my_slot }
    }
}

impl Panel {
    /// A panel not yet mapped to a slot.
    pub fn new(my_address: Address) -> (r: Panel)
        ensures
            r@ == (PanelModel { address: my_address.0, my_slot: None }),
    {
        Panel { my_address, my_slot: None }
    }

    /// The slot this panel was mapped to, if any.
    pub fn my_slot(&self) -> (r: Option<u8>)
        ensures
            r == self@.my_slot,
    {
        self.my_slot
    }

    /// The motion bits for the two sensors' levels.
    pub fn get_pirs(pir1: bool, pir2: bool) -> (r: u8)
        ensures
            r == pir_mask(pir1, pir2),
            r <= 3,
    {
        (if pir1 { 1u8 } else { 0u8 }) + (if pir2 { 2u8 } else { 0u8 })
    }

    fn reply(&self, to: &Packet, tag: Message, data: &[u8]) -> (r: Packet)
        requires
            data@.len() <= crate::protocol::MAX_PAYLOAD_SIZE,
        ensures
            r@ == reply_to(self@.address, to@, tag, data@),
    {
        let mut p = Packet::new(self.my_address, to.from, tag);
        p.push_data(data);
        assert(p@.data =~= data@);
        p
    }

    /// Handle one packet addressed to this panel, with the current levels of
    /// the two motion sensors and the board's boot count.
    pub fn handle_message(&mut self, packet: &Packet, pir1: bool, pir2: bool, boot_count: u8) -> (r:
        PanelAction)
        ensures
            (final(self)@, r@) == panel_step(old(self)@, packet@, pir1, pir2, boot_count),
    {
        let data = packet.payload();
        match packet.tag {
            Message::MapPanels => {
                let k = first_index_of(data, self.my_address.value());
                if k < data.len() {
                    let slot = k as u8;
                    let one = [slot];
                    assert(one@ =~= seq![k as u8]);
                    let reply = self.reply(packet, Message::MapPanelsReply, &one);
                    self.my_slot = Some(slot);
                    PanelAction { reply: Some(reply), effect: PanelEffect::Nothing }
                } else {
                    self.my_slot = None;
                    PanelAction { reply: None, effect: PanelEffect::Nothing }
                }
            },
            Message::SetColor => match self.my_slot {
                None => PanelAction { reply: None, effect: PanelEffect::Nothing },
                Some(slot) => {
                    let start = slot as usize * 3;
                    if start + 3 > data.len() {
                        return PanelAction { reply: None, effect: PanelEffect::Nothing };
                    }
                    let color = SetColorSlot { r: data[start], g: data[start + 1], b: data[start + 2] };
                    let pirs = Panel::get_pirs(pir1, pir2);
                    let one = [pirs];
                    assert(one@ =~= seq![pirs]);
                    let reply = self.reply(packet, Message::SetColorReply, &one);
                    PanelAction { reply: Some(reply), effect: PanelEffect::Color(color) }
                },
            },
            Message::Ping => {
                let two = [boot_count, 0u8];
                assert(two@ =~= seq![boot_count, 0u8]);
                let reply = self.reply(packet, Message::PingReply, &two);
                PanelAction { reply: Some(reply), effect: PanelEffect::Nothing }
            },
            Message::Reset => PanelAction { reply: None, effect: PanelEffect::Reset },
            Message::SetStatus => {
                if data.len() == 1 {
                    PanelAction { reply: None, effect: PanelEffect::Status(data[0] & 0x0f) }
                } else {
                    PanelAction { reply: None, effect: PanelEffect::Nothing }
                }
            },
            Message::Test => {
                let reply = self.reply(packet, Message::Test, data);
                PanelAction { reply: Some(reply), effect: PanelEffect::Nothing }
            },
            _ => PanelAction { reply: None, effect: PanelEffect::Nothing },
        }
    }
}

} // verus!
