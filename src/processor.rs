//! The command interpreter and the master's reply aggregation.
//!
//! A command line either gets its reply at once, or starts an aggregation:
//! the caller broadcasts the packet it is handed, passes every reply that
//! arrives within the window to `handle_reply`, and then calls
//! `window_closed`, which either gives the reply line or asks for another
//! broadcast.
use vstd::prelude::*;
use crate::protocol::{
    Address, Command, CommMode, Message, Mode, PanelInfo, BROADCAST_ID, MAX_PANEL_SLOTS,
    MAX_PAYLOAD_SIZE,
};
use crate::packet::{Packet, PacketModel};
use crate::hex::{hex_byte, hex_bytes, parse_hex_byte, parse_hex_bytes, lemma_hex_bytes_len, to_vec};
use crate::text::{text, push_text};
use crate::reply::{
    find_panel, find_panel_index, lemma_find_panel, version_line,
    panels_json, pir_digits, unconfirmed_hex, push_version_line, format_panels_json,
    format_pir_digits, push_unconfirmed,
};

verus! {

pub const ENUMERATE_WINDOW_MS: u64 = 40;

/// One millisecond for each slot a set-colour request can address.
pub const SET_COLOR_WINDOW_MS: u64 = 32;

pub const MAP_PANELS_WINDOW_MS: u64 = 300;

/// The pause before each repeated map-panels broadcast.
pub const MAP_PANELS_PAUSE_MS: u64 = 50;

/// The most map-panels broadcasts for one command.
pub const MAP_PANELS_ROUNDS: u32 = 4;

/// No map-panels broadcast is repeated after this long.
pub const MAP_PANELS_DEADLINE_MS: u64 = 5000;

pub const TEST_WINDOW_MS: u64 = 10;

/// How long panels get to restart before they are asked for their boot count.
pub const RESET_SETTLE_MS: u64 = 200;

/// The most reset broadcasts for one command.
pub const RESET_ATTEMPTS: u32 = 4;

/// The most slots one set-colour packet has room for.
pub const MAX_COLOR_SLOTS: usize = 20;

pub const UNKNOWN_COMMAND: &'static str = "ERROR Unknown command";

pub const EXPECTED_MODE: &'static str = "ERROR Expected M, P, or S";

pub const EXPECTED_COLORS: &'static str = "ERROR Expected 6 hex digits per color";

pub const TOO_MANY_SLOTS: &'static str = "ERROR Too many slots";

pub const INVALID_HEX: &'static str = "ERROR Invalid hex byte";

pub const BAD_ARGUMENTS: &'static str = "ERROR";

pub const DONE: &'static str = "OK";

pub const FAILED: &'static str = "FAILED ";

/// What the caller does next.
pub enum Step {
    /// Send the line back to the port the command came from.
    Reply(Vec<u8>),
    /// Wait `delay_ms`, broadcast `packet`, collect replies for `window_ms`,
    /// then call `window_closed`.
    Broadcast { packet: Packet, delay_ms: u64, window_ms: u64 },
    /// Persist the mode as the board's default and reset the board.
    SetDefaultMode(Mode),
}

pub enum StepModel {
    Reply(Seq<u8>),
    Broadcast { packet: PacketModel, delay_ms: u64, window_ms: u64 },
    SetDefaultMode(Mode),
}

impl View for Step {
    type V = StepModel;

    open spec fn view(&self) -> StepModel {
        match self {
            Step::Reply(line) => StepModel::Reply(line@),
            Step::Broadcast { packet, delay_ms, window_ms } => StepModel::Broadcast {
                packet: packet@,
                delay_ms: *delay_ms,
                window_ms: *window_ms,
            },
            Step::SetDefaultMode(m) => StepModel::SetDefaultMode(*m),
        }
    }
}

/// The aggregation in progress.
pub enum Pending {
    Idle,
    Enumerate,
    SetColor { slots: usize },
    MapPanels { ids: Vec<u8>, confirmed: Vec<bool>, round: u32 },
    Test,
    ResetSurvey,
    ResetSettle { before: Vec<PanelInfo>, attempt: u32 },
    ResetConfirm { before: Vec<PanelInfo>, attempt: u32 },
}

pub enum PendingModel {
    Idle,
    Enumerate,
    SetColor { slots: nat },
    MapPanels { ids: Seq<u8>, confirmed: Seq<bool>, round: nat },
    Test,
    ResetSurvey,
    ResetSettle { before: Seq<PanelInfo>, attempt: nat },
    ResetConfirm { before: Seq<PanelInfo>, attempt: nat },
}

impl View for Pending {
    type V = PendingModel;

    open spec fn view(&self) -> PendingModel {
        match self {
            Pending::Idle => PendingModel::Idle,
            Pending::Enumerate => PendingModel::Enumerate,
            Pending::SetColor { slots } => PendingModel::SetColor { slots: *slots as nat },
            Pending::MapPanels { ids, confirmed, round } => PendingModel::MapPanels {
                ids: ids@,
                confirmed: confirmed@,
                round: *round as nat,
            },
            Pending::Test => PendingModel::Test,
            Pending::ResetSurvey => PendingModel::ResetSurvey,
            Pending::ResetSettle { before, attempt } => PendingModel::ResetSettle {
                before: before@,
                attempt: *attempt as nat,
            },
            Pending::ResetConfirm { before, attempt } => PendingModel::ResetConfirm {
                before: before@,
                attempt: *attempt as nat,
            },
        }
    }
}

/// The interpreter's state as the protocol sees it.
pub struct ProcModel {
    pub mode: Mode,
    pub comm: CommMode,
    pub address: u8,
    /// The panels seen in the current round of replies.
    pub panels: Seq<PanelInfo>,
    /// The panel ids of the last map-panels command, in slot order.
    pub slot_map: Seq<u8>,
    pub pending: PendingModel,
}

pub open spec fn broadcast_packet(address: u8, tag: Message, data: Seq<u8>) -> PacketModel {
    PacketModel { from: address, to: BROADCAST_ID, tag, data }
}

/// The payload length a test request for `n` bytes gets: `n`, capped at
/// the largest payload.
pub open spec fn test_payload_len(n: u8) -> nat {
    if n > MAX_PAYLOAD_SIZE {
        MAX_PAYLOAD_SIZE as nat
    } else {
        n as nat
    }
}

/// The test payload of `n` bytes: 1, 2, .., n.
pub open spec fn counting(n: nat) -> Seq<u8> {
    Seq::new(n, |i: int| (i + 1) as u8)
}

/// The role a default-mode argument names.
pub open spec fn mode_letter(b: u8) -> Option<Mode> {
    if b == 0x4d {
        Some(Mode::Master)
    } else if b == 0x50 {
        Some(Mode::Panel)
    } else if b == 0x53 {
        Some(Mode::Spy)
    } else {
        None
    }
}

pub open spec fn reply_text(s: &str) -> StepModel {
    StepModel::Reply(text(s))
}

pub open spec fn start_round(s: ProcModel, pending: PendingModel) -> ProcModel {
    ProcModel { panels: Seq::empty(), pending, ..s }
}

pub open spec fn finish(s: ProcModel) -> ProcModel {
    ProcModel { pending: PendingModel::Idle, ..s }
}

pub open spec fn master_step(s: ProcModel, c: Command, args: Seq<u8>) -> (ProcModel, StepModel) {
    match c {
        Command::Enumerate => (
            start_round(s, PendingModel::Enumerate),
            StepModel::Broadcast {
                packet: broadcast_packet(s.address, Message::Ping, Seq::empty()),
                delay_ms: 0,
                window_ms: ENUMERATE_WINDOW_MS,
            },
        ),
        Command::SetColor => if args.len() % 6 != 0 {
            (s, reply_text(EXPECTED_COLORS))
        } else if args.len() / 6 > MAX_COLOR_SLOTS {
            (s, reply_text(TOO_MANY_SLOTS))
        } else {
            match hex_bytes(args) {
                None => (s, reply_text(INVALID_HEX)),
                Some(colors) => (
                    start_round(s, PendingModel::SetColor { slots: args.len() / 6 }),
                    StepModel::Broadcast {
                        packet: broadcast_packet(s.address, Message::SetColor, colors),
                        delay_ms: 0,
                        window_ms: SET_COLOR_WINDOW_MS,
                    },
                ),
            }
        },
        Command::MapPanels => if args.len() % 2 != 0 || args.len() > 2 * MAX_PANEL_SLOTS {
            (s, reply_text(BAD_ARGUMENTS))
        } else {
            match hex_bytes(args) {
                None => (s, reply_text(INVALID_HEX)),
                Some(ids) => (
                    start_round(
                        ProcModel { slot_map: ids, ..s },
                        PendingModel::MapPanels {
                            ids,
                            confirmed: Seq::new(ids.len(), |i: int| false),
                            round: 1,
                        },
                    ),
                    StepModel::Broadcast {
                        packet: broadcast_packet(s.address, Message::MapPanels, ids),
                        delay_ms: 0,
                        window_ms: MAP_PANELS_WINDOW_MS,
                    },
                ),
            }
        },
        Command::Reset => (
            start_round(s, PendingModel::ResetSurvey),
            StepModel::Broadcast {
                packet: broadcast_packet(s.address, Message::Ping, Seq::empty()),
                delay_ms: 0,
                window_ms: ENUMERATE_WINDOW_MS,
            },
        ),
        Command::TestMessage => if args.len() != 2 {
            (s, reply_text(BAD_ARGUMENTS))
        } else {
            match hex_byte(args) {
                None => (s, reply_text(INVALID_HEX)),
                Some(n) => (
                    start_round(s, PendingModel::Test),
                    StepModel::Broadcast {
                        packet: broadcast_packet(
                            s.address,
                            Message::Test,
                            counting(test_payload_len(n)),
                        ),
                        delay_ms: 0,
                        window_ms: TEST_WINDOW_MS,
                    },
                ),
            }
        },
        _ => (s, reply_text(UNKNOWN_COMMAND)),
    }
}

/// What a command line does, given in the role `role`: the new state and
/// the next step. The first byte picks the command, the rest are its
/// arguments. Only a master runs the commands that reach the panels.
pub open spec fn command_step(s: ProcModel, role: Mode, line: Seq<u8>) -> (ProcModel, StepModel) {
    if line.len() == 0 {
        (s, StepModel::Reply(Seq::empty()))
    } else {
        let args = line.subrange(1, line.len() as int);
        match Command::spec_from_byte(line[0]) {
            Some(Command::DefaultMode) => (
                s,
                if args.len() == 1 && mode_letter(args[0]) is Some {
                    StepModel::SetDefaultMode(mode_letter(args[0]).unwrap())
                } else {
                    reply_text(EXPECTED_MODE)
                },
            ),
            Some(Command::Version) => (s, StepModel::Reply(version_line(s.address, s.mode, s.comm))),
            Some(c) => if role == Mode::Master {
                master_step(s, c, args)
            } else {
                (s, reply_text(UNKNOWN_COMMAND))
            },
            None => (s, reply_text(UNKNOWN_COMMAND)),
        }
    }
}

/// A panel record with the fields a reply carries filled in; replies of
/// the wrong length change nothing.
pub open spec fn apply_reply(info: PanelInfo, p: PacketModel) -> PanelInfo {
    match p.tag {
        Message::PingReply => if p.data.len() == 2 {
            PanelInfo { boot_count: p.data[0], rssi_panel: p.data[1] as i8, ..info }
        } else {
            info
        },
        Message::SetColorReply => if p.data.len() == 1 {
            PanelInfo { pirs: p.data[0], ..info }
        } else {
            info
        },
        Message::MapPanelsReply => if p.data.len() == 1 {
            PanelInfo { slot: p.data[0], ..info }
        } else {
            info
        },
        _ => info,
    }
}

/// The panels seen after one more reply: the sender's record is updated,
/// or made on first sight while there is room for it.
pub open spec fn fold_reply(panels: Seq<PanelInfo>, p: PacketModel) -> Seq<PanelInfo> {
    let k = find_panel(panels, p.from);
    if k < panels.len() {
        panels.update(k as int, apply_reply(panels[k as int], p))
    } else if panels.len() < MAX_PANEL_SLOTS {
        panels.push(apply_reply(PanelInfo::spec_fresh(p.from), p))
    } else {
        panels
    }
}

/// The map-panels positions confirmed once the panels seen are counted:
/// a position counts when a panel with its id replied.
pub open spec fn confirm(confirmed: Seq<bool>, ids: Seq<u8>, panels: Seq<PanelInfo>) -> Seq<bool> {
    Seq::new(
        ids.len(),
        |j: int| confirmed[j] || find_panel(panels, ids[j]) < panels.len(),
    )
}

pub open spec fn all_true(s: Seq<bool>) -> bool {
    forall|j: int| 0 <= j < s.len() ==> s[j]
}

/// Which of the panels seen before a reset have restarted: those not seen
/// now with the same boot count.
pub open spec fn reset_done(before: Seq<PanelInfo>, now: Seq<PanelInfo>) -> Seq<bool> {
    Seq::new(
        before.len(),
        |i: int|
            !(find_panel(now, before[i].id.0) < now.len() && now[find_panel(
                now,
                before[i].id.0,
            ) as int].boot_count == before[i].boot_count),
    )
}

pub open spec fn panel_ids(panels: Seq<PanelInfo>) -> Seq<u8> {
    Seq::new(panels.len(), |i: int| panels[i].id.0)
}

/// What the end of a reply window does, `elapsed_ms` after the command
/// began: the new state and the next step.
pub open spec fn window_step(s: ProcModel, elapsed_ms: u64) -> (ProcModel, StepModel) {
    match s.pending {
        PendingModel::Idle => (s, StepModel::Reply(Seq::empty())),
        PendingModel::Enumerate => (finish(s), StepModel::Reply(panels_json(s.panels))),
        PendingModel::SetColor { slots } => (
            finish(s),
            StepModel::Reply(pir_digits(s.panels, s.slot_map, slots)),
        ),
        PendingModel::Test => (finish(s), reply_text(DONE)),
        PendingModel::MapPanels { ids, confirmed, round } => {
            let now = confirm(confirmed, ids, s.panels);
            if all_true(now) {
                (finish(s), reply_text(DONE))
            } else if round >= MAP_PANELS_ROUNDS || elapsed_ms > MAP_PANELS_DEADLINE_MS {
                (finish(s), StepModel::Reply(text(FAILED) + unconfirmed_hex(ids, now, ids.len())))
            } else {
                (
                    start_round(s, PendingModel::MapPanels { ids, confirmed: now, round: round + 1 }),
                    StepModel::Broadcast {
                        packet: broadcast_packet(s.address, Message::MapPanels, ids),
                        delay_ms: MAP_PANELS_PAUSE_MS,
                        window_ms: MAP_PANELS_WINDOW_MS,
                    },
                )
            }
        },
        PendingModel::ResetSurvey => (
            start_round(s, PendingModel::ResetSettle { before: s.panels, attempt: 1 }),
            StepModel::Broadcast {
                packet: broadcast_packet(s.address, Message::Reset, Seq::empty()),
                delay_ms: 0,
                window_ms: RESET_SETTLE_MS,
            },
        ),
        PendingModel::ResetSettle { before, attempt } => (
            start_round(s, PendingModel::ResetConfirm { before, attempt }),
            StepModel::Broadcast {
                packet: broadcast_packet(s.address, Message::Ping, Seq::empty()),
                delay_ms: 0,
                window_ms: ENUMERATE_WINDOW_MS,
            },
        ),
        PendingModel::ResetConfirm { before, attempt } => {
            let done = reset_done(before, s.panels);
            if all_true(done) {
                (finish(s), reply_text(DONE))
            } else if attempt >= RESET_ATTEMPTS {
                (
                    finish(s),
                    StepModel::Reply(text(FAILED) + unconfirmed_hex(panel_ids(before), done, before.len())),
                )
            } else {
                (
                    start_round(s, PendingModel::ResetSettle { before, attempt: attempt + 1 }),
                    StepModel::Broadcast {
                        packet: broadcast_packet(s.address, Message::Reset, Seq::empty()),
                        delay_ms: 0,
                        window_ms: RESET_SETTLE_MS,
                    },
                )
            }
        },
    }
}

/// One round of a multi-reply command: a reply arrives, then the window
/// closes `elapsed_ms` after the command began.
pub open spec fn round_with(s: ProcModel, reply: PacketModel, elapsed_ms: u64) -> (ProcModel, StepModel) {
    window_step(ProcModel { panels: fold_reply(s.panels, reply), ..s }, elapsed_ms)
}

proof fn lemma_parse_four_eight()
    ensures
        hex_bytes(seq![0x30u8, 0x34u8, 0x30u8, 0x38u8]) == Some(seq![4u8, 8u8]),
{
    let args = seq![0x30u8, 0x34u8, 0x30u8, 0x38u8];
    assert(args.subrange(0, 2) =~= seq![0x30u8, 0x34u8]);
    let tail = args.subrange(2, 4);
    assert(tail =~= seq![0x30u8, 0x38u8]);
    assert(tail.subrange(0, 2) =~= seq![0x30u8, 0x38u8]);
    assert(tail.subrange(2, 2) =~= Seq::<u8>::empty());
    assert(hex_byte(seq![0x30u8, 0x34u8]) == Some(4u8));
    assert(hex_byte(seq![0x30u8, 0x38u8]) == Some(8u8));
    assert(hex_bytes(Seq::<u8>::empty()) == Some(Seq::<u8>::empty()));
    assert(hex_bytes(tail) == Some(seq![8u8])) by {
        assert(seq![8u8] + Seq::<u8>::empty() =~= seq![8u8]);
    }
    assert(seq![4u8] + seq![8u8] =~= seq![4u8, 8u8]);
}

proof fn lemma_only_four_confirms(reply: PacketModel, confirmed: Seq<bool>)
    requires
        reply.from == 4,
        confirmed.len() == 2,
        !confirmed[1],
    ensures
        confirm(confirmed, seq![4u8, 8u8], fold_reply(Seq::empty(), reply)) == seq![true, false],
{
    let only4 = seq![apply_reply(PanelInfo::spec_fresh(4), reply)];
    assert(fold_reply(Seq::<PanelInfo>::empty(), reply) =~= only4);
    assert(find_panel(only4, 4) == 0);
    assert(only4.subrange(1, 1) =~= Seq::<PanelInfo>::empty());
    assert(find_panel(only4.subrange(1, 1), 8) == 0);
    assert(find_panel(only4, 8) == 1);
    assert(confirm(confirmed, seq![4u8, 8u8], only4) =~= seq![true, false]);
}

proof fn lemma_map_round(t: ProcModel, reply: PacketModel, e: u64, confirmed: Seq<bool>, round: nat)
    requires
        reply.from == 4,
        t.panels == Seq::<PanelInfo>::empty(),
        t.pending == (PendingModel::MapPanels { ids: seq![4u8, 8u8], confirmed, round }),
        confirmed.len() == 2,
        !confirmed[1],
        e <= MAP_PANELS_DEADLINE_MS,
        round < MAP_PANELS_ROUNDS,
    ensures
        round_with(t, reply, e).0 == start_round(
            t,
            PendingModel::MapPanels { ids: seq![4u8, 8u8], confirmed: seq![true, false], round: round + 1 },
        ),
        round_with(t, reply, e).1 is Broadcast,
{
    lemma_only_four_confirms(reply, confirmed);
    assert(!all_true(seq![true, false]));
}

proof fn lemma_map_last_round(t: ProcModel, reply: PacketModel, e: u64)
    requires
        reply.from == 4,
        t.panels == Seq::<PanelInfo>::empty(),
        t.pending == (PendingModel::MapPanels {
            ids: seq![4u8, 8u8],
            confirmed: seq![true, false],
            round: MAP_PANELS_ROUNDS as nat,
        }),
    ensures
        round_with(t, reply, e).1 == StepModel::Reply(text(FAILED) + crate::hex::hex_pair(8)),
{
    let ids = seq![4u8, 8u8];
    let c = seq![true, false];
    lemma_only_four_confirms(reply, c);
    assert(!all_true(c));
    assert(unconfirmed_hex(ids, c, 0) == Seq::<u8>::empty());
    assert(unconfirmed_hex(ids, c, 1) =~= Seq::<u8>::empty());
    assert(unconfirmed_hex(ids, c, 2) =~= crate::hex::hex_pair(8));
}

proof fn lemma_map_command(s: ProcModel)
    ensures
        command_step(s, Mode::Master, seq![0x4du8, 0x30u8, 0x34u8, 0x30u8, 0x38u8]) == (
            start_round(
                ProcModel { slot_map: seq![4u8, 8u8], ..s },
                PendingModel::MapPanels {
                    ids: seq![4u8, 8u8],
                    confirmed: Seq::new(2, |i: int| false),
                    round: 1,
                },
            ),
            StepModel::Broadcast {
                packet: broadcast_packet(s.address, Message::MapPanels, seq![4u8, 8u8]),
                delay_ms: 0,
                window_ms: MAP_PANELS_WINDOW_MS,
            },
        ),
{
    let line = seq![0x4du8, 0x30u8, 0x34u8, 0x30u8, 0x38u8];
    assert(line.subrange(1, 5) =~= seq![0x30u8, 0x34u8, 0x30u8, 0x38u8]);
    lemma_parse_four_eight();
}

/// Mapping panels 4 and 8 where, in each of the four rounds, only panel 4
/// replies (before the deadline) ends with the reply `FAILED 08`, after one
/// broadcast per round.
pub proof fn lemma_map_panels_silent_panel(
    s: ProcModel,
    reply: PacketModel,
    e1: u64,
    e2: u64,
    e3: u64,
    e4: u64,
)
    requires
        reply.from == 4,
        e1 <= MAP_PANELS_DEADLINE_MS,
        e2 <= MAP_PANELS_DEADLINE_MS,
        e3 <= MAP_PANELS_DEADLINE_MS,
    ensures
        ({
            let (s0, b0) = command_step(s, Mode::Master, seq![0x4du8, 0x30u8, 0x34u8, 0x30u8, 0x38u8]);
            let (s1, b1) = round_with(s0, reply, e1);
            let (s2, b2) = round_with(s1, reply, e2);
            let (s3, b3) = round_with(s2, reply, e3);
            let (s4, b4) = round_with(s3, reply, e4);
            &&& b0 == StepModel::Broadcast {
                packet: broadcast_packet(s.address, Message::MapPanels, seq![4u8, 8u8]),
                delay_ms: 0,
                window_ms: MAP_PANELS_WINDOW_MS,
            }
            &&& b1 is Broadcast && b2 is Broadcast && b3 is Broadcast
            &&& b4 == StepModel::Reply(text(FAILED) + crate::hex::hex_pair(8))
        }),
{
    let line = seq![0x4du8, 0x30u8, 0x34u8, 0x30u8, 0x38u8];
    let ids = seq![4u8, 8u8];
    let f = Seq::new(2, |i: int| false);
    lemma_map_command(s);
    let s0 = command_step(s, Mode::Master, line).0;
    lemma_map_round(s0, reply, e1, f, 1);
    let s1 = round_with(s0, reply, e1).0;
    lemma_map_round(s1, reply, e2, seq![true, false], 2);
    let s2 = round_with(s1, reply, e2).0;
    lemma_map_round(s2, reply, e3, seq![true, false], 3);
    let s3 = round_with(s2, reply, e3).0;
    lemma_map_last_round(s3, reply, e4);
}

pub open spec fn pending_wf(p: PendingModel) -> bool {
    match p {
        PendingModel::MapPanels { ids, confirmed, round } => {
            &&& ids.len() <= MAX_PANEL_SLOTS
            &&& confirmed.len() == ids.len()
            &&& round <= MAP_PANELS_ROUNDS
        },
        PendingModel::ResetSettle { before, attempt } => before.len() <= MAX_PANEL_SLOTS && attempt
            <= RESET_ATTEMPTS,
        PendingModel::ResetConfirm { before, attempt } => before.len() <= MAX_PANEL_SLOTS && attempt
            <= RESET_ATTEMPTS,
        _ => true,
    }
}

pub open spec fn proc_wf(s: ProcModel) -> bool {
    s.panels.len() <= MAX_PANEL_SLOTS && pending_wf(s.pending)
}

/// The panels a master has seen in the current round.
pub uninterp spec fn panels_of(v: heapless::Vec<PanelInfo, 32>) -> Seq<PanelInfo>;

/// Relies on heapless::Vec::new: a new vector is empty.
#[verifier::external_body]
fn panels_new() -> (r: heapless::Vec<PanelInfo, 32>)
    ensures
        panels_of(r) == Seq::<PanelInfo>::empty(),
{
    heapless::Vec::new()
}

/// Relies on heapless::Vec::len: the number of items held, never above the
/// capacity.
#[verifier::external_body]
fn panels_len(v: &heapless::Vec<PanelInfo, 32>) -> (r: usize)
    ensures
        r == panels_of(*v).len(),
        r <= 32,
{
    v.len()
}

/// Relies on heapless::Vec::as_slice: the items held, in order.
#[verifier::external_body]
fn panels_slice(v: &heapless::Vec<PanelInfo, 32>) -> (r: &[PanelInfo])
    ensures
        r@ == panels_of(*v),
{
    v.as_slice()
}

/// Relies on heapless::Vec::push: appends the item when there is room, and
/// otherwise changes nothing and hands it back.
#[verifier::external_body]
fn panels_push(v: &mut heapless::Vec<PanelInfo, 32>, item: PanelInfo) -> (r: Result<(), PanelInfo>)
    ensures
        r is Ok <==> panels_of(*old(v)).len() < 32,
        r is Ok ==> panels_of(*final(v)) == panels_of(*old(v)).push(item),
        r matches Err(x) ==> x == item && panels_of(*final(v)) == panels_of(*old(v)),
{
    v.push(item)
}

/// Relies on heapless::Vec::as_mut_slice: the items held, so that one of
/// them is overwritten in place (the index is within the length).
#[verifier::external_body]
fn panels_set(v: &mut heapless::Vec<PanelInfo, 32>, i: usize, item: PanelInfo)
    requires
        i < panels_of(*old(v)).len(),
    ensures
        panels_of(*final(v)) == panels_of(*old(v)).update(i as int, item),
{
    v.as_mut_slice()[i] = item;
}

/// Relies on heapless::Vec::clear: afterwards the vector is empty.
#[verifier::external_body]
fn panels_clear(v: &mut heapless::Vec<PanelInfo, 32>)
    ensures
        panels_of(*final(v)) == Seq::<PanelInfo>::empty(),
{
    v.clear()
}

fn reply_with(s: &str) -> (r: Step)
    ensures
        r@ == reply_text(s),
{
    let mut line: Vec<u8> = Vec::new();
    push_text(&mut line, s);
    Step::Reply(line)
}

fn copy_panels(panels: &[PanelInfo]) -> (r: Vec<PanelInfo>)
    ensures
        r@ == panels@,
{
    let mut out: Vec<PanelInfo> = Vec::new();
    let mut i: usize = 0;
    while i < panels.len()
        invariant
            i <= panels@.len(),
            out@ == panels@.subrange(0, i as int),
        decreases panels@.len() - i,
    {
        out.push(panels[i]);
        i = i + 1;
        assert(out@ =~= panels@.subrange(0, i as int));
    }
    assert(panels@.subrange(0, i as int) =~= panels@);
    out
}

fn all_set(flags: &Vec<bool>) -> (r: bool)
    ensures
        r == all_true(flags@),
{
    let mut i: usize = 0;
    while i < flags.len()
        invariant
            i <= flags@.len(),
            forall|j: int| 0 <= j < i ==> flags@[j],
        decreases flags@.len() - i,
    {
        if !flags[i] {
            return false;
        }
        i = i + 1;
    }
    true
}

fn confirm_slots(confirmed: &Vec<bool>, ids: &Vec<u8>, panels: &[PanelInfo]) -> (r: Vec<bool>)
    requires
        confirmed@.len() == ids@.len(),
    ensures
        r@ == confirm(confirmed@, ids@, panels@),
{
    let mut out: Vec<bool> = Vec::new();
    let mut j: usize = 0;
    while j < ids.len()
        invariant
            j <= ids@.len(),
            confirmed@.len() == ids@.len(),
            out@ == confirm(confirmed@, ids@, panels@).subrange(0, j as int),
        decreases ids@.len() - j,
    {
        let id = ids[j];
        let seen = find_panel_index(panels, id) < panels.len();
        out.push(confirmed[j] || seen);
        j = j + 1;
        assert(out@ =~= confirm(confirmed@, ids@, panels@).subrange(0, j as int));
    }
    assert(confirm(confirmed@, ids@, panels@).subrange(0, j as int) =~= confirm(confirmed@, ids@, panels@));
    out
}

fn restarted(before: &Vec<PanelInfo>, now: &[PanelInfo]) -> (r: Vec<bool>)
    ensures
        r@ == reset_done(before@, now@),
{
    let mut out: Vec<bool> = Vec::new();
    let mut i: usize = 0;
    while i < before.len()
        invariant
            i <= before@.len(),
            out@ == reset_done(before@, now@).subrange(0, i as int),
        decreases before@.len() - i,
    {
        let old_info = before[i];
        let k = find_panel_index(now, old_info.id.0);
        let same = k < now.len() && now[k].boot_count == old_info.boot_count;
        out.push(!same);
        i = i + 1;
        assert(out@ =~= reset_done(before@, now@).subrange(0, i as int));
    }
    assert(reset_done(before@, now@).subrange(0, i as int) =~= reset_done(before@, now@));
    out
}

fn ids_of(panels: &Vec<PanelInfo>) -> (r: Vec<u8>)
    ensures
        r@ == panel_ids(panels@),
{
    let mut out: Vec<u8> = Vec::new();
    let mut i: usize = 0;
    while i < panels.len()
        invariant
            i <= panels@.len(),
            out@ == panel_ids(panels@).subrange(0, i as int),
        decreases panels@.len() - i,
    {
        out.push(panels[i].id.0);
        i = i + 1;
        assert(out@ =~= panel_ids(panels@).subrange(0, i as int));
    }
    assert(panel_ids(panels@).subrange(0, i as int) =~= panel_ids(panels@));
    out
}

fn apply_reply_to(info: PanelInfo, p: &Packet) -> (r: PanelInfo)
    ensures
        r == apply_reply(info, p@),
{
    let data = p.payload();
    match p.tag {
        Message::PingReply => if data.len() == 2 {
            PanelInfo { boot_count: data[0], rssi_panel: data[1] as i8, ..info }
        } else {
            info
        },
        Message::SetColorReply => if data.len() == 1 {
            PanelInfo { pirs: data[0], ..info }
        } else {
            info
        },
        Message::MapPanelsReply => if data.len() == 1 {
            PanelInfo { slot: data[0], ..info }
        } else {
            info
        },
        _ => info,
    }
}

/// Interprets command lines and, on a master, gathers the panels' replies.
pub struct CmdProcessor {
    mode: Mode,
    comm: CommMode,
    address: Address,
    panels: heapless::Vec<PanelInfo, 32>,
    slot_map: Vec<u8>,
    pending: Pending,
}

impl View for CmdProcessor {
    type V = ProcModel;

    closed spec fn view(&self) -> ProcModel {
        ProcModel {
            mode: self.mode,
            comm: self.comm,
            address: self.address.0,
            panels: panels_of(self.panels),
            slot_map: self.slot_map@,
            pending: self.pending@,
        }
    }
}

impl CmdProcessor {
    pub open spec fn wf(&self) -> bool {
        proc_wf(self@)
    }

    /// A board in role `mode` on channel `comm`, idle, with no panels known.
    pub fn new(address: Address, mode: Mode, comm: CommMode) -> (r: CmdProcessor)
        ensures
            r@ == (ProcModel {
                mode,
                comm,
                address: address.0,
                panels: Seq::empty(),
                slot_map: Seq::empty(),
                pending: PendingModel::Idle,
            }),
            r.wf(),
    {
        CmdProcessor {
            mode,
            comm,
            address,
            panels: panels_new(),
            slot_map: Vec::new(),
            pending: Pending::Idle,
        }
    }

    fn broadcast(&self, tag: Message, data: &[u8]) -> (r: Packet)
        requires
            data@.len() <= MAX_PAYLOAD_SIZE,
        ensures
            r@ == broadcast_packet(self@.address, tag, data@),
    {
        let mut p = Packet::new(self.address, Address::broadcast(), tag);
        p.push_data(data);
        assert(p@.data =~= data@);
        p
    }

    fn command_default_mode(args: &[u8]) -> (r: Step)
        ensures
            r@ == (if args@.len() == 1 && mode_letter(args@[0]) is Some {
                StepModel::SetDefaultMode(mode_letter(args@[0]).unwrap())
            } else {
                reply_text(EXPECTED_MODE)
            }),
    {
        if args.len() != 1 {
            return reply_with(EXPECTED_MODE);
        }
        match args[0] {
            0x4d => Step::SetDefaultMode(Mode::Master),
            0x50 => Step::SetDefaultMode(Mode::Panel),
            0x53 => Step::SetDefaultMode(Mode::Spy),
            _ => reply_with(EXPECTED_MODE),
        }
    }

    fn command_set_color(&mut self, args: &[u8]) -> (r: Step)
        requires
            old(self).wf(),
        ensures
            final(self).wf(),
            (final(self)@, r@) == master_step(old(self)@, Command::SetColor, args@),
    {
        if args.len() % 6 != 0 {
            return reply_with(EXPECTED_COLORS);
        }
        let num_slots = args.len() / 6;
        if num_slots > MAX_COLOR_SLOTS {
            return reply_with(TOO_MANY_SLOTS);
        }
        match parse_hex_bytes(args) {
            None => reply_with(INVALID_HEX),
            Some(colors) => {
                proof {
                    lemma_hex_bytes_len(args@);
                }
                let packet = self.broadcast(Message::SetColor, colors.as_slice());
                panels_clear(&mut self.panels);
                self.pending = Pending::SetColor { slots: num_slots };
                Step::Broadcast { packet, delay_ms: 0, window_ms: SET_COLOR_WINDOW_MS }
            },
        }
    }

    fn command_map_panels(&mut self, args: &[u8]) -> (r: Step)
        requires
            old(self).wf(),
        ensures
            final(self).wf(),
            (final(self)@, r@) == master_step(old(self)@, Command::MapPanels, args@),
    {
        if args.len() % 2 != 0 || args.len() > 2 * MAX_PANEL_SLOTS {
            return reply_with(BAD_ARGUMENTS);
        }
        match parse_hex_bytes(args) {
            None => reply_with(INVALID_HEX),
            Some(ids) => {
                proof {
                    lemma_hex_bytes_len(args@);
                }
                let packet = self.broadcast(Message::MapPanels, ids.as_slice());
                let mut confirmed: Vec<bool> = Vec::new();
                let mut i: usize = 0;
                while i < ids.len()
                    invariant
                        i <= ids@.len(),
                        confirmed@ == Seq::new(i as nat, |j: int| false),
                    decreases ids@.len() - i,
                {
                    confirmed.push(false);
                    i = i + 1;
                    assert(confirmed@ =~= Seq::new(i as nat, |j: int| false));
                }
                self.slot_map = to_vec(ids.as_slice());
                panels_clear(&mut self.panels);
                self.pending = Pending::MapPanels { ids, confirmed, round: 1 };
                Step::Broadcast { packet, delay_ms: 0, window_ms: MAP_PANELS_WINDOW_MS }
            },
        }
    }

    fn command_test_message(&mut self, args: &[u8]) -> (r: Step)
        requires
            old(self).wf(),
        ensures
            final(self).wf(),
            (final(self)@, r@) == master_step(old(self)@, Command::TestMessage, args@),
    {
        if args.len() != 2 {
            return reply_with(BAD_ARGUMENTS);
        }
        let len = match parse_hex_byte(args) {
            Some(v) => v,
            None => return reply_with(INVALID_HEX),
        };
        let len: u8 = if len as usize > MAX_PAYLOAD_SIZE { MAX_PAYLOAD_SIZE as u8 } else { len };
        let mut data: Vec<u8> = Vec::new();
        let mut i: u8 = 0;
        while i < len
            invariant
                i <= len,
                data@ == counting(i as nat),
            decreases len - i,
        {
            data.push(i + 1);
            i = i + 1;
            assert(data@ =~= counting(i as nat));
        }
        let packet = self.broadcast(Message::Test, data.as_slice());
        panels_clear(&mut self.panels);
        self.pending = Pending::Test;
        Step::Broadcast { packet, delay_ms: 0, window_ms: TEST_WINDOW_MS }
    }

    fn start_ping(&mut self, pending: Pending) -> (r: Step)
        requires
            old(self).wf(),
            pending_wf(pending@),
        ensures
            final(self).wf(),
            final(self)@ == start_round(old(self)@, pending@),
            r@ == (StepModel::Broadcast {
                packet: broadcast_packet(old(self)@.address, Message::Ping, Seq::empty()),
                delay_ms: 0,
                window_ms: ENUMERATE_WINDOW_MS,
            }),
    {
        let packet = Packet::new(self.address, Address::broadcast(), Message::Ping);
        panels_clear(&mut self.panels);
        self.pending = pending;
        Step::Broadcast { packet, delay_ms: 0, window_ms: ENUMERATE_WINDOW_MS }
    }

    fn start_reset(&mut self, before: Vec<PanelInfo>, attempt: u32) -> (r: Step)
        requires
            old(self).wf(),
            before@.len() <= MAX_PANEL_SLOTS,
            attempt <= RESET_ATTEMPTS,
        ensures
            final(self).wf(),
            final(self)@ == start_round(
                old(self)@,
                PendingModel::ResetSettle { before: before@, attempt: attempt as nat },
            ),
            r@ == (StepModel::Broadcast {
                packet: broadcast_packet(old(self)@.address, Message::Reset, Seq::empty()),
                delay_ms: 0,
                window_ms: RESET_SETTLE_MS,
            }),
    {
        let packet = Packet::new(self.address, Address::broadcast(), Message::Reset);
        panels_clear(&mut self.panels);
        self.pending = Pending::ResetSettle { before, attempt };
        Step::Broadcast { packet, delay_ms: 0, window_ms: RESET_SETTLE_MS }
    }

    /// Interpret one command line received while the board plays `role`.
    pub fn handle_command(&mut self, role: Mode, line: &[u8]) -> (r: Step)
        requires
            old(self).wf(),
        ensures
            final(self).wf(),
            (final(self)@, r@) == command_step(old(self)@, role, line@),
            // A command that reaches the panels, given to a board that is not
            // a master, is refused and changes nothing.
            role != Mode::Master && line@.len() > 0 && (Command::spec_from_byte(line@[0]) matches Some(
                c,
            ) && c.spec_master_only()) ==> final(self)@ == old(self)@ && r@ == reply_text(
                UNKNOWN_COMMAND,
            ),
            // The version command always gives the same line and changes nothing.
            line@.len() > 0 && line@[0] == 0x56 ==> final(self)@ == old(self)@ && r@
                == StepModel::Reply(version_line(old(self)@.address, old(self)@.mode, old(self)@.comm)),
    {
        if line.len() == 0 {
            return Step::Reply(Vec::new());
        }
        let args = vstd::slice::slice_subrange(line, 1, line.len());
        match Command::from_byte(line[0]) {
            Some(Command::DefaultMode) => CmdProcessor::command_default_mode(args),
            Some(Command::Version) => {
                let mut out: Vec<u8> = Vec::new();
                push_version_line(&mut out, self.address, self.mode, self.comm);
                Step::Reply(out)
            },
            Some(c) => {
                if role != Mode::Master {
                    return reply_with(UNKNOWN_COMMAND);
                }
                match c {
                    Command::Enumerate => self.start_ping(Pending::Enumerate),
                    Command::SetColor => self.command_set_color(args),
                    Command::MapPanels => self.command_map_panels(args),
                    Command::Reset => self.start_ping(Pending::ResetSurvey),
                    Command::TestMessage => self.command_test_message(args),
                    _ => reply_with(UNKNOWN_COMMAND),
                }
            },
            None => reply_with(UNKNOWN_COMMAND),
        }
    }

    /// Fold one reply received during a window into the panels seen.
    pub fn handle_reply(&mut self, packet: &Packet)
        requires
            old(self).wf(),
        ensures
            final(self).wf(),
            final(self)@ == (ProcModel { panels: fold_reply(old(self)@.panels, packet@), ..old(self)@ }),
    {
        let seen = panels_slice(&self.panels);
        let k = find_panel_index(seen, packet.from.0);
        let len = panels_len(&self.panels);
        proof {
            lemma_find_panel(seen@, packet@.from);
        }
        if k < len {
            let info = apply_reply_to(seen[k], packet);
            panels_set(&mut self.panels, k, info);
        } else if len < MAX_PANEL_SLOTS {
            let fresh = PanelInfo {
                id: packet.from,
                boot_count: 0,
                rssi_master: 0,
                rssi_panel: 0,
                pirs: 0,
                slot: 0,
            };
            let info = apply_reply_to(fresh, packet);
            let _ = panels_push(&mut self.panels, info);
        }
    }

    /// The reply window has closed, `elapsed_ms` after the command began.
    pub fn window_closed(&mut self, elapsed_ms: u64) -> (r: Step)
        requires
            old(self).wf(),
        ensures
            final(self).wf(),
            (final(self)@, r@) == window_step(old(self)@, elapsed_ms),
    {
        let mut pending = Pending::Idle;
        core::mem::swap(&mut pending, &mut self.pending);
        match pending {
            Pending::Idle => Step::Reply(Vec::new()),
            Pending::Enumerate => Step::Reply(format_panels_json(panels_slice(&self.panels))),
            Pending::SetColor { slots } => Step::Reply(
                format_pir_digits(panels_slice(&self.panels), &self.slot_map, slots),
            ),
            Pending::Test => reply_with(DONE),
            Pending::MapPanels { ids, confirmed, round } => {
                let now = confirm_slots(&confirmed, &ids, panels_slice(&self.panels));
                if all_set(&now) {
                    reply_with(DONE)
                } else if round >= MAP_PANELS_ROUNDS || elapsed_ms > MAP_PANELS_DEADLINE_MS {
                    let mut out: Vec<u8> = Vec::new();
                    push_text(&mut out, FAILED);
                    push_unconfirmed(&mut out, &ids, &now);
                    Step::Reply(out)
                } else {
                    let packet = self.broadcast(Message::MapPanels, ids.as_slice());
                    panels_clear(&mut self.panels);
                    self.pending = Pending::MapPanels { ids, confirmed: now, round: round + 1 };
                    Step::Broadcast {
                        packet,
                        delay_ms: MAP_PANELS_PAUSE_MS,
                        window_ms: MAP_PANELS_WINDOW_MS,
                    }
                }
            },
            Pending::ResetSurvey => {
                let before = copy_panels(panels_slice(&self.panels));
                self.start_reset(before, 1)
            },
            Pending::ResetSettle { before, attempt } => self.start_ping(
                Pending::ResetConfirm { before, attempt },
            ),
            Pending::ResetConfirm { before, attempt } => {
                let done = restarted(&before, panels_slice(&self.panels));
                if all_set(&done) {
                    reply_with(DONE)
                } else if attempt >= RESET_ATTEMPTS {
                    let mut out: Vec<u8> = Vec::new();
                    push_text(&mut out, FAILED);
                    let ids = ids_of(&before);
                    push_unconfirmed(&mut out, &ids, &done);
                    Step::Reply(out)
                } else {
                    self.start_reset(before, attempt + 1)
                }
            },
        }
    }
}

} // verus!
