use aunisoma::packet::Packet;
use aunisoma::panel::{Panel, PanelEffect};
use aunisoma::processor::{CmdProcessor, Step};
use aunisoma::protocol::{Address, CommMode, Message, Mode};

fn master() -> CmdProcessor {
    CmdProcessor::new(Address(1), Mode::Master, CommMode::Serial)
}

fn reply_of(step: Step) -> String {
    match step {
        Step::Reply(line) => String::from_utf8(line).unwrap(),
        Step::Broadcast { .. } => panic!("expected a reply, got a broadcast"),
        Step::SetDefaultMode(_) => panic!("expected a reply, got a mode change"),
    }
}

fn broadcast_of(step: Step) -> (Packet, u64, u64) {
    match step {
        Step::Broadcast { packet, delay_ms, window_ms } => (packet, delay_ms, window_ms),
        Step::Reply(line) => panic!("expected a broadcast, got {:?}", String::from_utf8(line)),
        Step::SetDefaultMode(_) => panic!("expected a broadcast, got a mode change"),
    }
}

fn reply_packet(from: u8, to: u8, tag: Message, data: &[u8]) -> Packet {
    let mut p = Packet::new(Address(from), Address(to), tag);
    p.push_data(data);
    p
}

#[test]
fn master_only_command_refused_on_panel() {
    let mut p = CmdProcessor::new(Address(5), Mode::Panel, CommMode::Radio);
    for line in [&b"E"[..], b"L000000", b"M04", b"R", b"_01"] {
        assert_eq!(reply_of(p.handle_command(Mode::Panel, line)), "ERROR Unknown command");
    }
}

#[test]
fn unknown_command_refused() {
    let mut m = master();
    assert_eq!(reply_of(m.handle_command(Mode::Master, b"X")), "ERROR Unknown command");
    assert_eq!(reply_of(m.handle_command(Mode::Master, b"")), "");
}

#[test]
fn version_is_stable() {
    let mut m = CmdProcessor::new(Address(12), Mode::Master, CommMode::Radio);
    let first = reply_of(m.handle_command(Mode::Master, b"V"));
    let second = reply_of(m.handle_command(Mode::Master, b"V"));
    assert_eq!(first, second);
    assert_eq!(first, "Aunisoma version 0.1.0 ID=12 Mode=Master Comm=Radio");
}

#[test]
fn default_mode_command() {
    let mut m = master();
    assert!(matches!(m.handle_command(Mode::Panel, b"DM"), Step::SetDefaultMode(Mode::Master)));
    assert!(matches!(m.handle_command(Mode::Panel, b"DP"), Step::SetDefaultMode(Mode::Panel)));
    assert!(matches!(m.handle_command(Mode::Panel, b"DS"), Step::SetDefaultMode(Mode::Spy)));
    assert_eq!(reply_of(m.handle_command(Mode::Master, b"DX")), "ERROR Expected M, P, or S");
    assert_eq!(reply_of(m.handle_command(Mode::Master, b"D")), "ERROR Expected M, P, or S");
}

#[test]
fn set_color_argument_errors() {
    let mut m = master();
    assert_eq!(reply_of(m.handle_command(Mode::Master, b"L12345")), "ERROR Expected 6 hex digits per color");
    assert_eq!(reply_of(m.handle_command(Mode::Master, b"L12345g")), "ERROR Invalid hex byte");
    let many = [b'0'; 6 * 21];
    let mut line = vec![b'L'];
    line.extend_from_slice(&many);
    assert_eq!(reply_of(m.handle_command(Mode::Master, &line)), "ERROR Too many slots");
}

#[test]
fn map_panels_argument_errors() {
    let mut m = master();
    assert_eq!(reply_of(m.handle_command(Mode::Master, b"M040")), "ERROR");
    assert_eq!(reply_of(m.handle_command(Mode::Master, b"M04zz")), "ERROR Invalid hex byte");
    let mut line = vec![b'M'];
    line.extend_from_slice(&[b'0'; 66]);
    assert_eq!(reply_of(m.handle_command(Mode::Master, &line)), "ERROR");
}

#[test]
fn test_message_command() {
    let mut m = master();
    assert_eq!(reply_of(m.handle_command(Mode::Master, b"_1")), "ERROR");
    assert_eq!(reply_of(m.handle_command(Mode::Master, b"_zz")), "ERROR Invalid hex byte");
    let (capped, _, _) = broadcast_of(m.handle_command(Mode::Master, b"_ff"));
    let expected: Vec<u8> = (1..=61).collect();
    assert_eq!(capped.payload(), &expected[..]);
    assert_eq!(reply_of(m.window_closed(10)), "OK");
    let (packet, _, window) = broadcast_of(m.handle_command(Mode::Master, b"_03"));
    assert_eq!(packet.tag, Message::Test);
    assert_eq!(packet.to, Address(0xFF));
    assert_eq!(packet.payload(), &[1, 2, 3]);
    assert_eq!(window, 10);
    assert_eq!(reply_of(m.window_closed(10)), "OK");
}

#[test]
fn enumerate_lists_panels_as_json() {
    let mut m = master();
    let (packet, _, window) = broadcast_of(m.handle_command(Mode::Master, b"E"));
    assert_eq!(packet.tag, Message::Ping);
    assert_eq!(window, 40);
    m.handle_reply(&reply_packet(12, 1, Message::PingReply, &[123, 0xDD]));
    m.handle_reply(&reply_packet(9, 1, Message::PingReply, &[97, 0]));
    m.handle_reply(&reply_packet(12, 1, Message::PingReply, &[124, 0]));
    assert_eq!(
        reply_of(m.window_closed(40)),
        "[{\"id\":12,\"bootCount\":124,\"rssiM\":0,\"rssiP\":0}, {\"id\":9,\"bootCount\":97,\"rssiM\":0,\"rssiP\":0}]"
    );
}

#[test]
fn enumerate_negative_rssi_and_empty() {
    let mut m = master();
    broadcast_of(m.handle_command(Mode::Master, b"E"));
    m.handle_reply(&reply_packet(7, 1, Message::PingReply, &[5, 0xD6]));
    assert_eq!(reply_of(m.window_closed(40)), "[{\"id\":7,\"bootCount\":5,\"rssiM\":0,\"rssiP\":-42}]");
    broadcast_of(m.handle_command(Mode::Master, b"E"));
    assert_eq!(reply_of(m.window_closed(40)), "[]");
}

#[test]
fn map_panels_fails_for_silent_panel() {
    let mut m = master();
    let (packet, _, window) = broadcast_of(m.handle_command(Mode::Master, b"M0408"));
    assert_eq!(packet.tag, Message::MapPanels);
    assert_eq!(packet.payload(), &[4, 8]);
    assert_eq!(window, 300);
    let mut elapsed = 0;
    for round in 0..4 {
        m.handle_reply(&reply_packet(4, 1, Message::MapPanelsReply, &[0]));
        elapsed += 300;
        let step = m.window_closed(elapsed);
        if round < 3 {
            let (again, delay, _) = broadcast_of(step);
            assert_eq!(again.payload(), &[4, 8]);
            assert_eq!(delay, 50);
            elapsed += 50;
        } else {
            assert_eq!(reply_of(step), "FAILED 08");
        }
    }
}

#[test]
fn map_panels_ok_when_all_reply() {
    let mut m = master();
    broadcast_of(m.handle_command(Mode::Master, b"M0408"));
    m.handle_reply(&reply_packet(8, 1, Message::MapPanelsReply, &[1]));
    broadcast_of(m.window_closed(300));
    m.handle_reply(&reply_packet(4, 1, Message::MapPanelsReply, &[0]));
    assert_eq!(reply_of(m.window_closed(650)), "OK");
}

#[test]
fn map_panels_stops_at_deadline() {
    let mut m = master();
    broadcast_of(m.handle_command(Mode::Master, b"M0a"));
    assert_eq!(reply_of(m.window_closed(5001)), "FAILED 0a");
}

#[test]
fn panel_maps_slot_and_takes_its_colour() {
    let mut panel = Panel::new(Address(8));
    let map = reply_packet(1, 0xFF, Message::MapPanels, &[4, 8, 10]);
    let action = panel.handle_message(&map, false, false, 7);
    assert_eq!(panel.my_slot(), Some(1));
    let reply = action.reply.unwrap();
    assert_eq!(reply.tag, Message::MapPanelsReply);
    assert_eq!(reply.payload(), &[1]);
    assert_eq!(reply.to, Address(1));
    assert_eq!(reply.from, Address(8));
    let colors: Vec<u8> = (0..18).collect();
    let set = reply_packet(1, 0xFF, Message::SetColor, &colors);
    let action = panel.handle_message(&set, true, false, 7);
    match action.effect {
        PanelEffect::Color(c) => assert_eq!((c.r, c.g, c.b), (3, 4, 5)),
        _ => panic!("expected a colour"),
    }
    assert_eq!(action.reply.unwrap().payload(), &[1]);
}

#[test]
fn panel_unmapped_or_short_payload_is_silent() {
    let mut panel = Panel::new(Address(8));
    let set = reply_packet(1, 0xFF, Message::SetColor, &[1, 2, 3]);
    let action = panel.handle_message(&set, true, true, 7);
    assert!(action.reply.is_none());
    assert_eq!(action.effect, PanelEffect::Nothing);
    panel.handle_message(&reply_packet(1, 0xFF, Message::MapPanels, &[4, 8]), false, false, 7);
    let action = panel.handle_message(&set, true, true, 7);
    assert!(action.reply.is_none());
    let action = panel.handle_message(&reply_packet(1, 0xFF, Message::MapPanels, &[4]), false, false, 7);
    assert!(action.reply.is_none());
    assert_eq!(panel.my_slot(), None);
}

#[test]
fn panel_ping_status_reset_and_test() {
    let mut panel = Panel::new(Address(8));
    let ping = panel.handle_message(&reply_packet(1, 0xFF, Message::Ping, &[]), false, false, 42);
    let reply = ping.reply.unwrap();
    assert_eq!(reply.tag, Message::PingReply);
    assert_eq!(reply.payload(), &[42, 0]);
    let status = panel.handle_message(&reply_packet(1, 0xFF, Message::SetStatus, &[0xA5]), false, false, 42);
    assert!(status.reply.is_none());
    assert_eq!(status.effect, PanelEffect::Status(5));
    let reset = panel.handle_message(&reply_packet(1, 0xFF, Message::Reset, &[]), false, false, 42);
    assert!(reset.reply.is_none());
    assert_eq!(reset.effect, PanelEffect::Reset);
    let test = panel.handle_message(&reply_packet(1, 0xFF, Message::Test, &[1, 2]), false, false, 42);
    let reply = test.reply.unwrap();
    assert_eq!(reply.tag, Message::Test);
    assert_eq!(reply.payload(), &[1, 2]);
}

#[test]
fn pir_bits() {
    assert_eq!(Panel::get_pirs(false, false), 0);
    assert_eq!(Panel::get_pirs(true, false), 1);
    assert_eq!(Panel::get_pirs(false, true), 2);
    assert_eq!(Panel::get_pirs(true, true), 3);
}

/// Deliver a broadcast to the panels that listen, and their replies to the master.
fn deliver(m: &mut CmdProcessor, packet: &Packet, panels: &mut [(Panel, bool, bool)]) {
    for (panel, pir1, pir2) in panels.iter_mut() {
        if let Some(reply) = panel.handle_message(packet, *pir1, *pir2, 1).reply {
            m.handle_reply(&reply);
        }
    }
}

#[test]
fn end_to_end_map_then_colours() {
    let mut m = master();
    let mut panels = vec![
        (Panel::new(Address(8)), true, false),
        (Panel::new(Address(10)), true, true),
    ];
    let mut step = m.handle_command(Mode::Master, b"M04080a");
    let mut elapsed = 0;
    let map_reply = loop {
        match step {
            Step::Broadcast { packet, window_ms, delay_ms } => {
                deliver(&mut m, &packet, &mut panels);
                elapsed += delay_ms + window_ms;
                step = m.window_closed(elapsed);
            }
            other => break reply_of(other),
        }
    };
    assert_eq!(map_reply, "FAILED 04");
    let (packet, _, window) = broadcast_of(m.handle_command(Mode::Master, b"L010203040506070809"));
    assert_eq!(packet.payload().len(), 9);
    assert_eq!(window, 32);
    deliver(&mut m, &packet, &mut panels);
    assert_eq!(reply_of(m.window_closed(32)), "013");
}

#[test]
fn set_color_without_mapping_gives_zeros() {
    let mut m = master();
    let (packet, _, _) = broadcast_of(m.handle_command(Mode::Master, b"Lffffff000000"));
    assert_eq!(packet.payload(), &[255, 255, 255, 0, 0, 0]);
    m.handle_reply(&reply_packet(8, 1, Message::SetColorReply, &[3]));
    assert_eq!(reply_of(m.window_closed(32)), "00");
}

#[test]
fn reset_all_confirms_new_boot_counts() {
    let mut m = master();
    let (ping, _, _) = broadcast_of(m.handle_command(Mode::Master, b"R"));
    assert_eq!(ping.tag, Message::Ping);
    m.handle_reply(&reply_packet(8, 1, Message::PingReply, &[5, 0]));
    m.handle_reply(&reply_packet(9, 1, Message::PingReply, &[6, 0]));
    let (reset, _, window) = broadcast_of(m.window_closed(40));
    assert_eq!(reset.tag, Message::Reset);
    assert_eq!(window, 200);
    let (ping, _, _) = broadcast_of(m.window_closed(240));
    assert_eq!(ping.tag, Message::Ping);
    m.handle_reply(&reply_packet(8, 1, Message::PingReply, &[6, 0]));
    m.handle_reply(&reply_packet(9, 1, Message::PingReply, &[7, 0]));
    assert_eq!(reply_of(m.window_closed(280)), "OK");
}

#[test]
fn reset_all_reports_stuck_panels() {
    let mut m = master();
    broadcast_of(m.handle_command(Mode::Master, b"R"));
    m.handle_reply(&reply_packet(8, 1, Message::PingReply, &[5, 0]));
    let mut step = m.window_closed(40);
    let mut attempts = 0;
    loop {
        let (reset, _, _) = broadcast_of(step);
        assert_eq!(reset.tag, Message::Reset);
        attempts += 1;
        broadcast_of(m.window_closed(0));
        m.handle_reply(&reply_packet(8, 1, Message::PingReply, &[5, 0]));
        step = m.window_closed(0);
        if let Step::Reply(line) = step {
            assert_eq!(String::from_utf8(line).unwrap(), "FAILED 08");
            break;
        }
    }
    assert_eq!(attempts, 4);
}

#[test]
fn window_closed_when_idle_gives_empty_reply() {
    let mut m = master();
    assert_eq!(reply_of(m.window_closed(0)), "");
}

#[test]
fn map_panels_repeated_id_confirms_every_position() {
    let mut m = master();
    broadcast_of(m.handle_command(Mode::Master, b"M0404"));
    m.handle_reply(&reply_packet(4, 1, Message::MapPanelsReply, &[0]));
    assert_eq!(reply_of(m.window_closed(300)), "OK");
}

#[test]
fn panel_maps_from_long_id_list() {
    let mut panel = Panel::new(Address(8));
    panel.handle_message(&reply_packet(1, 0xFF, Message::MapPanels, &[4, 8]), false, false, 7);
    assert_eq!(panel.my_slot(), Some(1));
    let zeros = [0u8; 33];
    let action = panel.handle_message(&reply_packet(1, 0xFF, Message::MapPanels, &zeros), false, false, 7);
    assert!(action.reply.is_none());
    assert_eq!(panel.my_slot(), None);
    let mut ids = [0u8; 40];
    ids[35] = 8;
    let action = panel.handle_message(&reply_packet(1, 0xFF, Message::MapPanels, &ids), false, false, 7);
    assert_eq!(panel.my_slot(), Some(35));
    assert_eq!(action.reply.unwrap().payload(), &[35]);
}

#[test]
fn set_color_digit_is_zero_plus_pir_byte() {
    let mut m = master();
    broadcast_of(m.handle_command(Mode::Master, b"M08"));
    m.handle_reply(&reply_packet(8, 1, Message::MapPanelsReply, &[0]));
    assert_eq!(reply_of(m.window_closed(300)), "OK");
    broadcast_of(m.handle_command(Mode::Master, b"L010203"));
    m.handle_reply(&reply_packet(8, 1, Message::SetColorReply, &[5]));
    assert_eq!(reply_of(m.window_closed(32)), "5");
}
