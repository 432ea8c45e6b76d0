//! The text of the master's replies.
use vstd::prelude::*;
use crate::protocol::{Address, PanelInfo, Mode, CommMode};
use crate::text::{text, decimal, signed_decimal, push_text, push_decimal, push_signed_decimal};
use crate::hex::{hex_pair, push_hex_pair};

verus! {

/// The firmware's build identifier.
pub const VERSION: &'static str = "0.1.0";

/// The index of the first panel record with id `id`, or the number of
/// records if there is none.
pub open spec fn find_panel(panels: Seq<PanelInfo>, id: u8) -> nat
    decreases panels.len(),
{
    if panels.len() == 0 {
        0
    } else if panels[0].id.0 == id {
        0
    } else {
        1 + find_panel(panels.subrange(1, panels.len() as int), id)
    }
}

/// The index of the first occurrence of `b` in `s`, or the length of `s`.
pub open spec fn first_index(s: Seq<u8>, b: u8) -> nat
    decreases s.len(),
{
    if s.len() == 0 {
        0
    } else if s[0] == b {
        0
    } else {
        1 + first_index(s.subrange(1, s.len() as int), b)
    }
}

pub proof fn lemma_find_panel(panels: Seq<PanelInfo>, id: u8)
    ensures
        find_panel(panels, id) <= panels.len(),
        forall|j: int| 0 <= j < find_panel(panels, id) ==> panels[j].id.0 != id,
        find_panel(panels, id) < panels.len() ==> panels[find_panel(panels, id) as int].id.0 == id,
    decreases panels.len(),
{
    if panels.len() > 0 && panels[0].id.0 != id {
        let t = panels.subrange(1, panels.len() as int);
        lemma_find_panel(t, id);
        assert forall|j: int| 0 <= j < find_panel(panels, id) implies panels[j].id.0 != id by {
            if j > 0 {
                assert(panels[j] == t[j - 1]);
            }
        }
    }
}

proof fn lemma_find_panel_at(panels: Seq<PanelInfo>, id: u8, k: int)
    requires
        0 <= k <= panels.len(),
        forall|j: int| 0 <= j < k ==> panels[j].id.0 != id,
        k < panels.len() ==> panels[k].id.0 == id,
    ensures
        find_panel(panels, id) == k,
    decreases k,
{
    if k > 0 {
        lemma_find_panel_at(panels.subrange(1, panels.len() as int), id, k - 1);
    }
}

proof fn lemma_first_index_at(s: Seq<u8>, b: u8, k: int)
    requires
        0 <= k <= s.len(),
        forall|j: int| 0 <= j < k ==> s[j] != b,
        k < s.len() ==> s[k] == b,
    ensures
        first_index(s, b) == k,
    decreases k,
{
    if k > 0 {
        lemma_first_index_at(s.subrange(1, s.len() as int), b, k - 1);
    }
}

/// Find the first panel record with id `id`.
pub fn find_panel_index(panels: &[PanelInfo], id: u8) -> (r: usize)
    ensures
        r == find_panel(panels@, id),
{
    let mut i: usize = 0;
    while i < panels.len() && panels[i].id.0 != id
        invariant
            i <= panels@.len(),
            forall|j: int| 0 <= j < i ==> panels@[j].id.0 != id,
        decreases panels@.len() - i,
    {
        i = i + 1;
    }
    proof {
        lemma_find_panel_at(panels@, id, i as int);
    }
    i
}

/// Find the first occurrence of a byte.
pub fn first_index_of(s: &[u8], b: u8) -> (r: usize)
    ensures
        r == first_index(s@, b),
{
    let mut i: usize = 0;
    while i < s.len() && s[i] != b
        invariant
            i <= s@.len(),
            forall|j: int| 0 <= j < i ==> s@[j] != b,
        decreases s@.len() - i,
    {
        i = i + 1;
    }
    proof {
        lemma_first_index_at(s@, b, i as int);
    }
    i
}

/// The version reply: build, address, role and channel.
pub open spec fn version_line(address: u8, mode: Mode, comm: CommMode) -> Seq<u8> {
    text("Aunisoma version ") + text(VERSION) + text(" ID=") + decimal(address as nat) + text(
        " Mode=",
    ) + text(mode.spec_name()) + text(" Comm=") + text(comm.spec_name())
}

/// One panel as a JSON object.
pub open spec fn panel_json(p: PanelInfo) -> Seq<u8> {
    text("{\"id\":") + decimal(p.id.0 as nat) + text(",\"bootCount\":") + decimal(
        p.boot_count as nat,
    ) + text(",\"rssiM\":") + signed_decimal(p.rssi_master as int) + text(",\"rssiP\":")
        + signed_decimal(p.rssi_panel as int) + text("}")
}

/// The JSON objects of the first `n` panels, separated by ", ".
pub open spec fn panels_json_items(panels: Seq<PanelInfo>, n: nat) -> Seq<u8>
    decreases n,
{
    if n == 0 {
        Seq::empty()
    } else if n == 1 {
        panel_json(panels[0])
    } else {
        panels_json_items(panels, (n - 1) as nat) + text(", ") + panel_json(panels[n - 1])
    }
}

/// The enumerate reply: a JSON array of the panels seen.
pub open spec fn panels_json(panels: Seq<PanelInfo>) -> Seq<u8> {
    text("[") + panels_json_items(panels, panels.len()) + text("]")
}

/// The set-colour reply digit of slot `i`: `'0'` plus the motion bits of
/// the panel mapped to the slot (modulo 256), or `'0'` when no panel is
/// mapped there or it did not reply.
pub open spec fn pir_digit(panels: Seq<PanelInfo>, slot_map: Seq<u8>, i: int) -> u8 {
    if i < slot_map.len() && find_panel(panels, slot_map[i]) < panels.len() {
        ((0x30 + panels[find_panel(panels, slot_map[i]) as int].pirs) % 256) as u8
    } else {
        0x30
    }
}

/// The set-colour reply: one digit per requested slot, in slot order.
pub open spec fn pir_digits(panels: Seq<PanelInfo>, slot_map: Seq<u8>, n: nat) -> Seq<u8> {
    Seq::new(n, |i: int| pir_digit(panels, slot_map, i))
}

/// The ids in `ids` at the positions not marked in `done`, each as two hex
/// digits.
pub open spec fn unconfirmed_hex(ids: Seq<u8>, done: Seq<bool>, n: nat) -> Seq<u8>
    decreases n,
{
    if n == 0 {
        Seq::empty()
    } else {
        unconfirmed_hex(ids, done, (n - 1) as nat) + if done[n - 1] {
            Seq::empty()
        } else {
            hex_pair(ids[n - 1])
        }
    }
}

pub fn push_version_line(out: &mut Vec<u8>, address: Address, mode: Mode, comm: CommMode)
    ensures
        final(out)@ == old(out)@ + version_line(address.0, mode, comm),
{
    push_text(out, "Aunisoma version ");
    push_text(out, VERSION);
    push_text(out, " ID=");
    push_decimal(out, address.value());
    push_text(out, " Mode=");
    push_text(out, mode.name());
    push_text(out, " Comm=");
    push_text(out, comm.mode_name());
    assert(final(out)@ =~= old(out)@ + version_line(address.0, mode, comm));
}

fn push_panel_json(out: &mut Vec<u8>, p: PanelInfo)
    ensures
        final(out)@ == old(out)@ + panel_json(p),
{
    push_text(out, "{\"id\":");
    push_decimal(out, p.id.0);
    push_text(out, ",\"bootCount\":");
    push_decimal(out, p.boot_count);
    push_text(out, ",\"rssiM\":");
    push_signed_decimal(out, p.rssi_master);
    push_text(out, ",\"rssiP\":");
    push_signed_decimal(out, p.rssi_panel);
    push_text(out, "}");
    assert(final(out)@ =~= old(out)@ + panel_json(p));
}

/// The enumerate reply for the panels seen.
pub fn format_panels_json(panels: &[PanelInfo]) -> (r: Vec<u8>)
    ensures
        r@ == panels_json(panels@),
{
    let mut out: Vec<u8> = Vec::new();
    push_text(&mut out, "[");
    let mut i: usize = 0;
    while i < panels.len()
        invariant
            i <= panels@.len(),
            out@ == text("[") + panels_json_items(panels@, i as nat),
        decreases panels@.len() - i,
    {
        if i > 0 {
            push_text(&mut out, ", ");
        }
        push_panel_json(&mut out, panels[i]);
        i = i + 1;
        assert(out@ =~= text("[") + panels_json_items(panels@, i as nat));
    }
    push_text(&mut out, "]");
    out
}

/// The set-colour reply for `n` slots.
pub fn format_pir_digits(panels: &[PanelInfo], slot_map: &Vec<u8>, n: usize) -> (r: Vec<u8>)
    ensures
        r@ == pir_digits(panels@, slot_map@, n as nat),
{
    let mut out: Vec<u8> = Vec::new();
    let mut i: usize = 0;
    while i < n
        invariant
            i <= n,
            out@ == pir_digits(panels@, slot_map@, i as nat),
        decreases n - i,
    {
        let mut digit: u8 = 0x30;
        if i < slot_map.len() {
            let k = find_panel_index(panels, slot_map[i]);
            if k < panels.len() {
                proof {
                    lemma_find_panel(panels@, slot_map@[i as int]);
                }
                let v = panels[k].pirs;
                digit = if v < 0xd0 { 0x30 + v } else { v - 0xd0 };
            }
        }
        out.push(digit);
        i = i + 1;
        assert(out@ =~= pir_digits(panels@, slot_map@, i as nat));
    }
    out
}

/// Append the ids not marked done, as hex.
pub fn push_unconfirmed(out: &mut Vec<u8>, ids: &Vec<u8>, done: &Vec<bool>)
    requires
        ids@.len() == done@.len(),
    ensures
        final(out)@ == old(out)@ + unconfirmed_hex(ids@, done@, ids@.len()),
{
    let mut i: usize = 0;
    while i < ids.len()
        invariant
            i <= ids@.len(),
            ids@.len() == done@.len(),
            out@ == old(out)@ + unconfirmed_hex(ids@, done@, i as nat),
        decreases ids@.len() - i,
    {
        if !done[i] {
            push_hex_pair(out, ids[i]);
        }
        i = i + 1;
        assert(out@ =~= old(out)@ + unconfirmed_hex(ids@, done@, i as nat));
    }
}

} // verus!
