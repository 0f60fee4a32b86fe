//! Dashboard domain state: escalation level, peer identities and their
//! names, the bounded event history, and the rules that one incoming event
//! or one operator key applies to them.

use std::collections::VecDeque;
use vstd::prelude::*;
use vstd::string::StrSliceExecFns;
use crate::codec::{Packet, PacketType};
use crate::render::RenderState;
use crate::render::WarnStateAsciiArt;
use crate::text::spec_decimal;
use crate::text::u64_to_string;
use crate::text::push_char;

verus! {

/// The dashboard severity, monotone within a session until an operator
/// reset.
#[derive(Debug, Clone, Copy, PartialEq, Eq, Structural)]
pub enum WarnStates {
    Idle,
    Warn,
    Alert,
}

/// The banner label of each severity.
pub open spec fn spec_warn_label(w: WarnStates) -> Seq<char> {
    match w {
        WarnStates::Idle => "NONE"@,
        WarnStates::Warn => "WARN"@,
        WarnStates::Alert => "ALERT"@,
    }
}

impl WarnStates {
    /// The label under which this severity is displayed.
    pub fn to_string(&self) -> (r: &'static str)
        ensures
            r@ == spec_warn_label(*self),
    {
        match self {
            WarnStates::Idle => "NONE",
            WarnStates::Warn => "WARN",
            WarnStates::Alert => "ALERT",
        }
    }
}

/// One client's network identity: IPv4 address and port, the durable key of
/// the name table.
#[derive(Debug, Clone, Copy, PartialEq, Eq, Hash, Structural)]
pub struct PeerAddr {
    pub ip: u32,
    pub port: u16,
}

/// The textual form of a peer address: dotted octets, a colon, the port.
pub open spec fn spec_peer_text(p: PeerAddr) -> Seq<char> {
    spec_decimal((p.ip / 0x1000000) as nat) + "."@ + spec_decimal(((p.ip / 0x10000) % 0x100) as nat)
        + "."@ + spec_decimal(((p.ip / 0x100) % 0x100) as nat) + "."@ + spec_decimal(
        (p.ip % 0x100) as nat,
    ) + ":"@ + spec_decimal(p.port as nat)
}

impl PeerAddr {
    /// Render the address as `a.b.c.d:port`.
    pub fn to_text(&self) -> (s: String)
        ensures
            s@ == spec_peer_text(*self),
    {
        let mut s = u64_to_string((self.ip / 0x1000000) as u64);
        push_char(&mut s, '.');
        let o2 = u64_to_string(((self.ip / 0x10000) % 0x100) as u64);
        s.append(o2.as_str());
        push_char(&mut s, '.');
        let o3 = u64_to_string(((self.ip / 0x100) % 0x100) as u64);
        s.append(o3.as_str());
        push_char(&mut s, '.');
        let o4 = u64_to_string((self.ip % 0x100) as u64);
        s.append(o4.as_str());
        push_char(&mut s, ':');
        let pt = u64_to_string(self.port as u64);
        s.append(pt.as_str());
        proof {
            reveal_strlit(".");
            reveal_strlit(":");
            assert(s@ =~= spec_peer_text(*self));
        }
        s
    }
}

/// One timestamped, peer-attributed occurrence fed to the aggregator.
#[derive(Debug, Clone)]
pub enum LogItem {
    PacketLogItem { timestamp: u64, peer_addr: PeerAddr, packet: Packet },
    ConnectLogItem { timestamp: u64, peer_addr: PeerAddr },
    DisconnectLogItem { timestamp: u64, peer_addr: PeerAddr },
}

/// When the item was produced, in seconds since the epoch.
pub open spec fn spec_timestamp(item: LogItem) -> u64 {
    match item {
        LogItem::PacketLogItem { timestamp, .. } => timestamp,
        LogItem::ConnectLogItem { timestamp, .. } => timestamp,
        LogItem::DisconnectLogItem { timestamp, .. } => timestamp,
    }
}

impl LogItem {
    /// When the item was produced, in seconds since the epoch.
    pub fn timestamp(&self) -> (t: u64)
        ensures
            t == spec_timestamp(*self),
    {
        match self {
            LogItem::PacketLogItem { timestamp, .. } => *timestamp,
            LogItem::ConnectLogItem { timestamp, .. } => *timestamp,
            LogItem::DisconnectLogItem { timestamp, .. } => *timestamp,
        }
    }
}

/// The map a sequence of table entries stands for: later entries win.
pub open spec fn spec_table_map(entries: Seq<(PeerAddr, String)>) -> Map<PeerAddr, Seq<char>>
    decreases entries.len(),
{
    if entries.len() == 0 {
        Map::empty()
    } else {
        spec_table_map(entries.drop_last()).insert(entries.last().0, entries.last().1@)
    }
}

/// The peer-name table: optional human-readable names keyed by address. An
/// entry never outlives its peer's connection.
pub struct NameTable {
    entries: Vec<(PeerAddr, String)>,
}

impl View for NameTable {
    type V = Map<PeerAddr, Seq<char>>;

    closed spec fn view(&self) -> Map<PeerAddr, Seq<char>> {
        spec_table_map(self.entries@)
    }
}

proof fn lemma_table_map_absent(entries: Seq<(PeerAddr, String)>, k: PeerAddr)
    requires
        forall|i: int| 0 <= i < entries.len() ==> (#[trigger] entries[i]).0 != k,
    ensures
        !spec_table_map(entries).contains_key(k),
    decreases entries.len(),
{
    if entries.len() > 0 {
        lemma_table_map_absent(entries.drop_last(), k);
    }
}

proof fn lemma_table_map_found(entries: Seq<(PeerAddr, String)>, i: int)
    requires
        0 <= i < entries.len(),
        forall|j: int| i < j < entries.len() ==> (#[trigger] entries[j]).0 != entries[i].0,
    ensures
        spec_table_map(entries).contains_key(entries[i].0),
        spec_table_map(entries)[entries[i].0] == entries[i].1@,
    decreases entries.len(),
{
    if i < entries.len() - 1 {
        lemma_table_map_found(entries.drop_last(), i);
    }
}

proof fn lemma_table_map_remove_at(entries: Seq<(PeerAddr, String)>, i: int)
    requires
        0 <= i < entries.len(),
        forall|p: int, q: int|
            0 <= p < q < entries.len() ==> (#[trigger] entries[p]).0 != (#[trigger] entries[q]).0,
    ensures
        spec_table_map(entries.remove(i)) == spec_table_map(entries).remove(entries[i].0),
    decreases entries.len(),
{
    let k = entries[i].0;
    if i == entries.len() - 1 {
        assert(entries.remove(i) =~= entries.drop_last());
        lemma_table_map_absent(entries.drop_last(), k);
        assert(spec_table_map(entries.drop_last()).insert(k, entries[i].1@).remove(k)
            =~= spec_table_map(entries.drop_last()));
    } else {
        let shorter = entries.drop_last();
        lemma_table_map_remove_at(shorter, i);
        assert(entries.remove(i).drop_last() =~= shorter.remove(i));
        assert(entries.remove(i).last() == entries.last());
        assert(spec_table_map(entries.remove(i)) == spec_table_map(shorter.remove(i)).insert(
            entries.last().0,
            entries.last().1@,
        ));
        assert(spec_table_map(shorter).remove(k).insert(entries.last().0, entries.last().1@)
            =~= spec_table_map(shorter).insert(entries.last().0, entries.last().1@).remove(k));
    }
}

/// No address is keyed twice among `entries`.
spec fn entries_distinct(entries: Seq<(PeerAddr, String)>) -> bool {
    forall|p: int, q: int|
        0 <= p < q < entries.len() ==> (#[trigger] entries[p]).0 != (#[trigger] entries[q]).0
}

proof fn lemma_remove_keeps_distinct(entries: Seq<(PeerAddr, String)>, i: int)
    requires
        0 <= i < entries.len(),
        entries_distinct(entries),
    ensures
        entries_distinct(entries.remove(i)),
        forall|j: int|
            0 <= j < entries.remove(i).len() ==> (#[trigger] entries.remove(i)[j]).0 != entries[i].0,
{
    let r = entries.remove(i);
    assert forall|j: int| 0 <= j < r.len() implies (#[trigger] r[j]).0 != entries[i].0 by {
        if j < i {
            assert(r[j] == entries[j]);
        } else {
            assert(r[j] == entries[j + 1]);
        }
    }
    assert forall|p: int, q: int| 0 <= p < q < r.len() implies (#[trigger] r[p]).0 != (
    #[trigger] r[q]).0 by {
        if q < i {
        } else if p < i {
            assert(r[q] == entries[q + 1]);
        } else {
            assert(r[p] == entries[p + 1]);
            assert(r[q] == entries[q + 1]);
        }
    }
}

impl NameTable {
    /// No address is keyed twice.
    pub closed spec fn wf(&self) -> bool {
        entries_distinct(self.entries@)
    }

    /// An empty table.
    pub fn new() -> (r: NameTable)
        ensures
            r.wf(),
            r@ == Map::<PeerAddr, Seq<char>>::empty(),
    {
        NameTable { entries: Vec::new() }
    }

    /// The index at which `peer` is keyed, if any.
    fn find(&self, peer: PeerAddr) -> (r: Option<usize>)
        ensures
            match r {
                Some(i) => i < self.entries@.len() && self.entries@[i as int].0 == peer,
                None => forall|i: int|
                    0 <= i < self.entries@.len() ==> (#[trigger] self.entries@[i]).0 != peer,
            },
    {
        let mut i: usize = 0;
        while i < self.entries.len()
            invariant
                i <= self.entries@.len(),
                forall|j: int| 0 <= j < i ==> (#[trigger] self.entries@[j]).0 != peer,
            decreases self.entries@.len() - i,
        {
            if self.entries[i].0.ip == peer.ip && self.entries[i].0.port == peer.port {
                assert(self.entries@[i as int].0 == peer);
                return Some(i);
            }
            i = i + 1;
        }
        None
    }

    /// Upsert `peer`'s name.
    pub fn insert(&mut self, peer: PeerAddr, name: String)
        requires
            old(self).wf(),
        ensures
            final(self).wf(),
            final(self)@ == old(self)@.insert(peer, name@),
    {
        let ghost e0 = self.entries@;
        match self.find(peer) {
            Some(i) => {
                proof {
                    lemma_table_map_remove_at(e0, i as int);
                    lemma_remove_keeps_distinct(e0, i as int);
                }
                self.entries.remove(i);
            },
            None => {},
        }
        let ghost e1 = self.entries@;
        proof {
            lemma_table_map_absent(e1, peer);
        }
        self.entries.push((peer, name));
        proof {
            assert(self.entries@.drop_last() =~= e1);
            assert(spec_table_map(self.entries@) == spec_table_map(e1).insert(peer, name@));
            assert(spec_table_map(self.entries@) =~= spec_table_map(e0).insert(peer, name@));
            assert forall|p: int, q: int|
                0 <= p < q < self.entries@.len() implies (#[trigger] self.entries@[p]).0 != (
            #[trigger] self.entries@[q]).0 by {
                if q == self.entries@.len() - 1 {
                    assert(self.entries@[p] == e1[p]);
                } else {
                    assert(self.entries@[p] == e1[p]);
                    assert(self.entries@[q] == e1[q]);
                }
            }
        }
    }

    /// Drop `peer`'s name, if it has one.
    pub fn remove(&mut self, peer: PeerAddr)
        requires
            old(self).wf(),
        ensures
            final(self).wf(),
            final(self)@ == old(self)@.remove(peer),
    {
        match self.find(peer) {
            Some(i) => {
                proof {
                    lemma_table_map_remove_at(self.entries@, i as int);
                    lemma_remove_keeps_distinct(self.entries@, i as int);
                }
                self.entries.remove(i);
            },
            None => {
                proof {
                    lemma_table_map_absent(self.entries@, peer);
                    assert(old(self)@.remove(peer) =~= old(self)@);
                }
            },
        }
    }

    /// Look `peer` up.
    pub fn get(&self, peer: PeerAddr) -> (r: Option<&String>)
        requires
            self.wf(),
        ensures
            match r {
                Some(s) => self@.contains_key(peer) && self@[peer] == s@,
                None => !self@.contains_key(peer),
            },
    {
        match self.find(peer) {
            Some(i) => {
                proof {
                    lemma_table_map_found(self.entries@, i as int);
                }
                Some(&self.entries[i].1)
            },
            None => {
                proof {
                    lemma_table_map_absent(self.entries@, peer);
                }
                None
            },
        }
    }
}

/// How many history entries are retained for scroll-back.
pub const HISTORY_CAP: usize = 512;

/// What one incoming item does to the escalation level: Warn raises Idle but
/// never lowers Alert; Alert raises unconditionally; nothing else moves it.
pub open spec fn spec_step_warn(w: WarnStates, item: LogItem) -> WarnStates {
    match item {
        LogItem::PacketLogItem { packet, .. } => match packet.packet_type {
            PacketType::Warn => if w == WarnStates::Alert {
                w
            } else {
                WarnStates::Warn
            },
            PacketType::Alert => WarnStates::Alert,
            _ => w,
        },
        _ => w,
    }
}

/// Whether one incoming item marks the escalation banner dirty.
pub open spec fn spec_warn_flag(w: WarnStates, item: LogItem) -> bool {
    match item {
        LogItem::PacketLogItem { packet, .. } => match packet.packet_type {
            PacketType::Warn => w != WarnStates::Alert,
            PacketType::Alert => true,
            _ => false,
        },
        _ => false,
    }
}

/// The name-table entry an item installs, if any: a Name packet whose text
/// is non-empty and at most 24 characters.
pub open spec fn spec_name_update(item: LogItem) -> Option<(PeerAddr, Seq<char>)> {
    match item {
        LogItem::PacketLogItem { peer_addr, packet, .. } => {
            if packet.packet_type == PacketType::Name {
                match packet.text {
                    Some(t) => if t@.len() != 0 && t@.len() < 25 {
                        Some((peer_addr, t@))
                    } else {
                        None
                    },
                    None => None,
                }
            } else {
                None
            }
        },
        _ => None,
    }
}

/// What one incoming item does to the name table: a disconnect clears its
/// peer's entry the instant it arrives, an acceptable Name packet upserts.
pub open spec fn spec_step_names(m: Map<PeerAddr, Seq<char>>, item: LogItem) -> Map<
    PeerAddr,
    Seq<char>,
> {
    match item {
        LogItem::DisconnectLogItem { peer_addr, .. } => m.remove(peer_addr),
        _ => match spec_name_update(item) {
            Some((p, n)) => m.insert(p, n),
            None => m,
        },
    }
}

/// What one incoming item does to the history: newest first, capped.
pub open spec fn spec_push_history(log: Seq<LogItem>, item: LogItem) -> Seq<LogItem> {
    let s = seq![item] + log;
    if s.len() <= HISTORY_CAP {
        s
    } else {
        s.take(HISTORY_CAP as int)
    }
}

/// One operator input, already freed of the terminal's event encoding.
#[derive(Debug, Clone, Copy)]
pub enum InputEvent {
    Key { ch: char, ctrl: bool },
    Esc,
    Resize,
    Other,
}

/// Whether an input asks the dashboard to quit.
pub open spec fn spec_quit_input(ev: InputEvent) -> bool {
    match ev {
        InputEvent::Key { ch, ctrl } => ch == 'q' || (ch == 'c' && ctrl),
        InputEvent::Esc => true,
        _ => false,
    }
}

/// Whether an input is the plain key `c`.
pub open spec fn spec_is_key(ev: InputEvent, c: char) -> bool {
    match ev {
        InputEvent::Key { ch, .. } => ch == c,
        _ => false,
    }
}

/// The dashboard state one consumer owns: escalation level, artwork, name
/// table and bounded history.
pub struct State {
    pub warn_state: WarnStates,
    pub warn_state_ascii_art: WarnStateAsciiArt,
    pub window_should_close: bool,
    pub packet_log: VecDeque<LogItem>,
    pub peer_names: NameTable,
    pub is_focused_mode: bool,
}

impl State {
    /// The name table is well formed and the history stays within its cap.
    pub open spec fn wf(&self) -> bool {
        &&& self.peer_names.wf()
        &&& self.packet_log@.len() <= HISTORY_CAP
    }

    /// A fresh dashboard: idle, unnamed peers, empty history.
    pub fn new(warn_state_ascii_art: WarnStateAsciiArt) -> (r: State)
        ensures
            r.wf(),
            r.warn_state == WarnStates::Idle,
            r.warn_state_ascii_art == warn_state_ascii_art,
            !r.window_should_close,
            r.packet_log@ == Seq::<LogItem>::empty(),
            r.peer_names@ == Map::<PeerAddr, Seq<char>>::empty(),
            !r.is_focused_mode,
    {
        State {
            warn_state: WarnStates::Idle,
            warn_state_ascii_art,
            window_should_close: false,
            packet_log: VecDeque::new(),
            peer_names: NameTable::new(),
            is_focused_mode: false,
        }
    }

    /// Apply one incoming item: escalate, maintain the name table, append to
    /// the history, and mark the regions that must repaint.
    pub fn apply_log_item(&mut self, render_state: &mut RenderState, item: LogItem)
        requires
            old(self).wf(),
        ensures
            final(self).wf(),
            final(self).warn_state == spec_step_warn(old(self).warn_state, item),
            final(self).peer_names@ == spec_step_names(old(self).peer_names@, item),
            final(self).packet_log@ == spec_push_history(old(self).packet_log@, item),
            final(self).window_should_close == old(self).window_should_close,
            final(self).is_focused_mode == old(self).is_focused_mode,
            final(self).warn_state_ascii_art == old(self).warn_state_ascii_art,
            final(render_state).warn_state_changed == (old(render_state).warn_state_changed
                || spec_warn_flag(old(self).warn_state, item)),
            final(render_state).packet_log_changed,
            final(render_state).focused_mode_changed == old(render_state).focused_mode_changed,
            final(render_state).clear_background == old(render_state).clear_background,
    {
        match &item {
            LogItem::PacketLogItem { peer_addr, packet, .. } => {
                match packet.packet_type {
                    PacketType::Warn => {
                        if self.warn_state != WarnStates::Alert {
                            self.warn_state = WarnStates::Warn;
                            render_state.warn_state_changed = true;
                        }
                    },
                    PacketType::Alert => {
                        self.warn_state = WarnStates::Alert;
                        render_state.warn_state_changed = true;
                    },
                    PacketType::Name => {
                        if let Some(name) = &packet.text {
                            if !name.as_str().is_empty() && name.as_str().unicode_len() < 25 {
                                self.peer_names.insert(*peer_addr, name.clone());
                            }
                        }
                    },
                    PacketType::Info => {},
                }
            },
            LogItem::DisconnectLogItem { peer_addr, .. } => {
                self.peer_names.remove(*peer_addr);
            },
            LogItem::ConnectLogItem { .. } => {},
        }
        let ghost log0 = self.packet_log@;
        self.packet_log.push_front(item);
        if self.packet_log.len() > HISTORY_CAP {
            self.packet_log.truncate(HISTORY_CAP);
            proof {
                assert(self.packet_log@ =~= spec_push_history(log0, item));
            }
        }
        render_state.packet_log_changed = true;
    }

    /// Apply one operator input: quit keys close the window, `r` resets the
    /// escalation to Idle, `f` toggles focus mode, a resize repaints all.
    pub fn handle_input(&mut self, render_state: &mut RenderState, ev: InputEvent)
        requires
            old(self).wf(),
        ensures
            final(self).wf(),
            final(self).window_should_close == (old(self).window_should_close || spec_quit_input(
                ev,
            )),
            final(self).warn_state == if spec_is_key(ev, 'r') {
                WarnStates::Idle
            } else {
                old(self).warn_state
            },
            final(self).is_focused_mode == if spec_is_key(ev, 'f') {
                !old(self).is_focused_mode
            } else {
                old(self).is_focused_mode
            },
            final(self).peer_names@ == old(self).peer_names@,
            final(self).packet_log@ == old(self).packet_log@,
            final(self).warn_state_ascii_art == old(self).warn_state_ascii_art,
            final(render_state).warn_state_changed == if (ev matches InputEvent::Resize) {
                true
            } else {
                (old(render_state).warn_state_changed || spec_is_key(ev, 'r'))
            },
            final(render_state).focused_mode_changed == if (ev matches InputEvent::Resize) {
                true
            } else {
                (old(render_state).focused_mode_changed || spec_is_key(ev, 'f'))
            },
            final(render_state).packet_log_changed == if (ev matches InputEvent::Resize) {
                true
            } else {
                old(render_state).packet_log_changed
            },
            final(render_state).clear_background == if (ev matches InputEvent::Resize) {
                true
            } else {
                old(render_state).clear_background
            },
    {
        match ev {
            InputEvent::Key { ch, ctrl } => {
                if ch == 'q' {
                    self.window_should_close = true;
                }
                if ch == 'c' && ctrl {
                    self.window_should_close = true;
                }
                if ch == 'r' {
                    self.warn_state = WarnStates::Idle;
                    render_state.warn_state_changed = true;
                }
                if ch == 'f' {
                    self.is_focused_mode = !self.is_focused_mode;
                    render_state.focused_mode_changed = true;
                }
            },
            InputEvent::Esc => {
                self.window_should_close = true;
            },
            InputEvent::Resize => {
                *render_state = RenderState::rerender_all();
            },
            InputEvent::Other => {},
        }
    }
}

/// The escalation level after a whole sequence of items, oldest first.
pub open spec fn spec_fold_warn(w: WarnStates, items: Seq<LogItem>) -> WarnStates
    decreases items.len(),
{
    if items.len() == 0 {
        w
    } else {
        spec_fold_warn(spec_step_warn(w, items[0]), items.drop_first())
    }
}

/// Whether `item` is an Alert packet.
pub open spec fn spec_is_alert_item(item: LogItem) -> bool {
    match item {
        LogItem::PacketLogItem { packet, .. } => packet.packet_type == PacketType::Alert,
        _ => false,
    }
}

/// Whether `item` is a Warn packet.
pub open spec fn spec_is_warn_item(item: LogItem) -> bool {
    match item {
        LogItem::PacketLogItem { packet, .. } => packet.packet_type == PacketType::Warn,
        _ => false,
    }
}

/// Whether any item of the sequence is an Alert packet.
pub open spec fn spec_has_alert(items: Seq<LogItem>) -> bool
    decreases items.len(),
{
    if items.len() == 0 {
        false
    } else {
        spec_is_alert_item(items[0]) || spec_has_alert(items.drop_first())
    }
}

/// Whether any item of the sequence is a Warn packet.
pub open spec fn spec_has_warn(items: Seq<LogItem>) -> bool
    decreases items.len(),
{
    if items.len() == 0 {
        false
    } else {
        spec_is_warn_item(items[0]) || spec_has_warn(items.drop_first())
    }
}

/// Escalation monotonicity from any starting level: folding a sequence of
/// items yields Alert when the level already was Alert or any Alert packet
/// occurs, else Warn when any Warn packet occurs, else the starting level.
pub proof fn lemma_escalation_from(w: WarnStates, items: Seq<LogItem>)
    ensures
        spec_fold_warn(w, items) == if w == WarnStates::Alert || spec_has_alert(items) {
            WarnStates::Alert
        } else if spec_has_warn(items) {
            WarnStates::Warn
        } else {
            w
        },
    decreases items.len(),
{
    if items.len() > 0 {
        lemma_escalation_from(spec_step_warn(w, items[0]), items.drop_first());
    }
}

/// Escalation monotonicity: after any sequence of items since the last
/// reset, the level is Alert exactly when an Alert packet occurred, else
/// Warn exactly when a Warn packet occurred, else Idle.
pub proof fn lemma_escalation_monotone(items: Seq<LogItem>)
    ensures
        spec_fold_warn(WarnStates::Idle, items) == if spec_has_alert(items) {
            WarnStates::Alert
        } else if spec_has_warn(items) {
            WarnStates::Warn
        } else {
            WarnStates::Idle
        },
{
    lemma_escalation_from(WarnStates::Idle, items);
}

/// The name under which `peer` is displayed: its table entry if it has one,
/// else its raw address text.
pub open spec fn spec_display_name(names: Map<PeerAddr, Seq<char>>, peer: PeerAddr) -> Seq<char> {
    if names.contains_key(peer) {
        names[peer]
    } else {
        spec_peer_text(peer)
    }
}

/// Whether `item` is a disconnect of `peer`.
pub open spec fn spec_is_disconnect_of(item: LogItem, peer: PeerAddr) -> bool {
    match item {
        LogItem::DisconnectLogItem { peer_addr, .. } => peer_addr == peer,
        _ => false,
    }
}

/// Whether `item` changes how `peer` is displayed.
pub open spec fn spec_touches_name(item: LogItem, peer: PeerAddr) -> bool {
    ||| spec_is_disconnect_of(item, peer)
    ||| (spec_name_update(item) matches Some((p, _)) && p == peer)
}

/// Name lifecycle, setting half: after an acceptable Name packet from a
/// peer, that peer displays under the packet's text.
pub proof fn lemma_name_set(m: Map<PeerAddr, Seq<char>>, item: LogItem)
    requires
        spec_name_update(item) is Some,
    ensures
        ({
            let (p, n) = spec_name_update(item)->Some_0;
            spec_display_name(spec_step_names(m, item), p) == n
        }),
{
}

/// Name lifecycle, clearing half: the instant a peer disconnects it
/// displays under its raw address again.
pub proof fn lemma_name_cleared(m: Map<PeerAddr, Seq<char>>, item: LogItem, peer: PeerAddr)
    requires
        spec_is_disconnect_of(item, peer),
    ensures
        spec_display_name(spec_step_names(m, item), peer) == spec_peer_text(peer),
{
}

/// The name table after a whole sequence of items, oldest first.
pub open spec fn spec_fold_names(m: Map<PeerAddr, Seq<char>>, items: Seq<LogItem>) -> Map<
    PeerAddr,
    Seq<char>,
>
    decreases items.len(),
{
    if items.len() == 0 {
        m
    } else {
        spec_fold_names(spec_step_names(m, items[0]), items.drop_first())
    }
}

/// Name lifecycle, keeping half: items that neither rename nor disconnect a
/// peer leave its displayed name alone, however many of them arrive.
pub proof fn lemma_name_preserved(m: Map<PeerAddr, Seq<char>>, items: Seq<LogItem>, peer: PeerAddr)
    requires
        forall|i: int| 0 <= i < items.len() ==> !spec_touches_name(#[trigger] items[i], peer),
    ensures
        spec_display_name(spec_fold_names(m, items), peer) == spec_display_name(m, peer),
    decreases items.len(),
{
    if items.len() > 0 {
        assert(!spec_touches_name(items[0], peer));
        lemma_name_preserved(spec_step_names(m, items[0]), items.drop_first(), peer);
    }
}

} // verus!
