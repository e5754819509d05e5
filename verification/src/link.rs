//! The BLE link as the app drives it: what each button press asks the
//! worker for, and what each thing the worker reports does to the state the
//! pages show.
//!
//! Every press bumps the epoch, so whatever the session it replaces goes on
//! to say can be told apart and fenced out; every press also drops the link
//! and everything the last board said, since as of the press none of it
//! describes anything. The worker itself, the clock and the radio are the
//! app's: it hands this module the time (milliseconds on a monotonic clock)
//! and each event, and sends the one request each press returns.
//!
//! What the board reports is kept as the app hands it over: its last fix
//! `B`, its last packet `K`, its radio config `R` and its telemetry `T`.

use vstd::prelude::*;
use crate::board::{Ack, SettingId, ack_message, ack_message_spec};
use crate::durations::{secs_text, secs_text_spec};
use crate::fmt::{dec, dec_string, push_str};
use crate::relays::{forgotten, fresh_node, pinged, reported, NodeView, Relays};
use crate::board::NodePing;

verus! {

/// What the user last told the BLE worker to do.
#[derive(Clone, Copy, Debug, PartialEq, Eq, Structural)]
pub enum BleIntent {
    /// Stay off the air until asked. Nothing reconnects on its own.
    Idle,
    /// Connect, going straight to a pinned MAC when there is one.
    Connect,
    /// Connect expecting the board to be asleep: scan continuously so a
    /// wake window cannot be missed.
    ConnectSleeping,
    /// Look for boards without connecting, to fill the device picker.
    Scanning,
}

/// One config write for the board to store.
#[derive(Clone, Copy, Debug, PartialEq, Eq, Structural)]
pub enum ConfigWrite {
    /// The notify interval, in milliseconds.
    Interval(u32),
    /// A setting measured in seconds.
    Seconds { id: SettingId, secs: u32 },
}

/// What the app asks of the BLE worker.
#[derive(Clone, Debug)]
pub enum BleCommand {
    /// Drop any link and stay off the air.
    Disconnect,
    /// Look for boards without connecting.
    Scan,
    /// Connect to `mac` (any board when `None`); `chase` scans without
    /// pause for a board that only advertises in windows.
    Connect { mac: Option<String>, chase: bool },
    /// Write one setting to the connected board.
    Config(ConfigWrite),
    /// Push a whole radio config to the connected board.
    PushConfig(Vec<u8>),
}

/// A command under the epoch of the request it belongs to.
#[derive(Clone, Debug)]
pub struct BleRequest {
    pub epoch: u64,
    pub command: BleCommand,
}

/// The board's own power and sleep settings, as it reports them.
#[derive(Clone, Copy, Debug, PartialEq, Eq, Structural)]
pub struct Settings {
    /// How often it notifies its position, in milliseconds.
    pub notify_interval_ms: u32,
    /// How often a sleeping board wakes to check in, in seconds; 0 is off.
    pub sleep_interval_s: u32,
    /// How long each wake advertises, in seconds, as the board resolved it.
    pub adv_window_s: u32,
    /// The GPS/LoRa power rail is on.
    pub pwr_en: bool,
}

impl Default for Settings {
    fn default() -> (r: Settings)
        ensures
            r == (Settings { notify_interval_ms: 0, sleep_interval_s: 0, adv_window_s: 0, pwr_en: false }),
    {
        Settings { notify_interval_ms: 0, sleep_interval_s: 0, adv_window_s: 0, pwr_en: false }
    }
}

/// A board seen by the running scan: its normalized MAC, how strong it was,
/// and when it last advertised.
#[derive(Clone, Debug)]
pub struct Seen {
    pub mac: String,
    pub rssi: Option<i16>,
    pub at: u64,
}

/// Something the worker reports.
pub enum LinkEvent<K, B, R, T, W> {
    /// The worker's own running commentary.
    Status(String),
    /// A board advertised during a scan (its MAC already normalized).
    Discovered { mac: String, rssi: Option<i16> },
    /// The link came up or went down.
    Connected(bool),
    /// The board's own position packet, and the fix it carries when it has
    /// one.
    Fix { packet: K, fix: Option<B>, at: W },
    /// A report the board relayed about another node (a position or a
    /// ping); the nodes themselves are the app's.
    Relayed,
    /// The board's answer to a config write.
    Ack(Ack),
    /// The board's health report.
    Telemetry(T),
    /// A status or log line the board relayed from its radio.
    Log(String),
    /// The board's power and sleep settings.
    Settings(Settings),
    /// The board's settings layout is newer than this build can decode.
    SettingsUnsupported,
    /// The radio config the board is running.
    RadioConfig(R),
    /// The board's radio-config layout is newer than this build can decode.
    RadioConfigUnsupported,
    /// How a radio config push ended.
    ConfigPushed(Result<String, String>),
}

/// An event under the epoch of the request the worker was serving.
pub struct LinkUpdate<K, B, R, T, W> {
    pub epoch: u64,
    pub event: LinkEvent<K, B, R, T, W>,
}

/// The least silence from a connected board before it stops counting as
/// talking, in milliseconds.
pub const LINK_SILENT_MS: u64 = 10000;

/// How long after connecting the board counts as warming up, in ms.
pub const BOARD_WARMUP_MS: u64 = 45000;

/// How long a board stays in the picker after its last advertisement, ms.
pub const SEEN_TIMEOUT_MS: u64 = 10000;

/// What the board-power panel shows.
#[derive(Clone, Copy, Debug, PartialEq, Eq, Structural)]
pub enum PowerPanel {
    /// No link: connect to see and change the settings.
    NeedLink,
    /// The board's settings layout is newer than this build decodes.
    TooNew,
    /// Connected, the settings not read yet.
    Reading,
    /// The settings, as the board reported them.
    Ready(Settings),
}

/// The line under the wake-check controls: what the board is doing.
pub open spec fn wake_line_spec(sleep_interval_s: u32) -> Seq<char> {
    if sleep_interval_s == 0 {
        "Board: sleep disabled."@
    } else {
        "Board: waking every "@ + secs_text_spec(sleep_interval_s as nat) + "."@
    }
}

/// The line under the wake-check controls: sleep off, or how often the
/// board wakes.
pub fn wake_line(sleep_interval_s: u32) -> (r: String)
    ensures
        r@ == wake_line_spec(sleep_interval_s),
{
    if sleep_interval_s == 0 {
        String::from_str("Board: sleep disabled.")
    } else {
        let mut out = String::from_str("Board: waking every ");
        let t = secs_text(sleep_interval_s);
        push_str(&mut out, t.as_str());
        push_str(&mut out, ".");
        out
    }
}

/// The link, and everything the connected board has told the app.
pub struct Link<K, B, R, T, W> {
    /// What the app is asking the worker to do.
    pub intent: BleIntent,
    /// Which request the worker is being held to; bumped by every press.
    pub epoch: u64,
    /// When the current intent was last asked for, or the link last
    /// dropped, whichever came later.
    pub intent_since: u64,
    /// The worker's last status line.
    pub status: String,
    pub connected: bool,
    /// When the current connection came up.
    pub connected_at: Option<u64>,
    /// When the board itself last said anything.
    pub board_heard: Option<u64>,
    /// The pinned board (normalized MAC), or any board.
    pub mac: Option<String>,
    /// Boards seen since the current scan started, each MAC once.
    pub discovered: Vec<Seen>,
    /// The board's last fix, and its last packet.
    pub beacon: Option<B>,
    pub beacon_packet: Option<K>,
    /// When the board's last fix arrived, by the wall clock.
    pub beacon_time: Option<W>,
    /// The nodes the board relays: each one's live view, which a board
    /// switch drops, and its recorded path, which is kept.
    pub relays: Relays<B, W>,
    pub telemetry: Option<T>,
    pub board_log: Option<String>,
    pub board_settings: Option<Settings>,
    pub settings_unsupported: bool,
    pub board_radio_config: Option<R>,
    pub radio_config_unsupported: bool,
    /// Result of the last config write, and whether one is in flight.
    pub ack: Option<Result<String, String>>,
    pub ack_pending: bool,
    /// A radio config push is in flight, and the radio page's result line.
    pub radio_push_pending: bool,
    pub radio_feedback: Option<Result<String, String>>,
    /// A sleep was commanded, for this many seconds, so the disconnect that
    /// follows is the command working rather than a fault.
    pub sleep_commanded: Option<u32>,
    /// The text boxes behind the board settings.
    pub interval_text: String,
    pub sleep_interval_text: String,
    pub adv_window_text: String,
    pub sleep_now_text: String,
}

/// The command a press sends for `intent`.
pub open spec fn command_for(intent: BleIntent, mac: Option<String>) -> BleCommand {
    match intent {
        BleIntent::Idle => BleCommand::Disconnect,
        BleIntent::Scanning => BleCommand::Scan,
        BleIntent::Connect => BleCommand::Connect { mac, chase: false },
        BleIntent::ConnectSleeping => BleCommand::Connect { mac, chase: true },
    }
}

/// The status line a press puts up until the worker catches up.
pub open spec fn intent_status(intent: BleIntent) -> Seq<char> {
    match intent {
        BleIntent::Idle => "idle"@,
        BleIntent::Scanning => "starting a scan..."@,
        _ => "starting a connect..."@,
    }
}

impl<K, B: Copy, R, T, W: Copy> Link<K, B, R, T, W> {
    /// Nothing the last board said is held any more.
    pub open spec fn board_forgotten(self) -> bool {
        &&& self.beacon.is_none()
        &&& self.beacon_packet.is_none()
        &&& self.beacon_time.is_none()
        &&& self.telemetry.is_none()
        &&& self.board_log.is_none()
        &&& self.board_settings.is_none()
        &&& !self.settings_unsupported
        &&& self.board_radio_config.is_none()
        &&& !self.radio_config_unsupported
        &&& self.ack.is_none()
        &&& !self.ack_pending
    }

    /// Everything but what the board said is as it was.
    pub open spec fn same_but_board(self, other: Self) -> bool {
        &&& self.intent == other.intent
        &&& self.epoch == other.epoch
        &&& self.intent_since == other.intent_since
        &&& self.status == other.status
        &&& self.connected == other.connected
        &&& self.connected_at == other.connected_at
        &&& self.board_heard == other.board_heard
        &&& self.mac == other.mac
        &&& self.discovered == other.discovered
        &&& self.radio_push_pending == other.radio_push_pending
        &&& self.radio_feedback == other.radio_feedback
        &&& self.sleep_commanded == other.sleep_commanded
        &&& self.interval_text == other.interval_text
        &&& self.sleep_interval_text == other.sleep_interval_text
        &&& self.adv_window_text == other.adv_window_text
        &&& self.sleep_now_text == other.sleep_now_text
    }

    /// Everything but the pinned board and the board state, unchanged.
    pub open spec fn same_but_board_and_mac(self, other: Self) -> bool {
        &&& self.intent == other.intent
        &&& self.epoch == other.epoch
        &&& self.intent_since == other.intent_since
        &&& self.status == other.status
        &&& self.connected == other.connected
        &&& self.connected_at == other.connected_at
        &&& self.board_heard == other.board_heard
        &&& self.discovered == other.discovered
        &&& self.radio_push_pending == other.radio_push_pending
        &&& self.radio_feedback == other.radio_feedback
        &&& self.sleep_commanded == other.sleep_commanded
        &&& self.interval_text == other.interval_text
        &&& self.sleep_interval_text == other.sleep_interval_text
        &&& self.adv_window_text == other.adv_window_text
        &&& self.sleep_now_text == other.sleep_now_text
    }

    /// What a press asking for `intent` at `now` makes of the link `before`
    /// (the pinned board and the relayed nodes aside): a new epoch, the link
    /// and everything the board said dropped, a radio push riding the link
    /// answered as cancelled, a new scan starting from an empty list, and
    /// the status line saying what was asked; the text boxes and a
    /// commanded sleep stay.
    pub open spec fn pressed(self, before: Self, intent: BleIntent, now: u64) -> bool {
        &&& self.epoch == before.epoch + 1
        &&& self.intent == intent
        &&& self.intent_since == now
        &&& !self.connected
        &&& self.connected_at.is_none()
        &&& self.board_heard.is_none()
        &&& self.board_forgotten()
        &&& !self.radio_push_pending
        &&& !before.radio_push_pending ==> self.radio_feedback == before.radio_feedback
        &&& before.radio_push_pending ==> (self.radio_feedback matches Some(Err(e)) && e@
            == "Send cancelled: the link was dropped before it finished."@)
        &&& self.discovered@ == (if intent == BleIntent::Scanning {
            Seq::empty()
        } else {
            before.discovered@
        })
        &&& self.status@ == intent_status(intent)
        &&& self.sleep_commanded == before.sleep_commanded
        &&& self.interval_text == before.interval_text
        &&& self.sleep_interval_text == before.sleep_interval_text
        &&& self.adv_window_text == before.adv_window_text
        &&& self.sleep_now_text == before.sleep_now_text
    }

    /// A link that has asked for nothing yet. `now` is the clock, `mac` the
    /// pinned board, and the text boxes start on the given spellings.
    pub fn new(
        now: u64,
        mac: Option<String>,
        interval_text: String,
        sleep_interval_text: String,
        adv_window_text: String,
    ) -> (r: Self)
        ensures
            r.intent == BleIntent::Idle,
            r.epoch == 0,
            r.intent_since == now,
            !r.connected,
            r.connected_at.is_none(),
            r.board_heard.is_none(),
            r.mac == mac,
            r.discovered@.len() == 0,
            r.board_forgotten(),
            r@.relays == Map::<u8, NodeView<B, W>>::empty(),
            !r.radio_push_pending,
            r.radio_feedback.is_none(),
            r.sleep_commanded.is_none(),
            r.status@ == "idle"@,
            r.interval_text == interval_text,
            r.sleep_interval_text == sleep_interval_text,
            r.adv_window_text == adv_window_text,
            r.sleep_now_text@.len() == 0,
    {
        Link {
            intent: BleIntent::Idle,
            epoch: 0,
            intent_since: now,
            status: String::from_str("idle"),
            connected: false,
            connected_at: None,
            board_heard: None,
            mac,
            discovered: Vec::new(),
            beacon: None,
            beacon_packet: None,
            beacon_time: None,
            relays: Relays::new(),
            telemetry: None,
            board_log: None,
            board_settings: None,
            settings_unsupported: false,
            board_radio_config: None,
            radio_config_unsupported: false,
            ack: None,
            ack_pending: false,
            radio_push_pending: false,
            radio_feedback: None,
            sleep_commanded: None,
            interval_text,
            sleep_interval_text,
            adv_window_text,
            sleep_now_text: String::new(),
        }
    }

    /// Drop everything the last board told us. None of it describes the
    /// next board, and a stale position is the worst of it. Recorded
    /// history (the tracks) is the app's and is kept.
    pub fn forget_board_state(&mut self)
        ensures
            final(self).board_forgotten(),
            final(self).same_but_board(*old(self)),
            final(self)@.relays == old(self)@.relays.map_values(|n: NodeView<B, W>| forgotten(n)),
    {
        self.beacon = None;
        self.beacon_packet = None;
        self.beacon_time = None;
        self.relays.forget_live();
        self.telemetry = None;
        self.board_log = None;
        self.board_settings = None;
        self.settings_unsupported = false;
        self.board_radio_config = None;
        self.radio_config_unsupported = false;
        self.ack = None;
        self.ack_pending = false;
    }

    /// Ask the worker for a new connection state, and say so even when the
    /// intent has not changed: every press is a new attempt. The epoch is
    /// bumped first, the link and everything the board said are dropped as
    /// of the press, a radio push riding the link is answered as cancelled,
    /// a new scan starts from an empty list, and exactly one command goes
    /// out, under the new epoch.
    pub fn set_ble_intent(&mut self, intent: BleIntent, now: u64) -> (req: BleRequest)
        requires
            old(self).epoch < u64::MAX,
        ensures
            final(self).pressed(*old(self), intent, now),
            final(self).mac == old(self).mac,
            final(self)@.relays == old(self)@.relays.map_values(|n: NodeView<B, W>| forgotten(n)),
            req.epoch == final(self).epoch,
            req.command == command_for(intent, old(self).mac),
    {
        self.epoch = self.epoch + 1;
        self.intent_since = now;
        self.intent = intent;
        self.connected = false;
        self.connected_at = None;
        self.board_heard = None;
        self.forget_board_state();
        if self.radio_push_pending {
            self.radio_push_pending = false;
            self.radio_feedback = Some(
                Err(String::from_str("Send cancelled: the link was dropped before it finished.")),
            );
        }
        if intent == BleIntent::Scanning {
            self.discovered.clear();
        }
        self.status = match intent {
            BleIntent::Idle => String::from_str("idle"),
            BleIntent::Scanning => String::from_str("starting a scan..."),
            BleIntent::Connect | BleIntent::ConnectSleeping => String::from_str(
                "starting a connect...",
            ),
        };
        let command = match intent {
            BleIntent::Idle => BleCommand::Disconnect,
            BleIntent::Scanning => BleCommand::Scan,
            BleIntent::Connect => BleCommand::Connect { mac: self.mac.clone(), chase: false },
            BleIntent::ConnectSleeping => BleCommand::Connect { mac: self.mac.clone(), chase: true },
        };
        BleRequest { epoch: self.epoch, command }
    }
}


/// A scan sighting as a value: MAC, signal, and when.
pub type SeenView = (Seq<char>, Option<i16>, u64);

/// A result line as a value.
pub open spec fn feedback_view(f: Option<Result<String, String>>) -> Option<Result<Seq<char>, Seq<char>>> {
    match f {
        Some(Ok(m)) => Some(Ok(m@)),
        Some(Err(m)) => Some(Err(m@)),
        None => None,
    }
}

/// A result carrying strings, as a value.
pub open spec fn result_view(r: Result<String, String>) -> Result<Seq<char>, Seq<char>> {
    match r {
        Ok(m) => Ok(m@),
        Err(e) => Err(e@),
    }
}

/// An optional string as a value.
pub open spec fn opt_view(s: Option<String>) -> Option<Seq<char>> {
    match s {
        Some(t) => Some(t@),
        None => None,
    }
}

/// The link as a value: every field, with each string as its characters.
pub struct LinkState<K, B, R, T, W> {
    pub intent: BleIntent,
    pub epoch: u64,
    pub intent_since: u64,
    pub status: Seq<char>,
    pub connected: bool,
    pub connected_at: Option<u64>,
    pub board_heard: Option<u64>,
    pub mac: Option<Seq<char>>,
    pub discovered: Seq<SeenView>,
    pub beacon: Option<B>,
    pub beacon_packet: Option<K>,
    pub beacon_time: Option<W>,
    pub relays: Map<u8, NodeView<B, W>>,
    pub telemetry: Option<T>,
    pub board_log: Option<Seq<char>>,
    pub board_settings: Option<Settings>,
    pub settings_unsupported: bool,
    pub board_radio_config: Option<R>,
    pub radio_config_unsupported: bool,
    pub ack: Option<Result<Seq<char>, Seq<char>>>,
    pub ack_pending: bool,
    pub radio_push_pending: bool,
    pub radio_feedback: Option<Result<Seq<char>, Seq<char>>>,
    pub sleep_commanded: Option<u32>,
    pub interval_text: Seq<char>,
    pub sleep_interval_text: Seq<char>,
    pub adv_window_text: Seq<char>,
    pub sleep_now_text: Seq<char>,
}

/// A worker event as a value.
pub enum EventView<K, B, R, T, W> {
    Status(Seq<char>),
    Discovered { mac: Seq<char>, rssi: Option<i16> },
    Connected(bool),
    Fix { packet: K, fix: Option<B>, at: W },
    Relayed,
    Ack(Ack),
    Telemetry(T),
    Log(Seq<char>),
    Settings(Settings),
    SettingsUnsupported,
    RadioConfig(R),
    RadioConfigUnsupported,
    ConfigPushed(Result<Seq<char>, Seq<char>>),
}

impl<K, B, R, T, W> LinkEvent<K, B, R, T, W> {
    pub open spec fn view(self) -> EventView<K, B, R, T, W> {
        match self {
            LinkEvent::Status(s) => EventView::Status(s@),
            LinkEvent::Discovered { mac, rssi } => EventView::Discovered { mac: mac@, rssi },
            LinkEvent::Connected(c) => EventView::Connected(c),
            LinkEvent::Fix { packet, fix, at } => EventView::Fix { packet, fix, at },
            LinkEvent::Relayed => EventView::Relayed,
            LinkEvent::Ack(a) => EventView::Ack(a),
            LinkEvent::Telemetry(t) => EventView::Telemetry(t),
            LinkEvent::Log(s) => EventView::Log(s@),
            LinkEvent::Settings(s) => EventView::Settings(s),
            LinkEvent::SettingsUnsupported => EventView::SettingsUnsupported,
            LinkEvent::RadioConfig(c) => EventView::RadioConfig(c),
            LinkEvent::RadioConfigUnsupported => EventView::RadioConfigUnsupported,
            LinkEvent::ConfigPushed(r) => EventView::ConfigPushed(result_view(r)),
        }
    }
}

/// A sighting recorded in a list kept in MAC order: the board's entry
/// replaced where it is met, or a new one placed before the first MAC that
/// sorts after it (at the end when there is none).
pub open spec fn upsert_seen(d: Seq<SeenView>, mac: Seq<char>, rssi: Option<i16>, at: u64) -> Seq<
    SeenView,
>
    decreases d.len(),
{
    if d.len() == 0 {
        seq![(mac, rssi, at)]
    } else if d[0].0 == mac {
        seq![(mac, rssi, at)] + d.drop_first()
    } else if lex_lt(mac, d[0].0) {
        seq![(mac, rssi, at)] + d
    } else {
        seq![d[0]] + upsert_seen(d.drop_first(), mac, rssi, at)
    }
}

/// Whether `a` sorts before `b`: character by character, a prefix first.
pub open spec fn lex_lt(a: Seq<char>, b: Seq<char>) -> bool
    decreases a.len(),
{
    if a.len() == 0 {
        b.len() > 0
    } else if b.len() == 0 {
        false
    } else if a[0] != b[0] {
        a[0] < b[0]
    } else {
        lex_lt(a.drop_first(), b.drop_first())
    }
}

proof fn lemma_lex_lt_skip(a: Seq<char>, b: Seq<char>, i: int)
    requires
        0 <= i <= a.len(),
        i <= b.len(),
        forall|j: int| 0 <= j < i ==> a[j] == b[j],
    ensures
        lex_lt(a, b) == lex_lt(a.subrange(i, a.len() as int), b.subrange(i, b.len() as int)),
    decreases i,
{
    if i > 0 {
        let a1 = a.drop_first();
        let b1 = b.drop_first();
        assert forall|j: int| 0 <= j < i - 1 implies a1[j] == b1[j] by {
            assert(a1[j] == a[j + 1] && b1[j] == b[j + 1]);
        }
        lemma_lex_lt_skip(a1, b1, i - 1);
        assert(a1.subrange(i - 1, a1.len() as int) =~= a.subrange(i, a.len() as int));
        assert(b1.subrange(i - 1, b1.len() as int) =~= b.subrange(i, b.len() as int));
    } else {
        assert(a.subrange(0, a.len() as int) =~= a);
        assert(b.subrange(0, b.len() as int) =~= b);
    }
}

/// Whether `a` sorts before `b`, as strings order (by code point, which is
/// also their UTF-8 byte order).
pub fn str_lt(a: &str, b: &str) -> (r: bool)
    ensures
        r == lex_lt(a@, b@),
{
    let n = a.unicode_len();
    let m = b.unicode_len();
    let mut i: usize = 0;
    while i < n && i < m && a.get_char(i) == b.get_char(i)
        invariant
            n == a@.len(),
            m == b@.len(),
            i <= n,
            i <= m,
            forall|j: int| 0 <= j < i ==> a@[j] == b@[j],
        decreases n - i,
    {
        i = i + 1;
    }
    proof {
        lemma_lex_lt_skip(a@, b@, i as int);
        let ra = a@.subrange(i as int, n as int);
        let rb = b@.subrange(i as int, m as int);
        if i < n {
            assert(ra[0] == a@[i as int]);
        }
        if i < m {
            assert(rb[0] == b@[i as int]);
        }
    }
    if i == n {
        i < m
    } else if i == m {
        false
    } else {
        a.get_char(i) < b.get_char(i)
    }
}

/// What the ack line says once a commanded sleep's disconnect arrives.
pub open spec fn asleep_message(secs: u32) -> Seq<char> {
    "Board asleep for "@ + secs_text_spec(secs as nat) + " - it is unreachable until it wakes"@
}

/// What one accepted event does to the link. Anything decoded off a
/// characteristic proves the board itself is still talking; status lines,
/// sightings and link changes are the worker's own.
pub open spec fn on_event_spec<K, B, R, T, W>(
    s0: LinkState<K, B, R, T, W>,
    e: EventView<K, B, R, T, W>,
    now: u64,
) -> LinkState<K, B, R, T, W> {
    let heard = match e {
        EventView::Status(_) => s0.board_heard,
        EventView::Discovered { .. } => s0.board_heard,
        EventView::Connected(_) => s0.board_heard,
        _ => Some(now),
    };
    apply_event_spec(LinkState { board_heard: heard, ..s0 }, e, now)
}

/// What an event does once the board's last word has been noted.
pub open spec fn apply_event_spec<K, B, R, T, W>(
    s: LinkState<K, B, R, T, W>,
    e: EventView<K, B, R, T, W>,
    now: u64,
) -> LinkState<K, B, R, T, W> {
    match e {
        EventView::Status(t) => LinkState { status: t, ..s },
        EventView::Discovered { mac, rssi } => LinkState {
            discovered: upsert_seen(s.discovered, mac, rssi, now),
            ..s
        },
        EventView::Connected(c) => {
            let answered = s.sleep_commanded.is_some() && !c;
            LinkState {
                intent_since: if s.connected && !c { now } else { s.intent_since },
                connected: c,
                connected_at: if c { Some(now) } else { None },
                board_heard: if c { Some(now) } else { None },
                ack: if answered { Some(Ok(asleep_message(s.sleep_commanded.unwrap()))) } else { s.ack },
                ack_pending: if answered { false } else { s.ack_pending },
                sleep_commanded: None,
                board_settings: if c { None } else { s.board_settings },
                settings_unsupported: if c { false } else { s.settings_unsupported },
                telemetry: if c { None } else { s.telemetry },
                ..s
            }
        },
        EventView::Fix { packet, fix, at } => LinkState {
            beacon_packet: Some(packet),
            beacon: match fix {
                Some(b) => Some(b),
                None => s.beacon,
            },
            beacon_time: match fix {
                Some(_) => Some(at),
                None => s.beacon_time,
            },
            ..s
        },
        EventView::Relayed => s,
        EventView::Ack(a) => LinkState { ack_pending: false, ack: Some(ack_message_spec(a)), ..s },
        EventView::Telemetry(t) => LinkState { telemetry: Some(t), ..s },
        EventView::Log(l) => LinkState { board_log: Some(l), ..s },
        EventView::Settings(st) => {
            let first = s.board_settings.is_none();
            LinkState {
                interval_text: if first { dec(st.notify_interval_ms as nat) } else { s.interval_text },
                sleep_interval_text: if first && st.sleep_interval_s > 0 {
                    dec(st.sleep_interval_s as nat)
                } else {
                    s.sleep_interval_text
                },
                adv_window_text: if first && st.adv_window_s > 0 {
                    dec(st.adv_window_s as nat)
                } else {
                    s.adv_window_text
                },
                board_settings: Some(st),
                settings_unsupported: false,
                ..s
            }
        },
        EventView::SettingsUnsupported => LinkState {
            board_settings: None,
            settings_unsupported: true,
            ..s
        },
        EventView::RadioConfig(c) => LinkState {
            board_radio_config: Some(c),
            radio_config_unsupported: false,
            ..s
        },
        EventView::RadioConfigUnsupported => LinkState {
            board_radio_config: None,
            radio_config_unsupported: true,
            ..s
        },
        EventView::ConfigPushed(res) => LinkState {
            radio_push_pending: false,
            radio_feedback: Some(
                match res {
                    Ok(m) => Ok(m),
                    Err(err) => Err("Send failed: "@ + err),
                },
            ),
            ..s
        },
    }
}

/// Whether an event belongs to the request the app is making now. Epoch 0
/// is the worker speaking for itself before any request reached it, which
/// is always worth hearing.
pub open spec fn is_current(update_epoch: u64, epoch: u64) -> bool {
    update_epoch == 0 || update_epoch >= epoch
}

/// The command a config write sends.
pub open spec fn config_request(epoch: u64, write: ConfigWrite) -> BleRequest {
    BleRequest { epoch, command: BleCommand::Config(write) }
}

/// What a text box that should hold a whole number answers when it does
/// not.
pub open spec fn parse_setting_spec(text: Seq<char>, unit: Seq<char>) -> Result<u32, Seq<char>> {
    match crate::parse::parse_u32_spec(crate::parse::trim(text)) {
        Some(v) => Ok(v),
        None => Err("Enter a whole number of "@ + unit + "."@),
    }
}

/// The "sleep now" box as typed: a blank box is zero, which the board reads
/// as "for the configured wake-check interval"; otherwise a whole number of
/// seconds, or the message the ack line shows for anything else.
pub open spec fn sleep_now_typed(text: Seq<char>) -> Result<u32, Seq<char>> {
    if crate::parse::trim(text).len() == 0 {
        Ok(0)
    } else {
        parse_setting_spec(text, "seconds"@)
    }
}

/// The wake-check cadence the board last reported, 0 when unknown.
pub open spec fn cadence_of<K, B, R, T, W>(s: LinkState<K, B, R, T, W>) -> u32 {
    match s.board_settings {
        Some(st) => st.sleep_interval_s,
        None => 0,
    }
}

/// Parse a whole number out of one of the board-setting text boxes, or
/// answer the ack line with what it should have been, so a typo and a
/// rejection read the same way and in the same place.
pub fn parse_setting(text: &str, unit: &str) -> (r: Result<u32, String>)
    ensures
        match (r, parse_setting_spec(text@, unit@)) {
            (Ok(a), Ok(b)) => a == b,
            (Err(a), Err(b)) => a@ == b,
            _ => false,
        },
{
    match crate::parse::parse_u32_trimmed(text) {
        Some(v) => Ok(v),
        None => {
            let mut out = String::new();
            push_str(&mut out, "Enter a whole number of ");
            push_str(&mut out, unit);
            push_str(&mut out, ".");
            assert(out@ =~= "Enter a whole number of "@ + unit@ + "."@);
            Err(out)
        },
    }
}

fn same_mac(a: &Option<String>, b: &Option<String>) -> (r: bool)
    ensures
        r == (opt_view(*a) == opt_view(*b)),
{
    match (a, b) {
        (Some(x), Some(y)) => *x == *y,
        (None, None) => true,
        _ => false,
    }
}

impl<K, B: Copy, R, T, W: Copy> Link<K, B, R, T, W> {
    /// The link as a value.
    pub open spec fn view(self) -> LinkState<K, B, R, T, W> {
        LinkState {
            intent: self.intent,
            epoch: self.epoch,
            intent_since: self.intent_since,
            status: self.status@,
            connected: self.connected,
            connected_at: self.connected_at,
            board_heard: self.board_heard,
            mac: opt_view(self.mac),
            discovered: self.discovered@.map_values(|x: Seen| (x.mac@, x.rssi, x.at)),
            beacon: self.beacon,
            beacon_packet: self.beacon_packet,
            beacon_time: self.beacon_time,
            relays: self.relays@,
            telemetry: self.telemetry,
            board_log: opt_view(self.board_log),
            board_settings: self.board_settings,
            settings_unsupported: self.settings_unsupported,
            board_radio_config: self.board_radio_config,
            radio_config_unsupported: self.radio_config_unsupported,
            ack: feedback_view(self.ack),
            ack_pending: self.ack_pending,
            radio_push_pending: self.radio_push_pending,
            radio_feedback: feedback_view(self.radio_feedback),
            sleep_commanded: self.sleep_commanded,
            interval_text: self.interval_text@,
            sleep_interval_text: self.sleep_interval_text@,
            adv_window_text: self.adv_window_text@,
            sleep_now_text: self.sleep_now_text@,
        }
    }

    /// A position report the board relayed for node `src`, under the epoch
    /// of the request the worker was serving. Fenced like any event; when
    /// current, the board counts as heard and the node takes the report as
    /// [`reported`] says (`far`: the fix has moved far enough from the node's
    /// last track point). Returns whether it was current.
    pub fn on_relay_report(
        &mut self,
        epoch: u64,
        src: u8,
        rssi: i16,
        fix: Option<B>,
        at: W,
        far: bool,
        now: u64,
    ) -> (accepted: bool)
        ensures
            accepted == is_current(epoch, old(self).epoch),
            !accepted ==> *final(self) == *old(self),
            accepted ==> final(self)@ == (LinkState {
                relays: old(self)@.relays.insert(
                    src,
                    reported(
                        if old(self)@.relays.contains_key(src) {
                            old(self)@.relays[src]
                        } else {
                            fresh_node()
                        },
                        src,
                        rssi,
                        fix,
                        at,
                        far,
                    ),
                ),
                ..on_event_spec(old(self)@, EventView::<K, B, R, T, W>::Relayed, now)
            }),
    {
        let accepted = self.on_event(LinkUpdate { epoch, event: LinkEvent::Relayed }, now);
        if accepted {
            self.relays.report(src, rssi, fix, at, far);
        }
        accepted
    }

    /// A ping the board relayed for a node with no position to give, heard
    /// at `at`. Fenced like any event; when current, the board counts as
    /// heard and the node takes the ping as [`pinged`] says. Returns whether
    /// it was current.
    pub fn on_relay_ping(&mut self, epoch: u64, ping: NodePing, at: W, now: u64) -> (accepted: bool)
        ensures
            accepted == is_current(epoch, old(self).epoch),
            !accepted ==> *final(self) == *old(self),
            accepted ==> final(self)@ == (LinkState {
                relays: old(self)@.relays.insert(
                    ping.src,
                    pinged(
                        if old(self)@.relays.contains_key(ping.src) {
                            old(self)@.relays[ping.src]
                        } else {
                            fresh_node()
                        },
                        ping,
                        at,
                    ),
                ),
                ..on_event_spec(old(self)@, EventView::<K, B, R, T, W>::Relayed, now)
            }),
    {
        let accepted = self.on_event(LinkUpdate { epoch, event: LinkEvent::Relayed }, now);
        if accepted {
            self.relays.ping(ping, at);
        }
        accepted
    }

    /// Record a scan sighting, keeping the list in MAC order.
    fn record_seen(&mut self, mac: String, rssi: Option<i16>, now: u64)
        ensures
            final(self)@ == (LinkState {
                discovered: upsert_seen(old(self)@.discovered, mac@, rssi, now),
                ..old(self)@
            }),
    {
        let ghost d = old(self)@.discovered;
        assert(d.subrange(0, 0) =~= Seq::<SeenView>::empty());
        assert(d.subrange(0, d.len() as int) =~= d);
        assert(d.subrange(0, 0) + upsert_seen(d, mac@, rssi, now) =~= upsert_seen(d, mac@, rssi, now));
        let mut i: usize = 0;
        while i < self.discovered.len()
            invariant
                self@ == old(self)@,
                i <= self.discovered.len(),
                d == self@.discovered,
                d.len() == self.discovered.len(),
                upsert_seen(d, mac@, rssi, now) == d.subrange(0, i as int) + upsert_seen(
                    d.subrange(i as int, d.len() as int),
                    mac@,
                    rssi,
                    now,
                ),
            decreases self.discovered.len() - i,
        {
            let ghost rest = d.subrange(i as int, d.len() as int);
            assert(rest[0] == d[i as int]);
            assert(d[i as int].0 == self.discovered[i as int].mac@);
            if self.discovered[i].mac == mac {
                let entry = Seen { mac, rssi, at: now };
                self.discovered.set(i, entry);
                proof {
                    assert(self@.discovered =~= d.subrange(0, i as int) + upsert_seen(
                        rest,
                        entry.mac@,
                        rssi,
                        now,
                    ));
                }
                return;
            }
            if str_lt(mac.as_str(), self.discovered[i].mac.as_str()) {
                let ghost m = mac@;
                self.discovered.insert(i, Seen { mac, rssi, at: now });
                proof {
                    assert(self@.discovered =~= d.subrange(0, i as int) + upsert_seen(
                        rest,
                        m,
                        rssi,
                        now,
                    ));
                }
                return;
            }
            proof {
                assert(rest.drop_first() =~= d.subrange(i + 1, d.len() as int));
                assert(d.subrange(0, i as int) + seq![d[i as int]] =~= d.subrange(0, i + 1));
                assert(d.subrange(0, i + 1) + upsert_seen(rest.drop_first(), mac@, rssi, now)
                    =~= d.subrange(0, i as int) + (seq![rest[0]] + upsert_seen(
                    rest.drop_first(),
                    mac@,
                    rssi,
                    now,
                )));
            }
            i = i + 1;
        }
        let ghost m = mac@;
        assert(d.subrange(0, i as int) =~= d);
        assert(d.subrange(i as int, d.len() as int) =~= Seq::<SeenView>::empty());
        self.discovered.push(Seen { mac, rssi, at: now });
        assert(self@.discovered =~= d + seq![(m, rssi, now)]);
    }

    /// Take one event from the worker. An event from a request the user has
    /// already moved on from is fenced out and changes nothing; the rest
    /// update the link as [`on_event_spec`] says. Returns whether the event
    /// was current, which is when the app should act on its own part of it
    /// (positions, tracks, the log).
    #[verifier::spinoff_prover]
    #[verifier::rlimit(40)]
    pub fn on_event(&mut self, update: LinkUpdate<K, B, R, T, W>, now: u64) -> (accepted: bool)
        ensures
            accepted == is_current(update.epoch, old(self).epoch),
            !accepted ==> *final(self) == *old(self),
            accepted ==> final(self)@ == on_event_spec(old(self)@, update.event.view(), now),
    {
        if !(update.epoch == 0 || update.epoch >= self.epoch) {
            return false;
        }
        let ghost ev = update.event.view();
        match &update.event {
            LinkEvent::Status(_) | LinkEvent::Discovered { .. } | LinkEvent::Connected(_) => {},
            _ => {
                self.board_heard = Some(now);
            },
        }
        let ghost s1 = self@;
        assert(s1 =~= (LinkState {
            board_heard: match ev {
                EventView::Status(_) => old(self)@.board_heard,
                EventView::Discovered { .. } => old(self)@.board_heard,
                EventView::Connected(_) => old(self)@.board_heard,
                _ => Some(now),
            },
            ..old(self)@
        }));
        match update.event {
            LinkEvent::Status(t) => {
                self.status = t;
                assert(self@ =~= apply_event_spec(s1, ev, now));
            },
            LinkEvent::Discovered { mac, rssi } => {
                self.record_seen(mac, rssi, now);
            },
            LinkEvent::Connected(c) => {
                self.on_connected(c, now);
            },
            LinkEvent::Fix { packet, fix, at } => {
                self.beacon_packet = Some(packet);
                match fix {
                    Some(b) => {
                        self.beacon = Some(b);
                        self.beacon_time = Some(at);
                    },
                    None => {},
                }
                assert(self@ =~= apply_event_spec(s1, ev, now));
            },
            LinkEvent::Relayed => {},
            LinkEvent::Ack(a) => {
                self.ack_pending = false;
                self.ack = Some(ack_message(&a));
                assert(self@ =~= apply_event_spec(s1, ev, now));
            },
            LinkEvent::Telemetry(t) => {
                self.telemetry = Some(t);
                assert(self@ =~= apply_event_spec(s1, ev, now));
            },
            LinkEvent::Log(l) => {
                self.board_log = Some(l);
                assert(self@ =~= apply_event_spec(s1, ev, now));
            },
            LinkEvent::Settings(st) => {
                self.on_settings(st);
            },
            LinkEvent::SettingsUnsupported => {
                self.board_settings = None;
                self.settings_unsupported = true;
                assert(self@ =~= apply_event_spec(s1, ev, now));
            },
            LinkEvent::RadioConfig(c) => {
                self.board_radio_config = Some(c);
                self.radio_config_unsupported = false;
                assert(self@ =~= apply_event_spec(s1, ev, now));
            },
            LinkEvent::RadioConfigUnsupported => {
                self.board_radio_config = None;
                self.radio_config_unsupported = true;
                assert(self@ =~= apply_event_spec(s1, ev, now));
            },
            LinkEvent::ConfigPushed(res) => {
                self.on_config_pushed(res);
            },
        }
        true
    }

    fn on_connected(&mut self, c: bool, now: u64)
        ensures
            final(self)@ == apply_event_spec(old(self)@, EventView::Connected(c), now),
    {
        if self.connected && !c {
            self.intent_since = now;
        }
        self.connected = c;
        self.connected_at = if c { Some(now) } else { None };
        self.board_heard = if c { Some(now) } else { None };
        let commanded = self.sleep_commanded.take();
        match commanded {
            Some(secs) => {
                if !c {
                    let mut msg = String::new();
                    push_str(&mut msg, "Board asleep for ");
                    let t = secs_text(secs);
                    push_str(&mut msg, t.as_str());
                    push_str(&mut msg, " - it is unreachable until it wakes");
                    assert(msg@ =~= asleep_message(secs));
                    self.ack = Some(Ok(msg));
                    self.ack_pending = false;
                }
            },
            None => {},
        }
        if c {
            self.board_settings = None;
            self.settings_unsupported = false;
            self.telemetry = None;
            self.sleep_commanded = None;
        }
        assert(self@ =~= apply_event_spec(old(self)@, EventView::Connected(c), now));
    }

    fn on_settings(&mut self, st: Settings)
        ensures
            forall|now: u64| final(self)@ == apply_event_spec(old(self)@, EventView::<K, B, R, T, W>::Settings(st), now),
    {
        if self.board_settings.is_none() {
            self.interval_text = dec_string(st.notify_interval_ms as u64);
            if st.sleep_interval_s > 0 {
                self.sleep_interval_text = dec_string(st.sleep_interval_s as u64);
            }
            if st.adv_window_s > 0 {
                self.adv_window_text = dec_string(st.adv_window_s as u64);
            }
        }
        self.board_settings = Some(st);
        self.settings_unsupported = false;
        assert forall|now: u64| self@ =~= apply_event_spec(old(self)@, EventView::<K, B, R, T, W>::Settings(st), now) by {}
    }

    fn on_config_pushed(&mut self, res: Result<String, String>)
        ensures
            forall|now: u64| final(self)@ == apply_event_spec(
                old(self)@,
                EventView::<K, B, R, T, W>::ConfigPushed(result_view(res)),
                now,
            ),
    {
        let ghost rv = result_view(res);
        self.radio_push_pending = false;
        self.radio_feedback = Some(
            match res {
                Ok(m) => Ok(m),
                Err(e) => {
                    let mut msg = String::new();
                    push_str(&mut msg, "Send failed: ");
                    push_str(&mut msg, e.as_str());
                    Err(msg)
                },
            },
        );
        assert forall|now: u64| self@ =~= apply_event_spec(old(self)@, EventView::<K, B, R, T, W>::ConfigPushed(rv), now) by {}
    }

    /// Seed the intent from the config at startup: auto-connect unless the
    /// master switch is off.
    pub fn sync_to_config(&mut self, enabled: bool, now: u64) -> (req: BleRequest)
        requires
            old(self).epoch < u64::MAX,
        ensures
            final(self).pressed(
                *old(self),
                if enabled {
                    BleIntent::Connect
                } else {
                    BleIntent::Idle
                },
                now,
            ),
            final(self).mac == old(self).mac,
            final(self)@.relays == old(self)@.relays.map_values(|n: NodeView<B, W>| forgotten(n)),
            req.epoch == final(self).epoch,
            req.command == command_for(final(self).intent, old(self).mac),
    {
        let intent = if enabled { BleIntent::Connect } else { BleIntent::Idle };
        self.set_ble_intent(intent, now)
    }

    /// Send the editor's radio config (`data`, already stripped for the wire)
    /// to the connected board. Over the board's `max` bytes it is refused on
    /// the radio page instead; otherwise the push is sent and the page waits
    /// for the board's final word.
    pub fn push_radio(&mut self, data: Vec<u8>, max: usize) -> (req: Option<BleRequest>)
        ensures
            data.len() > max ==> req.is_none() && final(self)@ == (LinkState {
                radio_feedback: Some(Err(push_too_big(data.len(), max))),
                ..old(self)@
            }),
            data.len() <= max ==> req == Some(BleRequest {
                epoch: old(self).epoch,
                command: BleCommand::PushConfig(data),
            }) && final(self)@ == (LinkState {
                radio_push_pending: true,
                radio_feedback: Some(Ok("Sending config to the board..."@)),
                ..old(self)@
            }),
    {
        if data.len() > max {
            let mut msg = String::new();
            push_str(&mut msg, "Config is ");
            crate::fmt::push_dec(&mut msg, data.len() as u64);
            push_str(&mut msg, " bytes stripped, over the board's ");
            crate::fmt::push_dec(&mut msg, max as u64);
            push_str(
                &mut msg,
                "-byte limit. Remove keys that are at their default - an absent key keeps it.",
            );
            assert(msg@ =~= push_too_big(data.len(), max));
            self.radio_feedback = Some(Err(msg));
            return None;
        }
        let req = BleRequest { epoch: self.epoch, command: BleCommand::PushConfig(data) };
        self.radio_push_pending = true;
        self.radio_feedback = Some(Ok(String::from_str("Sending config to the board...")));
        Some(req)
    }

    /// The radio config the board last reported, for filling the editor
    /// from it, or why there is none to fill it with.
    pub fn radio_from_board(&self) -> (r: Result<&R, &'static str>)
        ensures
            match self.board_radio_config {
                Some(c) => r == Ok::<&R, &'static str>(&c),
                None => r matches Err(m) && m@ == (if self.radio_config_unsupported {
                    "The board's config format is newer than this app can read."@
                } else {
                    "No config from the board yet. Connect on the Beacon page and wait for it to report (the GPS/LoRa rail must be on)."@
                }),
            },
    {
        match &self.board_radio_config {
            Some(c) => Ok(c),
            None => if self.radio_config_unsupported {
                Err("The board's config format is newer than this app can read.")
            } else {
                Err(
                    "No config from the board yet. Connect on the Beacon page and wait for it to report (the GPS/LoRa rail must be on).",
                )
            },
        }
    }

    /// Pin `mac` (already normalized; `None` for "any board") as the device
    /// to connect to. Choosing the board already pinned does nothing. When a
    /// connect is under way this switches to the new board at once, since
    /// only one is ever connected; while idle or scanning it only records the
    /// choice (choosing from the list should not stop the scan filling it).
    /// Either way what the last board said is dropped.
    pub fn select_device(&mut self, mac: Option<String>, now: u64) -> (req: Option<BleRequest>)
        requires
            old(self).epoch < u64::MAX,
        ensures
            opt_view(mac) == old(self)@.mac ==> *final(self) == *old(self) && req.is_none(),
            opt_view(mac) != old(self)@.mac ==> {
                &&& final(self)@.mac == opt_view(mac)
                &&& final(self).intent == old(self).intent
                &&& final(self).board_forgotten()
                &&& final(self)@.relays == old(self)@.relays.map_values(
                    |n: NodeView<B, W>| forgotten(n),
                )
                &&& match old(self).intent {
                    BleIntent::Connect | BleIntent::ConnectSleeping => {
                        &&& final(self).pressed(*old(self), old(self).intent, now)
                        &&& req matches Some(r) && r.epoch == final(self).epoch && r.command
                            == command_for(old(self).intent, mac)
                    },
                    _ => {
                        &&& req.is_none()
                        &&& final(self).same_but_board_and_mac(*old(self))
                    },
                }
            },
    {
        if same_mac(&mac, &self.mac) {
            return None;
        }
        let ghost before = self@.relays;
        self.mac = mac;
        self.forget_board_state();
        match self.intent {
            BleIntent::Connect | BleIntent::ConnectSleeping => {
                let intent = self.intent;
                let r = self.set_ble_intent(intent, now);
                assert(self@.relays =~= before.map_values(|n: NodeView<B, W>| forgotten(n)));
                Some(r)
            },
            BleIntent::Idle | BleIntent::Scanning => None,
        }
    }

    /// Queue one config write to the board and wait for its ack: the
    /// controls stay disabled until it lands, so only one write is ever in
    /// flight.
    pub fn send_config(&mut self, write: ConfigWrite) -> (req: BleRequest)
        ensures
            req == config_request(old(self).epoch, write),
            final(self)@ == (LinkState { ack: None, ack_pending: true, ..old(self)@ }),
    {
        self.ack = None;
        self.ack_pending = true;
        BleRequest { epoch: self.epoch, command: BleCommand::Config(write) }
    }

    /// A typed value refused before it was sent: the answer goes on the ack
    /// line.
    pub fn refuse(&mut self, msg: String)
        ensures
            final(self)@ == (LinkState { ack: Some(Err(msg@)), ..old(self)@ }),
    {
        self.ack = Some(Err(msg));
    }

    /// Send the typed notify interval to the board, or refuse the text.
    pub fn apply_notify_interval(&mut self) -> (req: Option<BleRequest>)
        ensures
            match parse_setting_spec(old(self)@.interval_text, "milliseconds"@) {
                Ok(ms) => req == Some(config_request(old(self).epoch, ConfigWrite::Interval(ms)))
                    && final(self)@ == (LinkState { ack: None, ack_pending: true, ..old(self)@ }),
                Err(msg) => req.is_none() && final(self)@ == (LinkState {
                    ack: Some(Err(msg)),
                    ..old(self)@
                }),
            },
    {
        match parse_setting(self.interval_text.as_str(), "milliseconds") {
            Ok(ms) => Some(self.send_config(ConfigWrite::Interval(ms))),
            Err(msg) => {
                self.refuse(msg);
                None
            },
        }
    }

    /// Send a wake-check interval to the board: `secs` when given (0 turns
    /// sleep off, which is what the Disable button sends), else the typed
    /// one.
    pub fn apply_sleep_interval(&mut self, secs: Option<u32>) -> (req: Option<BleRequest>)
        ensures
            match (match secs {
                Some(v) => Ok(v),
                None => parse_setting_spec(old(self)@.sleep_interval_text, "seconds"@),
            }) {
                Ok(v) => req == Some(
                    config_request(old(self).epoch, ConfigWrite::Seconds { id: SettingId::EspSleep, secs: v }),
                ) && final(self)@ == (LinkState { ack: None, ack_pending: true, ..old(self)@ }),
                Err(msg) => req.is_none() && final(self)@ == (LinkState {
                    ack: Some(Err(msg)),
                    ..old(self)@
                }),
            },
    {
        let parsed = match secs {
            Some(v) => Ok(v),
            None => parse_setting(self.sleep_interval_text.as_str(), "seconds"),
        };
        match parsed {
            Ok(v) => Some(self.send_config(ConfigWrite::Seconds { id: SettingId::EspSleep, secs: v })),
            Err(msg) => {
                self.refuse(msg);
                None
            },
        }
    }

    /// Send the typed advertising window to the board. No zero is special
    /// here: the board clamps it up to its floor.
    pub fn apply_adv_window(&mut self) -> (req: Option<BleRequest>)
        ensures
            match parse_setting_spec(old(self)@.adv_window_text, "seconds"@) {
                Ok(v) => req == Some(
                    config_request(old(self).epoch, ConfigWrite::Seconds { id: SettingId::AdvWindow, secs: v }),
                ) && final(self)@ == (LinkState { ack: None, ack_pending: true, ..old(self)@ }),
                Err(msg) => req.is_none() && final(self)@ == (LinkState {
                    ack: Some(Err(msg)),
                    ..old(self)@
                }),
            },
    {
        match parse_setting(self.adv_window_text.as_str(), "seconds") {
            Ok(v) => Some(self.send_config(ConfigWrite::Seconds { id: SettingId::AdvWindow, secs: v })),
            Err(msg) => {
                self.refuse(msg);
                None
            },
        }
    }

    /// The "sleep now" duration as typed: a blank box is zero, which the
    /// board reads as "for the configured wake-check interval".
    pub fn sleep_now_secs(&self) -> (r: Result<u32, String>)
        ensures
            crate::parse::trim(self@.sleep_now_text).len() == 0 ==> r == Ok::<u32, String>(0),
            crate::parse::trim(self@.sleep_now_text).len() > 0 ==> match (
                r,
                parse_setting_spec(self@.sleep_now_text, "seconds"@),
            ) {
                (Ok(a), Ok(b)) => a == b,
                (Err(a), Err(b)) => a@ == b,
                _ => false,
            },
    {
        let blank = match crate::parse::parse_u32_trimmed(self.sleep_now_text.as_str()) {
            Some(_) => false,
            None => is_blank(self.sleep_now_text.as_str()),
        };
        if blank {
            Ok(0)
        } else {
            parse_setting(self.sleep_now_text.as_str(), "seconds")
        }
    }

    /// The wake-check cadence the board last reported, 0 when unknown.
    pub fn sleep_cadence(&self) -> (r: u32)
        ensures
            r == match self.board_settings {
                Some(s) => s.sleep_interval_s,
                None => 0,
            },
    {
        match self.board_settings {
            Some(s) => s.sleep_interval_s,
            None => 0,
        }
    }

    /// Tell the board to deep sleep now for `secs` (0 for its cadence),
    /// recording how long it will actually sleep (`resolved`, worked out the
    /// way the firmware does) so the disconnect that follows reads as the
    /// command working.
    pub fn apply_sleep_now(&mut self, secs: u32, resolved: u32) -> (req: BleRequest)
        ensures
            req == config_request(
                old(self).epoch,
                ConfigWrite::Seconds { id: SettingId::SleepNow, secs },
            ),
            final(self)@ == (LinkState {
                sleep_commanded: Some(resolved),
                ack: None,
                ack_pending: true,
                ..old(self)@
            }),
    {
        self.sleep_commanded = Some(resolved);
        self.send_config(ConfigWrite::Seconds { id: SettingId::SleepNow, secs })
    }

    /// The "Sleep now" press: the typed duration (a blank box is zero, the
    /// board's own cadence) is sent as a sleep-now write, and how long the
    /// board will actually sleep - `resolve` of the typed seconds and the
    /// reported cadence, worked out the way the firmware does - is recorded
    /// so the disconnect that follows reads as the command working. Text
    /// that is no whole number is refused on the ack line and nothing else
    /// changes.
    pub fn press_sleep_now(&mut self, resolve: impl Fn(u32, u32) -> u32) -> (req: Option<
        BleRequest,
    >)
        requires
            forall|secs: u32, cadence: u32| call_requires(resolve, (secs, cadence)),
        ensures
            match sleep_now_typed(old(self)@.sleep_now_text) {
                Err(msg) => req.is_none() && final(self)@ == (LinkState {
                    ack: Some(Err(msg)),
                    ..old(self)@
                }),
                Ok(secs) => {
                    &&& req == Some(
                        config_request(
                            old(self).epoch,
                            ConfigWrite::Seconds { id: SettingId::SleepNow, secs },
                        ),
                    )
                    &&& exists|resolved: u32|
                        #![trigger call_ensures(resolve, (secs, cadence_of(old(self)@)), resolved)]
                        call_ensures(resolve, (secs, cadence_of(old(self)@)), resolved)
                            && final(self)@ == (LinkState {
                            sleep_commanded: Some(resolved),
                            ack: None,
                            ack_pending: true,
                            ..old(self)@
                        })
                },
            },
    {
        match self.sleep_now_secs() {
            Err(msg) => {
                self.refuse(msg);
                None
            },
            Ok(secs) => {
                let cadence = self.sleep_cadence();
                let resolved = resolve(secs, cadence);
                Some(self.apply_sleep_now(secs, resolved))
            },
        }
    }

    /// How long the connected board has been silent beyond what its notify
    /// cadence allows, in milliseconds; `None` while traffic is arriving,
    /// before the grace runs out, or with no link at all. The grace is three
    /// notify intervals, with [`LINK_SILENT_MS`] as the floor.
    pub fn board_silence(&self, now: u64) -> (r: Option<u64>)
        ensures
            r == board_silence_spec(self@, now),
    {
        if !self.connected {
            return None;
        }
        match self.board_heard {
            None => None,
            Some(heard) => {
                let quiet = if now >= heard { now - heard } else { 0 };
                let cadence: u64 = match self.board_settings {
                    Some(s) => s.notify_interval_ms as u64 * 3,
                    None => 0,
                };
                let grace = if cadence > LINK_SILENT_MS { cadence } else { LINK_SILENT_MS };
                if quiet > grace {
                    Some(quiet)
                } else {
                    None
                }
            },
        }
    }

    /// Whether the board is still within its post-connect warm-up, when an
    /// empty read-out is the rail powering up rather than a fault.
    pub fn board_warming(&self, now: u64) -> (r: bool)
        ensures
            r == match self.connected_at {
                Some(t) => elapsed(t, now) < BOARD_WARMUP_MS,
                None => false,
            },
    {
        match self.connected_at {
            Some(t) => (if now >= t { now - t } else { 0 }) < BOARD_WARMUP_MS,
            None => false,
        }
    }

    /// What the board-power panel can show: a request to connect first,
    /// word that the board's settings are newer than this build, a wait for
    /// them, or the settings themselves.
    pub fn power_panel(&self) -> (r: PowerPanel)
        ensures
            r == (if !self.connected {
                PowerPanel::NeedLink
            } else if self.settings_unsupported {
                PowerPanel::TooNew
            } else {
                match self.board_settings {
                    Some(st) => PowerPanel::Ready(st),
                    None => PowerPanel::Reading,
                }
            }),
    {
        if !self.connected {
            PowerPanel::NeedLink
        } else if self.settings_unsupported {
            PowerPanel::TooNew
        } else {
            match self.board_settings {
                Some(st) => PowerPanel::Ready(st),
                None => PowerPanel::Reading,
            }
        }
    }

    /// Whether the board-setting controls are locked: one write at a time,
    /// and while an ack is outstanding the board has not yet said what it
    /// applied.
    pub fn controls_busy(&self) -> (r: bool)
        ensures
            r == self.ack_pending,
    {
        self.ack_pending
    }

    /// Whether the wake check's Disable is offered: not while a write is in
    /// flight, and not when the board already has it off.
    pub fn can_disable_sleep(&self) -> (r: bool)
        ensures
            r == (!self.ack_pending && match self.board_settings {
                Some(st) => st.sleep_interval_s > 0,
                None => false,
            }),
    {
        if self.ack_pending {
            return false;
        }
        match self.board_settings {
            Some(st) => st.sleep_interval_s > 0,
            None => false,
        }
    }

    /// Whether the editor's radio config (`loaded`: one is open) can be sent:
    /// there has to be a link, and no push already riding it.
    pub fn can_send_radio(&self, loaded: bool) -> (r: bool)
        ensures
            r == (loaded && self.connected && !self.radio_push_pending),
    {
        loaded && self.connected && !self.radio_push_pending
    }

    /// Why the radio config cannot be sent, for the disabled button's hover.
    pub fn send_radio_blocked(&self, loaded: bool) -> (r: &'static str)
        ensures
            r@ == (if !loaded {
                "Load or generate a config first"@
            } else if !self.connected {
                "Connect to the board first (Beacon page)"@
            } else {
                "Waiting for the board to answer"@
            }),
    {
        if !loaded {
            "Load or generate a config first"
        } else if !self.connected {
            "Connect to the board first (Beacon page)"
        } else {
            "Waiting for the board to answer"
        }
    }

    /// The radio page's send button: what it says while a push rides the
    /// link, and otherwise.
    pub fn send_radio_label(&self) -> (r: &'static str)
        ensures
            r@ == (if self.radio_push_pending {
                "Sending..."@
            } else {
                "Send to board"@
            }),
    {
        if self.radio_push_pending {
            "Sending..."
        } else {
            "Send to board"
        }
    }

    /// Whether the board says its GPS/LoRa power rail is switched off.
    pub fn rail_off(&self) -> (r: bool)
        ensures
            r == match self.board_settings {
                Some(s) => !s.pwr_en,
                None => false,
            },
    {
        match self.board_settings {
            Some(s) => !s.pwr_en,
            None => false,
        }
    }

    /// What the app is doing about the link, for the Bluetooth and Status
    /// pages. "Connected" is only claimed while the board is actually
    /// talking.
    pub fn ble_intent_text(&self, now: u64) -> (r: String)
        ensures
            r@ == intent_text_spec(self@, now),
    {
        let waited = if now >= self.intent_since { now - self.intent_since } else { 0 };
        let secs = (waited / 1000) as u32;
        let secs = if secs > 1 { secs } else { 1 };
        let mut out = String::new();
        match (self.intent, self.connected) {
            (BleIntent::Idle, _) => {
                push_str(&mut out, "Not connecting. The board is free to sleep.");
            },
            (BleIntent::Scanning, _) => {
                push_str(&mut out, "Looking for boards for ");
                let w = secs_text(secs);
                push_str(&mut out, w.as_str());
                push_str(&mut out, ". Not connected to any.");
            },
            (_, true) => match self.board_silence(now) {
                Some(quiet) => {
                    push_str(&mut out, "Connected, but nothing from the board for ");
                    let w = secs_text((quiet / 1000) as u32);
                    push_str(&mut out, w.as_str());
                    push_str(&mut out, ".");
                },
                None => {
                    push_str(&mut out, "Connected. The board stays awake until you disconnect.");
                },
            },
            (BleIntent::Connect, false) => {
                push_str(&mut out, "Connecting for ");
                let w = secs_text(secs);
                push_str(&mut out, w.as_str());
                push_str(&mut out, ".");
            },
            (BleIntent::ConnectSleeping, false) => {
                push_str(&mut out, "Scanning for a sleeping board for ");
                let w = secs_text(secs);
                push_str(&mut out, w.as_str());
                push_str(&mut out, ".");
            },
        }
        assert(out@ =~= intent_text_spec(self@, now));
        out
    }
}

/// Milliseconds from `since` to `now` (zero if the clock reads earlier).
pub open spec fn elapsed(since: u64, now: u64) -> u64 {
    if now >= since { (now - since) as u64 } else { 0 }
}

/// See [`Link::board_silence`].
pub open spec fn board_silence_spec<K, B, R, T, W>(s: LinkState<K, B, R, T, W>, now: u64) -> Option<u64> {
    if !s.connected {
        None
    } else {
        match s.board_heard {
            None => None,
            Some(h) => {
                let quiet = elapsed(h, now);
                let cadence: int = match s.board_settings {
                    Some(st) => st.notify_interval_ms as int * 3,
                    None => 0,
                };
                if quiet > cadence && quiet > LINK_SILENT_MS { Some(quiet) } else { None }
            },
        }
    }
}

/// See [`Link::ble_intent_text`]: the whole seconds waited (truncated to
/// 32 bits, at least one) name how long this attempt has been going.
pub open spec fn intent_text_spec<K, B, R, T, W>(s: LinkState<K, B, R, T, W>, now: u64) -> Seq<char> {
    let secs = (elapsed(s.intent_since, now) / 1000) as u32;
    let waiting = secs_text_spec(if secs > 1 { secs as nat } else { 1 });
    match (s.intent, s.connected) {
        (BleIntent::Idle, _) => "Not connecting. The board is free to sleep."@,
        (BleIntent::Scanning, _) => "Looking for boards for "@ + waiting + ". Not connected to any."@,
        (_, true) => match board_silence_spec(s, now) {
            Some(quiet) => "Connected, but nothing from the board for "@ + secs_text_spec(
                ((quiet / 1000) as u32) as nat,
            ) + "."@,
            None => "Connected. The board stays awake until you disconnect."@,
        },
        (BleIntent::Connect, false) => "Connecting for "@ + waiting + "."@,
        (BleIntent::ConnectSleeping, false) => "Scanning for a sleeping board for "@ + waiting + "."@,
    }
}

/// Whether a text box holds nothing but whitespace.
fn is_blank(text: &str) -> (r: bool)
    ensures
        r == (crate::parse::trim(text@).len() == 0),
{
    crate::parse::trim_is_empty(text)
}


/// The refusal of a radio config too big for the board.
pub open spec fn push_too_big(len: usize, max: usize) -> Seq<char> {
    "Config is "@ + dec(len as nat) + " bytes stripped, over the board's "@ + dec(max as nat)
        + "-byte limit. Remove keys that are at their default - an absent key keeps it."@
}

/// After a press, whatever the session it replaced goes on to say is
/// fenced out: its events carry the old epoch, which is now behind.
pub proof fn lemma_press_fences_the_old_session(old_epoch: u64, new_epoch: u64)
    requires
        old_epoch > 0,
        new_epoch == old_epoch + 1,
    ensures
        !is_current(old_epoch, new_epoch),
        is_current(new_epoch, new_epoch),
        is_current(0, new_epoch),
{
}

/// A commanded sleep makes the disconnect that follows the answer: the ack
/// line says the board is asleep and for how long, nothing is pending any
/// more, and a second disconnect does not answer again.
pub proof fn lemma_commanded_sleep_is_answered_once<K, B, R, T, W>(
    s: LinkState<K, B, R, T, W>,
    secs: u32,
    now: u64,
    later: u64,
)
    requires
        s.sleep_commanded == Some(secs),
    ensures
        ({
            let a = on_event_spec(s, EventView::<K, B, R, T, W>::Connected(false), now);
            let b = on_event_spec(a, EventView::<K, B, R, T, W>::Connected(false), later);
            &&& a.ack == Some(Ok::<Seq<char>, Seq<char>>(asleep_message(secs)))
            &&& !a.ack_pending
            &&& a.sleep_commanded.is_none()
            &&& !a.connected
            &&& b.ack == a.ack
        }),
{
}

/// A link that drops on its own is not reported as a sleep: with no sleep
/// commanded, a disconnect leaves the ack line as it was.
pub proof fn lemma_uncommanded_disconnect_keeps_the_ack<K, B, R, T, W>(
    s: LinkState<K, B, R, T, W>,
    now: u64,
)
    requires
        s.sleep_commanded.is_none(),
    ensures
        on_event_spec(s, EventView::<K, B, R, T, W>::Connected(false), now).ack == s.ack,
        on_event_spec(s, EventView::<K, B, R, T, W>::Connected(false), now).ack_pending
            == s.ack_pending,
{
}

/// The board's settings seed the text boxes only the first time they are
/// reported: later reports leave anything half-typed alone.
pub proof fn lemma_settings_seed_only_once<K, B, R, T, W>(
    s: LinkState<K, B, R, T, W>,
    st: Settings,
    now: u64,
)
    requires
        s.board_settings.is_some(),
    ensures
        ({
            let a = on_event_spec(s, EventView::<K, B, R, T, W>::Settings(st), now);
            &&& a.interval_text == s.interval_text
            &&& a.sleep_interval_text == s.sleep_interval_text
            &&& a.adv_window_text == s.adv_window_text
            &&& a.board_settings == Some(st)
        }),
{
}

/// The first settings report seeds the text boxes with the board's own
/// values: the notify interval always, the wake check and the advertising
/// window when the board has them on (a zero leaves the box as it was), so
/// an Apply sends what the board has rather than the app's default.
pub proof fn lemma_first_settings_seed_the_boxes<K, B, R, T, W>(
    s: LinkState<K, B, R, T, W>,
    st: Settings,
    now: u64,
)
    requires
        s.board_settings.is_none(),
    ensures
        ({
            let a = on_event_spec(s, EventView::<K, B, R, T, W>::Settings(st), now);
            &&& a.interval_text == dec(st.notify_interval_ms as nat)
            &&& st.sleep_interval_s > 0 ==> a.sleep_interval_text == dec(st.sleep_interval_s as nat)
            &&& st.sleep_interval_s == 0 ==> a.sleep_interval_text == s.sleep_interval_text
            &&& st.adv_window_s > 0 ==> a.adv_window_text == dec(st.adv_window_s as nat)
            &&& st.adv_window_s == 0 ==> a.adv_window_text == s.adv_window_text
            &&& a.board_settings == Some(st)
            &&& !a.settings_unsupported
        }),
{
}

/// A link coming up re-reads everything: whatever the last session said of
/// the board's settings, health or a commanded sleep is gone, and the link
/// counts as up and heard as of now.
pub proof fn lemma_a_fresh_link_rereads_the_board<K, B, R, T, W>(
    s: LinkState<K, B, R, T, W>,
    now: u64,
)
    ensures
        ({
            let a = on_event_spec(s, EventView::<K, B, R, T, W>::Connected(true), now);
            &&& a.board_settings.is_none()
            &&& !a.settings_unsupported
            &&& a.telemetry.is_none()
            &&& a.sleep_commanded.is_none()
            &&& a.connected
            &&& a.connected_at == Some(now)
            &&& a.board_heard == Some(now)
            &&& a.intent_since == s.intent_since
            &&& a.epoch == s.epoch
            &&& a.intent == s.intent
        }),
{
}

/// Only a link going down restarts the "connecting for ..." clock: the
/// worker repeats `Connected(false)` on every retry of a link that never
/// came up, and those leave the clock where the press set it.
pub proof fn lemma_only_a_drop_restarts_the_clock<K, B, R, T, W>(
    s: LinkState<K, B, R, T, W>,
    now: u64,
)
    ensures
        !s.connected ==> on_event_spec(s, EventView::<K, B, R, T, W>::Connected(false), now).intent_since
            == s.intent_since,
        s.connected ==> on_event_spec(s, EventView::<K, B, R, T, W>::Connected(false), now).intent_since
            == now,
        !on_event_spec(s, EventView::<K, B, R, T, W>::Connected(false), now).connected,
{
}

/// Retries that never connect do not move the clock, however many: after
/// any two `Connected(false)` events on a link that was not up, the clock
/// still reads what it read before them.
pub proof fn lemma_retries_keep_the_clock<K, B, R, T, W>(
    s: LinkState<K, B, R, T, W>,
    t1: u64,
    t2: u64,
)
    requires
        !s.connected,
    ensures
        ({
            let a = on_event_spec(s, EventView::<K, B, R, T, W>::Connected(false), t1);
            let b = on_event_spec(a, EventView::<K, B, R, T, W>::Connected(false), t2);
            b.intent_since == s.intent_since
        }),
{
}

/// The fence: an event is current exactly when it is the worker speaking for
/// itself (epoch 0) or under the request now in force or a later one; every
/// earlier request's event is stale, however far back.
pub proof fn lemma_every_earlier_epoch_is_stale(e: u64, p: u64)
    ensures
        0 < e < p ==> !is_current(e, p),
        is_current(0, p),
        e >= p ==> is_current(e, p),
{
}

/// Only the board's own words prove it is talking: the worker's status,
/// scan sightings and link changes never refresh when it was last heard,
/// while anything decoded from it does.
pub proof fn lemma_only_the_board_refreshes_heard<K, B, R, T, W>(
    s: LinkState<K, B, R, T, W>,
    e: EventView<K, B, R, T, W>,
    now: u64,
)
    ensures
        (e is Status || e is Discovered) ==> on_event_spec(s, e, now).board_heard == s.board_heard,
        !(e is Status || e is Discovered || e is Connected) ==> on_event_spec(s, e, now).board_heard
            == Some(now),
{
}

/// One row of the device picker: a board the app knows about, whether from
/// its nicknames or from the running scan.
#[derive(Clone, Debug)]
pub struct DeviceRow {
    /// Normalized MAC; the identity, and the key into the nickname table.
    pub mac: String,
    /// Signal strength from the running scan, absent for a board only known
    /// by its nickname or not heard from recently.
    pub rssi: Option<i16>,
    /// This board is the pinned one, so it is what Connect will go to.
    pub selected: bool,
}

/// `m` added to the list unless it is already there.
pub open spec fn add_unique(macs: Seq<Seq<char>>, m: Seq<char>) -> Seq<Seq<char>> {
    if macs.contains(m) { macs } else { macs.push(m) }
}

/// Each of `extra` added in turn, skipping those already listed.
pub open spec fn add_all(macs: Seq<Seq<char>>, extra: Seq<Seq<char>>) -> Seq<Seq<char>>
    decreases extra.len(),
{
    if extra.len() == 0 {
        macs
    } else {
        add_unique(add_all(macs, extra.drop_last()), extra.last())
    }
}

/// The picker's MACs: the nicknamed boards first, in the table's order,
/// then every board the scan has heard and the pinned one, each once.
pub open spec fn row_macs(
    names: Seq<Seq<char>>,
    discovered: Seq<SeenView>,
    pinned: Option<Seq<char>>,
) -> Seq<Seq<char>> {
    let heard = discovered.map_values(|e: SeenView| e.0);
    let extra = match pinned {
        Some(m) => heard.push(m),
        None => heard,
    };
    add_all(names, extra)
}

/// The signal a board was last heard at by the scan, while that was
/// recent enough to still mean it is on the air.
pub open spec fn seen_rssi(d: Seq<SeenView>, m: Seq<char>, now: u64) -> Option<i16>
    decreases d.len(),
{
    if d.len() == 0 {
        None
    } else if d[0].0 == m {
        if elapsed(d[0].2, now) < SEEN_TIMEOUT_MS { d[0].1 } else { None }
    } else {
        seen_rssi(d.drop_first(), m, now)
    }
}

/// Whether `m` is already among `macs`.
fn has_mac(macs: &Vec<String>, m: &String) -> (r: bool)
    ensures
        r == macs@.map_values(|x: String| x@).contains(m@),
{
    let ghost v = macs@.map_values(|x: String| x@);
    let mut i: usize = 0;
    while i < macs.len()
        invariant
            i <= macs.len(),
            v == macs@.map_values(|x: String| x@),
            forall|j: int| 0 <= j < i ==> v[j] != m@,
        decreases macs.len() - i,
    {
        if macs[i] == *m {
            assert(v[i as int] == m@);
            return true;
        }
        i = i + 1;
    }
    false
}

impl<K, B: Copy, R, T, W: Copy> Link<K, B, R, T, W> {
    /// The scan's reading for `m`, if it was heard recently.
    fn seen_rssi_of(&self, m: &String, now: u64) -> (r: Option<i16>)
        ensures
            r == seen_rssi(self@.discovered, m@, now),
    {
        let ghost d = self@.discovered;
        assert(d.subrange(0, d.len() as int) =~= d);
        let mut i: usize = 0;
        while i < self.discovered.len()
            invariant
                i <= self.discovered.len(),
                d == self@.discovered,
                d.len() == self.discovered.len(),
                seen_rssi(d, m@, now) == seen_rssi(d.subrange(i as int, d.len() as int), m@, now),
            decreases self.discovered.len() - i,
        {
            let ghost rest = d.subrange(i as int, d.len() as int);
            assert(rest[0] == d[i as int]);
            if self.discovered[i].mac == *m {
                let at = self.discovered[i].at;
                let age = if now >= at { now - at } else { 0 };
                return if age < SEEN_TIMEOUT_MS { self.discovered[i].rssi } else { None };
            }
            assert(rest.drop_first() =~= d.subrange(i + 1, d.len() as int));
            i = i + 1;
        }
        assert(d.subrange(i as int, d.len() as int) =~= Seq::<SeenView>::empty());
        None
    }

    /// The device picker's rows: every nicknamed board (`names`, the
    /// nickname table's MACs in its order), then every board the running
    /// scan has heard, then the pinned board, each once. The pinned board
    /// always gets a row, so what the app is set to connect to is never
    /// invisible.
    pub fn device_rows(&self, names: &Vec<String>, now: u64) -> (r: Vec<DeviceRow>)
        ensures
            r@.map_values(|row: DeviceRow| row.mac@) == row_macs(
                names@.map_values(|x: String| x@),
                self@.discovered,
                self@.mac,
            ),
            forall|i: int|
                0 <= i < r@.len() ==> #[trigger] r@[i].rssi == seen_rssi(
                    self@.discovered,
                    r@[i].mac@,
                    now,
                ) && r@[i].selected == (self@.mac == Some(r@[i].mac@)),
    {
        let mut macs: Vec<String> = Vec::new();
        let mut i: usize = 0;
        while i < names.len()
            invariant
                i <= names.len(),
                macs@.len() == i,
                forall|q: int| 0 <= q < i ==> #[trigger] macs@[q]@ == names@[q]@,
            decreases names.len() - i,
        {
            macs.push(names[i].clone());
            i = i + 1;
        }
        let ghost base = names@.map_values(|x: String| x@);
        assert(macs@.map_values(|x: String| x@) =~= base);
        let ghost heard = self@.discovered.map_values(|e: SeenView| e.0);
        let mut k: usize = 0;
        while k < self.discovered.len()
            invariant
                k <= self.discovered.len(),
                heard == self@.discovered.map_values(|e: SeenView| e.0),
                heard.len() == self.discovered.len(),
                macs@.map_values(|x: String| x@) == add_all(base, heard.subrange(0, k as int)),
            decreases self.discovered.len() - k,
        {
            let m = self.discovered[k].mac.clone();
            proof {
                let pre = heard.subrange(0, k + 1);
                assert(pre.drop_last() =~= heard.subrange(0, k as int));
                assert(pre.last() == m@);
            }
            if !has_mac(&macs, &m) {
                macs.push(m);
                proof {
                    assert(macs@.map_values(|x: String| x@) =~= add_all(base, heard.subrange(0, k as int)).push(m@));
                }
            }
            k = k + 1;
        }
        assert(heard.subrange(0, heard.len() as int) =~= heard);
        match &self.mac {
            Some(p) => {
                let pm = p.clone();
                proof {
                    let extra = heard.push(pm@);
                    assert(extra.drop_last() =~= heard);
                }
                if !has_mac(&macs, &pm) {
                    macs.push(pm);
                    proof {
                        assert(macs@.map_values(|x: String| x@) =~= add_all(base, heard).push(p@));
                    }
                }
            },
            None => {},
        }
        let ghost all = macs@.map_values(|x: String| x@);
        assert(all == row_macs(base, self@.discovered, self@.mac));
        let mut rows: Vec<DeviceRow> = Vec::new();
        let mut j: usize = 0;
        while j < macs.len()
            invariant
                j <= macs.len(),
                all == macs@.map_values(|x: String| x@),
                rows@.len() == j,
                forall|q: int| 0 <= q < j ==> #[trigger] rows@[q].mac@ == all[q],
                forall|q: int|
                    0 <= q < rows@.len() ==> #[trigger] rows@[q].rssi == seen_rssi(
                        self@.discovered,
                        rows@[q].mac@,
                        now,
                    ) && rows@[q].selected == (self@.mac == Some(rows@[q].mac@)),
            decreases macs.len() - j,
        {
            let m = macs[j].clone();
            let rssi = self.seen_rssi_of(&m, now);
            let selected = match &self.mac {
                Some(p) => *p == m,
                None => false,
            };
            rows.push(DeviceRow { mac: m, rssi, selected });
            j = j + 1;
        }
        assert(rows@.map_values(|row: DeviceRow| row.mac@) =~= all);
        rows
    }
}

/// The sightings are in strictly increasing MAC order, so each board is
/// listed once.
pub open spec fn seen_sorted(d: Seq<SeenView>) -> bool {
    forall|i: int, j: int| 0 <= i < j < d.len() ==> lex_lt(#[trigger] d[i].0, #[trigger] d[j].0)
}

pub proof fn lemma_lex_irreflexive(a: Seq<char>)
    ensures
        !lex_lt(a, a),
    decreases a.len(),
{
    if a.len() > 0 {
        lemma_lex_irreflexive(a.drop_first());
    }
}

pub proof fn lemma_lex_transitive(a: Seq<char>, b: Seq<char>, c: Seq<char>)
    requires
        lex_lt(a, b),
        lex_lt(b, c),
    ensures
        lex_lt(a, c),
    decreases a.len(),
{
    if a.len() > 0 && b.len() > 0 && c.len() > 0 && a[0] == b[0] && b[0] == c[0] {
        lemma_lex_transitive(a.drop_first(), b.drop_first(), c.drop_first());
    }
}

pub proof fn lemma_lex_total(a: Seq<char>, b: Seq<char>)
    ensures
        a == b || lex_lt(a, b) || lex_lt(b, a),
    decreases a.len(),
{
    if a.len() > 0 && b.len() > 0 && a[0] == b[0] {
        lemma_lex_total(a.drop_first(), b.drop_first());
        if a.drop_first() == b.drop_first() {
            assert(a =~= seq![a[0]] + a.drop_first());
            assert(b =~= seq![b[0]] + b.drop_first());
        }
    } else if a.len() == 0 && b.len() == 0 {
        assert(a =~= b);
    } else if a.len() > 0 && b.len() > 0 {
        assert(a[0] != b[0]);
    }
}

/// Recording a sighting keeps the picker's list in MAC order with each
/// board once, lists the board just seen, and drops no other board.
pub proof fn lemma_upsert_keeps_order(d: Seq<SeenView>, m: Seq<char>, rssi: Option<i16>, at: u64)
    requires
        seen_sorted(d),
    ensures
        seen_sorted(upsert_seen(d, m, rssi, at)),
        upsert_seen(d, m, rssi, at).contains((m, rssi, at)),
        forall|k: int|
            0 <= k < upsert_seen(d, m, rssi, at).len() ==> #[trigger] upsert_seen(
                d,
                m,
                rssi,
                at,
            )[k].0 == m || exists|i: int| 0 <= i < d.len() && d[i].0 == upsert_seen(
                d,
                m,
                rssi,
                at,
            )[k].0,
        forall|i: int| 0 <= i < d.len() && d[i].0 != m ==> upsert_seen(d, m, rssi, at).contains(
            #[trigger] d[i],
        ),
    decreases d.len(),
{
    let e = (m, rssi, at);
    let u = upsert_seen(d, m, rssi, at);
    if d.len() == 0 {
        assert(u[0] == e);
    } else if d[0].0 == m {
        let r = d.drop_first();
        assert(u[0] == e);
        assert forall|i: int, j: int| 0 <= i < j < u.len() implies lex_lt(
            #[trigger] u[i].0,
            #[trigger] u[j].0,
        ) by {
            assert(u[j] == d[j]);
            if i > 0 {
                assert(u[i] == d[i]);
            }
        }
        assert forall|k: int| 0 <= k < u.len() implies #[trigger] u[k].0 == m || exists|i: int|
            0 <= i < d.len() && d[i].0 == u[k].0 by {
            if k > 0 {
                assert(u[k] == d[k]);
            }
        }
        assert forall|i: int| 0 <= i < d.len() && d[i].0 != m implies u.contains(#[trigger] d[i]) by {
            assert(i > 0);
            assert(u[i] == d[i]);
        }
    } else if lex_lt(m, d[0].0) {
        assert(u[0] == e);
        assert forall|i: int, j: int| 0 <= i < j < u.len() implies lex_lt(
            #[trigger] u[i].0,
            #[trigger] u[j].0,
        ) by {
            assert(u[j] == d[j - 1]);
            if i > 0 {
                assert(u[i] == d[i - 1]);
            } else if j - 1 > 0 {
                lemma_lex_transitive(m, d[0].0, d[j - 1].0);
            }
        }
        assert forall|k: int| 0 <= k < u.len() implies #[trigger] u[k].0 == m || exists|i: int|
            0 <= i < d.len() && d[i].0 == u[k].0 by {
            if k > 0 {
                assert(u[k] == d[k - 1]);
            }
        }
        assert forall|i: int| 0 <= i < d.len() && d[i].0 != m implies u.contains(#[trigger] d[i]) by {
            assert(u[i + 1] == d[i]);
        }
    } else {
        let r = d.drop_first();
        assert(seen_sorted(r)) by {
            assert forall|i: int, j: int| 0 <= i < j < r.len() implies lex_lt(
                #[trigger] r[i].0,
                #[trigger] r[j].0,
            ) by {
                assert(r[i] == d[i + 1] && r[j] == d[j + 1]);
            }
        }
        lemma_upsert_keeps_order(r, m, rssi, at);
        let v = upsert_seen(r, m, rssi, at);
        lemma_lex_total(m, d[0].0);
        assert(lex_lt(d[0].0, m));
        assert(u =~= seq![d[0]] + v);
        assert forall|i: int, j: int| 0 <= i < j < u.len() implies lex_lt(
            #[trigger] u[i].0,
            #[trigger] u[j].0,
        ) by {
            assert(u[j] == v[j - 1]);
            if i > 0 {
                assert(u[i] == v[i - 1]);
            } else {
                assert(v[j - 1].0 == m || exists|q: int| 0 <= q < r.len() && r[q].0 == v[j - 1].0);
                if v[j - 1].0 != m {
                    let q = choose|q: int| 0 <= q < r.len() && r[q].0 == v[j - 1].0;
                    assert(r[q] == d[q + 1]);
                }
            }
        }
        assert(v.contains(e));
        let ke = choose|ke: int| 0 <= ke < v.len() && v[ke] == e;
        assert(u[ke + 1] == e);
        assert forall|k: int| 0 <= k < u.len() implies #[trigger] u[k].0 == m || exists|i: int|
            0 <= i < d.len() && d[i].0 == u[k].0 by {
            if k > 0 {
                assert(u[k] == v[k - 1]);
                if v[k - 1].0 != m {
                    let q = choose|q: int| 0 <= q < r.len() && r[q].0 == v[k - 1].0;
                    assert(r[q] == d[q + 1]);
                }
            }
        }
        assert forall|i: int| 0 <= i < d.len() && d[i].0 != m implies u.contains(#[trigger] d[i]) by {
            if i == 0 {
                assert(u[0] == d[0]);
            } else {
                assert(r[i - 1] == d[i]);
                assert(v.contains(r[i - 1]));
                let kv = choose|kv: int| 0 <= kv < v.len() && v[kv] == r[i - 1];
                assert(u[kv + 1] == d[i]);
            }
        }
    }
}

/// Adding boards keeps every board already listed and lists each added one.
proof fn lemma_add_all_lists_everything(macs: Seq<Seq<char>>, extra: Seq<Seq<char>>)
    ensures
        forall|m: Seq<char>| macs.contains(m) ==> #[trigger] add_all(macs, extra).contains(m),
        forall|i: int| 0 <= i < extra.len() ==> add_all(macs, extra).contains(#[trigger] extra[i]),
    decreases extra.len(),
{
    if extra.len() > 0 {
        let init = extra.drop_last();
        lemma_add_all_lists_everything(macs, init);
        let a = add_all(macs, init);
        assert forall|m: Seq<char>| a.contains(m) implies add_unique(a, extra.last()).contains(m) by {
            if !a.contains(extra.last()) {
                let k = choose|k: int| 0 <= k < a.len() && a[k] == m;
                assert(a.push(extra.last())[k] == m);
            }
        }
        assert forall|m: Seq<char>| macs.contains(m) implies #[trigger] add_all(macs, extra).contains(m) by {
            assert(add_all(macs, init).contains(m));
            assert(add_unique(a, extra.last()).contains(m));
        }
        assert forall|i: int| 0 <= i < extra.len() implies add_all(macs, extra).contains(
            #[trigger] extra[i],
        ) by {
            if i < extra.len() - 1 {
                assert(init[i] == extra[i]);
                assert(a.contains(init[i]));
            } else if !a.contains(extra.last()) {
                assert(a.push(extra.last())[a.len() as int] == extra.last());
            }
        }
    }
}

/// The picker never hides what the app is set to connect to: the pinned
/// board always has a row, as does every nicknamed board and every board
/// the scan has heard.
pub proof fn lemma_picker_lists_every_known_board(
    names: Seq<Seq<char>>,
    discovered: Seq<SeenView>,
    pinned: Option<Seq<char>>,
)
    ensures
        pinned matches Some(m) ==> row_macs(names, discovered, pinned).contains(m),
        forall|m: Seq<char>| names.contains(m) ==> #[trigger] row_macs(names, discovered, pinned).contains(m),
        forall|i: int| 0 <= i < discovered.len() ==> row_macs(names, discovered, pinned).contains(
            #[trigger] discovered[i].0,
        ),
{
    let heard = discovered.map_values(|e: SeenView| e.0);
    let extra = match pinned {
        Some(m) => heard.push(m),
        None => heard,
    };
    lemma_add_all_lists_everything(names, extra);
    if let Some(m) = pinned {
        assert(extra[extra.len() - 1] == m);
    }
    assert forall|i: int| 0 <= i < discovered.len() implies row_macs(names, discovered, pinned).contains(
        #[trigger] discovered[i].0,
    ) by {
        assert(extra[i] == heard[i]);
    }
}

} // verus!
