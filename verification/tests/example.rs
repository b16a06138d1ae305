use midair_proto::radiocfg::{key_at, parse, section_at, write_example, RadioConfig, KEYS, SECTIONS};

/// The reference file as it ships.
const SHIPPED: &str = r##"# RADIO.CFG - telemetry-in-midair radio configuration reference. Generated
# from the key table in the protocol crate (cargo run --example
# radio_example in proto/); every value below is the firmware default. The
# firmware reads at most 1024 bytes of config, which the comments here put
# this file well over, so it is a reference rather than a file to push:
# strip the comments and what remains fits. The tools do that (cd tools &&
# pixi run board-config --address 3 pushes it; add --dry-run --save
# ../RADIO.CFG for the stripped file). A config pushed over USB or BLE is
# applied live and kept in the board's own flash, so it survives a power
# cycle. Every key is optional - an absent key keeps its default, and an
# empty file is valid. Section headers are cosmetic: keys are unique across
# sections, so a key works regardless of which [section] it sits under.

# -- Radio -----------------------------------------------------------------
# frequency, spreading factor, bandwidth, coding rate and power are the LoRa
# link-budget knobs: together they set sensitivity, on-air time and radiated
# power - i.e. range. The three hop_* keys are the channel plan and the slot
# clock that runs it. The default plan is one channel: a 500 kHz signal may
# hold a single carrier in the 902-928 MHz band as often as it likes, so
# hopping buys no air time there that the default modulation does not
# already have. What the plan is kept for is the clock, which cuts every
# second into turns and gives each address one - without it two nodes
# beaconing at the same rate talk over each other. Raise hop_channels to hop
# for real; see the notes on that key. The four commented keys describe the
# board the firmware is running on, not a preference: the defaults are the
# Wio-S3's own hardware, and inside the module SX1262 DIO2 is the VCTL of an
# SKY13453-385LF antenna switch and DIO3 is that same switch's VDD. Turning
# the switch off, or supplying it below the 2.5 V its datasheet specifies,
# leaves the PA transmitting +22 dBm into an isolated port, so the firmware
# refuses both, logs that it did, and runs the board's values instead.
[radio]

# RF center frequency in Hz, 150000000-960000000. With more than one hop
# channel this is the center of the plan and the channels straddle it; with
# one it is simply the carrier.
frequency_hz = 915000000

# Channels in the plan, 1-255 (0 is read as 1). 1, the default, is the slot
# clock on the single carrier at frequency_hz: nodes share slots and take
# turns inside them by address, which is what keeps two nodes beaconing at
# the same rate from talking over each other, and it is the right answer at
# 500 kHz bandwidth, where the band lets one carrier be held as often as you
# like. More than 1 adds channel diversity: a fade or an interferer parked
# on one carrier costs one beacon in hop_channels rather than every beacon,
# and below 500 kHz of bandwidth 50 channels is what the 902-928 MHz band
# requires. Hopping is not free - every node hops on one shared clock, from
# GPS where a node has a fix and from the frames it hears where it does not,
# so a node that knows nobody's clock spends roughly hop_channels times the
# beacon interval, divided by the number of nodes transmitting, before it
# hears the network at all.
hop_channels = 1

# Spacing between hop channels in kHz, 25-5000. At least the bandwidth, or
# adjacent channels overlap. Unused with one channel, since there is nothing
# to space. 500 kHz for 50 channels spans 902.75-927.25 MHz around the 915
# MHz center.
hop_step_khz = 500

# Slot length in ms, 100-10000, and so how long every node stays on each
# channel. One transmission per node per slot, which has to fit the slot
# with a 100 ms guard at each end, so at 1000 ms a beacon may be up to 800
# ms on air. The band caps one hop visit at 400 ms; the default beacon is
# 289 ms. The 800 ms window is cut into as many default beacons as fit - two
# - and nodes take those turns by address, so two nodes may beacon every
# second without overlapping.
hop_dwell_ms = 1000

# LoRa spreading factor, 5-12. Higher gives longer range at a lower data
# rate.
spreading_factor = 12

# LoRa bandwidth in kHz: 62, 125, 250 or 500 (62 means 62.5). Narrower gives
# longer range at a lower data rate, and a longer frame: the default beacon
# is 289 ms at 500 and 1150 ms at 125, past the 400 ms one hop visit may
# occupy a channel. In the 902-928 MHz band only 500 is wide enough to hold
# a single carrier; anything narrower has to hop, so it needs hop_channels
# raised to 50 as well.
bandwidth_khz = 500

# Coding rate denominator 5-8 for 4/5..4/8. Higher adds forward error
# correction at a lower data rate.
coding_rate = 5

# Transmit power in dBm, -9 to 22 on the high-power PA.
power_dbm = 22

# Boosted receiver gain: roughly +2 dB of sensitivity for a few mA more
# current whenever the node is listening.
rx_boost = true

# Use the internal DC-DC (SMPS). The Wio-S3 carries the inductor it needs.
# dcdc_enabled = true

# Let the radio drive its own antenna switch from DIO2
# (SetDio2AsRfSwitchCtrl). The Wio-S3 wires DIO2 to the SKY13453-385LF
# between the PA and the LoRa port, so this must stay on; the firmware
# ignores an off.
# dio2_rf_switch = true

# Supply the radio drives DIO3 at. Named for the TCXO, but on the Wio-S3
# DIO3 is also the antenna switch's VDD, specified 2.5-3.5 V - so only 2.7,
# 3.0 and 3.3 are usable and the firmware raises anything lower.
# tcxo_volts = "3.3"

# How long the radio waits for the TCXO to settle before using the clock,
# 1-1000 ms.
# tcxo_startup_ms = 10

# -- Network ---------------------------------------------------------------
# Everything is sent. Leaves hear each other directly, so a fleet of nothing
# but leaves is a working network and these defaults need no changing. A
# repeater is for covering ground no pair of leaves can reach across on
# their own. tx_only and rx_only split a leaf in half, for a deployment
# where the reporting only ever runs one way.
[network]

# This node's address, 1-255. Must be unique among the nodes that transmit:
# two senders sharing an address are mutually deaf, each dropping the
# other's broadcasts as an echo of its own, so neither ever sees the other.
# An rx_only node never puts its address on the air, so it can keep the
# default. The address also picks the node's turn inside a slot: number a
# fleet 1, 2, 3... and the first 2 x interval_s of them never overlap on the
# air.
address = 1

# leaf transmits its own position and receives everyone else's. repeater
# also retransmits other nodes' broadcasts, extending range past one radio
# horizon at the cost of doubling the traffic it forwards. tx_only beacons
# without ever switching the receiver on, which is the largest power saving
# available to a node nobody needs to track from. rx_only listens without
# ever transmitting, for a base station that only collects.
role = "leaf"

# Retransmissions allowed for a broadcast this node sends, 0-8. 0 means no
# repeater forwards it.
max_hops = 1

# How long a broadcast is remembered so a repeat of it is dropped rather
# than delivered or forwarded again, 1-3600 s. Must stay under 200 x
# interval_s: the beacon id wraps every 256 frames, and past that a node
# starts suppressing its own later broadcasts as duplicates. The file is
# refused otherwise.
dedup_ttl_s = 3

# -- Beacon ----------------------------------------------------------------
# What goes out, and how often.
[beacon]

# Position broadcast period in seconds while the node has a fix, 0-3600. A
# node transmits at most once per slot, so 1 is every slot at the default
# dwell. It also sets how many nodes fit: a slot holds two default beacons,
# so 2 x interval_s addresses beacon without overlapping - two every second,
# four every two seconds, ten every five. 0 silences the node's own
# transmissions altogether, pings included, as does a role of rx_only.
interval_s = 1

# How often a node with no fix says so, 0-3600 s: a small ping goes out in
# place of the position, so a node that cannot see the sky is still heard.
# Slower than the beacon by default, since a searching receiver has nothing
# new to report every second. 0 sends no pings.
ping_interval_s = 5

# Which GPS fields each broadcast carries: lat, lon, altitude, speed,
# course, sats, time. lat and lon are required. More fields cost more air
# time.
fields = "lat,lon"

# -- Wake on LoRa ----------------------------------------------------------
# How a stored board is reached without waiting for its wake check. With
# wake_enabled on, the park before every deep sleep leaves the SX1262 in its
# own sniff loop - listening for wake_rx_ms, sleeping for wake_sleep_ms, on
# frequency_hz and a sync word ordinary traffic never uses - and the S3
# sleeps until the radio pulls DIO1 with a completed wake frame. A board
# that wants another woken sends a burst of wake frames behind a preamble
# sized to the target's cycle: cd tools && pixi run board-wake --target 3.
# The woken board comes up idle, answers with a ping, and can then be
# connected to over BLE. The timer wake-check stays armed as a backstop. The
# window sets the tolerance for the radio's timer drift (half of 2*rx - 10
# ms - 24 symbols, either way) and the sleep sets the current: at the
# defaults the receiver is on 9% of the time, and a wake frame is about 3.4
# s on air. Both boards must share these values, because the preamble one
# sends is computed from them. Refused on a hopping plan, since a wake frame
# would hold one channel far longer than hopping allows.
[wake]

# Leave the radio listening for a wake frame through every deep sleep. Off,
# a stored board is reachable only during its wake checks.
wake_enabled = true

# The sentry's receive window, 50-5000 ms. Longer tolerates more drift in
# the radio's own timer and costs proportionally more current; under about
# 105 ms at the default modulation no wake preamble fits at all and the
# sentry is refused.
wake_rx_ms = 300

# The sentry's sleep between windows, 200-30000 ms. Longer is cheaper and
# makes every wake frame longer by the same amount, so a waker spends more
# air time per attempt.
wake_sleep_ms = 3000

# The carrier the sentry listens on and wake frames go out on, Hz; 0 means
# frequency_hz. A sentry locks on any LoRa symbol that lands in its window,
# and a preamble that is not a wake frame's - a beacon, another network,
# noise - holds it for a restarted timer and then costs it a whole sleep,
# during which a wake frame is lost. So put the sentry where the beacons are
# not: a fleet that beacons every second on frequency_hz will blind a sentry
# on the same carrier most of the time. Every board that calls or is called
# must share this value. 927 MHz measured about ten times quieter than the
# rest of the 902-928 band on one bench.
wake_frequency_hz = 0

# -- Debug -----------------------------------------------------------------
[debug]

# Log every event on the USB console, on top of the events that are always
# logged. Costs nothing when nothing is attached; turn it off for a quiet
# console or when a tool is parsing it.
verbose = true

# -- GPS -------------------------------------------------------------------
# MAX-M10 receiver, applied as one UBX-CFG-VALSET to the RAM layer. An
# absent [gps] section leaves the module at its factory concurrent set.
[gps]

# Enable the GPS (US) constellation.
gps_enabled = true

# Enable the GLONASS (Russia) constellation. The M10 tracks a limited
# concurrent set.
glonass_enabled = false

# Enable the Galileo (EU) constellation.
galileo_enabled = true

# Enable the BeiDou (China) constellation.
beidou_enabled = true

# Enable the QZSS (Japan) augmentation.
qzss_enabled = true

# Enable SBAS augmentation (WAAS, EGNOS and similar).
sbas_enabled = true

# GPS power mode: full, psmoo (power-save on/off) or psmct (power-save
# cyclic tracking).
power_mode = "full"

# GPS measurement and navigation period in ms, 25-10000.
meas_rate_ms = 1000

# GPS motion model: portable, stationary, pedestrian, automotive, sea,
# airborne1g, airborne2g or airborne4g.
dynamic_model = "portable"

# -- Power -----------------------------------------------------------------
# The duty cycle: how much of the time the board is reachable. These five
# are the only keys in this file the board also keeps its own copy of, in
# RTC RAM so they survive a deep sleep and in flash so they survive a flat
# cell, and they are the only ones an app can change live over BLE. So they
# follow a different rule to every other key here: an absent one leaves the
# board's current value alone rather than resetting it to the default. That
# is why all five are commented out - a push of this file should not
# silently undo a duty cycle somebody set from the app. Uncomment one and it
# wins at the next boot, because the file is what survives a reflash and the
# RTC copy is not. Writing an explicit 0 is a request, not an absence: it is
# how a file turns a duty cycle off. What is NOT here is the mode. The board
# has four - stored, idle, tracking and listening - and which one it is in
# is a command from the app or the console, never a file: a card that said
# tracking would put every board it was ever copied into onto the air. Each
# key belongs to one mode: stored reads sleep_interval_s and adv_window_s,
# idle reads idle_timeout_s, tracking reads ble_off_s and ble_on_s, and
# listening reads none of them.
[power]

# Seconds the BLE controller is powered down between advertising windows, 0
# or 5-300. This is the biggest single saving the firmware has: the
# controller is about 71 mA of the board's 126 and nothing but ending its
# lifetime reduces it, so the board drops to about 60 mA for this long and
# is unreachable over BLE while it does. LoRa, GPS and logging keep running
# throughout, so it is still a working tracker. 0 keeps BLE up continuously.
# Read while tracking only.
# ble_off_s = 0

# Seconds each wake check advertises, 0 or 1-60. 0 means the firmware
# default of 15 s. This is the whole of the time a stored board is
# reachable, so it and sleep_interval_s together are what a phone has to
# catch. With sleep_interval_s at 0 the board advertises forever and the
# window never ends.
# adv_window_s = 0

# Seconds BLE stays up between off periods while tracking, 0 or 1-60. 0
# means the firmware default of 15 s. The on-half of the ble_off_s duty
# cycle: long enough for a phone to connect, read the roster and let go.
# Only read while tracking, and only with ble_off_s set.
# ble_on_s = 0

# Seconds between wake checks while the board is stored, 0 or 5-3600. 0
# means the board never stores itself on its own: with no cadence to sleep
# on, the idle timeout has nowhere to send it and it stays awake and
# reachable. That is the bench setting. A board explicitly told to store
# itself still sleeps, on a 300 s default. Deep sleep takes the whole chip
# down rather than just the BLE controller, so it is the larger saving and
# the larger cost: the board stops beaconing, stops logging, and every wake
# is a full reset. With wake_enabled on in the radio config the radio keeps
# listening for a wake frame through the sleep, so this cadence is a
# backstop and an hour is a fine value; with it off, this is the only way
# back in. Ignored while tracking - a tracker that deep-sleeps is not
# tracking.
# sleep_interval_s = 0

# Seconds the board stays reachable-but-not-tracking before it stores
# itself, 0 or 10-3600. 0 is the default and means it never does: an idle
# board stays idle until it is told otherwise. Idle is the expensive state -
# BLE dominates it at around 90 mA - so set this for a board that could be
# forgotten idle. It also needs sleep_interval_s: with no cadence to wake on
# the board cannot store itself and stays reachable.
# idle_timeout_s = 0
"##;

/// The shipped example is this crate's output, so the file, the parser's
/// ranges and the app's field help cannot drift apart.
#[test]
fn the_shipped_example_is_generated() {
    let mut out = String::new();
    write_example(&mut out);
    for (i, (shipped, line)) in SHIPPED.lines().zip(out.lines()).enumerate() {
        assert_eq!(shipped, line, "line {}", i + 1);
    }
    assert!(SHIPPED == out, "the shipped example is out of date");
    // No line runs past the wrap, and every key's doc is there.
    for line in out.lines() {
        assert!(line.len() <= 80, "{line}");
    }
    for i in 0..KEYS.len() {
        let name = key_at(i).name;
        assert!(out.contains(&format!("{name} = ")), "{name} missing");
    }
}

/// The file is a config file: it parses, to the defaults, and every line that
/// is not a comment, a blank or a section sets a key to its own.
#[test]
fn the_example_parses_to_the_defaults() {
    let mut out = String::new();
    write_example(&mut out);
    assert!(out.is_ascii());
    assert_eq!(parse(&out), Ok(RadioConfig::default()));
    assert!(out.lines().all(|l| l.len() <= 76));
    for i in 0..KEYS.len() {
        let k = key_at(i);
        assert!((0..SECTIONS.len()).any(|j| section_at(j).name == k.section), "{} in no section", k.name);
        let mut line = format!("{} = ", k.name);
        k.show(&RadioConfig::default(), &mut line);
        let printed = if k.commented { format!("# {line}") } else { line };
        assert_eq!(out.lines().filter(|l| *l == printed).count(), 1, "{printed}");
    }
}
