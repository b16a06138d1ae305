//! The docs of the reference file as text: all of it ASCII, and no word of it
//! longer than a line of the file takes.
//!
//! Each doc is shown to be so by naming spaces in it that lie close enough
//! together for no longer word to stand between them.

use vstd::prelude::*;
use crate::chars;
use crate::radiocfg::keys;
use crate::radiocfg::keys::{EXAMPLE_HEADER, EXAMPLE_WIDTH, KEYS, SECTIONS};

verus! {

/// The longest word a line of the reference file takes behind its `# `.
pub open spec fn word_max() -> int {
    EXAMPLE_WIDTH - 2
}

/// Whether what stands at `i` runs on for longer than a line takes.
pub open spec fn runs_on(text: Seq<char>, i: int) -> bool {
    forall|k: int| i <= k <= i + word_max() ==> !chars::is_space(#[trigger] text[k])
}

/// Whether a text can be wrapped into the reference file: ASCII, of no more
/// than 2000 characters, and no word of it longer than a line takes.
pub open spec fn is_prose(text: Seq<char>) -> bool {
    &&& vstd::utf8::is_ascii_chars(text)
    &&& text.len() <= 2000
    &&& forall|i: int| 0 <= i && i + word_max() < text.len() ==> !(#[trigger] runs_on(text, i))
}

/// What is left of prose is prose.
pub proof fn lemma_prose_left(text: Seq<char>, n: int)
    requires
        is_prose(text),
        0 <= n <= text.len(),
    ensures
        is_prose(text.skip(n)),
{
    let t = text.skip(n);
    assert forall|i: int| 0 <= i && i + word_max() < t.len() implies !(#[trigger] runs_on(t, i)) by {
        assert(!runs_on(text, i + n));
        let k = choose|k: int| i + n <= k <= i + n + word_max() && chars::is_space(#[trigger] text[k]);
        assert(chars::is_space(t[k - n]));
    }
}

/// Whether `s` can stand in the line above a section.
pub open spec fn is_title(s: Seq<char>) -> bool {
    &&& s.len() <= 70
    &&& forall|i: int| 0 <= i < s.len() ==> ' ' <= #[trigger] s[i] <= '~'
}

/// The header is prose.
pub proof fn lemma_header()
    ensures
        is_prose(EXAMPLE_HEADER@),
{
    reveal_strlit("RADIO.CFG - telemetry-in-midair radio configuration reference. Generated from the key table in the protocol crate (cargo run --example radio_example in proto/); every value below is the firmware default. The firmware reads at most 1024 bytes of config, which the comments here put this file well over, so it is a reference rather than a file to push: strip the comments and what remains fits. The tools do that (cd tools && pixi run board-config --address 3 pushes it; add --dry-run --save ../RADIO.CFG for the stripped file). A config pushed over USB or BLE is applied live and kept in the board's own flash, so it survives a power cycle. Every key is optional - an absent key keeps its default, and an empty file is valid. Section headers are cosmetic: keys are unique across sections, so a key works regardless of which [section] it sits under.");
    let t = EXAMPLE_HEADER@;
    assert(t[72] == ' ' && t[134] == ' ' && t[207] == ' ' && t[280] == ' ' && t[350] == ' ' && t[423] == ' ' && t[489] == ' ' && t[561] == ' ' && t[632] == ' ' && t[703] == ' ' && t[777] == ' ');
}

/// Every section's doc is prose, its name a word, and its title fits the line
/// above it.
pub proof fn lemma_section(j: int)
    requires
        0 <= j < 7,
    ensures
        is_prose(SECTIONS@[j].2@),
        keys::is_word(SECTIONS@[j].0@),
        SECTIONS@[j].0@.len() <= 10,
        is_title(SECTIONS@[j].1@),
{
    if j == 0 {
        reveal_strlit("radio");
        reveal_strlit("Radio");
        assert(SECTIONS@[0].0@ == "radio"@ && SECTIONS@[0].1@ == "Radio"@);
        reveal_strlit("frequency, spreading factor, bandwidth, coding rate and power are the LoRa link-budget knobs: together they set sensitivity, on-air time and radiated power - i.e. range. The three hop_* keys are the channel plan and the slot clock that runs it. The default plan is one channel: a 500 kHz signal may hold a single carrier in the 902-928 MHz band as often as it likes, so hopping buys no air time there that the default modulation does not already have. What the plan is kept for is the clock, which cuts every second into turns and gives each address one - without it two nodes beaconing at the same rate talk over each other. Raise hop_channels to hop for real; see the notes on that key. The four commented keys describe the board the firmware is running on, not a preference: the defaults are the Wio-S3's own hardware, and inside the module SX1262 DIO2 is the VCTL of an SKY13453-385LF antenna switch and DIO3 is that same switch's VDD. Turning the switch off, or supplying it below the 2.5 V its datasheet specifies, leaves the PA transmitting +22 dBm into an isolated port, so the firmware refuses both, logs that it did, and runs the board's values instead.");
        let t = SECTIONS@[0].2@;
        assert(t[74] == ' ' && t[149] == ' ' && t[224] == ' ' && t[298] == ' ' && t[369] == ' ' && t[437] == ' ' && t[508] == ' ' && t[576] == ' ' && t[651] == ' ' && t[725] == ' ' && t[798] == ' ' && t[873] == ' ' && t[947] == ' ' && t[1020] == ' ' && t[1094] == ' ');
    } else if j == 1 {
        reveal_strlit("network");
        reveal_strlit("Network");
        assert(SECTIONS@[1].0@ == "network"@ && SECTIONS@[1].1@ == "Network"@);
        reveal_strlit("Everything is sent. Leaves hear each other directly, so a fleet of nothing but leaves is a working network and these defaults need no changing. A repeater is for covering ground no pair of leaves can reach across on their own. tx_only and rx_only split a leaf in half, for a deployment where the reporting only ever runs one way.");
        let t = SECTIONS@[1].2@;
        assert(t[74] == ' ' && t[145] == ' ' && t[215] == ' ' && t[285] == ' ');
    } else if j == 2 {
        reveal_strlit("beacon");
        reveal_strlit("Beacon");
        assert(SECTIONS@[2].0@ == "beacon"@ && SECTIONS@[2].1@ == "Beacon"@);
        reveal_strlit("What goes out, and how often.");
    } else if j == 3 {
        reveal_strlit("wake");
        reveal_strlit("Wake on LoRa");
        assert(SECTIONS@[3].0@ == "wake"@ && SECTIONS@[3].1@ == "Wake on LoRa"@);
        reveal_strlit("How a stored board is reached without waiting for its wake check. With wake_enabled on, the park before every deep sleep leaves the SX1262 in its own sniff loop - listening for wake_rx_ms, sleeping for wake_sleep_ms, on frequency_hz and a sync word ordinary traffic never uses - and the S3 sleeps until the radio pulls DIO1 with a completed wake frame. A board that wants another woken sends a burst of wake frames behind a preamble sized to the target's cycle: cd tools && pixi run board-wake --target 3. The woken board comes up idle, answers with a ping, and can then be connected to over BLE. The timer wake-check stays armed as a backstop. The window sets the tolerance for the radio's timer drift (half of 2*rx - 10 ms - 24 symbols, either way) and the sleep sets the current: at the defaults the receiver is on 9% of the time, and a wake frame is about 3.4 s on air. Both boards must share these values, because the preamble one sends is computed from them. Refused on a hopping plan, since a wake frame would hold one channel far longer than hopping allows.");
        let t = SECTIONS@[3].2@;
        assert(t[70] == ' ' && t[145] == ' ' && t[219] == ' ' && t[289] == ' ' && t[360] == ' ' && t[432] == ' ' && t[505] == ' ' && t[573] == ' ' && t[648] == ' ' && t[721] == ' ' && t[789] == ' ' && t[863] == ' ' && t[935] == ' ' && t[1010] == ' ');
    } else if j == 4 {
        reveal_strlit("debug");
        reveal_strlit("Debug");
        assert(SECTIONS@[4].0@ == "debug"@ && SECTIONS@[4].1@ == "Debug"@);
        reveal_strlit("");
    } else if j == 5 {
        reveal_strlit("gps");
        reveal_strlit("GPS");
        assert(SECTIONS@[5].0@ == "gps"@ && SECTIONS@[5].1@ == "GPS"@);
        reveal_strlit("MAX-M10 receiver, applied as one UBX-CFG-VALSET to the RAM layer. An absent [gps] section leaves the module at its factory concurrent set.");
        let t = SECTIONS@[5].2@;
        assert(t[68] == ' ');
    } else {
        reveal_strlit("power");
        reveal_strlit("Power");
        assert(SECTIONS@[6].0@ == "power"@ && SECTIONS@[6].1@ == "Power"@);
        reveal_strlit("The duty cycle: how much of the time the board is reachable. These five are the only keys in this file the board also keeps its own copy of, in RTC RAM so they survive a deep sleep and in flash so they survive a flat cell, and they are the only ones an app can change live over BLE. So they follow a different rule to every other key here: an absent one leaves the board's current value alone rather than resetting it to the default. That is why all five are commented out - a push of this file should not silently undo a duty cycle somebody set from the app. Uncomment one and it wins at the next boot, because the file is what survives a reflash and the RTC copy is not. Writing an explicit 0 is a request, not an absence: it is how a file turns a duty cycle off. What is NOT here is the mode. The board has four - stored, idle, tracking and listening - and which one it is in is a command from the app or the console, never a file: a card that said tracking would put every board it was ever copied into onto the air. Each key belongs to one mode: stored reads sleep_interval_s and adv_window_s, idle reads idle_timeout_s, tracking reads ble_off_s and ble_on_s, and listening reads none of them.");
        let t = SECTIONS@[6].2@;
        assert(t[71] == ' ' && t[143] == ' ' && t[216] == ' ' && t[290] == ' ' && t[364] == ' ' && t[438] == ' ' && t[505] == ' ' && t[580] == ' ' && t[655] == ' ' && t[730] == ' ' && t[805] == ' ' && t[878] == ' ' && t[951] == ' ' && t[1025] == ' ' && t[1098] == ' ' && t[1168] == ' ');
    }
}

proof fn lemma_key_doc_0(i: int)
    requires
        0 <= i <= 4,
    ensures
        is_prose(KEYS@[i].4@),
{
    if i == 0 {
        reveal_strlit("RF center frequency in Hz, 150000000-960000000. With more than one hop channel this is the center of the plan and the channels straddle it; with one it is simply the carrier.");
        let t = KEYS@[0].4@;
        assert(t[70] == ' ' && t[144] == ' ');
    } else if i == 1 {
        reveal_strlit("Channels in the plan, 1-255 (0 is read as 1). 1, the default, is the slot clock on the single carrier at frequency_hz: nodes share slots and take turns inside them by address, which is what keeps two nodes beaconing at the same rate from talking over each other, and it is the right answer at 500 kHz bandwidth, where the band lets one carrier be held as often as you like. More than 1 adds channel diversity: a fade or an interferer parked on one carrier costs one beacon in hop_channels rather than every beacon, and below 500 kHz of bandwidth 50 channels is what the 902-928 MHz band requires. Hopping is not free - every node hops on one shared clock, from GPS where a node has a fix and from the frames it hears where it does not, so a node that knows nobody's clock spends roughly hop_channels times the beacon interval, divided by the number of nodes transmitting, before it hears the network at all.");
        let t = KEYS@[1].4@;
        assert(t[73] == ' ' && t[145] == ' ' && t[218] == ' ' && t[292] == ' ' && t[367] == ' ' && t[440] == ' ' && t[514] == ' ' && t[586] == ' ' && t[660] == ' ' && t[735] == ' ' && t[809] == ' ' && t[881] == ' ');
    } else if i == 2 {
        reveal_strlit("Spacing between hop channels in kHz, 25-5000. At least the bandwidth, or adjacent channels overlap. Unused with one channel, since there is nothing to space. 500 kHz for 50 channels spans 902.75-927.25 MHz around the 915 MHz center.");
        let t = KEYS@[2].4@;
        assert(t[72] == ' ' && t[147] == ' ' && t[220] == ' ');
    } else if i == 3 {
        reveal_strlit("Slot length in ms, 100-10000, and so how long every node stays on each channel. One transmission per node per slot, which has to fit the slot with a 100 ms guard at each end, so at 1000 ms a beacon may be up to 800 ms on air. The band caps one hop visit at 400 ms; the default beacon is 289 ms. The 800 ms window is cut into as many default beacons as fit - two - and nodes take those turns by address, so two nodes may beacon every second without overlapping.");
        let t = KEYS@[3].4@;
        assert(t[70] == ' ' && t[141] == ' ' && t[214] == ' ' && t[286] == ' ' && t[361] == ' ' && t[432] == ' ');
    } else {
        reveal_strlit("LoRa spreading factor, 5-12. Higher gives longer range at a lower data rate.");
        let t = KEYS@[4].4@;
        assert(t[70] == ' ');
    }
}

proof fn lemma_key_doc_1(i: int)
    requires
        5 <= i <= 9,
    ensures
        is_prose(KEYS@[i].4@),
{
    if i == 5 {
        reveal_strlit("LoRa bandwidth in kHz: 62, 125, 250 or 500 (62 means 62.5). Narrower gives longer range at a lower data rate, and a longer frame: the default beacon is 289 ms at 500 and 1150 ms at 125, past the 400 ms one hop visit may occupy a channel. In the 902-928 MHz band only 500 is wide enough to hold a single carrier; anything narrower has to hop, so it needs hop_channels raised to 50 as well.");
        let t = KEYS@[5].4@;
        assert(t[74] == ' ' && t[148] == ' ' && t[219] == ' ' && t[293] == ' ' && t[366] == ' ');
    } else if i == 6 {
        reveal_strlit("Coding rate denominator 5-8 for 4/5..4/8. Higher adds forward error correction at a lower data rate.");
        let t = KEYS@[6].4@;
        assert(t[67] == ' ');
    } else if i == 7 {
        reveal_strlit("Transmit power in dBm, -9 to 22 on the high-power PA.");
    } else if i == 8 {
        reveal_strlit("Boosted receiver gain: roughly +2 dB of sensitivity for a few mA more current whenever the node is listening.");
        let t = KEYS@[8].4@;
        assert(t[69] == ' ');
    } else {
        reveal_strlit("Use the internal DC-DC (SMPS). The Wio-S3 carries the inductor it needs.");
    }
}

proof fn lemma_key_doc_2(i: int)
    requires
        10 <= i <= 14,
    ensures
        is_prose(KEYS@[i].4@),
{
    if i == 10 {
        reveal_strlit("Let the radio drive its own antenna switch from DIO2 (SetDio2AsRfSwitchCtrl). The Wio-S3 wires DIO2 to the SKY13453-385LF between the PA and the LoRa port, so this must stay on; the firmware ignores an off.");
        let t = KEYS@[10].4@;
        assert(t[52] == ' ' && t[121] == ' ' && t[190] == ' ');
    } else if i == 11 {
        reveal_strlit("Supply the radio drives DIO3 at. Named for the TCXO, but on the Wio-S3 DIO3 is also the antenna switch's VDD, specified 2.5-3.5 V - so only 2.7, 3.0 and 3.3 are usable and the firmware raises anything lower.");
        let t = KEYS@[11].4@;
        assert(t[70] == ' ' && t[144] == ' ');
    } else if i == 12 {
        reveal_strlit("How long the radio waits for the TCXO to settle before using the clock, 1-1000 ms.");
        let t = KEYS@[12].4@;
        assert(t[71] == ' ');
    } else if i == 13 {
        reveal_strlit("Leave the radio listening for a wake frame through every deep sleep. Off, a stored board is reachable only during its wake checks.");
        let t = KEYS@[13].4@;
        assert(t[73] == ' ');
    } else {
        reveal_strlit("The sentry's receive window, 50-5000 ms. Longer tolerates more drift in the radio's own timer and costs proportionally more current; under about 105 ms at the default modulation no wake preamble fits at all and the sentry is refused.");
        let t = KEYS@[14].4@;
        assert(t[71] == ' ' && t[144] == ' ' && t[214] == ' ');
    }
}

proof fn lemma_key_doc_3(i: int)
    requires
        15 <= i <= 19,
    ensures
        is_prose(KEYS@[i].4@),
{
    if i == 15 {
        reveal_strlit("The sentry's sleep between windows, 200-30000 ms. Longer is cheaper and makes every wake frame longer by the same amount, so a waker spends more air time per attempt.");
        let t = KEYS@[15].4@;
        assert(t[71] == ' ' && t[144] == ' ');
    } else if i == 16 {
        reveal_strlit("The carrier the sentry listens on and wake frames go out on, Hz; 0 means frequency_hz. A sentry locks on any LoRa symbol that lands in its window, and a preamble that is not a wake frame's - a beacon, another network, noise - holds it for a restarted timer and then costs it a whole sleep, during which a wake frame is lost. So put the sentry where the beacons are not: a fleet that beacons every second on frequency_hz will blind a sentry on the same carrier most of the time. Every board that calls or is called must share this value. 927 MHz measured about ten times quieter than the rest of the 902-928 band on one bench.");
        let t = KEYS@[16].4@;
        assert(t[72] == ' ' && t[146] == ' ' && t[217] == ' ' && t[289] == ' ' && t[364] == ' ' && t[439] == ' ' && t[513] == ' ' && t[586] == ' ');
    } else if i == 17 {
        reveal_strlit("This node's address, 1-255. Must be unique among the nodes that transmit: two senders sharing an address are mutually deaf, each dropping the other's broadcasts as an echo of its own, so neither ever sees the other. An rx_only node never puts its address on the air, so it can keep the default. The address also picks the node's turn inside a slot: number a fleet 1, 2, 3... and the first 2 x interval_s of them never overlap on the air.");
        let t = KEYS@[17].4@;
        assert(t[73] == ' ' && t[141] == ' ' && t[215] == ' ' && t[285] == ' ' && t[357] == ' ' && t[432] == ' ');
    } else if i == 18 {
        reveal_strlit("leaf transmits its own position and receives everyone else's. repeater also retransmits other nodes' broadcasts, extending range past one radio horizon at the cost of doubling the traffic it forwards. tx_only beacons without ever switching the receiver on, which is the largest power saving available to a node nobody needs to track from. rx_only listens without ever transmitting, for a base station that only collects.");
        let t = KEYS@[18].4@;
        assert(t[70] == ' ' && t[143] == ' ' && t[216] == ' ' && t[290] == ' ' && t[362] == ' ');
    } else {
        reveal_strlit("Retransmissions allowed for a broadcast this node sends, 0-8. 0 means no repeater forwards it.");
        let t = KEYS@[19].4@;
        assert(t[72] == ' ');
    }
}

proof fn lemma_key_doc_4(i: int)
    requires
        20 <= i <= 24,
    ensures
        is_prose(KEYS@[i].4@),
{
    if i == 20 {
        reveal_strlit("How long a broadcast is remembered so a repeat of it is dropped rather than delivered or forwarded again, 1-3600 s. Must stay under 200 x interval_s: the beacon id wraps every 256 frames, and past that a node starts suppressing its own later broadcasts as duplicates. The file is refused otherwise.");
        let t = KEYS@[20].4@;
        assert(t[70] == ' ' && t[137] == ' ' && t[208] == ' ' && t[279] == ' ');
    } else if i == 21 {
        reveal_strlit("Position broadcast period in seconds while the node has a fix, 0-3600. A node transmits at most once per slot, so 1 is every slot at the default dwell. It also sets how many nodes fit: a slot holds two default beacons, so 2 x interval_s addresses beacon without overlapping - two every second, four every two seconds, ten every five. 0 silences the node's own transmissions altogether, pings included, as does a role of rx_only.");
        let t = KEYS@[21].4@;
        assert(t[72] == ' ' && t[144] == ' ' && t[218] == ' ' && t[293] == ' ' && t[359] == ' ');
    } else if i == 22 {
        reveal_strlit("How often a node with no fix says so, 0-3600 s: a small ping goes out in place of the position, so a node that cannot see the sky is still heard. Slower than the beacon by default, since a searching receiver has nothing new to report every second. 0 sends no pings.");
        let t = KEYS@[22].4@;
        assert(t[72] == ' ' && t[145] == ' ' && t[219] == ' ');
    } else if i == 23 {
        reveal_strlit("Which GPS fields each broadcast carries: lat, lon, altitude, speed, course, sats, time. lat and lon are required. More fields cost more air time.");
        let t = KEYS@[23].4@;
        assert(t[67] == ' ' && t[139] == ' ');
    } else {
        reveal_strlit("Log every event on the USB console, on top of the events that are always logged. Costs nothing when nothing is attached; turn it off for a quiet console or when a tool is parsing it.");
        let t = KEYS@[24].4@;
        assert(t[72] == ' ' && t[144] == ' ');
    }
}

proof fn lemma_key_doc_5(i: int)
    requires
        25 <= i <= 29,
    ensures
        is_prose(KEYS@[i].4@),
{
    if i == 25 {
        reveal_strlit("Enable the GPS (US) constellation.");
    } else if i == 26 {
        reveal_strlit("Enable the GLONASS (Russia) constellation. The M10 tracks a limited concurrent set.");
        let t = KEYS@[26].4@;
        assert(t[67] == ' ');
    } else if i == 27 {
        reveal_strlit("Enable the Galileo (EU) constellation.");
    } else if i == 28 {
        reveal_strlit("Enable the BeiDou (China) constellation.");
    } else {
        reveal_strlit("Enable the QZSS (Japan) augmentation.");
    }
}

proof fn lemma_key_doc_6(i: int)
    requires
        30 <= i <= 34,
    ensures
        is_prose(KEYS@[i].4@),
{
    if i == 30 {
        reveal_strlit("Enable SBAS augmentation (WAAS, EGNOS and similar).");
    } else if i == 31 {
        reveal_strlit("GPS power mode: full, psmoo (power-save on/off) or psmct (power-save cyclic tracking).");
        let t = KEYS@[31].4@;
        assert(t[68] == ' ');
    } else if i == 32 {
        reveal_strlit("GPS measurement and navigation period in ms, 25-10000.");
    } else if i == 33 {
        reveal_strlit("GPS motion model: portable, stationary, pedestrian, automotive, sea, airborne1g, airborne2g or airborne4g.");
        let t = KEYS@[33].4@;
        assert(t[68] == ' ');
    } else {
        reveal_strlit("Seconds the BLE controller is powered down between advertising windows, 0 or 5-300. This is the biggest single saving the firmware has: the controller is about 71 mA of the board's 126 and nothing but ending its lifetime reduces it, so the board drops to about 60 mA for this long and is unreachable over BLE while it does. LoRa, GPS and logging keep running throughout, so it is still a working tracker. 0 keeps BLE up continuously. Read while tracking only.");
        let t = KEYS@[34].4@;
        assert(t[73] == ' ' && t[139] == ' ' && t[211] == ' ' && t[284] == ' ' && t[358] == ' ' && t[433] == ' ');
    }
}

proof fn lemma_key_doc_7(i: int)
    requires
        35 <= i <= 38,
    ensures
        is_prose(KEYS@[i].4@),
{
    if i == 35 {
        reveal_strlit("Seconds each wake check advertises, 0 or 1-60. 0 means the firmware default of 15 s. This is the whole of the time a stored board is reachable, so it and sleep_interval_s together are what a phone has to catch. With sleep_interval_s at 0 the board advertises forever and the window never ends.");
        let t = KEYS@[35].4@;
        assert(t[67] == ' ' && t[132] == ' ' && t[203] == ' ' && t[274] == ' ');
    } else if i == 36 {
        reveal_strlit("Seconds BLE stays up between off periods while tracking, 0 or 1-60. 0 means the firmware default of 15 s. The on-half of the ble_off_s duty cycle: long enough for a phone to connect, read the roster and let go. Only read while tracking, and only with ble_off_s set.");
        let t = KEYS@[36].4@;
        assert(t[69] == ' ' && t[139] == ' ' && t[210] == ' ');
    } else if i == 37 {
        reveal_strlit("Seconds between wake checks while the board is stored, 0 or 5-3600. 0 means the board never stores itself on its own: with no cadence to sleep on, the idle timeout has nowhere to send it and it stays awake and reachable. That is the bench setting. A board explicitly told to store itself still sleeps, on a 300 s default. Deep sleep takes the whole chip down rather than just the BLE controller, so it is the larger saving and the larger cost: the board stops beaconing, stops logging, and every wake is a full reset. With wake_enabled on in the radio config the radio keeps listening for a wake frame through the sleep, so this cadence is a backstop and an hour is a fine value; with it off, this is the only way back in. Ignored while tracking - a tracker that deep-sleeps is not tracking.");
        let t = KEYS@[37].4@;
        assert(t[69] == ' ' && t[142] == ' ' && t[209] == ' ' && t[280] == ' ' && t[353] == ' ' && t[426] == ' ' && t[500] == ' ' && t[574] == ' ' && t[641] == ' ' && t[713] == ' ' && t[781] == ' ');
    } else {
        reveal_strlit("Seconds the board stays reachable-but-not-tracking before it stores itself, 0 or 10-3600. 0 is the default and means it never does: an idle board stays idle until it is told otherwise. Idle is the expensive state - BLE dominates it at around 90 mA - so set this for a board that could be forgotten idle. It also needs sleep_interval_s: with no cadence to wake on the board cannot store itself and stays reachable.");
        let t = KEYS@[38].4@;
        assert(t[67] == ' ' && t[139] == ' ' && t[214] == ' ' && t[287] == ' ' && t[362] == ' ');
    }
}

/// Every key's doc is prose.
pub proof fn lemma_key_doc(i: int)
    requires
        0 <= i < 39,
    ensures
        is_prose(KEYS@[i].4@),
{
    if i <= 4 {
        lemma_key_doc_0(i);
    } else if i <= 9 {
        lemma_key_doc_1(i);
    } else if i <= 14 {
        lemma_key_doc_2(i);
    } else if i <= 19 {
        lemma_key_doc_3(i);
    } else if i <= 24 {
        lemma_key_doc_4(i);
    } else if i <= 29 {
        lemma_key_doc_5(i);
    } else if i <= 34 {
        lemma_key_doc_6(i);
    } else {
        lemma_key_doc_7(i);
    }
}

} // verus!
