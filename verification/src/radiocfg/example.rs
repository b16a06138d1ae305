//! What the reference file promises: it reads as the defaults, it shows every
//! key, and no line of it runs past the wrap.
//!
//! The file is built of whole lines, so what is to be shown of it is shown of
//! its pieces and carried over joining them.

use vstd::prelude::*;
use crate::chars;
use crate::lora;
use crate::radiocfg;
use crate::radiocfg::keys;
use crate::radiocfg::keys::{Setting, Value, EXAMPLE_HEADER, EXAMPLE_WIDTH, KEYS, SECTIONS};
use crate::radiocfg::parser;
use crate::radiocfg::parser::{ConfigError, Draft};
use crate::radiocfg::prose;
use crate::radiocfg::RadioConfig;

verus! {

// -- Pieces of a file ------------------------------------------------------------

/// Whether a stretch of text has no line break in it.
pub open spec fn unbroken(text: Seq<char>, i: int, j: int) -> bool {
    forall|k: int| i <= k < j ==> #[trigger] text[k] != '\n'
}

/// Whether no line of a text is longer than `width`.
spec fn narrow(text: Seq<char>, width: int) -> bool {
    forall|i: int, j: int| 0 <= i <= j <= text.len() && #[trigger] unbroken(text, i, j) ==> j - i <= width
}

/// Whether a line, or lines, left the defaults as they were.
spec fn kept(r: Result<Draft, ConfigError>) -> bool {
    r matches Ok(d) && d.cfg == radiocfg::radio_defaults()
}

/// Whether lines leave the defaults as they were, wherever they stand.
spec fn inert(body: Seq<char>) -> bool {
    forall|d: Draft, line: nat|
        d.cfg == radiocfg::radio_defaults() ==> kept(#[trigger] parser::read_from(d, body, line))
}

/// A piece of the reference file: whole lines of ASCII, none past the wrap,
/// that leave the defaults as they were.
spec fn block(text: Seq<char>) -> bool {
    &&& text.len() > 0
    &&& text.last() == '\n'
    &&& vstd::utf8::is_ascii_chars(text)
    &&& narrow(text, EXAMPLE_WIDTH as int)
    &&& inert(text.drop_last())
}

/// Two pieces joined are a piece.
proof fn lemma_joined(a: Seq<char>, b: Seq<char>)
    requires
        block(a),
        block(b),
    ensures
        block(a + b),
{
    let s = a + b;
    let n = a.len();
    assert(s.last() == b.last());
    assert forall|i: int, j: int| 0 <= i <= j <= s.len() && #[trigger] unbroken(s, i, j) implies j - i
        <= EXAMPLE_WIDTH by {
        assert(s[n - 1] == a.last());
        if j <= n {
            assert forall|k: int| i <= k < j implies #[trigger] a[k] != '\n' by {
                assert(s[k] == a[k]);
            }
            assert(unbroken(a, i, j));
        } else {
            if i < n {
                assert(s[n - 1] != '\n');
            }
            assert forall|k: int| i - n <= k < j - n implies #[trigger] b[k] != '\n' by {
                assert(s[k + n] == b[k]);
            }
            assert(unbroken(b, i - n, j - n));
        }
    }
    assert(s.drop_last() =~= a.drop_last() + seq!['\n'] + b.drop_last());
    assert forall|d: Draft, line: nat| d.cfg == radiocfg::radio_defaults() implies kept(
        #[trigger] parser::read_from(d, s.drop_last(), line),
    ) by {
        parser::law_a_file_reads_line_by_line(d, a.drop_last(), b.drop_last(), line);
        assert(kept(parser::read_from(d, a.drop_last(), line)));
    }
}

/// A line is a piece, where it leaves the defaults as they were.
proof fn lemma_line(l: Seq<char>)
    requires
        l.len() <= EXAMPLE_WIDTH,
        vstd::utf8::is_ascii_chars(l),
        unbroken(l, 0, l.len() as int),
        forall|d: Draft, line: u32|
            d.cfg == radiocfg::radio_defaults() ==> kept(#[trigger] parser::line_read(d, l, line)),
    ensures
        block(l + "\n"@),
{
    reveal_strlit("\n");
    let s = l + "\n"@;
    assert(s.drop_last() =~= l);
    assert(s[l.len() as int] == '\n');
    chars::lemma_position_is(l, '\n', l.len() as int);
    assert(l.take(l.len() as int) =~= l);
    assert forall|i: int, j: int| 0 <= i <= j <= s.len() && #[trigger] unbroken(s, i, j) implies j - i
        <= EXAMPLE_WIDTH by {
        if i <= l.len() < j {
            assert(s[l.len() as int] != '\n');
        }
    }
}

/// A comment is a piece.
proof fn lemma_comment(l: Seq<char>)
    requires
        0 < l.len() <= EXAMPLE_WIDTH,
        l[0] == '#',
        vstd::utf8::is_ascii_chars(l),
        unbroken(l, 0, l.len() as int),
    ensures
        block(l + "\n"@),
{
    assert forall|d: Draft, line: u32| d.cfg == radiocfg::radio_defaults() implies kept(
        #[trigger] parser::line_read(d, l, line),
    ) by {
        parser::law_a_line_that_says_nothing(d, l, l, l, line);
    }
    lemma_line(l);
}

/// A blank line is a piece.
proof fn lemma_blank()
    ensures
        block("\n"@),
{
    let l = Seq::<char>::empty();
    assert forall|d: Draft, line: u32| d.cfg == radiocfg::radio_defaults() implies kept(
        #[trigger] parser::line_read(d, l, line),
    ) by {
        parser::law_a_line_that_says_nothing(d, l, l, l, line);
        assert(l.take(chars::position(l, '#')) =~= l);
        chars::lemma_trimmed_is(l);
    }
    lemma_line(l);
    assert(l + "\n"@ =~= "\n"@);
}

// -- Wrapped text ----------------------------------------------------------------

/// The rest of a text being wrapped, behind the line it goes on, is a piece.
proof fn lemma_wrapped(l: Seq<char>, text: Seq<char>)
    requires
        0 < l.len() <= EXAMPLE_WIDTH,
        l[0] == '#',
        vstd::utf8::is_ascii_chars(l),
        unbroken(l, 0, l.len() as int),
        prose::is_prose(text),
    ensures
        block(l + keys::wrapped("# "@, text, EXAMPLE_WIDTH as int, l.len() as int)),
        keys::wrapped("# "@, text, EXAMPLE_WIDTH as int, l.len() as int).len() <= 4 * text.len() + 1,
    decreases text.len(),
{
    reveal_strlit("# ");
    reveal_strlit("\n");
    reveal_strlit(" ");
    let w = EXAMPLE_WIDTH as int;
    let col = l.len() as int;
    let t = chars::trim_front(text);
    let n = keys::word_len(t);
    keys::lemma_trim_front(text);
    keys::lemma_word_len(t);
    if t.len() == 0 {
        lemma_comment(l);
    } else {
        prose::lemma_prose_left(text, text.len() - t.len());
        prose::lemma_prose_left(t, n);
        if n > prose::word_max() {
            assert(prose::runs_on(t, 0));
        }
        let word = t.take(n);
        let rest = t.skip(n);
        assert forall|k: int| 0 <= k < word.len() implies #[trigger] word[k] != '\n' by {
            assert(!chars::is_space(t[k]));
        }
        if col + 1 + n > w {
            let next = "# "@ + word;
            lemma_comment(l);
            lemma_wrapped(next, rest);
            let more = keys::wrapped("# "@, rest, w, next.len() as int);
            lemma_joined(l + "\n"@, next + more);
            assert(l + "\n"@ + (next + more) =~= l + keys::wrapped("# "@, text, w, col));
        } else {
            let next = l + " "@ + word;
            lemma_wrapped(next, rest);
            let more = keys::wrapped("# "@, rest, w, next.len() as int);
            assert(next + more =~= l + keys::wrapped("# "@, text, w, col));
        }
    }
}

/// A text wrapped is a piece, or nothing where there is nothing in it.
proof fn lemma_wrapped_whole(text: Seq<char>)
    requires
        prose::is_prose(text),
    ensures
        ({
            let r = keys::wrapped("# "@, text, EXAMPLE_WIDTH as int, 0);
            (r.len() == 0 || block(r)) && r.len() <= 4 * text.len() + 1
        }),
{
    reveal_strlit("# ");
    let w = EXAMPLE_WIDTH as int;
    let t = chars::trim_front(text);
    let n = keys::word_len(t);
    keys::lemma_trim_front(text);
    keys::lemma_word_len(t);
    if t.len() > 0 {
        prose::lemma_prose_left(text, text.len() - t.len());
        prose::lemma_prose_left(t, n);
        if n > prose::word_max() {
            assert(prose::runs_on(t, 0));
        }
        let word = t.take(n);
        assert forall|k: int| 0 <= k < word.len() implies #[trigger] word[k] != '\n' by {
            assert(!chars::is_space(t[k]));
        }
        lemma_wrapped("# "@ + word, t.skip(n));
        assert(keys::wrapped("# "@, text, w, 0) =~= "# "@ + word + keys::wrapped("# "@, t.skip(n), w, 2 + n));
    }
}

// -- A key's line ----------------------------------------------------------------

/// Ten times itself `k` times.
spec fn tens(k: nat) -> nat
    decreases k,
{
    if k == 0 {
        1
    } else {
        10 * tens((k - 1) as nat)
    }
}

/// A number below ten times itself `k` times has at most `k` digits.
proof fn lemma_decimal_short(n: nat, k: nat)
    requires
        1 <= k,
        n < tens(k),
    ensures
        chars::decimal(n).len() <= k,
    decreases k,
{
    reveal_with_fuel(tens, 2);
    if n >= 10 {
        lemma_decimal_short(n / 10, (k - 1) as nat);
    }
}

/// The longest list of fields there is from the `i`-th on.
spec fn list_max(i: int) -> int
    decreases 7 - i,
{
    if i >= 7 {
        0
    } else {
        lora::FIELD_NAMES@[i].1@.len() + 1 + list_max(i + 1)
    }
}

/// A list of fields is no longer than one of all of them.
proof fn lemma_list_short(mask: u8, i: int, first: bool)
    requires
        0 <= i <= 7,
    ensures
        lora::field_list(mask, i, first).len() <= list_max(i),
    decreases 7 - i,
{
    reveal_strlit(",");
    if i < 7 {
        lemma_list_short(mask, i + 1, false);
        lemma_list_short(mask, i + 1, first);
    }
}

/// All of the fields in a list.
proof fn lemma_list_max()
    ensures
        list_max(0) == 40,
{
    reveal_strlit("lat");
    reveal_strlit("lon");
    reveal_strlit("altitude");
    reveal_strlit("speed");
    reveal_strlit("course");
    reveal_strlit("sats");
    reveal_strlit("time");
    let n = lora::FIELD_NAMES@;
    assert(n[0].1@.len() == 3 && n[1].1@.len() == 3 && n[2].1@.len() == 8 && n[3].1@.len() == 5 && n[4].1@.len() == 6
        && n[5].1@.len() == 4 && n[6].1@.len() == 4);
    reveal_with_fuel(list_max, 8);
}

/// A default is one its key takes, and short.
proof fn lemma_default_short(s: Setting)
    ensures
        keys::fits(s.takes(), s.held(radiocfg::radio_defaults())),
        keys::shown(s.takes(), s.held(radiocfg::radio_defaults())).len() <= 42,
{
    let c = radiocfg::radio_defaults();
    parser::lemma_defaults_bounded();
    if let Some(k) = s.duty() {
        s.lemma_duty_takes(k);
    }
    reveal_strlit("\"");
    match s.held(c) {
        Value::Int(n) => {
            reveal_strlit("-");
            reveal_with_fuel(tens, 20);
            lemma_decimal_short((if n < 0 { 0 - n } else { n as int }) as nat, 19);
        },
        Value::Bool(b) => {
            reveal_strlit("true");
            reveal_strlit("false");
        },
        Value::Choice(i) => {
            reveal(Setting::takes);
            reveal(Setting::held_radio);
            reveal(Setting::held_network);
            reveal(Setting::held_gps);
            reveal_strlit("leaf");
            reveal_strlit("3.3");
            reveal_strlit("full");
            reveal_strlit("portable");
            assert(keys::ROLE_NAMES@[0]@ == "leaf"@);
            assert(keys::TCXO_NAMES@[7]@ == "3.3"@);
            assert(keys::POWER_MODE_NAMES@[0]@ == "full"@);
            assert(keys::DYN_MODEL_NAMES@[0]@ == "portable"@);
        },
        Value::Fields(mask) => {
            lemma_list_short(mask, 0, true);
            lemma_list_max();
        },
    }
}

/// A default written over the defaults leaves them as they were.
proof fn lemma_default_moves_nothing(s: Setting)
    requires
        !(s.part() is Power),
    ensures
        parser::moved(radiocfg::radio_defaults(), s, s.held(radiocfg::radio_defaults())) == radiocfg::radio_defaults(),
{
    reveal(Setting::held_radio);
    reveal(Setting::held_network);
    reveal(Setting::held_gps);
    reveal(parser::moved_radio);
    reveal(parser::moved_network);
    reveal(parser::moved_gps);
    assert(keys::ROLES@[0] is Leaf);
    assert(keys::TCXO@[7] is V3_3);
    assert(keys::POWER_MODES@[0] is Full);
    assert(keys::DYN_MODELS@[0] is Portable);
}

/// The duty cycle is commented out: a file that asks for it is not the
/// defaults.
proof fn lemma_power_commented(i: int)
    requires
        0 <= i < 39,
    ensures
        KEYS@[i].0.part() is Power ==> KEYS@[i].3,
{
}

/// The line of a key.
pub open spec fn key_line(i: int) -> Seq<char> {
    KEYS@[i].2@ + " = "@ + keys::shown(KEYS@[i].0.takes(), KEYS@[i].0.held(radiocfg::radio_defaults()))
}

/// The line of a key, commented out or not, is a piece.
proof fn lemma_key_line(i: int)
    requires
        0 <= i < 39,
    ensures
        block(key_line(i) + "\n"@) || KEYS@[i].3,
        block("# "@ + key_line(i) + "\n"@),
        key_line(i).len() <= 62,
{
    let s = KEYS@[i].0;
    let name = KEYS@[i].2@;
    let v = s.held(radiocfg::radio_defaults());
    let shown = keys::shown(s.takes(), v);
    let l = key_line(i);
    lemma_default_short(s);
    parser::law_a_value_shown_is_a_value_read(s, v, 0);
    keys::law_a_name_finds_its_row(i, i);
    keys::lemma_name_short(i);
    reveal_strlit(" = ");
    reveal_strlit("# ");
    assert forall|k: int| 0 <= k < l.len() implies ' ' <= #[trigger] l[k] <= '~' by {
        if k < name.len() {
            assert(l[k] == name[k]);
            assert(keys::word_char(name[k]));
        } else if k >= name.len() + 3 {
            assert(l[k] == shown[k - name.len() - 3]);
            assert(parser::plain_char(shown[k - name.len() - 3]));
        }
    }
    let c = "# "@ + l;
    assert forall|k: int| 0 <= k < c.len() implies ' ' <= #[trigger] c[k] <= '~' by {
        if k >= 2 {
            assert(c[k] == l[k - 2]);
        }
    }
    lemma_comment(c);
    if !KEYS@[i].3 {
        lemma_power_commented(i);
        lemma_default_moves_nothing(s);
        assert forall|d: Draft, line: u32| d.cfg == radiocfg::radio_defaults() implies kept(
            #[trigger] parser::line_read(d, l, line),
        ) by {
            parser::law_a_line_written_is_a_line_read(d, i, v, line);
        }
        lemma_line(l);
    }
}

/// A key is a piece.
proof fn lemma_key(i: int)
    requires
        0 <= i < 39,
    ensures
        ({
            let t = keys::key_text(keys::key_of(i), radiocfg::radio_defaults());
            block(t) && t.len() <= 9000 && holds(t, key_line(i))
        }),
{
    let k = keys::key_of(i);
    let t = keys::key_text(k, radiocfg::radio_defaults());
    let doc = keys::wrapped("# "@, k.doc@, EXAMPLE_WIDTH as int, 0);
    let open = if k.commented { "# "@ } else { Seq::empty() };
    let line = open + key_line(i) + "\n"@;
    reveal_strlit("\n");
    reveal_strlit("# ");
    lemma_key_line(i);
    assert(Seq::<char>::empty() + key_line(i) =~= key_line(i));
    prose::lemma_key_doc(i);
    lemma_wrapped_whole(k.doc@);
    lemma_blank();
    if doc.len() == 0 {
        lemma_joined("\n"@, line);
        assert(t =~= "\n"@ + line);
    } else {
        lemma_joined("\n"@, doc);
        lemma_joined("\n"@ + doc, line);
        assert(t =~= "\n"@ + doc + line);
    }
    let at = 1 + doc.len() + open.len();
    assert(t.subrange(at as int, (at + key_line(i).len()) as int) =~= key_line(i));
    assert(stands_at(t, key_line(i), at as int));
}

// -- The sections ----------------------------------------------------------------

/// Whether `part` stands in `text` at `at`.
pub open spec fn stands_at(text: Seq<char>, part: Seq<char>, at: int) -> bool {
    &&& 0 <= at
    &&& at + part.len() <= text.len()
    &&& text.subrange(at, at + part.len()) == part
}

/// Whether `part` stands somewhere in `text`.
pub open spec fn holds(text: Seq<char>, part: Seq<char>) -> bool {
    exists|at: int| stands_at(text, part, at)
}

/// What a text holds, it holds with more round it.
proof fn lemma_holds(a: Seq<char>, text: Seq<char>, b: Seq<char>, part: Seq<char>)
    requires
        holds(text, part),
    ensures
        holds(a + text + b, part),
{
    let at = choose|at: int| stands_at(text, part, at);
    let n = a.len() + at;
    assert((a + text + b).subrange(n, n + part.len()) =~= text.subrange(at, at + part.len()));
    assert(stands_at(a + text + b, part, n));
}

/// The keys of a section are a piece, or nothing, and each of them is there.
proof fn lemma_keys(section: Seq<char>, from: int)
    requires
        0 <= from <= 39,
    ensures
        ({
            let t = keys::keys_text(section, radiocfg::radio_defaults(), from);
            &&& t.len() == 0 || block(t)
            &&& t.len() <= 9000 * (39 - from)
            &&& forall|i: int| from <= i < 39 && KEYS@[i].1@ == section ==> holds(t, #[trigger] key_line(i))
        }),
    decreases 39 - from,
{
    let cfg = radiocfg::radio_defaults();
    if from < 39 {
        lemma_keys(section, from + 1);
        let t = keys::keys_text(section, cfg, from);
        let rest = keys::keys_text(section, cfg, from + 1);
        if KEYS@[from].1@ == section {
            let k = keys::key_text(keys::key_of(from), cfg);
            lemma_key(from);
            assert(t == k + rest);
            if rest.len() > 0 {
                lemma_joined(k, rest);
            } else {
                assert(t =~= k);
            }
            assert forall|i: int| from <= i < 39 && KEYS@[i].1@ == section implies holds(t, #[trigger] key_line(i)) by {
                if i == from {
                    lemma_holds(Seq::empty(), k, rest, key_line(i));
                    assert(Seq::empty() + k + rest =~= t);
                } else {
                    lemma_holds(k, rest, Seq::empty(), key_line(i));
                    assert(k + rest + Seq::empty() =~= t);
                }
            }
        }
    }
}

/// The line above a section is a piece.
proof fn lemma_ruled(title: Seq<char>)
    requires
        prose::is_title(title),
    ensures
        block(keys::ruled(title)),
        keys::ruled(title).len() == EXAMPLE_WIDTH + 1,
{
    reveal_strlit("# -- ");
    reveal_strlit(" ");
    reveal_strlit("\n");
    let l = "# -- "@ + title + " "@ + keys::dashes(EXAMPLE_WIDTH - (6 + title.len()));
    assert forall|k: int| 0 <= k < l.len() implies ' ' <= #[trigger] l[k] <= '~' by {
        if 5 <= k < 5 + title.len() {
            assert(l[k] == title[k - 5]);
        }
    }
    lemma_comment(l);
    assert(keys::ruled(title) =~= l + "\n"@);
}

/// A section's header is a piece.
proof fn lemma_section_header(name: Seq<char>)
    requires
        keys::is_word(name),
        name.len() <= 10,
    ensures
        block("["@ + name + "]\n"@),
{
    reveal_strlit("[");
    reveal_strlit("]\n");
    reveal_strlit("\n");
    let l = "["@ + name + seq![']'];
    assert forall|k: int| 0 <= k < l.len() implies parser::plain_char(#[trigger] l[k]) by {
        if 1 <= k <= name.len() {
            assert(l[k] == name[k - 1]);
            assert(keys::word_char(name[k - 1]));
        }
    }
    assert forall|k: int| 0 <= k < l.len() implies l[k] != '#' by {
        assert(parser::plain_char(l[k]));
    }
    assert forall|k: int| 0 <= k < l.len() implies #[trigger] l[k] != '\n' by {
        assert(parser::plain_char(l[k]));
    }
    assert(vstd::utf8::is_ascii_chars(l)) by {
        assert forall|k: int| 0 <= k < l.len() implies '\0' <= #[trigger] l[k] <= '\u{7f}' by {
            assert(parser::plain_char(l[k]));
        }
    }
    chars::lemma_position_is(l, '#', l.len() as int);
    assert(l.take(l.len() as int) =~= l);
    chars::lemma_trimmed_is(l);
    assert forall|d: Draft, line: u32| d.cfg == radiocfg::radio_defaults() implies kept(
        #[trigger] parser::line_read(d, l, line),
    ) by {
        parser::law_a_line_that_says_nothing(d, l, l, l, line);
    }
    lemma_line(l);
    assert("["@ + name + "]\n"@ =~= l + "\n"@);
}

/// A section is a piece, and holds the lines of its keys.
proof fn lemma_section(j: int)
    requires
        0 <= j < 7,
    ensures
        ({
            let t = keys::section_text(keys::section_of(j), radiocfg::radio_defaults());
            &&& block(t)
            &&& t.len() <= 400_000
            &&& forall|i: int| 0 <= i < 39 && KEYS@[i].1@ == SECTIONS@[j].0@ ==> holds(t, #[trigger] key_line(i))
        }),
{
    let cfg = radiocfg::radio_defaults();
    let s = keys::section_of(j);
    let t = keys::section_text(s, cfg);
    let doc = keys::wrapped("# "@, s.doc@, EXAMPLE_WIDTH as int, 0);
    let name = "["@ + s.name@ + "]\n"@;
    let rows = keys::keys_text(s.name@, cfg, 0);
    reveal_strlit("\n");
    reveal_strlit("[");
    reveal_strlit("]\n");
    prose::lemma_section(j);
    lemma_blank();
    lemma_ruled(s.title@);
    lemma_wrapped_whole(s.doc@);
    lemma_section_header(s.name@);
    lemma_keys(s.name@, 0);
    let a = "\n"@ + keys::ruled(s.title@);
    lemma_joined("\n"@, keys::ruled(s.title@));
    let b = a + doc;
    if doc.len() > 0 {
        lemma_joined(a, doc);
    } else {
        assert(b =~= a);
    }
    let c = b + name;
    lemma_joined(b, name);
    assert(t =~= c + rows);
    if rows.len() > 0 {
        lemma_joined(c, rows);
    } else {
        assert(t =~= c);
    }
    assert forall|i: int| 0 <= i < 39 && KEYS@[i].1@ == SECTIONS@[j].0@ implies holds(t, #[trigger] key_line(i)) by {
        lemma_holds(c, rows, Seq::empty(), key_line(i));
        assert(c + rows + Seq::empty() =~= t);
    }
}

/// The sections from one on are a piece, or nothing, and hold the lines of
/// their keys.
proof fn lemma_sections(from: int)
    requires
        0 <= from <= 7,
    ensures
        ({
            let t = keys::sections_text(radiocfg::radio_defaults(), from);
            &&& t.len() == 0 || block(t)
            &&& t.len() <= 400_000 * (7 - from)
            &&& forall|i: int, j: int|
                0 <= i < 39 && from <= j < 7 && #[trigger] KEYS@[i].1@ == #[trigger] SECTIONS@[j].0@ ==> holds(
                    t,
                    key_line(i),
                )
        }),
    decreases 7 - from,
{
    let cfg = radiocfg::radio_defaults();
    if from < 7 {
        let t = keys::sections_text(cfg, from);
        let first = keys::section_text(keys::section_of(from), cfg);
        let rest = keys::sections_text(cfg, from + 1);
        lemma_section(from);
        lemma_sections(from + 1);
        assert(t == first + rest);
        if rest.len() > 0 {
            lemma_joined(first, rest);
        } else {
            assert(t =~= first);
        }
        assert forall|i: int, j: int|
            0 <= i < 39 && from <= j < 7 && #[trigger] KEYS@[i].1@ == #[trigger] SECTIONS@[j].0@ implies holds(
            t,
            key_line(i),
        ) by {
            if j == from {
                lemma_holds(Seq::empty(), first, rest, key_line(i));
                assert(Seq::empty() + first + rest =~= t);
            } else {
                lemma_holds(first, rest, Seq::empty(), key_line(i));
                assert(first + rest + Seq::empty() =~= t);
            }
        }
    }
}

/// The section a row stands in.
spec fn home(i: int) -> int {
    if i <= 12 {
        0
    } else if i <= 16 {
        3
    } else if i <= 20 {
        1
    } else if i <= 23 {
        2
    } else if i <= 24 {
        4
    } else if i <= 33 {
        5
    } else {
        6
    }
}

/// Every section a key names exists.
pub proof fn law_every_key_has_a_section(i: int)
    requires
        0 <= i < 39,
    ensures
        exists|j: int| 0 <= j < 7 && KEYS@[i].1@ == (#[trigger] SECTIONS@[j]).0@,
{
    assert(KEYS@[i].1@ == SECTIONS@[home(i)].0@);
}

// -- What the reference file promises --------------------------------------------

/// The reference file is whole lines that leave the defaults as they were, and
/// holds the line of every key.
proof fn lemma_example()
    ensures
        block(keys::example_text()),
        keys::example_text().len() <= 3_000_000,
        forall|i: int| 0 <= i < 39 ==> holds(keys::example_text(), #[trigger] key_line(i)),
{
    let cfg = radiocfg::radio_defaults();
    let head = keys::wrapped("# "@, EXAMPLE_HEADER@, EXAMPLE_WIDTH as int, 0);
    let rest = keys::sections_text(cfg, 0);
    let text = keys::example_text();
    prose::lemma_header();
    lemma_wrapped_whole(EXAMPLE_HEADER@);
    lemma_sections(0);
    assert(rest.len() > 0) by {
        lemma_section(0);
        assert(rest == keys::section_text(keys::section_of(0), cfg) + keys::sections_text(cfg, 1));
    }
    if head.len() > 0 {
        lemma_joined(head, rest);
    } else {
        assert(text =~= rest);
    }
    assert forall|i: int| 0 <= i < 39 implies holds(text, #[trigger] key_line(i)) by {
        law_every_key_has_a_section(i);
        let j = choose|j: int| 0 <= j < 7 && KEYS@[i].1@ == (#[trigger] SECTIONS@[j]).0@;
        assert(KEYS@[i].1@ == SECTIONS@[j].0@);
        lemma_holds(head, rest, Seq::empty(), key_line(i));
        assert(head + rest + Seq::empty() =~= text);
    }
}

/// The reference file is a config file, and every value in it is the default:
/// it parses, to the defaults and nothing else.
pub proof fn law_the_example_reads_as_the_defaults()
    ensures
        parser::countable(keys::example_text()),
        parser::parsed(keys::example_text()) == Ok::<RadioConfig, ConfigError>(radiocfg::radio_defaults()),
{
    let text = keys::example_text();
    let none = Seq::<char>::empty();
    lemma_example();
    assert(text =~= text.drop_last() + seq!['\n'] + none);
    parser::law_a_file_reads_line_by_line(parser::unread(), text.drop_last(), none, 1);
    let r = parser::read_from(parser::unread(), text.drop_last(), 1);
    assert(kept(r));
    assert(none.take(chars::position(none, '\n')) =~= none);
    assert(none.take(chars::position(none, '#')) =~= none);
    chars::lemma_trimmed_is(none);
    parser::lemma_defaults_bounded();
}

/// The reference file names every key of the table, each on a line that sets
/// it to its default.
pub proof fn law_the_example_shows_every_key(i: int)
    requires
        0 <= i < 39,
    ensures
        holds(keys::example_text(), key_line(i)),
        holds(keys::example_text(), KEYS@[i].2@ + " = "@),
{
    let text = keys::example_text();
    let part = KEYS@[i].2@ + " = "@;
    lemma_example();
    let at = choose|at: int| stands_at(text, key_line(i), at);
    assert(text.subrange(at, at + part.len()) =~= text.subrange(at, at + key_line(i).len()).take(part.len() as int));
    assert(key_line(i).take(part.len() as int) =~= part);
    assert(stands_at(text, part, at));
}

/// No line of the reference file runs past the wrap, counted in characters or
/// in bytes: the whole of it is ASCII.
pub proof fn law_no_line_of_the_example_runs_past_the_wrap(i: int, j: int)
    requires
        0 <= i <= j <= keys::example_text().len(),
        unbroken(keys::example_text(), i, j),
    ensures
        j - i <= EXAMPLE_WIDTH,
        vstd::utf8::encode_utf8(keys::example_text().subrange(i, j)).len() <= EXAMPLE_WIDTH,
        vstd::utf8::is_ascii_chars(keys::example_text()),
{
    lemma_example();
    let line = keys::example_text().subrange(i, j);
    assert(vstd::utf8::is_ascii_chars(line));
    vstd::utf8::is_ascii_chars_encode_utf8(line);
}

} // verus!
