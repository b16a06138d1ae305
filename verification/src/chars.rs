//! Text as a sequence of characters: finding, trimming, unquoting, and
//! numbers in decimal.

use vstd::prelude::*;

verus! {

// -- Finding and trimming ------------------------------------------------------

/// Where `c` first stands in `s`, its length where it does not.
pub open spec fn position(s: Seq<char>, c: char) -> int
    decreases s.len(),
{
    if s.len() == 0 || s[0] == c {
        0
    } else {
        1 + position(s.skip(1), c)
    }
}

/// [`position`] is an index of `s` or its length, nothing before it is `c`,
/// and what is there is.
pub proof fn lemma_position(s: Seq<char>, c: char)
    ensures
        0 <= position(s, c) <= s.len(),
        position(s, c) < s.len() ==> s[position(s, c)] == c,
        forall|i: int| 0 <= i < position(s, c) ==> s[i] != c,
    decreases s.len(),
{
    if s.len() > 0 && s[0] != c {
        let rest = s.skip(1);
        lemma_position(rest, c);
        assert forall|i: int| 0 <= i < position(s, c) implies s[i] != c by {
            if i > 0 {
                assert(rest[i - 1] == s[i]);
            }
        }
        if position(s, c) < s.len() {
            assert(rest[position(rest, c)] == s[position(s, c)]);
        }
    }
}

/// An index with nothing before it that is `c`, and `c` at it or nothing at
/// all, is where `c` first stands.
pub proof fn lemma_position_is(s: Seq<char>, c: char, k: int)
    requires
        0 <= k <= s.len(),
        k < s.len() ==> s[k] == c,
        forall|i: int| 0 <= i < k ==> s[i] != c,
    ensures
        position(s, c) == k,
{
    lemma_position(s, c);
    let p = position(s, c);
    if p < k {
        assert(s[p] != c);
    } else if k < p {
        assert(s[k] != c);
    }
}

/// Where `c` first stands in `s`, its length where it does not.
pub fn find(s: &[char], c: char) -> (r: usize)
    ensures
        r == position(s@, c),
        r <= s@.len(),
{
    let mut i: usize = 0;
    while i < s.len()
        invariant
            i <= s@.len(),
            forall|j: int| 0 <= j < i ==> s@[j] != c,
        decreases s@.len() - i,
    {
        if s[i] == c {
            proof {
                lemma_position_is(s@, c, i as int);
            }
            return i;
        }
        i += 1;
    }
    proof {
        lemma_position_is(s@, c, i as int);
    }
    i
}

/// Whether `c` is white space, as Unicode's `White_Space` property has it.
pub open spec fn is_space(c: char) -> bool {
    let v = c as int;
    ||| 0x09 <= v <= 0x0D
    ||| v == 0x20
    ||| v == 0x85
    ||| v == 0xA0
    ||| v == 0x1680
    ||| 0x2000 <= v <= 0x200A
    ||| v == 0x2028
    ||| v == 0x2029
    ||| v == 0x202F
    ||| v == 0x205F
    ||| v == 0x3000
}

/// Whether `c` is white space.
pub fn space(c: char) -> (r: bool)
    ensures
        r == is_space(c),
{
    let v: u32 = c as u32;
    (0x09 <= v && v <= 0x0D) || v == 0x20 || v == 0x85 || v == 0xA0 || v == 0x1680 || (0x2000 <= v && v <= 0x200A)
        || v == 0x2028 || v == 0x2029 || v == 0x202F || v == 0x205F || v == 0x3000
}

/// `s` without its leading white space.
pub open spec fn trim_front(s: Seq<char>) -> Seq<char>
    decreases s.len(),
{
    if s.len() > 0 && is_space(s[0]) {
        trim_front(s.skip(1))
    } else {
        s
    }
}

/// `s` without its trailing white space.
pub open spec fn trim_back(s: Seq<char>) -> Seq<char>
    decreases s.len(),
{
    if s.len() > 0 && is_space(s.last()) {
        trim_back(s.drop_last())
    } else {
        s
    }
}

/// `s` without the white space at either end.
pub open spec fn trimmed(s: Seq<char>) -> Seq<char> {
    trim_back(trim_front(s))
}

/// Text that neither starts nor ends in white space is its own trimming.
pub proof fn lemma_trimmed_is(s: Seq<char>)
    requires
        s.len() > 0 ==> !is_space(s[0]) && !is_space(s.last()),
    ensures
        trimmed(s) == s,
{
}

/// `s` without the white space at either end.
pub fn trim(s: &[char]) -> (r: &[char])
    ensures
        r@ == trimmed(s@),
{
    let n: usize = s.len();
    let mut a: usize = 0;
    assert(s@.skip(0) =~= s@);
    while a < n && space(s[a])
        invariant
            a <= n,
            n == s@.len(),
            trim_front(s@.skip(a as int)) == trim_front(s@),
        decreases n - a,
    {
        assert(s@.skip(a as int).skip(1) =~= s@.skip(a + 1));
        a += 1;
    }
    assert(trim_front(s@) == s@.skip(a as int));
    let mut b: usize = n;
    assert(s@.subrange(a as int, n as int) =~= s@.skip(a as int));
    while b > a && space(s[b - 1])
        invariant
            a <= b <= n,
            n == s@.len(),
            trim_back(s@.subrange(a as int, b as int)) == trimmed(s@),
        decreases b - a,
    {
        assert(s@.subrange(a as int, b as int).drop_last() =~= s@.subrange(a as int, b - 1));
        b -= 1;
    }
    assert(trimmed(s@) == s@.subrange(a as int, b as int));
    &s[a..b]
}

/// The characters of `s`.
pub fn chars_of(s: &str) -> (r: Vec<char>)
    ensures
        r@ == s@,
{
    let mut v: Vec<char> = Vec::new();
    for c in it: s.chars()
        invariant
            v@ == it.seq().take(it.index()),
    {
        v.push(c);
    }
    v
}

/// Whether `a` spells `b`.
pub fn same(a: &[char], b: &str) -> (r: bool)
    ensures
        r == (a@ == b@),
{
    let w: Vec<char> = chars_of(b);
    if w.len() != a.len() {
        return false;
    }
    let mut i: usize = 0;
    while i < a.len()
        invariant
            i <= a@.len(),
            w@.len() == a@.len(),
            w@ == b@,
            a@.take(i as int) == w@.take(i as int),
        decreases a@.len() - i,
    {
        if a[i] != w[i] {
            return false;
        }
        assert(a@.take(i + 1) =~= a@.take(i as int).push(a@[i as int]));
        assert(w@.take(i + 1) =~= w@.take(i as int).push(w@[i as int]));
        i += 1;
    }
    assert(a@.take(i as int) =~= a@);
    assert(w@.take(i as int) =~= w@);
    true
}

/// `s` without a matching pair of single or double quotes around it.
pub open spec fn unquoted(s: Seq<char>) -> Seq<char> {
    if s.len() >= 2 && (s[0] == '"' || s[0] == '\'') && s.last() == s[0] {
        s.subrange(1, s.len() - 1)
    } else {
        s
    }
}

/// `s` without a matching pair of single or double quotes around it.
pub fn unquote(s: &[char]) -> (r: &[char])
    ensures
        r@ == unquoted(s@),
{
    let n: usize = s.len();
    if n >= 2 && (s[0] == '"' || s[0] == '\'') && s[n - 1] == s[0] {
        &s[1..n - 1]
    } else {
        s
    }
}

// -- Numbers -------------------------------------------------------------------

/// Whether `c` is a decimal digit.
pub open spec fn is_digit(c: char) -> bool {
    '0' <= c <= '9'
}

/// What a digit is worth.
pub open spec fn digit_value(c: char) -> int {
    c as int - '0' as int
}

/// The digit worth `d`.
pub open spec fn digit(d: int) -> char {
    ('0' as int + d) as char
}

/// Whether `s` is digits, grouped by underscores wherever the author liked,
/// and at least one digit.
pub open spec fn is_number(s: Seq<char>) -> bool {
    &&& forall|i: int| 0 <= i < s.len() ==> is_digit(#[trigger] s[i]) || s[i] == '_'
    &&& exists|i: int| 0 <= i < s.len() && is_digit(#[trigger] s[i])
}

/// What the digits of `s` come to.
pub open spec fn number_value(s: Seq<char>) -> nat
    decreases s.len(),
{
    if s.len() == 0 {
        0
    } else if s.last() == '_' {
        number_value(s.drop_last())
    } else {
        (10 * number_value(s.drop_last()) + digit_value(s.last())) as nat
    }
}

/// The unsigned number `s` spells, quoted or not: `None` where it is not
/// one, or does not fit.
pub open spec fn unsigned(s: Seq<char>) -> Option<u64> {
    let t = unquoted(s);
    if is_number(t) && number_value(t) <= u64::MAX {
        Some(number_value(t) as u64)
    } else {
        None
    }
}

/// The signed number `s` spells.
pub open spec fn signed(s: Seq<char>) -> Option<i64> {
    let t = unquoted(s);
    let neg = t.len() > 0 && t[0] == '-';
    let digits = if t.len() > 0 && (t[0] == '-' || t[0] == '+') {
        t.skip(1)
    } else {
        t
    };
    match unsigned(digits) {
        Some(v) => if v > i64::MAX {
            None
        } else if neg {
            Some((0 - v) as i64)
        } else {
            Some(v as i64)
        },
        None => None,
    }
}

/// A longer run of digits is worth no less.
proof fn lemma_value_grows(s: Seq<char>, k: int)
    requires
        0 <= k <= s.len(),
        forall|i: int| 0 <= i < s.len() ==> is_digit(#[trigger] s[i]) || s[i] == '_',
    ensures
        number_value(s.take(k)) <= number_value(s),
    decreases s.len() - k,
{
    if k == s.len() {
        assert(s.take(k) =~= s);
    } else {
        lemma_value_grows(s, k + 1);
        assert(s.take(k + 1).drop_last() =~= s.take(k));
        assert(s.take(k + 1).last() == s[k]);
    }
}

/// The unsigned number `s` spells, quoted or not.
pub fn parse_u64(s: &[char]) -> (r: Option<u64>)
    ensures
        r == unsigned(s@),
{
    let t: &[char] = unquote(s);
    let mut v: u64 = 0;
    let mut any: bool = false;
    let mut i: usize = 0;
    while i < t.len()
        invariant
            i <= t@.len(),
            t@ == unquoted(s@),
            forall|j: int| 0 <= j < i ==> is_digit(#[trigger] t@[j]) || t@[j] == '_',
            any == (exists|j: int| 0 <= j < i && is_digit(#[trigger] t@[j])),
            v == number_value(t@.take(i as int)),
        decreases t@.len() - i,
    {
        let c: char = t[i];
        assert(t@.take(i + 1).drop_last() =~= t@.take(i as int));
        assert(t@.take(i + 1).last() == c);
        if '0' <= c && c <= '9' {
            assert(is_digit(t@[i as int]));
            let d: u64 = (c as u32 - '0' as u32) as u64;
            if v > (u64::MAX - d) / 10 {
                proof {
                    if is_number(t@) {
                        lemma_value_grows(t@, i + 1);
                    }
                }
                return None;
            }
            v = v * 10 + d;
            any = true;
        } else if c != '_' {
            assert(!is_digit(t@[i as int]));
            return None;
        }
        i += 1;
    }
    assert(t@.take(i as int) =~= t@);
    if any {
        Some(v)
    } else {
        None
    }
}

/// The signed number `s` spells, quoted or not.
pub fn parse_i64(s: &[char]) -> (r: Option<i64>)
    ensures
        r == signed(s@),
{
    let t: &[char] = unquote(s);
    let neg: bool = t.len() > 0 && t[0] == '-';
    let signs: bool = t.len() > 0 && (t[0] == '-' || t[0] == '+');
    let digits: &[char] = if signs {
        &t[1..t.len()]
    } else {
        t
    };
    assert(signs ==> digits@ =~= t@.skip(1));
    match parse_u64(digits) {
        Some(v) => {
            if v > i64::MAX as u64 {
                None
            } else if neg {
                Some(-(v as i64))
            } else {
                Some(v as i64)
            }
        },
        None => None,
    }
}

/// `n` in decimal.
pub open spec fn decimal(n: nat) -> Seq<char>
    decreases n,
{
    if n < 10 {
        seq![digit(n as int)]
    } else {
        decimal(n / 10).push(digit((n % 10) as int))
    }
}

/// `n` in decimal, with a minus sign where it is negative.
pub open spec fn signed_decimal(n: int) -> Seq<char> {
    if n < 0 {
        "-"@ + decimal((0 - n) as nat)
    } else {
        decimal(n as nat)
    }
}

/// The digit worth `d`, as text.
fn digit_text(d: u64) -> (r: &'static str)
    requires
        d < 10,
    ensures
        r@ == seq![digit(d as int)],
{
    proof {
        reveal_strlit("0");
        reveal_strlit("1");
        reveal_strlit("2");
        reveal_strlit("3");
        reveal_strlit("4");
        reveal_strlit("5");
        reveal_strlit("6");
        reveal_strlit("7");
        reveal_strlit("8");
        reveal_strlit("9");
    }
    let r: &'static str = match d {
        0 => "0",
        1 => "1",
        2 => "2",
        3 => "3",
        4 => "4",
        5 => "5",
        6 => "6",
        7 => "7",
        8 => "8",
        _ => "9",
    };
    assert(r@ =~= seq![digit(d as int)]);
    r
}

/// Write `n` in decimal.
pub fn write_decimal(n: u64, out: &mut String)
    ensures
        final(out)@ == old(out)@ + decimal(n as nat),
    decreases n,
{
    let ghost before = out@;
    if n >= 10 {
        write_decimal(n / 10, out);
    }
    out.append(digit_text(n % 10));
    assert(out@ =~= before + decimal(n as nat));
}

/// Write `n` in decimal, with a minus sign where it is negative.
pub fn write_signed(n: i64, out: &mut String)
    ensures
        final(out)@ == old(out)@ + signed_decimal(n as int),
{
    let ghost before = out@;
    if n < 0 {
        out.append("-");
        let m: u64 = (-(n as i128)) as u64;
        write_decimal(m, out);
    } else {
        write_decimal(n as u64, out);
    }
    assert(out@ =~= before + signed_decimal(n as int));
}

/// A number in decimal is digits, one at least, and worth the number.
pub proof fn lemma_decimal(n: nat)
    ensures
        decimal(n).len() > 0,
        forall|i: int| 0 <= i < decimal(n).len() ==> is_digit(#[trigger] decimal(n)[i]),
        number_value(decimal(n)) == n,
    decreases n,
{
    let last = digit((n % 10) as int);
    assert(is_digit(last) && digit_value(last) == n % 10);
    if n < 10 {
        assert(decimal(n) =~= seq![last]);
        assert(decimal(n).drop_last() =~= Seq::<char>::empty());
        reveal_with_fuel(number_value, 2);
    } else {
        lemma_decimal(n / 10);
        assert(decimal(n).drop_last() =~= decimal(n / 10));
        assert(decimal(n).last() == last);
    }
}

/// A number written in decimal reads back as itself.
pub proof fn law_decimal_reads_back(n: i64)
    requires
        n > i64::MIN,
    ensures
        signed(signed_decimal(n as int)) == Some(n),
        n >= 0 ==> unsigned(signed_decimal(n as int)) == Some(n as u64),
{
    let s = signed_decimal(n as int);
    if n < 0 {
        reveal_strlit("-");
        let d = decimal((0 - n) as nat);
        lemma_decimal((0 - n) as nat);
        assert(s[0] == '-');
        assert(unquoted(s) == s);
        assert(s.skip(1) =~= d);
        assert(is_digit(d[0]));
        assert(unquoted(d) == d);
        assert(is_number(d));
    } else {
        lemma_decimal(n as nat);
        assert(is_digit(s[0]));
        assert(unquoted(s) == s);
        assert(is_number(s));
    }
}

/// What is white space: the tab and the four behind it and the blank, below
/// 128; the rest of Unicode's separators above.
pub proof fn law_what_is_white_space(c: char)
    ensures
        (c as u32) < 128 ==> (is_space(c) <==> c == ' ' || c == '\t' || c == '\n' || c == '\r' || c as u32 == 11 || c as u32
            == 12),
        c as u32 >= 128 ==> (is_space(c) <==> c as u32 == 0x85 || c as u32 == 0xA0 || c as u32 == 0x1680 || 0x2000 <= c as u32
            <= 0x200A || c as u32 == 0x2028 || c as u32 == 0x2029 || c as u32 == 0x202F || c as u32 == 0x205F || c as u32
            == 0x3000),
{
}

/// Trimming takes white space and nothing else off either end, and leaves none
/// there.
pub proof fn law_trimming_takes_the_space_off_the_ends(s: Seq<char>)
    ensures
        trimmed(s).len() > 0 ==> !is_space(trimmed(s)[0]) && !is_space(trimmed(s).last()),
        exists|a: int, b: int|
            0 <= a <= b <= s.len() && #[trigger] s.subrange(a, b) == trimmed(s) && (forall|i: int|
                0 <= i < a || b <= i < s.len() ==> is_space(#[trigger] s[i])),
{
    let a = lemma_trim_front_at(s, 0);
    let t = trim_front(s);
    assert(s.skip(0) =~= s);
    assert(t == s.skip(a));
    let n = lemma_trim_back_at(t);
    let b = a + n;
    assert(s.subrange(a, b) =~= t.take(n));
    assert forall|i: int| 0 <= i < a || b <= i < s.len() implies is_space(#[trigger] s[i]) by {
        if b <= i {
            assert(t[i - a] == s[i]);
        }
    }
    if trimmed(s).len() > 0 {
        assert(trimmed(s)[0] == t[0]);
        assert(t[0] == s.skip(a)[0]);
    }
}

proof fn lemma_trim_front_at(s: Seq<char>, k: int) -> (a: int)
    requires
        0 <= k <= s.len(),
    ensures
        k <= a <= s.len(),
        trim_front(s.skip(k)) == s.skip(a),
        a < s.len() ==> !is_space(s[a]),
        forall|i: int| k <= i < a ==> is_space(#[trigger] s[i]),
    decreases s.len() - k,
{
    if k < s.len() && is_space(s[k]) {
        assert(s.skip(k).skip(1) =~= s.skip(k + 1));
        lemma_trim_front_at(s, k + 1)
    } else {
        k
    }
}

proof fn lemma_trim_back_at(s: Seq<char>) -> (n: int)
    ensures
        0 <= n <= s.len(),
        trim_back(s) == s.take(n),
        n > 0 ==> !is_space(s[n - 1]),
        forall|i: int| n <= i < s.len() ==> is_space(#[trigger] s[i]),
    decreases s.len(),
{
    if s.len() > 0 && is_space(s.last()) {
        let n = lemma_trim_back_at(s.drop_last());
        assert(s.drop_last().take(n) =~= s.take(n));
        assert forall|i: int| n <= i < s.len() implies is_space(#[trigger] s[i]) by {
            if i < s.len() - 1 {
                assert(s.drop_last()[i] == s[i]);
            }
        }
        n
    } else {
        assert(s.take(s.len() as int) =~= s);
        s.len() as int
    }
}

/// One pair of quotes comes off, of one kind and at both ends; anything else
/// stays as it is.
pub proof fn law_a_pair_of_quotes_comes_off(s: Seq<char>, q: char)
    ensures
        q == '"' || q == '\'' ==> unquoted(seq![q] + s + seq![q]) == s,
        s.len() < 2 || s[0] != s.last() || (s[0] != '"' && s[0] != '\'') ==> unquoted(s) == s,
{
    let t = seq![q] + s + seq![q];
    assert(t[0] == q && t.last() == q);
    assert(t.subrange(1, t.len() - 1) =~= s);
}

/// A number is read a digit at a time, each worth ten times less than the one
/// before it, and its underscores are read over.
pub proof fn law_a_digit_more_is_ten_times_as_much(s: Seq<char>, d: int, n: nat)
    requires
        0 <= d <= 9,
    ensures
        number_value(s.push(digit(d))) == 10 * number_value(s) + d,
        number_value(s.push('_')) == number_value(s),
        digit(0) == '0' && digit(1) == '1' && digit(9) == '9',
        digit_value(digit(d)) == d && is_digit(digit(d)) && !is_digit('_'),
        n > 0 ==> decimal(10 * n + d as nat) == decimal(n).push(digit(d)),
        n < 10 ==> decimal(n) == seq![digit(n as int)],
{
    assert(s.push(digit(d)).drop_last() =~= s);
    assert(s.push('_').drop_last() =~= s);
    let m = 10 * n + d as nat;
    if n > 0 {
        assert(m / 10 == n && m % 10 == d);
    }
}

/// What a number may be: digits and underscores, with a digit among them and
/// nothing else; a sign in front makes it one below or above zero, and quotes
/// around it come off.
pub proof fn law_what_a_number_is(s: Seq<char>)
    requires
        s.len() > 0,
        is_digit(s[0]),
    ensures
        unsigned(s) is Some ==> (forall|i: int| 0 <= i < s.len() ==> is_digit(#[trigger] s[i]) || s[i] == '_'),
        (forall|i: int| 0 <= i < s.len() ==> is_digit(#[trigger] s[i]) || s[i] == '_') ==> unsigned(s) == (if number_value(s)
            <= u64::MAX {
            Some(number_value(s) as u64)
        } else {
            None
        }),
        signed(s) == (match unsigned(s) {
            Some(v) => if v <= i64::MAX {
                Some(v as i64)
            } else {
                None
            },
            None => None,
        }),
        signed(seq!['+'] + s) == signed(s),
        signed(seq!['-'] + s) == (match signed(s) {
            Some(v) => Some((0 - v) as i64),
            None => None,
        }),
        signed(seq!['"'] + s + seq!['"']) == signed(s),
{
    assert(unquoted(s) == s);
    let plus = seq!['+'] + s;
    let minus = seq!['-'] + s;
    assert(plus[0] == '+' && minus[0] == '-');
    assert(plus.skip(1) =~= s && minus.skip(1) =~= s);
    assert(unquoted(plus) == plus && unquoted(minus) == minus);
    law_a_pair_of_quotes_comes_off(s, '"');
}

} // verus!
