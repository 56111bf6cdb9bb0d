use vstd::prelude::*;

verus! {

// ---------------------------------------------------------------------
// Specifications
// ---------------------------------------------------------------------

/// The characters for which `char::is_whitespace` holds: those with the
/// Unicode `White_Space` property.
pub open spec fn is_white_space(c: char) -> bool {
    ||| ('\u{9}' <= c && c <= '\u{d}')
    ||| c == ' '
    ||| c == '\u{85}'
    ||| c == '\u{a0}'
    ||| c == '\u{1680}'
    ||| ('\u{2000}' <= c && c <= '\u{200a}')
    ||| c == '\u{2028}'
    ||| c == '\u{2029}'
    ||| c == '\u{202f}'
    ||| c == '\u{205f}'
    ||| c == '\u{3000}'
}

/// `s` without its leading white space.
pub open spec fn trim_start(s: Seq<char>) -> Seq<char>
    decreases s.len(),
{
    if s.len() > 0 && is_white_space(s[0]) {
        trim_start(s.drop_first())
    } else {
        s
    }
}

/// `s` without its trailing white space.
pub open spec fn trim_end(s: Seq<char>) -> Seq<char>
    decreases s.len(),
{
    if s.len() > 0 && is_white_space(s.last()) {
        trim_end(s.drop_last())
    } else {
        s
    }
}

/// `s` without leading and trailing white space (`str::trim`).
pub open spec fn trim(s: Seq<char>) -> Seq<char> {
    trim_end(trim_start(s))
}

/// `s` with every leading `"0x"` removed (`str::trim_start_matches("0x")`).
pub open spec fn strip_hex_prefix(s: Seq<char>) -> Seq<char>
    decreases s.len(),
{
    if s.len() >= 2 && s[0] == '0' && s[1] == 'x' {
        strip_hex_prefix(s.subrange(2, s.len() as int))
    } else {
        s
    }
}

/// The value of a decimal or hexadecimal digit, of either case.
pub open spec fn hex_digit_value(c: char) -> Option<nat> {
    if '0' <= c && c <= '9' {
        Some((c as nat - '0' as nat) as nat)
    } else if 'a' <= c && c <= 'f' {
        Some((c as nat - 'a' as nat + 10) as nat)
    } else if 'A' <= c && c <= 'F' {
        Some((c as nat - 'A' as nat + 10) as nat)
    } else {
        None
    }
}

/// The value of `c` as a digit in base `radix` (2 to 16).
pub open spec fn digit_value(c: char, radix: nat) -> Option<nat> {
    match hex_digit_value(c) {
        Some(d) => if d < radix {
            Some(d)
        } else {
            None
        },
        None => None,
    }
}

/// Every character of `s` is a digit in base `radix`.
pub open spec fn all_digits(s: Seq<char>, radix: nat) -> bool {
    forall|i: int| 0 <= i < s.len() ==> (#[trigger] digit_value(s[i], radix)) is Some
}

/// The number that the digits `s` write in base `radix`.
pub open spec fn digits_value(s: Seq<char>, radix: nat) -> nat
    decreases s.len(),
{
    if s.len() == 0 {
        0
    } else {
        digits_value(s.drop_last(), radix) * radix + digit_value(s.last(), radix).unwrap_or(0)
    }
}

/// What `from_str_radix` of an unsigned integer type whose largest value is
/// `max` gives for `s`: an optional `+`, then at least one digit, and a value
/// of at most `max`; `None` for every other text.
pub open spec fn parse_unsigned_spec(s: Seq<char>, radix: nat, max: nat) -> Option<nat> {
    let body = if s.len() > 0 && s[0] == '+' {
        s.drop_first()
    } else {
        s
    };
    if body.len() == 0 || !all_digits(body, radix) || digits_value(body, radix) > max {
        None
    } else {
        Some(digits_value(body, radix))
    }
}

/// The byte that an item of a system-exclusive template writes in
/// hexadecimal, after any leading `0x`: `None` where it writes none.
pub open spec fn hex_byte_spec(item: Seq<char>) -> Option<u8> {
    match parse_unsigned_spec(strip_hex_prefix(item), 16, 255) {
        Some(v) => Some(v as u8),
        None => None,
    }
}

/// The port number that a line of text writes in decimal, once trimmed.
pub open spec fn port_number_spec(line: Seq<char>) -> Option<usize> {
    match parse_unsigned_spec(trim(line), 10, usize::MAX as nat) {
        Some(v) => Some(v as usize),
        None => None,
    }
}

// ---------------------------------------------------------------------
// Lemmas
// ---------------------------------------------------------------------

proof fn lemma_digits_value_push(s: Seq<char>, c: char, radix: nat)
    ensures
        digits_value(s.push(c), radix) == digits_value(s, radix) * radix + digit_value(
            c,
            radix,
        ).unwrap_or(0),
{
    assert(s.push(c).drop_last() =~= s);
}

/// The lower-case hexadecimal digit of `d` (below 16).
pub open spec fn hex_digit_char(d: nat) -> char {
    if d < 10 {
        (('0' as nat) + d) as char
    } else {
        (('a' as nat) + d - 10) as char
    }
}

/// The two lower-case hexadecimal digits of `b`.
pub open spec fn hex_text(b: u8) -> Seq<char> {
    seq![hex_digit_char(b as nat / 16), hex_digit_char(b as nat % 16)]
}

proof fn lemma_hex_digit_char(d: nat)
    requires
        d < 16,
    ensures
        hex_digit_value(hex_digit_char(d)) == Some(d),
        digit_value(hex_digit_char(d), 16) == Some(d),
        hex_digit_char(d) != 'x',
        hex_digit_char(d) != '+',
{
}

/// Every byte is read back from its two hexadecimal digits, written with or
/// without a leading `0x`.
pub proof fn lemma_hex_byte_round_trip(b: u8)
    ensures
        hex_byte_spec(hex_text(b)) == Some(b),
        hex_byte_spec(seq!['0', 'x'] + hex_text(b)) == Some(b),
{
    let s: Seq<char> = hex_text(b);
    let hi: nat = b as nat / 16;
    let lo: nat = b as nat % 16;
    lemma_hex_digit_char(hi);
    lemma_hex_digit_char(lo);
    assert(strip_hex_prefix(s) == s);
    let p: Seq<char> = seq!['0', 'x'] + s;
    assert(p.subrange(2, p.len() as int) =~= s);
    assert(strip_hex_prefix(p) == strip_hex_prefix(s));
    assert(all_digits(s, 16));
    assert(s.drop_last() =~= seq![hex_digit_char(hi)]);
    assert(s.drop_last().drop_last() =~= Seq::<char>::empty());
    assert(digits_value(s.drop_last().drop_last(), 16) == 0);
    assert(digits_value(s.drop_last(), 16) == hi);
    assert(digits_value(s, 16) == hi * 16 + lo);
}

/// The upper-case hexadecimal digit of `d` (below 16).
pub open spec fn hex_digit_char_upper(d: nat) -> char {
    if d < 10 {
        (('0' as nat) + d) as char
    } else {
        (('A' as nat) + d - 10) as char
    }
}

/// The two upper-case hexadecimal digits of `b`.
pub open spec fn hex_text_upper(b: u8) -> Seq<char> {
    seq![hex_digit_char_upper(b as nat / 16), hex_digit_char_upper(b as nat % 16)]
}

/// Every byte is also read back from its two upper-case hexadecimal digits.
pub proof fn lemma_hex_byte_round_trip_upper(b: u8)
    ensures
        hex_byte_spec(hex_text_upper(b)) == Some(b),
        hex_byte_spec(seq!['0', 'x'] + hex_text_upper(b)) == Some(b),
{
    let s: Seq<char> = hex_text_upper(b);
    let hi: nat = b as nat / 16;
    let lo: nat = b as nat % 16;
    assert(digit_value(hex_digit_char_upper(hi), 16) == Some(hi));
    assert(digit_value(hex_digit_char_upper(lo), 16) == Some(lo));
    assert(s[1] != 'x' && s[0] != '+');
    assert(strip_hex_prefix(s) == s);
    let p: Seq<char> = seq!['0', 'x'] + s;
    assert(p.subrange(2, p.len() as int) =~= s);
    assert(strip_hex_prefix(p) == strip_hex_prefix(s));
    assert(all_digits(s, 16));
    assert(s.drop_last() =~= seq![hex_digit_char_upper(hi)]);
    assert(s.drop_last().drop_last() =~= Seq::<char>::empty());
    assert(digits_value(s.drop_last().drop_last(), 16) == 0);
    assert(digits_value(s.drop_last(), 16) == hi);
    assert(digits_value(s, 16) == hi * 16 + lo);
}

/// The decimal digits of `n`, without leading zeros.
pub open spec fn decimal_text(n: nat) -> Seq<char>
    decreases n,
{
    if n < 10 {
        seq![hex_digit_char(n)]
    } else {
        decimal_text(n / 10).push(hex_digit_char(n % 10))
    }
}

proof fn lemma_decimal_digit(d: nat)
    requires
        d < 10,
    ensures
        '0' <= hex_digit_char(d) <= '9',
        !is_white_space(hex_digit_char(d)),
        hex_digit_char(d) != '+',
        digit_value(hex_digit_char(d), 10) == Some(d),
{
}

proof fn lemma_decimal_text(n: nat)
    ensures
        decimal_text(n).len() > 0,
        all_digits(decimal_text(n), 10),
        digits_value(decimal_text(n), 10) == n,
        '0' <= decimal_text(n)[0] <= '9',
        '0' <= decimal_text(n).last() <= '9',
    decreases n,
{
    if n < 10 {
        lemma_decimal_digit(n);
        assert(decimal_text(n).drop_last() =~= Seq::<char>::empty());
        assert(digits_value(Seq::<char>::empty(), 10) == 0);
        assert(digits_value(decimal_text(n), 10) == 0 * 10 + n);
    } else {
        lemma_decimal_text(n / 10);
        lemma_decimal_digit(n % 10);
        let p = decimal_text(n / 10);
        lemma_digits_value_push(p, hex_digit_char(n % 10), 10);
        assert(decimal_text(n) == p.push(hex_digit_char(n % 10)));
        assert(digits_value(decimal_text(n), 10) == (n / 10) * 10 + n % 10);
        assert forall|i: int| 0 <= i < decimal_text(n).len() implies (#[trigger] digit_value(
            decimal_text(n)[i],
            10,
        )) is Some by {
            if i < p.len() {
                assert(decimal_text(n)[i] == p[i]);
            }
        }
    }
}

/// Every port number is read back from its decimal digits, also with white
/// space around them.
pub proof fn lemma_port_number_round_trip(n: usize)
    ensures
        port_number_spec(decimal_text(n as nat)) == Some(n),
        port_number_spec(seq![' '] + decimal_text(n as nat) + seq!['\n']) == Some(n),
{
    let s: Seq<char> = decimal_text(n as nat);
    lemma_decimal_text(n as nat);
    assert(!is_white_space(s[0]));
    assert(!is_white_space(s.last()));
    assert(trim_start(s) == s);
    assert(trim_end(s) == s);
    assert(trim(s) == s);
    let t: Seq<char> = seq![' '] + s + seq!['\n'];
    assert(t.drop_first() =~= s + seq!['\n']);
    assert((s + seq!['\n'])[0] == s[0]);
    assert(trim_start(s + seq!['\n']) == s + seq!['\n']);
    assert(trim_start(t) == s + seq!['\n']);
    assert((s + seq!['\n']).drop_last() =~= s);
    assert(trim_end(s + seq!['\n']) == trim_end(s));
    assert(trim(t) == s);
}

// ---------------------------------------------------------------------
// Executable code
// ---------------------------------------------------------------------

/// The characters of `s`, in order.
pub fn chars_of(s: &str) -> (v: Vec<char>)
    ensures
        v@ == s@,
{
    let n: usize = s.unicode_len();
    let mut v: Vec<char> = Vec::new();
    let mut i: usize = 0;
    while i < n
        invariant
            n == s@.len(),
            i <= n,
            v@ == s@.subrange(0, i as int),
        decreases n - i,
    {
        let c: char = s.get_char(i);
        v.push(c);
        i = i + 1;
        assert(v@ =~= s@.subrange(0, i as int));
    }
    assert(v@ =~= s@);
    v
}

/// Whether two character sequences are equal.
pub fn chars_equal(a: &[char], b: &[char]) -> (r: bool)
    ensures
        r == (a@ == b@),
{
    if a.len() != b.len() {
        return false;
    }
    let mut i: usize = 0;
    while i < a.len()
        invariant
            a@.len() == b@.len(),
            i <= a@.len(),
            forall|j: int| 0 <= j < i ==> a@[j] == b@[j],
        decreases a.len() - i,
    {
        if a[i] != b[i] {
            return false;
        }
        i = i + 1;
    }
    assert(a@ =~= b@);
    true
}

/// `char::is_whitespace`.
pub fn is_white_space_char(c: char) -> (r: bool)
    ensures
        r == is_white_space(c),
{
    ('\u{9}' <= c && c <= '\u{d}') || c == ' ' || c == '\u{85}' || c == '\u{a0}' || c == '\u{1680}'
        || ('\u{2000}' <= c && c <= '\u{200a}') || c == '\u{2028}' || c == '\u{2029}' || c
        == '\u{202f}' || c == '\u{205f}' || c == '\u{3000}'
}

/// `s` without leading and trailing white space.
pub fn trim_chars(s: &[char]) -> (r: Vec<char>)
    ensures
        r@ == trim(s@),
{
    let n: usize = s.len();
    let mut start: usize = 0;
    assert(s@.subrange(0, n as int) =~= s@);
    while start < n && is_white_space_char(s[start])
        invariant
            n == s@.len(),
            start <= n,
            trim_start(s@) == trim_start(s@.subrange(start as int, n as int)),
        decreases n - start,
    {
        assert(s@.subrange(start as int, n as int).drop_first() =~= s@.subrange(
            start as int + 1,
            n as int,
        ));
        start = start + 1;
    }
    assert(trim_start(s@) == s@.subrange(start as int, n as int));
    let mut end: usize = n;
    while end > start && is_white_space_char(s[end - 1])
        invariant
            n == s@.len(),
            start <= end <= n,
            trim_start(s@) == s@.subrange(start as int, n as int),
            trim(s@) == trim_end(s@.subrange(start as int, end as int)),
        decreases end - start,
    {
        assert(s@.subrange(start as int, end as int).drop_last() =~= s@.subrange(
            start as int,
            end as int - 1,
        ));
        end = end - 1;
    }
    assert(trim(s@) == s@.subrange(start as int, end as int));
    let mut r: Vec<char> = Vec::new();
    let mut i: usize = start;
    while i < end
        invariant
            n == s@.len(),
            start <= i <= end <= n,
            r@ == s@.subrange(start as int, i as int),
        decreases end - i,
    {
        r.push(s[i]);
        i = i + 1;
        assert(r@ =~= s@.subrange(start as int, i as int));
    }
    r
}

/// `s` with every leading `"0x"` removed.
pub fn strip_hex_prefix_chars(s: &[char]) -> (r: Vec<char>)
    ensures
        r@ == strip_hex_prefix(s@),
{
    let n: usize = s.len();
    let mut start: usize = 0;
    assert(s@.subrange(0, n as int) =~= s@);
    while n - start >= 2 && s[start] == '0' && s[start + 1] == 'x'
        invariant
            n == s@.len(),
            start <= n,
            strip_hex_prefix(s@) == strip_hex_prefix(s@.subrange(start as int, n as int)),
        decreases n - start,
    {
        assert(s@.subrange(start as int, n as int).subrange(2, n - start) =~= s@.subrange(
            start as int + 2,
            n as int,
        ));
        start = start + 2;
    }
    let mut r: Vec<char> = Vec::new();
    let mut i: usize = start;
    while i < n
        invariant
            n == s@.len(),
            start <= i <= n,
            r@ == s@.subrange(start as int, i as int),
        decreases n - i,
    {
        r.push(s[i]);
        i = i + 1;
        assert(r@ =~= s@.subrange(start as int, i as int));
    }
    assert(r@ =~= s@.subrange(start as int, n as int));
    r
}

/// The value of `c` as a digit in base `radix`.
pub fn digit_of(c: char, radix: u32) -> (r: Option<u32>)
    requires
        2 <= radix <= 16,
    ensures
        r matches Some(d) ==> digit_value(c, radix as nat) == Some(d as nat),
        r is None ==> digit_value(c, radix as nat) is None,
{
    let d: u32 = if '0' <= c && c <= '9' {
        (c as u32) - ('0' as u32)
    } else if 'a' <= c && c <= 'f' {
        (c as u32) - ('a' as u32) + 10
    } else if 'A' <= c && c <= 'F' {
        (c as u32) - ('A' as u32) + 10
    } else {
        return None;
    };
    if d < radix {
        Some(d)
    } else {
        None
    }
}

/// Reads `s` as an unsigned number in base `radix` of at most `max`, as
/// `from_str_radix` of an unsigned integer type whose largest value is `max`
/// does.
pub fn parse_unsigned(s: &[char], radix: u32, max: u64) -> (r: Option<u64>)
    requires
        2 <= radix <= 16,
    ensures
        r matches Some(v) ==> parse_unsigned_spec(s@, radix as nat, max as nat) == Some(v as nat),
        r is None ==> parse_unsigned_spec(s@, radix as nat, max as nat) is None,
{
    let n: usize = s.len();
    let start: usize = if n > 0 && s[0] == '+' {
        1
    } else {
        0
    };
    let ghost body: Seq<char> = s@.subrange(start as int, n as int);
    assert(start == 1 ==> body =~= s@.drop_first());
    assert(start == 0 ==> body =~= s@);
    if start == n {
        return None;
    }
    // The value read so far, held at `max + 1` once it passes `max`.
    let cap: u128 = (max as u128) + 1;
    let mut acc: u128 = 0;
    let mut i: usize = start;
    while i < n
        invariant
            n == s@.len(),
            start <= i <= n,
            body == s@.subrange(start as int, n as int),
            body == (if s@.len() > 0 && s@[0] == '+' {
                s@.drop_first()
            } else {
                s@
            }),
            cap == max + 1,
            2 <= radix <= 16,
            all_digits(s@.subrange(start as int, i as int), radix as nat),
            acc == if digits_value(s@.subrange(start as int, i as int), radix as nat) <= max {
                digits_value(s@.subrange(start as int, i as int), radix as nat) as int
            } else {
                cap as int
            },
        decreases n - i,
    {
        let ghost prefix: Seq<char> = s@.subrange(start as int, i as int);
        match digit_of(s[i], radix) {
            None => {
                assert(!all_digits(body, radix as nat)) by {
                    assert(body[i - start] == s@[i as int]);
                    assert(digit_value(body[i - start], radix as nat) is None);
                }
                return None;
            },
            Some(d) => {
                assert(s@.subrange(start as int, i as int + 1) =~= prefix.push(s@[i as int]));
                proof {
                    lemma_digits_value_push(prefix, s@[i as int], radix as nat);
                }
                let ghost v: nat = digits_value(prefix, radix as nat);
                let ghost v2: nat = digits_value(prefix.push(s@[i as int]), radix as nat);
                assert(v2 == v * radix + d);
                if acc == cap {
                    assert(v > max);
                    assert(v2 > max) by (nonlinear_arith)
                        requires
                            v > max,
                            v2 == v * radix + d,
                            radix >= 2,
                    ;
                } else {
                    assert(acc == v);
                    assert(acc <= max);
                    assert(acc * (radix as u128) + (d as u128) <= 0xffff_ffff_ffff_ffff * 16 + 16)
                        by (nonlinear_arith)
                        requires
                            acc <= 0xffff_ffff_ffff_ffff,
                            radix <= 16,
                            d < 16,
                    ;
                    let next: u128 = acc * (radix as u128) + (d as u128);
                    assert(next == v2);
                    if next > max as u128 {
                        acc = cap;
                    } else {
                        acc = next;
                    }
                }
                assert forall|j: int|
                    0 <= j < s@.subrange(start as int, i as int + 1).len() implies (#[trigger] digit_value(
                    s@.subrange(start as int, i as int + 1)[j],
                    radix as nat,
                )) is Some by {
                    if j < i - start {
                        assert(s@.subrange(start as int, i as int + 1)[j] == prefix[j]);
                    }
                }
                i = i + 1;
            },
        }
    }
    assert(s@.subrange(start as int, n as int) =~= body);
    if acc == cap {
        None
    } else {
        Some(acc as u64)
    }
}

/// The byte that an item of a system-exclusive template writes in
/// hexadecimal (`u8::from_str_radix` after `trim_start_matches("0x")`).
pub fn parse_hex_byte(item: &str) -> (r: Option<u8>)
    ensures
        r == hex_byte_spec(item@),
{
    let chars: Vec<char> = chars_of(item);
    let digits: Vec<char> = strip_hex_prefix_chars(chars.as_slice());
    match parse_unsigned(digits.as_slice(), 16, 255) {
        Some(v) => Some(v as u8),
        None => None,
    }
}

/// The port number that a line of text writes in decimal, once trimmed
/// (`trim().parse::<usize>()`).
pub fn parse_port_number(line: &str) -> (r: Option<usize>)
    ensures
        r == port_number_spec(line@),
{
    let chars: Vec<char> = chars_of(line);
    let trimmed: Vec<char> = trim_chars(chars.as_slice());
    match parse_unsigned(trimmed.as_slice(), 10, usize::MAX as u64) {
        Some(v) => Some(v as usize),
        None => None,
    }
}

} // verus!
