//! Text at the level of characters: white space, splitting at a separator, and the
//! reading and writing of numbers. The cells of the profile tables are read with these.

use vstd::prelude::*;
use vstd::string::StringExecFns;

verus! {

/// The characters of `s`, in order.
pub fn chars_of(s: &str) -> (chars: Vec<char>)
    ensures
        chars@ == s@,
{
    let mut chars: Vec<char> = Vec::new();
    for c in it: s.chars()
        invariant
            chars@ == it.seq().take(it.index() as int),
    {
        chars.push(c);
    }
    chars
}

/// Whether two texts hold the same characters.
pub fn str_equals(a: &str, b: &str) -> (equal: bool)
    ensures
        equal == (a@ == b@),
{
    let left = chars_of(a);
    let right = chars_of(b);
    if left.len() != right.len() {
        return false;
    }
    let mut i: usize = 0;
    while i < left.len()
        invariant
            left@ == a@,
            right@ == b@,
            left.len() == right.len(),
            i <= left.len(),
            left@.take(i as int) == right@.take(i as int),
        decreases left.len() - i,
    {
        if left[i] != right[i] {
            return false;
        }
        assert(left@.take(i + 1) =~= left@.take(i as int).push(left@[i as int]));
        assert(right@.take(i + 1) =~= right@.take(i as int).push(right@[i as int]));
        i += 1;
    }
    assert(left@.take(left.len() as int) =~= left@);
    assert(right@.take(right.len() as int) =~= right@);
    true
}

/// Whether `c` is white space: a character with the Unicode property `White_Space`.
pub open spec fn is_whitespace(c: char) -> bool {
    let code = c as u32;
    ||| 0x09 <= code <= 0x0D
    ||| code == 0x20
    ||| code == 0x85
    ||| code == 0xA0
    ||| code == 0x1680
    ||| 0x2000 <= code <= 0x200A
    ||| code == 0x2028
    ||| code == 0x2029
    ||| code == 0x202F
    ||| code == 0x205F
    ||| code == 0x3000
}

/// Whether `c` is white space.
pub fn char_is_whitespace(c: char) -> (r: bool)
    ensures
        r == is_whitespace(c),
{
    let code: u32 = c as u32;
    (0x09 <= code && code <= 0x0D) || code == 0x20 || code == 0x85 || code == 0xA0 || code
        == 0x1680 || (0x2000 <= code && code <= 0x200A) || code == 0x2028 || code == 0x2029
        || code == 0x202F || code == 0x205F || code == 0x3000
}

/// `s` without the white space it starts with.
pub open spec fn trim_start(s: Seq<char>) -> Seq<char>
    decreases s.len(),
{
    if s.len() > 0 && is_whitespace(s[0]) {
        trim_start(s.drop_first())
    } else {
        s
    }
}

/// `s` without the white space it ends with.
pub open spec fn trim_end(s: Seq<char>) -> Seq<char>
    decreases s.len(),
{
    if s.len() > 0 && is_whitespace(s.last()) {
        trim_end(s.drop_last())
    } else {
        s
    }
}

/// `s` without the white space around it.
pub open spec fn trimmed(s: Seq<char>) -> Seq<char> {
    trim_end(trim_start(s))
}

/// The bounds of `chars` without the white space around it: the trimmed text runs from
/// the first bound up to the second.
pub fn trim_bounds(chars: &[char]) -> (bounds: (usize, usize))
    ensures
        bounds.0 <= bounds.1 <= chars.len(),
        chars@.subrange(bounds.0 as int, bounds.1 as int) == trimmed(chars@),
{
    let len = chars.len();
    let mut start: usize = 0;
    assert(chars@.skip(0) =~= chars@);
    while start < len && char_is_whitespace(chars[start])
        invariant
            len == chars.len(),
            start <= len,
            trim_start(chars@) == trim_start(chars@.skip(start as int)),
        decreases len - start,
    {
        assert(chars@.skip(start as int).drop_first() =~= chars@.skip(start + 1));
        start += 1;
    }
    assert(trim_start(chars@) == chars@.skip(start as int));
    let mut end: usize = len;
    assert(chars@.subrange(start as int, len as int) =~= chars@.skip(start as int));
    while end > start && char_is_whitespace(chars[end - 1])
        invariant
            len == chars.len(),
            start <= end <= len,
            trimmed(chars@) == trim_end(chars@.subrange(start as int, end as int)),
        decreases end,
    {
        assert(chars@.subrange(start as int, end as int).drop_last() =~= chars@.subrange(
            start as int,
            end - 1,
        ));
        end -= 1;
    }
    (start, end)
}

/// Trimmed text neither starts nor ends with white space, and trimming it again
/// changes nothing.
pub proof fn lemma_trimmed(s: Seq<char>)
    ensures
        trimmed(s).len() > 0 ==> !is_whitespace(trimmed(s)[0]) && !is_whitespace(
            trimmed(s).last(),
        ),
        trimmed(trimmed(s)) == trimmed(s),
{
    lemma_trim_start(s);
    lemma_trim_end(trim_start(s));
    let t = trimmed(s);
    if t.len() > 0 {
        lemma_trim_end_prefix(trim_start(s));
        assert(t[0] == trim_start(s)[0]);
    }
}

/// What `trim_start` leaves does not start with white space.
proof fn lemma_trim_start(s: Seq<char>)
    ensures
        trim_start(s).len() > 0 ==> !is_whitespace(trim_start(s)[0]),
        trim_start(trim_start(s)) == trim_start(s),
    decreases s.len(),
{
    if s.len() > 0 && is_whitespace(s[0]) {
        lemma_trim_start(s.drop_first());
    }
}

/// What `trim_end` leaves does not end with white space.
proof fn lemma_trim_end(s: Seq<char>)
    ensures
        trim_end(s).len() > 0 ==> !is_whitespace(trim_end(s).last()),
        trim_end(trim_end(s)) == trim_end(s),
    decreases s.len(),
{
    if s.len() > 0 && is_whitespace(s.last()) {
        lemma_trim_end(s.drop_last());
    }
}

/// `trim_end` keeps a prefix of its argument.
proof fn lemma_trim_end_prefix(s: Seq<char>)
    ensures
        trim_end(s).len() <= s.len(),
        trim_end(s) == s.take(trim_end(s).len() as int),
    decreases s.len(),
{
    if s.len() > 0 && is_whitespace(s.last()) {
        lemma_trim_end_prefix(s.drop_last());
        assert(s.drop_last().take(trim_end(s).len() as int) =~= s.take(
            trim_end(s).len() as int,
        ));
    } else {
        assert(s.take(s.len() as int) =~= s);
    }
}

/// The pieces that `s` falls into when it is cut at every occurrence of `sep`. There is
/// one piece more than there are separators: the empty text is one empty piece.
pub open spec fn split_on(s: Seq<char>, sep: char) -> Seq<Seq<char>>
    decreases s.len(),
{
    if s.len() == 0 {
        seq![Seq::empty()]
    } else {
        let before = split_on(s.drop_last(), sep);
        if s.last() == sep {
            before.push(Seq::empty())
        } else {
            before.drop_last().push(before.last().push(s.last()))
        }
    }
}

/// The pieces joined again, with `sep` between each two neighbours.
pub open spec fn join_with(pieces: Seq<Seq<char>>, sep: char) -> Seq<char>
    decreases pieces.len(),
{
    if pieces.len() == 0 {
        Seq::empty()
    } else if pieces.len() == 1 {
        pieces[0]
    } else {
        join_with(pieces.drop_last(), sep).push(sep) + pieces.last()
    }
}

/// Splitting loses nothing: there is at least one piece, no piece holds the separator,
/// and the pieces joined with the separator give the text back.
pub proof fn lemma_split_on(s: Seq<char>, sep: char)
    ensures
        split_on(s, sep).len() >= 1,
        forall|i: int, j: int|
            0 <= i < split_on(s, sep).len() && 0 <= j < split_on(s, sep)[i].len() ==> (
            #[trigger] split_on(s, sep)[i][j]) != sep,
        join_with(split_on(s, sep), sep) == s,
    decreases s.len(),
{
    if s.len() > 0 {
        let before = split_on(s.drop_last(), sep);
        lemma_split_on(s.drop_last(), sep);
        if s.last() == sep {
            assert(before.push(Seq::empty()).drop_last() =~= before);
            assert(join_with(before, sep).push(sep) + Seq::<char>::empty() =~= s);
        } else {
            let grown = before.last().push(s.last());
            let pieces = before.drop_last().push(grown);
            assert(pieces.drop_last() =~= before.drop_last());
            if before.len() == 1 {
                assert(join_with(pieces, sep) =~= s);
            } else {
                assert(join_with(before.drop_last(), sep).push(sep) + grown =~= (join_with(
                    before.drop_last(),
                    sep,
                ).push(sep) + before.last()).push(s.last()));
                assert(join_with(pieces, sep) =~= s);
            }
        }
    }
}

/// The texts that `ranges` cut out of `chars`.
pub open spec fn pieces_of(chars: Seq<char>, ranges: Seq<(usize, usize)>) -> Seq<Seq<char>> {
    Seq::new(ranges.len(), |i: int| chars.subrange(ranges[i].0 as int, ranges[i].1 as int))
}

/// Cuts `chars` at every occurrence of `sep`. Each piece is given by the bounds it has
/// in `chars`.
pub fn split_ranges(chars: &[char], sep: char) -> (ranges: Vec<(usize, usize)>)
    ensures
        forall|i: int|
            0 <= i < ranges.len() ==> (#[trigger] ranges[i]).0 <= ranges[i].1 <= chars.len(),
        pieces_of(chars@, ranges@) == split_on(chars@, sep),
{
    let mut ranges: Vec<(usize, usize)> = Vec::new();
    let mut start: usize = 0;
    let mut i: usize = 0;
    assert(pieces_of(chars@, ranges@).push(chars@.subrange(0, 0)) =~~= split_on(
        chars@.take(0),
        sep,
    ));
    while i < chars.len()
        invariant
            start <= i <= chars.len(),
            forall|k: int|
                0 <= k < ranges.len() ==> (#[trigger] ranges[k]).0 <= ranges[k].1 <= chars.len(),
            pieces_of(chars@, ranges@).push(chars@.subrange(start as int, i as int))
                == split_on(chars@.take(i as int), sep),
        decreases chars.len() - i,
    {
        let ghost done = pieces_of(chars@, ranges@);
        let ghost open = chars@.subrange(start as int, i as int);
        assert(chars@.take(i + 1).drop_last() =~= chars@.take(i as int));
        assert(done.push(open).drop_last() =~= done);
        if chars[i] == sep {
            ranges.push((start, i));
            start = i + 1;
            assert(pieces_of(chars@, ranges@) =~= done.push(open));
            assert(chars@.subrange(start as int, i + 1) =~= Seq::<char>::empty());
        } else {
            assert(chars@.subrange(start as int, i + 1) =~= open.push(chars@[i as int]));
        }
        i += 1;
    }
    assert(chars@.take(chars.len() as int) =~= chars@);
    let ghost done = pieces_of(chars@, ranges@);
    ranges.push((start, chars.len()));
    assert(pieces_of(chars@, ranges@) =~= done.push(
        chars@.subrange(start as int, chars.len() as int),
    ));
    ranges
}

/// Whether `c` is one of the ten decimal digits.
pub open spec fn is_digit(c: char) -> bool {
    '0' <= c <= '9'
}

/// Whether `c` is one of the ten decimal digits.
pub fn char_is_digit(c: char) -> (digit: bool)
    ensures
        digit == is_digit(c),
{
    '0' <= c && c <= '9'
}

/// The value of `c` as a digit, for radices up to sixteen: `0` to `9`, then `a` to `f`
/// in either case. Any other character has the value sixteen, which is a digit in no
/// radix.
pub open spec fn digit_value(c: char) -> nat {
    if '0' <= c <= '9' {
        (c as u32 - '0' as u32) as nat
    } else if 'a' <= c <= 'f' {
        (c as u32 - 'a' as u32 + 10) as nat
    } else if 'A' <= c <= 'F' {
        (c as u32 - 'A' as u32 + 10) as nat
    } else {
        16
    }
}

/// Whether every character of `s` is a digit in `radix`.
pub open spec fn all_digits(s: Seq<char>, radix: nat) -> bool {
    forall|i: int| 0 <= i < s.len() ==> digit_value(#[trigger] s[i]) < radix
}

/// Whether `s` is a numeral in `radix`: one digit or more, and nothing else.
pub open spec fn is_numeral(s: Seq<char>, radix: nat) -> bool {
    s.len() > 0 && all_digits(s, radix)
}

/// The number that the digits `s` write in `radix`, most significant digit first.
pub open spec fn numeral_value(s: Seq<char>, radix: nat) -> nat
    decreases s.len(),
{
    if s.len() == 0 {
        0
    } else {
        numeral_value(s.drop_last(), radix) * radix + digit_value(s.last())
    }
}

/// `s` without the plus sign that it may start with.
pub open spec fn without_plus(s: Seq<char>) -> Seq<char> {
    if s.len() > 0 && s[0] == '+' {
        s.drop_first()
    } else {
        s
    }
}

/// The number that `s` writes, where `s` is a numeral in `radix` whose value is at most
/// `max`.
pub open spec fn numeral_up_to(s: Seq<char>, radix: nat, max: nat) -> Option<nat> {
    if is_numeral(s, radix) && numeral_value(s, radix) <= max {
        Some(numeral_value(s, radix))
    } else {
        None
    }
}

/// The unsigned number that `s` writes in `radix`: an optional plus sign, then a
/// numeral whose value is at most `max`.
pub open spec fn unsigned_of(s: Seq<char>, radix: nat, max: nat) -> Option<nat> {
    numeral_up_to(without_plus(s), radix, max)
}

/// The signed decimal number that `s` writes: an optional sign, then a numeral whose
/// value, with the sign, lies between `min` and `max`.
pub open spec fn signed_of(s: Seq<char>, min: int, max: int) -> Option<int> {
    if s.len() > 0 && s[0] == '-' {
        match numeral_up_to(s.drop_first(), 10, (-min) as nat) {
            Some(value) => Some(-(value as int)),
            None => None,
        }
    } else {
        match unsigned_of(s, 10, max as nat) {
            Some(value) => Some(value as int),
            None => None,
        }
    }
}

/// A longer numeral is worth no less than the numeral it starts with.
pub proof fn lemma_numeral_value_grows(s: Seq<char>, radix: nat, prefix: int)
    requires
        0 <= prefix <= s.len(),
        radix >= 1,
    ensures
        numeral_value(s.take(prefix), radix) <= numeral_value(s, radix),
    decreases s.len(),
{
    if prefix == s.len() {
        assert(s.take(prefix) =~= s);
    } else {
        lemma_numeral_value_grows(s.drop_last(), radix, prefix);
        assert(s.drop_last().take(prefix) =~= s.take(prefix));
        assert(numeral_value(s.drop_last(), radix) * radix >= numeral_value(
            s.drop_last(),
            radix,
        )) by (nonlinear_arith)
            requires
                radix >= 1,
        ;
    }
}

/// The radices in which numbers are read.
#[derive(Debug, Clone, Copy, PartialEq, Eq, Structural)]
pub enum Radix {
    Decimal,
    Hexadecimal,
}

impl Radix {
    /// The number of digits of the radix.
    pub open spec fn spec_base(self) -> nat {
        match self {
            Radix::Decimal => 10,
            Radix::Hexadecimal => 16,
        }
    }

    /// The number of digits of the radix.
    pub fn base(self) -> (base: u8)
        ensures
            base == self.spec_base(),
    {
        match self {
            Radix::Decimal => 10,
            Radix::Hexadecimal => 16,
        }
    }
}

/// The value of `c` as a digit: sixteen where it is no digit.
pub fn char_digit_value(c: char) -> (value: u8)
    ensures
        value == digit_value(c),
{
    if '0' <= c && c <= '9' {
        (c as u32 - '0' as u32) as u8
    } else if 'a' <= c && c <= 'f' {
        (c as u32 - 'a' as u32 + 10) as u8
    } else if 'A' <= c && c <= 'F' {
        (c as u32 - 'A' as u32 + 10) as u8
    } else {
        16
    }
}

/// Reads `chars` as a numeral in `radix` whose value is at most `max`.
pub fn parse_numeral(chars: &[char], radix: Radix, max: u64) -> (value: Option<u64>)
    ensures
        match numeral_up_to(chars@, radix.spec_base(), max as nat) {
            Some(number) => value == Some(number as u64),
            None => value is None,
        },
{
    if chars.len() == 0 {
        return None;
    }
    let base: u8 = radix.base();
    let mut value: u64 = 0;
    let mut i: usize = 0;
    while i < chars.len()
        invariant
            base == radix.spec_base(),
            i <= chars.len(),
            all_digits(chars@.take(i as int), base as nat),
            value == numeral_value(chars@.take(i as int), base as nat),
            value <= max,
        decreases chars.len() - i,
    {
        let digit = char_digit_value(chars[i]);
        if digit >= base {
            return None;
        }
        assert(chars@.take(i + 1).drop_last() =~= chars@.take(i as int));
        assert(value * base <= 0xFFFF_FFFF_FFFF_FFFF * 16) by (nonlinear_arith)
            requires
                value <= 0xFFFF_FFFF_FFFF_FFFF,
                base <= 16,
        ;
        let next: u128 = value as u128 * base as u128 + digit as u128;
        if next > max as u128 {
            proof {
                lemma_numeral_value_grows(chars@, base as nat, i + 1);
            }
            return None;
        }
        value = next as u64;
        i += 1;
    }
    assert(chars@.take(chars.len() as int) =~= chars@);
    Some(value)
}

/// Reads `chars` as an unsigned number in `radix`: an optional plus sign, then a
/// numeral whose value is at most `max`.
pub fn parse_unsigned(chars: &[char], radix: Radix, max: u64) -> (value: Option<u64>)
    ensures
        match unsigned_of(chars@, radix.spec_base(), max as nat) {
            Some(number) => value == Some(number as u64),
            None => value is None,
        },
{
    if chars.len() > 0 && chars[0] == '+' {
        assert(chars@.subrange(1, chars.len() as int) =~= chars@.drop_first());
        parse_numeral(&chars[1..chars.len()], radix, max)
    } else {
        parse_numeral(chars, radix, max)
    }
}

/// Reads `chars` as an unsigned decimal number of eight bits.
pub fn parse_u8(chars: &[char]) -> (value: Option<u8>)
    ensures
        match unsigned_of(chars@, 10, 0xFF) {
            Some(number) => value == Some(number as u8),
            None => value is None,
        },
{
    match parse_unsigned(chars, Radix::Decimal, 0xFF) {
        Some(number) => Some(number as u8),
        None => None,
    }
}

/// Reads `chars` as a signed decimal number of sixteen bits.
pub fn parse_i16(chars: &[char]) -> (value: Option<i16>)
    ensures
        match signed_of(chars@, -0x8000, 0x7FFF) {
            Some(number) => value == Some(number as i16),
            None => value is None,
        },
{
    if chars.len() > 0 && chars[0] == '-' {
        assert(chars@.subrange(1, chars.len() as int) =~= chars@.drop_first());
        match parse_numeral(&chars[1..chars.len()], Radix::Decimal, 0x8000) {
            Some(number) => Some((0 - number as i32) as i16),
            None => None,
        }
    } else {
        match parse_unsigned(chars, Radix::Decimal, 0x7FFF) {
            Some(number) => Some(number as i16),
            None => None,
        }
    }
}

/// The character that writes the digit `d` in decimal.
pub open spec fn digit_char(d: nat) -> char
    recommends
        d < 10,
{
    if d == 0 {
        '0'
    } else if d == 1 {
        '1'
    } else if d == 2 {
        '2'
    } else if d == 3 {
        '3'
    } else if d == 4 {
        '4'
    } else if d == 5 {
        '5'
    } else if d == 6 {
        '6'
    } else if d == 7 {
        '7'
    } else if d == 8 {
        '8'
    } else {
        '9'
    }
}

/// The decimal numeral of `n`: its digits, most significant first, without leading
/// zeros and with a single zero for the number zero.
pub open spec fn decimal_digits(n: nat) -> Seq<char>
    decreases n,
{
    if n < 10 {
        seq![digit_char(n)]
    } else {
        decimal_digits(n / 10).push(digit_char(n % 10))
    }
}

/// The decimal numeral of a number writes that number.
pub proof fn lemma_decimal_digits_round_trip(n: nat)
    ensures
        is_numeral(decimal_digits(n), 10),
        numeral_value(decimal_digits(n), 10) == n,
        n > 0 ==> decimal_digits(n)[0] != '0',
    decreases n,
{
    if n < 10 {
        assert(decimal_digits(n).drop_last() =~= Seq::<char>::empty());
        assert(numeral_value(Seq::<char>::empty(), 10) == 0);
    } else {
        lemma_decimal_digits_round_trip(n / 10);
        assert(decimal_digits(n).drop_last() =~= decimal_digits(n / 10));
    }
}

/// The text of the decimal digit `d`.
fn digit_text(d: u8) -> (text: &'static str)
    requires
        d < 10,
    ensures
        text@ == seq![digit_char(d as nat)],
{
    proof {
        reveal_strlit("0");
        reveal_strlit("1");
        reveal_strlit("2");
        reveal_strlit("3");
        reveal_strlit("4");
        reveal_strlit("5");
        reveal_strlit("6");
        reveal_strlit("7");
        reveal_strlit("8");
        reveal_strlit("9");
    }
    let text = match d {
        0 => "0",
        1 => "1",
        2 => "2",
        3 => "3",
        4 => "4",
        5 => "5",
        6 => "6",
        7 => "7",
        8 => "8",
        _ => "9",
    };
    assert(text@ =~= seq![digit_char(d as nat)]);
    text
}

/// Appends the decimal numeral of `n` to `out`.
pub fn append_decimal(out: &mut String, n: u32)
    ensures
        final(out)@ == old(out)@ + decimal_digits(n as nat),
    decreases n,
{
    if n >= 10 {
        append_decimal(out, n / 10);
    }
    let ghost before = out@;
    out.append(digit_text((n % 10) as u8));
    proof {
        if n >= 10 {
            assert(before + seq![digit_char((n % 10) as nat)] =~= old(out)@ + decimal_digits(
                n as nat,
            ));
        }
    }
}

/// The code of `c`, and for a capital letter of the Latin alphabet the code of its
/// small letter.
pub open spec fn ascii_lower_code(c: char) -> u32 {
    if 'A' <= c <= 'Z' {
        (c as u32 + 32) as u32
    } else {
        c as u32
    }
}

/// Whether `s` starts with `prefix`, where a Latin letter matches in either case.
pub open spec fn starts_with_ignoring_ascii_case(s: Seq<char>, prefix: Seq<char>) -> bool {
    &&& prefix.len() <= s.len()
    &&& forall|i: int|
        0 <= i < prefix.len() ==> ascii_lower_code(#[trigger] s[i]) == ascii_lower_code(prefix[i])
}

/// The code of `c`, and for a capital letter of the Latin alphabet the code of its
/// small letter.
pub fn char_ascii_lower_code(c: char) -> (code: u32)
    ensures
        code == ascii_lower_code(c),
{
    if 'A' <= c && c <= 'Z' {
        c as u32 + 32
    } else {
        c as u32
    }
}

/// Whether `chars` starts with `prefix`, where a Latin letter matches in either case.
pub fn has_prefix_ignoring_ascii_case(chars: &[char], prefix: &[char]) -> (found: bool)
    ensures
        found == starts_with_ignoring_ascii_case(chars@, prefix@),
{
    if prefix.len() > chars.len() {
        return false;
    }
    let mut i: usize = 0;
    while i < prefix.len()
        invariant
            i <= prefix.len() <= chars.len(),
            forall|k: int|
                0 <= k < i ==> ascii_lower_code(#[trigger] chars@[k]) == ascii_lower_code(
                    prefix@[k],
                ),
        decreases prefix.len() - i,
    {
        if char_ascii_lower_code(chars[i]) != char_ascii_lower_code(prefix[i]) {
            return false;
        }
        i += 1;
    }
    true
}

} // verus!
