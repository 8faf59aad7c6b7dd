//! Number formatting helpers: fixed-point decimal rendering of byte and rate
//! counters with binary or decimal magnitude suffixes.

use vstd::prelude::*;

verus! {

/// Relies on std's `String::push`: appends the character to the end.
pub assume_specification[ String::push ](s: &mut String, c: char)
    ensures
        final(s)@ == old(s)@.push(c),
;

/// The decimal digit character for one digit value.
pub open spec fn spec_digit(d: nat) -> char {
    if d == 0 {
        '0'
    } else if d == 1 {
        '1'
    } else if d == 2 {
        '2'
    } else if d == 3 {
        '3'
    } else if d == 4 {
        '4'
    } else if d == 5 {
        '5'
    } else if d == 6 {
        '6'
    } else if d == 7 {
        '7'
    } else if d == 8 {
        '8'
    } else {
        '9'
    }
}

/// The decimal digit string of a number.
pub open spec fn spec_dec(n: nat) -> Seq<char>
    decreases n,
{
    if n < 10 {
        seq![spec_digit(n)]
    } else {
        spec_dec(n / 10).push(spec_digit(n % 10))
    }
}

/// A number over a unit divisor, rendered with two decimal places; the
/// fraction is rounded to the nearest hundredth, half away from zero.
pub open spec fn spec_fixed2(n: nat, div: nat) -> Seq<char>
    recommends
        div > 0,
{
    let q = n / div;
    let h = ((n % div) * 100 + div / 2) / div;
    if h >= 100 {
        spec_dec(q + 1).push('.') + seq![spec_digit(((h - 100) / 10) as nat), spec_digit((h % 10) as nat)]
    } else {
        spec_dec(q).push('.') + seq![spec_digit(h / 10), spec_digit(h % 10)]
    }
}

/// The digit character for a value below ten.
fn digit_char(d: u64) -> (c: char)
    requires
        d < 10,
    ensures
        c == spec_digit(d as nat),
{
    match d {
        0 => '0',
        1 => '1',
        2 => '2',
        3 => '3',
        4 => '4',
        5 => '5',
        6 => '6',
        7 => '7',
        8 => '8',
        _ => '9',
    }
}

/// Renders a number in decimal.
pub fn u64_to_string(n: u64) -> (s: String)
    ensures
        s@ == spec_dec(n as nat),
{
    let mut s = String::new();
    push_dec(&mut s, n);
    s
}

/// Appends the decimal digits of a number to a string.
fn push_dec(s: &mut String, n: u64)
    ensures
        final(s)@ == old(s)@ + spec_dec(n as nat),
    decreases n,
{
    if n < 10 {
        s.push(digit_char(n));
        proof {
            assert(s@ =~= old(s)@ + spec_dec(n as nat));
        }
    } else {
        push_dec(s, n / 10);
        s.push(digit_char(n % 10));
        proof {
            assert(s@ =~= old(s)@ + spec_dec(n as nat));
        }
    }
}

/// Appends a number over a unit divisor with two decimal places, rounded to
/// the nearest hundredth.
fn push_fixed2(s: &mut String, n: u64, div: u64)
    requires
        div > 0,
        div <= 0x4_0000_0000_0000,
    ensures
        final(s)@ == old(s)@ + spec_fixed2(n as nat, div as nat),
{
    let q = n / div;
    let r = n % div;
    proof {
        assert(r < div);
        assert(r * 100 + div / 2 < 101 * div);
    }
    let h = (r * 100 + div / 2) / div;
    proof {
        vstd::arithmetic::div_mod::lemma_multiply_divide_lt(
            (r * 100 + div / 2) as int,
            div as int,
            101,
        );
        assert(h < 101);
        if h >= 100 {
            if r == 0 {
                vstd::arithmetic::div_mod::lemma_basic_div((div / 2) as int, div as int);
            }
            assert(r > 0);
            assert(div >= 2);
            vstd::arithmetic::div_mod::lemma_div_is_ordered_by_denominator(n as int, 2, div as int);
            assert(q <= n as int / 2);
        }
    }
    if h >= 100 {
        push_dec(s, q + 1);
        s.push('.');
        s.push(digit_char((h - 100) / 10));
        s.push(digit_char(h % 10));
    } else {
        push_dec(s, q);
        s.push('.');
        s.push(digit_char(h / 10));
        s.push(digit_char(h % 10));
    }
    proof {
        assert(s@ =~= old(s)@ + spec_fixed2(n as nat, div as nat));
    }
}

/// The binary magnitude divisor and suffix for a byte count: the largest of
/// Pi, Ti, Gi, Mi, Ki whose unit the number exceeds, or none.
pub open spec fn spec_binary_unit(n: nat) -> (nat, Seq<char>) {
    if n > 0x4_0000_0000_0000 {
        (0x4_0000_0000_0000 as nat, seq!['P', 'i'])
    } else if n > 0x100_0000_0000 {
        (0x100_0000_0000 as nat, seq!['T', 'i'])
    } else if n > 0x4000_0000 {
        (0x4000_0000 as nat, seq!['G', 'i'])
    } else if n > 0x10_0000 {
        (0x10_0000 as nat, seq!['M', 'i'])
    } else if n > 0x400 {
        (0x400 as nat, seq!['K', 'i'])
    } else {
        (1 as nat, seq![])
    }
}

/// The decimal magnitude divisor and suffix for a count: the largest of
/// P, T, G, M, K whose unit the number exceeds, or none.
pub open spec fn spec_decimal_unit(n: nat) -> (nat, Seq<char>) {
    if n > 1000000000000000 {
        (1000000000000000 as nat, seq!['P'])
    } else if n > 1000000000000 {
        (1000000000000 as nat, seq!['T'])
    } else if n > 1000000000 {
        (1000000000 as nat, seq!['G'])
    } else if n > 1000000 {
        (1000000 as nat, seq!['M'])
    } else if n > 1000 {
        (1000 as nat, seq!['K'])
    } else {
        (1 as nat, seq![])
    }
}

/// A byte count scaled by the largest binary unit it exceeds, with two
/// decimal places and the unit's suffix: 1536 renders as `1.50Ki`.
pub fn human_readable(n: u64) -> (s: String)
    ensures
        s@ == spec_fixed2(n as nat, spec_binary_unit(n as nat).0) + spec_binary_unit(n as nat).1,
{
    let mut s = String::new();
    if n > 0x4_0000_0000_0000 {
        push_fixed2(&mut s, n, 0x4_0000_0000_0000);
        s.push('P');
        s.push('i');
    } else if n > 0x100_0000_0000 {
        push_fixed2(&mut s, n, 0x100_0000_0000);
        s.push('T');
        s.push('i');
    } else if n > 0x4000_0000 {
        push_fixed2(&mut s, n, 0x4000_0000);
        s.push('G');
        s.push('i');
    } else if n > 0x10_0000 {
        push_fixed2(&mut s, n, 0x10_0000);
        s.push('M');
        s.push('i');
    } else if n > 0x400 {
        push_fixed2(&mut s, n, 0x400);
        s.push('K');
        s.push('i');
    } else {
        push_fixed2(&mut s, n, 1);
    }
    proof {
        assert(s@ =~= spec_fixed2(n as nat, spec_binary_unit(n as nat).0) + spec_binary_unit(
            n as nat,
        ).1);
    }
    s
}

/// A count scaled by the largest decimal unit it exceeds, with two decimal
/// places and the unit's suffix: 1500 renders as `1.50K`.
pub fn human_readable_p10(n: u64) -> (s: String)
    ensures
        s@ == spec_fixed2(n as nat, spec_decimal_unit(n as nat).0) + spec_decimal_unit(n as nat).1,
{
    let mut s = String::new();
    if n > 1000000000000000 {
        push_fixed2(&mut s, n, 1000000000000000);
        s.push('P');
    } else if n > 1000000000000 {
        push_fixed2(&mut s, n, 1000000000000);
        s.push('T');
    } else if n > 1000000000 {
        push_fixed2(&mut s, n, 1000000000);
        s.push('G');
    } else if n > 1000000 {
        push_fixed2(&mut s, n, 1000000);
        s.push('M');
    } else if n > 1000 {
        push_fixed2(&mut s, n, 1000);
        s.push('K');
    } else {
        push_fixed2(&mut s, n, 1);
    }
    proof {
        assert(s@ =~= spec_fixed2(n as nat, spec_decimal_unit(n as nat).0) + spec_decimal_unit(
            n as nat,
        ).1);
    }
    s
}

/// Merges an optional child setting over a parent's: the child's value wins
/// where present, else the parent's is kept.
pub fn mix_options<'a, T>(parent: &'a Option<T>, child: &'a Option<T>) -> (r: &'a Option<T>)
    ensures
        *r == if child is Some {
            *child
        } else {
            *parent
        },
{
    match child {
        Some(_) => child,
        None => parent,
    }
}


/// Splitting a character sequence on a separator: the list of segments
/// between separator occurrences.  An empty input yields one empty segment,
/// as `str::split` does.
pub open spec fn spec_split(s: Seq<char>, sep: char) -> Seq<Seq<char>>
    decreases s.len(),
{
    if s.len() == 0 {
        seq![Seq::<char>::empty()]
    } else {
        let rest = spec_split(s.drop_first(), sep);
        if s[0] == sep {
            seq![Seq::<char>::empty()] + rest
        } else {
            seq![seq![s[0]] + rest[0]] + rest.drop_first()
        }
    }
}

/// The split of any sequence has at least one segment.
pub proof fn lemma_split_nonempty(s: Seq<char>, sep: char)
    ensures
        spec_split(s, sep).len() >= 1,
    decreases s.len(),
{
    if s.len() > 0 {
        lemma_split_nonempty(s.drop_first(), sep);
    }
}

/// Splits a string on a separator character.
pub fn split_char(s: &str, sep: char) -> (r: Vec<String>)
    ensures
        r@.len() == spec_split(s@, sep).len(),
        forall|i: int| 0 <= i < r@.len() ==> r@[i]@ == spec_split(s@, sep)[i],
{
    let n = s.unicode_len();
    let mut done: Vec<String> = Vec::new();
    let mut cur = String::new();
    let mut i: usize = 0;
    proof {
        assert(s@.skip(0) =~= s@);
        lemma_split_nonempty(s@, sep);
        assert(spec_split(s@, sep) =~~= done@.map_values(|x: String| x@) + seq![
            cur@ + spec_split(s@, sep)[0],
        ] + spec_split(s@, sep).drop_first());
    }
    while i < n
        invariant
            n == s@.len(),
            i <= n,
            spec_split(s@, sep) =~~= done@.map_values(|x: String| x@) + seq![
                cur@ + spec_split(s@.skip(i as int), sep)[0],
            ] + spec_split(s@.skip(i as int), sep).drop_first(),
        decreases n - i,
    {
        let c = s.get_char(i);
        proof {
            assert(s@.skip(i as int)[0] == s@[i as int]);
            assert(s@.skip(i as int).drop_first() =~= s@.skip(i + 1));
            lemma_split_nonempty(s@.skip(i + 1), sep);
        }
        if c == sep {
            let ghost d0 = done@;
            let ghost c0 = cur@;
            done.push(cur);
            cur = String::new();
            proof {
                assert(done@ =~= d0.push(done@.last()));
                assert(done@.last()@ == c0);
                assert(done@.map_values(|x: String| x@)
                    =~~= d0.map_values(|x: String| x@).push(c0));
            }
        } else {
            cur.push(c);
        }
        proof {
            assert(spec_split(s@, sep) =~~= done@.map_values(|x: String| x@) + seq![
                cur@ + spec_split(s@.skip(i + 1), sep)[0],
            ] + spec_split(s@.skip(i + 1), sep).drop_first());
        }
        i = i + 1;
    }
    proof {
        assert(s@.skip(n as int) =~= Seq::<char>::empty());
    }
    let ghost d0 = done@;
    let ghost c0 = cur@;
    done.push(cur);
    proof {
        assert(done@ =~= d0.push(done@.last()));
        assert(done@.last()@ == c0);
        assert(done@.map_values(|x: String| x@) =~~= d0.map_values(|x: String| x@).push(c0));
        assert(spec_split(s@, sep) =~~= done@.map_values(|x: String| x@));
        assert(forall|i: int|
            0 <= i < done@.len() ==> done@.map_values(|x: String| x@)[i] == done@[i]@);
    }
    done
}

/// A sequence without the separator splits into itself alone.
pub proof fn lemma_split_no_sep(s: Seq<char>, sep: char)
    requires
        forall|i: int| 0 <= i < s.len() ==> s[i] != sep,
    ensures
        spec_split(s, sep) =~~= seq![s],
    decreases s.len(),
{
    if s.len() > 0 {
        assert(forall|i: int| 0 <= i < s.drop_first().len() ==> s.drop_first()[i] != sep);
        lemma_split_no_sep(s.drop_first(), sep);
        assert(seq![s[0]] + spec_split(s.drop_first(), sep)[0] =~= s);
    }
}

/// The first occurrence of a character in a sequence, if any.
pub open spec fn spec_find_char(s: Seq<char>, sep: char) -> Option<int>
    decreases s.len(),
{
    if s.len() == 0 {
        None
    } else if s[0] == sep {
        Some(0)
    } else {
        match spec_find_char(s.drop_first(), sep) {
            Some(j) => Some(j + 1),
            None => None,
        }
    }
}

/// What the first occurrence means: the character stands there and nowhere
/// earlier.
pub proof fn lemma_find_char(s: Seq<char>, sep: char)
    ensures
        match spec_find_char(s, sep) {
            Some(j) => 0 <= j < s.len() && s[j] == sep && forall|k: int|
                0 <= k < j ==> s[k] != sep,
            None => forall|k: int| 0 <= k < s.len() ==> s[k] != sep,
        },
    decreases s.len(),
{
    if s.len() > 0 && s[0] != sep {
        lemma_find_char(s.drop_first(), sep);
        match spec_find_char(s.drop_first(), sep) {
            Some(j) => {
                assert(forall|k: int| 1 <= k < j + 1 ==> s[k] == s.drop_first()[k - 1]);
            },
            None => {
                assert(forall|k: int| 1 <= k < s.len() ==> s[k] == s.drop_first()[k - 1]);
            },
        }
    }
}

/// Finds the first occurrence of a character in a string.
pub fn find_char(s: &str, sep: char) -> (r: Option<usize>)
    ensures
        match r {
            Some(j) => Some(j as int) == spec_find_char(s@, sep),
            None => spec_find_char(s@, sep) is None,
        },
{
    let n = s.unicode_len();
    let mut i: usize = 0;
    proof {
        assert(s@.skip(0) =~= s@);
    }
    while i < n
        invariant
            n == s@.len(),
            i <= n,
            spec_find_char(s@, sep) == match spec_find_char(s@.skip(i as int), sep) {
                Some(j) => Some(j + i),
                None => None::<int>,
            },
        decreases n - i,
    {
        proof {
            assert(s@.skip(i as int)[0] == s@[i as int]);
            assert(s@.skip(i as int).drop_first() =~= s@.skip(i + 1));
        }
        if s.get_char(i) == sep {
            return Some(i);
        }
        i = i + 1;
    }
    proof {
        assert(s@.skip(n as int) =~= Seq::<char>::empty());
    }
    None
}

/// The number of thousand-steps a magnitude suffix denotes.
pub open spec fn spec_magnitude(c: char) -> int {
    if c == 'P' {
        5
    } else if c == 'T' {
        4
    } else if c == 'G' {
        3
    } else if c == 'M' {
        2
    } else if c == 'K' || c == 'k' {
        1
    } else {
        0
    }
}

/// A thousand to a power.
pub open spec fn spec_pow1000(n: nat) -> int
    decreases n,
{
    if n == 0 {
        1
    } else {
        1000 * spec_pow1000((n - 1) as nat)
    }
}

/// Whether a character is a decimal digit.
pub open spec fn spec_is_digit(c: char) -> bool {
    '0' <= c <= '9'
}

/// The first decimal digit of a string, if any.
pub open spec fn spec_first_digit(s: Seq<char>) -> Option<int>
    decreases s.len(),
{
    if s.len() == 0 {
        None
    } else if spec_is_digit(s[0]) {
        Some(0)
    } else {
        match spec_first_digit(s.drop_first()) {
            Some(j) => Some(j + 1),
            None => None,
        }
    }
}

/// The number a displayed string carries, in thousandths: the digits from
/// the first one on, with at most one decimal point, scaled by the
/// magnitude suffix that follows them, clamped to the representable
/// range.  A string without a readable number carries nothing; so does
/// one whose number holds a second decimal point or more than fifteen
/// integer digits, where a looser reader might still take the leading
/// part.
pub open spec fn spec_find_human_readable(s: Seq<char>) -> Option<i64> {
    match spec_first_digit(s) {
        None => None,
        Some(i) => {
            let tail = s.skip(i);
            let numlen = spec_number_span(tail);
            let mag = if numlen < tail.len() {
                spec_magnitude(tail[numlen])
            } else {
                0
            };
            match crate::command::alsa::spec_number_milli(tail.take(numlen)) {
                Some(m) => Some(
                    if m * spec_pow1000(mag as nat) > i64::MAX {
                        i64::MAX
                    } else {
                        (m * spec_pow1000(mag as nat)) as i64
                    },
                ),
                None => None,
            }
        },
    }
}

/// How many leading characters of a string belong to its number: digits
/// and decimal points.
pub open spec fn spec_number_span(s: Seq<char>) -> int
    decreases s.len(),
{
    if s.len() == 0 {
        0
    } else if spec_is_digit(s[0]) || s[0] == '.' {
        1 + spec_number_span(s.drop_first())
    } else {
        0
    }
}

/// Reads the number a displayed string carries, in thousandths: digits
/// after any leading text, an optional fraction, and a magnitude suffix
/// of thousands (`K`), millions (`M`), and so on up the decimal units.
pub fn find_human_readable(s: &str) -> (r: Option<i64>)
    ensures
        r == spec_find_human_readable(s@),
{
    let n = s.unicode_len();
    let mut i: usize = 0;
    proof {
        assert(s@.skip(0) =~= s@);
    }
    while i < n
        invariant
            n == s@.len(),
            i <= n,
            spec_first_digit(s@) == match spec_first_digit(s@.skip(i as int)) {
                Some(j) => Some(j + i),
                None => None::<int>,
            },
        decreases n - i,
    {
        proof {
            assert(s@.skip(i as int)[0] == s@[i as int]);
            assert(s@.skip(i as int).drop_first() =~= s@.skip(i + 1));
        }
        let c = s.get_char(i);
        if '0' <= c && c <= '9' {
            let tail = s.substring_char(i, n);
            proof {
                assert(tail@ =~= s@.skip(i as int));
                assert(tail@.skip(0) =~= tail@);
                assert(spec_first_digit(s@.skip(i as int)) == Some(0int));
                assert(spec_first_digit(s@) == Some(i as int));
            }
            return read_number(tail);
        }
        i = i + 1;
    }
    proof {
        assert(s@.skip(n as int) =~= Seq::<char>::empty());
    }
    None
}

/// Reads the number at the head of a string, with its magnitude suffix.
fn read_number(tail: &str) -> (r: Option<i64>)
    requires
        tail@.len() > 0,
        spec_is_digit(tail@[0]),
    ensures
        r == spec_find_human_readable(tail@),
{
    proof {
        assert(spec_first_digit(tail@) == Some(0int));
        assert(tail@.skip(0) =~= tail@);
    }
    let n = tail.unicode_len();
    let mut numlen: usize = 0;
    loop
        invariant
            n == tail@.len(),
            numlen <= n,
            spec_number_span(tail@) == numlen + spec_number_span(tail@.skip(numlen as int)),
            forall|k: int| 0 <= k < numlen ==> spec_is_digit(#[trigger] tail@[k]) || tail@[k]
                == '.',
        ensures
            spec_number_span(tail@) == numlen,
            numlen <= n,
            forall|k: int| 0 <= k < numlen ==> spec_is_digit(#[trigger] tail@[k]) || tail@[k]
                == '.',
            numlen < n ==> !(spec_is_digit(tail@[numlen as int]) || tail@[numlen as int] == '.'),
        decreases n - numlen,
    {
        if numlen >= n {
            proof {
                assert(tail@.skip(numlen as int) =~= Seq::<char>::empty());
            }
            break;
        }
        proof {
            assert(tail@.skip(numlen as int)[0] == tail@[numlen as int]);
            assert(tail@.skip(numlen as int).drop_first() =~= tail@.skip(numlen + 1));
        }
        let c = tail.get_char(numlen);
        if !(('0' <= c && c <= '9') || c == '.') {
            break;
        }
        numlen = numlen + 1;
    }
    let mag: u32 = if numlen < n {
        let c = tail.get_char(numlen);
        if c == 'P' {
            5
        } else if c == 'T' {
            4
        } else if c == 'G' {
            3
        } else if c == 'M' {
            2
        } else if c == 'K' || c == 'k' {
            1
        } else {
            0
        }
    } else {
        0
    };
    let number = tail.substring_char(0, numlen);
    match crate::command::alsa::number_milli(number) {
        Some(m) => {
            let mut scale: i64 = 1;
            let mut p: u32 = 0;
            while p < mag
                invariant
                    mag <= 5,
                    p <= mag,
                    scale == spec_pow1000(p as nat),
                    1 <= scale <= 0x38D7EA4C68000,
                decreases mag - p,
            {
                proof {
                    lemma_pow1000_monotone((p + 1) as nat, 5nat);
                    reveal_with_fuel(spec_pow1000, 7);
                }
                scale = scale * 1000;
                p = p + 1;
            }
            if m > i64::MAX / scale {
                proof {
                    lemma_sat_above(m as int, scale as int);
                }
                Some(i64::MAX)
            } else {
                proof {
                    lemma_sat_below(m as int, scale as int);
                }
                Some(m * scale)
            }
        },
        None => None,
    }
}

/// Powers of a thousand grow with the exponent.
proof fn lemma_pow1000_monotone(a: nat, b: nat)
    requires
        a <= b,
    ensures
        1 <= spec_pow1000(a) <= spec_pow1000(b),
    decreases b,
{
    if a < b {
        lemma_pow1000_monotone(a, (b - 1) as nat);
    } else if a == b && a > 0 {
        lemma_pow1000_monotone((a - 1) as nat, (b - 1) as nat);
    }
}

/// A product above the quotient bound exceeds the range.
proof fn lemma_sat_above(m: int, scale: int)
    requires
        scale >= 1,
        m > 0x7FFF_FFFF_FFFF_FFFFint / scale,
    ensures
        m * scale > 0x7FFF_FFFF_FFFF_FFFFint,
{
    let q = 0x7FFF_FFFF_FFFF_FFFFint / scale;
    let r = 0x7FFF_FFFF_FFFF_FFFFint % scale;
    vstd::arithmetic::div_mod::lemma_fundamental_div_mod(0x7FFF_FFFF_FFFF_FFFFint, scale);
    vstd::arithmetic::div_mod::lemma_mod_bound(0x7FFF_FFFF_FFFF_FFFFint, scale);
    assert(m * scale > q * scale + r) by (nonlinear_arith)
        requires
            scale >= 1,
            m >= q + 1,
            0 <= r < scale,
    ;
}

/// A product within the quotient bound stays in range.
proof fn lemma_sat_below(m: int, scale: int)
    requires
        scale >= 1,
        0 <= m <= 0x7FFF_FFFF_FFFF_FFFFint / scale,
    ensures
        0 <= m * scale <= 0x7FFF_FFFF_FFFF_FFFFint,
{
    let q = 0x7FFF_FFFF_FFFF_FFFFint / scale;
    let r = 0x7FFF_FFFF_FFFF_FFFFint % scale;
    vstd::arithmetic::div_mod::lemma_fundamental_div_mod(0x7FFF_FFFF_FFFF_FFFFint, scale);
    vstd::arithmetic::div_mod::lemma_mod_bound(0x7FFF_FFFF_FFFF_FFFFint, scale);
    assert(0 <= m * scale <= q * scale + r) by (nonlinear_arith)
        requires
            scale >= 1,
            0 <= m <= q,
            0 <= r < scale,
    ;
}

} // verus!
