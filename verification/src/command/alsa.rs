//! Mixer commands: reading a mixer's volume as a percentage and requesting
//! relative or absolute volume changes.
//!
//! The model here holds the volumes the driver last read, per mixer name,
//! and the set-requests the logic computed.  The driver loop talks to the
//! sound system: it reports `(volume, min, max)` readings in and performs
//! the pending set-requests.

use vstd::prelude::*;
use crate::event::string_eq;
use crate::utils::{spec_dec, u64_to_string};

verus! {

/// A requested volume change: relative or absolute, in thousandths of a
/// percent.
#[derive(Debug, PartialEq, Eq, Structural)]
pub enum VolumeChange {
    Percent(bool, i64),
}

/// A command that yields a mixer's volume as a percentage.
#[derive(Debug)]
pub struct ALSAGetVolumeCommand(pub Option<String>);

/// A command that applies a volume change to a mixer.
#[derive(Debug)]
pub struct ALSASetVolumeCommand(pub Option<String>, pub VolumeChange);

/// The mixer model: the last reported volume triple per mixer name, the
/// last volume seen by change detection, and the set-requests not yet
/// performed.
#[derive(Debug)]
pub struct ALSASingleton {
    pub volumes: Vec<(String, Option<(i64, i64, i64)>)>,
    pub old_volume: Option<i64>,
    pub pending_sets: Vec<(String, i64)>,
}

/// Whether every character is a decimal digit.
pub open spec fn spec_all_digits(s: Seq<char>) -> bool {
    forall|i: int| 0 <= i < s.len() ==> '0' <= #[trigger] s[i] <= '9'
}

/// The value of a digit string read as a decimal number.
pub open spec fn spec_digits_value(s: Seq<char>) -> int
    decreases s.len(),
{
    if s.len() == 0 {
        0
    } else {
        spec_digits_value(s.drop_last()) * 10 + (s.last() as int - '0' as int)
    }
}

/// The first three fractional digits of a number, padded with zeros.
pub open spec fn spec_pad3(s: Seq<char>) -> Seq<char> {
    if s.len() >= 3 {
        s.take(3)
    } else {
        s + Seq::new((3 - s.len()) as nat, |i: int| '0')
    }
}

/// Ten to a power.
pub open spec fn spec_pow10(n: nat) -> int
    decreases n,
{
    if n == 0 {
        1
    } else {
        10 * spec_pow10((n - 1) as nat)
    }
}

/// A digit string reads as a number, never less than nothing.
pub proof fn lemma_digits_value_nonneg(s: Seq<char>)
    requires
        spec_all_digits(s),
    ensures
        spec_digits_value(s) >= 0,
    decreases s.len(),
{
    if s.len() > 0 {
        lemma_digits_value_nonneg(s.drop_last());
    }
}

/// A digit string of bounded length reads as a bounded number.
proof fn lemma_digits_value_bound(s: Seq<char>)
    requires
        spec_all_digits(s),
    ensures
        0 <= spec_digits_value(s) < spec_pow10(s.len()),
    decreases s.len(),
{
    if s.len() > 0 {
        lemma_digits_value_bound(s.drop_last());
    }
}

/// The value, in thousandths, of a decimal number string with an optional
/// fractional part: `12.345` denotes 12345.  Only the first three
/// fractional digits count.  A string without any digit, with two dots or
/// with more than fifteen integer digits denotes nothing.
pub open spec fn spec_number_milli(s: Seq<char>) -> Option<int> {
    let parts = crate::utils::spec_split(s, '.');
    if parts.len() == 1 && spec_all_digits(parts[0]) && parts[0].len() >= 1 && parts[0].len()
        <= 15 {
        Some(spec_digits_value(parts[0]) * 1000)
    } else if parts.len() == 2 && spec_all_digits(parts[0]) && spec_all_digits(parts[1])
        && parts[0].len() + parts[1].len() >= 1 && parts[0].len() <= 15 {
        Some(spec_digits_value(parts[0]) * 1000 + spec_digits_value(spec_pad3(parts[1])))
    } else {
        None
    }
}

/// What a volume-change string denotes: a leading `+` or `-` makes the
/// change relative, a trailing `%` is required, and the number in between
/// is read in thousandths of a percent.  A malformed string denotes the
/// absolute change of zero, as the configuration error fallback.
pub open spec fn spec_volume_change(s: Seq<char>) -> VolumeChange {
    if s.len() < 1 || s.last() != '%' {
        VolumeChange::Percent(false, 0)
    } else {
        let relative = s[0] == '+' || s[0] == '-';
        let negative = s[0] == '-';
        let body = if relative {
            s.subrange(1, s.len() - 1)
        } else {
            s.subrange(0, s.len() - 1)
        };
        match spec_number_milli(body) {
            Some(v) => VolumeChange::Percent(
                relative,
                if negative {
                    (-v) as i64
                } else {
                    v as i64
                },
            ),
            None => VolumeChange::Percent(false, 0),
        }
    }
}

impl VolumeChange {
    /// Reads a volume-change string such as `+5%`, `-2.5%` or `40%`.
    pub fn new(s: &String) -> (r: Self)
        ensures
            r == spec_volume_change(s@),
    {
        let n = s.as_str().unicode_len();
        if n < 1 || s.as_str().get_char(n - 1) != '%' {
            return VolumeChange::Percent(false, 0);
        }
        let first = s.as_str().get_char(0);
        let relative = first == '+' || first == '-';
        let negative = first == '-';
        let body = if relative {
            s.as_str().substring_char(1, n - 1)
        } else {
            s.as_str().substring_char(0, n - 1)
        };
        match number_milli(body) {
            Some(v) => VolumeChange::Percent(
                relative,
                if negative {
                    -v
                } else {
                    v
                },
            ),
            None => VolumeChange::Percent(false, 0),
        }
    }
}

/// Reads a digit string as a decimal number.
fn digits_value(s: &str) -> (r: Option<u64>)
    requires
        s@.len() <= 15,
    ensures
        match r {
            Some(v) => spec_all_digits(s@) && v == spec_digits_value(s@) && v
                < 0x38D7EA4C68000,
            None => !spec_all_digits(s@),
        },
{
    let n = s.unicode_len();
    let mut v: u64 = 0;
    let mut i: usize = 0;
    proof {
        assert(s@.take(0) =~= Seq::<char>::empty());
        reveal_with_fuel(spec_pow10, 16);
    }
    while i < n
        invariant
            n == s@.len(),
            n <= 15,
            i <= n,
            spec_all_digits(s@.take(i as int)),
            v == spec_digits_value(s@.take(i as int)),
            v < spec_pow10(i as nat),
            spec_pow10(15) == 0x38D7EA4C68000,
        decreases n - i,
    {
        let c = s.get_char(i);
        if !('0' <= c && c <= '9') {
            return None;
        }
        proof {
            assert(s@.take(i + 1).drop_last() =~= s@.take(i as int));
            lemma_pow10_monotone(i as nat + 1, 15);
        }
        v = v * 10 + ((c as u32) - ('0' as u32)) as u64;
        i = i + 1;
    }
    proof {
        assert(s@.take(n as int) =~= s@);
        lemma_pow10_monotone(n as nat, 15);
    }
    Some(v)
}

/// Reads a decimal number string with an optional fractional part, in
/// thousandths.
pub fn number_milli(s: &str) -> (r: Option<i64>)
    ensures
        match r {
            Some(v) => Some(v as int) == spec_number_milli(s@) && v >= 0,
            None => spec_number_milli(s@) is None,
        },
{
    let parts = crate::utils::split_char(s, '.');
    if parts.len() == 1 {
        let p0 = &parts[0];
        let p0n = p0.as_str().unicode_len();
        if p0n >= 1 && p0n <= 15 {
            match digits_value(p0.as_str()) {
                Some(v) => Some((v * 1000) as i64),
                None => None,
            }
        } else {
            None
        }
    } else if parts.len() == 2 {
        let p0 = &parts[0];
        let p1 = &parts[1];
        let p0n = p0.as_str().unicode_len();
        let p1n = p1.as_str().unicode_len();
        if (p0n > 0 || p1n > 0) && p0n <= 15 {
            if !check_all_digits(p1.as_str()) {
                return None;
            }
            let p1cut = if p1n >= 3 {
                p1.as_str().substring_char(0, 3)
            } else {
                p1.as_str()
            };
            let k = p1cut.unicode_len();
            let mut fracs = String::from_str(p1cut);
            if k < 3 {
                fracs.push('0');
            }
            if k < 2 {
                fracs.push('0');
            }
            if k < 1 {
                fracs.push('0');
            }
            proof {
                assert(fracs@ =~= spec_pad3(p1@));
            }
            match (digits_value(p0.as_str()), digits_value(fracs.as_str())) {
                (Some(v0), Some(v1)) => Some((v0 * 1000 + v1) as i64),
                _ => None,
            }
        } else {
            None
        }
    } else {
        None
    }
}

/// Whether every character of a string is a decimal digit.
fn check_all_digits(s: &str) -> (r: bool)
    ensures
        r == spec_all_digits(s@),
{
    let n = s.unicode_len();
    let mut i: usize = 0;
    while i < n
        invariant
            n == s@.len(),
            i <= n,
            forall|k: int| 0 <= k < i ==> '0' <= #[trigger] s@[k] <= '9',
        decreases n - i,
    {
        let c = s.get_char(i);
        if !('0' <= c && c <= '9') {
            return false;
        }
        i = i + 1;
    }
    true
}

/// Powers of ten grow with the exponent.
proof fn lemma_pow10_monotone(a: nat, b: nat)
    requires
        a <= b,
    ensures
        spec_pow10(a) <= spec_pow10(b),
    decreases b,
{
    if a < b {
        lemma_pow10_monotone(a, (b - 1) as nat);
        lemma_pow10_positive((b - 1) as nat);
    }
}

/// Powers of ten are positive.
proof fn lemma_pow10_positive(n: nat)
    ensures
        spec_pow10(n) >= 1,
    decreases n,
{
    if n > 0 {
        lemma_pow10_positive((n - 1) as nat);
    }
}

/// The first volume entry for a mixer name, if any.
pub open spec fn spec_find_card(
    vs: Seq<(String, Option<(i64, i64, i64)>)>,
    card: Seq<char>,
) -> Option<int>
    decreases vs.len(),
{
    if vs.len() == 0 {
        None
    } else if vs[0].0@ == card {
        Some(0)
    } else {
        match spec_find_card(vs.drop_first(), card) {
            Some(j) => Some(j + 1),
            None => None,
        }
    }
}

/// The mixer name a command addresses: the configured card, or `default`.
pub open spec fn spec_card_name(card: Option<String>) -> Seq<char> {
    match card {
        Some(c) => c@,
        None => "default"@,
    }
}

/// The volume reading the model holds for a card, if the driver reported
/// one.
pub open spec fn spec_card_volumes(a: ALSASingleton, card: Option<String>) -> Option<
    (i64, i64, i64),
> {
    match spec_find_card(a.volumes@, spec_card_name(card)) {
        Some(j) => a.volumes@[j].1,
        None => None,
    }
}

/// A volume as a rounded percentage of its range, when the reading is
/// consistent: the minimum below the value, the value below the maximum.
pub open spec fn spec_volume_percent(v: i64, vmin: i64, vmax: i64) -> Option<int> {
    if vmin <= v <= vmax && vmin < vmax {
        Some(((v - vmin) * 200 + (vmax - vmin)) / (2 * (vmax - vmin)))
    } else {
        None
    }
}

/// The new volume a change request asks for: the change scaled to the
/// range, added to the old volume when relative, and clamped to the range.
pub open spec fn spec_new_volume(v: i64, vmin: i64, vmax: i64, change: VolumeChange) -> int {
    let VolumeChange::Percent(relative, milli) = change;
    let delta = if milli >= 0 {
        milli * (vmax - vmin) / 100000
    } else {
        -((-milli) * (vmax - vmin) / 100000)
    };
    let base = if relative {
        v as int
    } else {
        0int
    };
    let raw = base + delta;
    if raw < vmin {
        vmin as int
    } else if raw > vmax {
        vmax as int
    } else {
        raw
    }
}

impl ALSASingleton {
    /// An empty mixer model.
    pub fn new() -> (r: Self)
        ensures
            r.volumes@.len() == 0,
            r.old_volume is None,
            r.pending_sets@.len() == 0,
    {
        Self { volumes: Vec::new(), old_volume: None, pending_sets: Vec::new() }
    }

    /// Looks up the entry for a mixer name.
    fn find_card(&self, card: &String) -> (r: Option<usize>)
        ensures
            match r {
                Some(j) => j < self.volumes@.len() && Some(j as int) == spec_find_card(
                    self.volumes@,
                    card@,
                ),
                None => spec_find_card(self.volumes@, card@) is None,
            },
    {
        let n = self.volumes.len();
        let mut i: usize = 0;
        proof {
            assert(self.volumes@.skip(0) =~= self.volumes@);
        }
        while i < n
            invariant
                n == self.volumes@.len(),
                i <= n,
                spec_find_card(self.volumes@, card@) == match spec_find_card(
                    self.volumes@.skip(i as int),
                    card@,
                ) {
                    Some(j) => Some(j + i),
                    None => None::<int>,
                },
            decreases n - i,
        {
            proof {
                assert(self.volumes@.skip(i as int)[0] == self.volumes@[i as int]);
                assert(self.volumes@.skip(i as int).drop_first() =~= self.volumes@.skip(i + 1));
            }
            if string_eq(&self.volumes[i].0, card) {
                return Some(i);
            }
            i = i + 1;
        }
        proof {
            assert(self.volumes@.skip(n as int) =~= Seq::<
                (String, Option<(i64, i64, i64)>),
            >::empty());
        }
        None
    }

    /// The mixer name a command addresses.
    fn card_name(card: &Option<String>) -> (r: String)
        ensures
            r@ == spec_card_name(*card),
    {
        proof {
            reveal_strlit("default");
        }
        match card {
            Some(c) => c.clone(),
            None => String::from_str("default"),
        }
    }

    /// Records the volume reading the driver made for a mixer, or that the
    /// mixer was unreachable.
    pub fn report_volumes(&mut self, card: String, v: Option<(i64, i64, i64)>)
        ensures
            spec_find_card(final(self).volumes@, card@) matches Some(j) && final(self).volumes@[
                j
            ].1 == v,
            final(self).old_volume == old(self).old_volume,
            final(self).pending_sets == old(self).pending_sets,
    {
        match self.find_card(&card) {
            Some(j) => {
                let slot = &mut self.volumes[j];
                slot.1 = v;
                proof {
                    lemma_find_card_props(old(self).volumes@, card@);
                    lemma_find_card_same_names(old(self).volumes@, self.volumes@, card@);
                }
            },
            None => {
                proof {
                    lemma_find_card_push(self.volumes@, (card, v), card@);
                }
                self.volumes.push((card, v));
            },
        }
    }

    /// The volume reading held for a mixer, if any.
    pub fn get_volumes(&self, card: &Option<String>) -> (r: Option<(i64, i64, i64)>)
        ensures
            r == spec_card_volumes(*self, *card),
    {
        let name = Self::card_name(card);
        match self.find_card(&name) {
            Some(j) => self.volumes[j].1,
            None => None,
        }
    }

    /// A mixer's volume as a percentage string such as `42%`, or `ERR` when
    /// no consistent reading is held.
    pub fn get_volume_percent(&self, card: &Option<String>) -> (r: String)
        ensures
            r@ == match spec_card_volumes(*self, *card) {
                Some((v, vmin, vmax)) => match spec_volume_percent(v, vmin, vmax) {
                    Some(p) => spec_dec(p as nat).push('%'),
                    None => "ERR"@,
                },
                None => "ERR"@,
            },
    {
        match self.get_volumes(card) {
            Some((v, vmin, vmax)) => {
                if vmin <= v && v <= vmax && vmin < vmax {
                    let x = (v as i128) - (vmin as i128);
                    let d = (vmax as i128) - (vmin as i128);
                    let p = (x * 200 + d) / (2 * d);
                    proof {
                        assert(x * 200 <= d * 200) by (nonlinear_arith)
                            requires
                                0 <= x <= d,
                        ;
                        vstd::arithmetic::div_mod::lemma_multiply_divide_lt(
                            (x * 200 + d) as int,
                            (2 * d) as int,
                            101,
                        );
                        assert((2 * d) * 101 == 202 * d) by (nonlinear_arith);
                        vstd::arithmetic::div_mod::lemma_div_pos_is_pos(
                            (x * 200 + d) as int,
                            (2 * d) as int,
                        );
                    }
                    let pct = p as u64;
                    let mut out = u64_to_string(pct);
                    out.push('%');
                    out
                } else {
                    String::from_str("ERR")
                }
            },
            None => String::from_str("ERR"),
        }
    }

    /// Computes the new volume a change request asks for and queues it for
    /// the driver to apply.  Without a consistent reading nothing happens.
    pub fn set_volume_percent(&mut self, card: &Option<String>, change: &VolumeChange)
        ensures
            final(self).volumes == old(self).volumes,
            final(self).old_volume == old(self).old_volume,
            match spec_card_volumes(*old(self), *card) {
                Some((v, vmin, vmax)) => if vmin <= v <= vmax && vmin < vmax {
                    final(self).pending_sets@ == old(self).pending_sets@.push(
                        (
                            old(self).volumes@[spec_find_card(
                                old(self).volumes@,
                                spec_card_name(*card),
                            )->Some_0].0,
                            spec_new_volume(v, vmin, vmax, *change) as i64,
                        ),
                    )
                } else {
                    final(self).pending_sets == old(self).pending_sets
                },
                None => final(self).pending_sets == old(self).pending_sets,
            },
    {
        let name = Self::card_name(card);
        if let Some(j) = self.find_card(&name) {
            if let Some((v, vmin, vmax)) = self.volumes[j].1 {
                if vmin <= v && v <= vmax && vmin < vmax {
                    let VolumeChange::Percent(relative, milli) = change;
                    let d = (vmax as i128) - (vmin as i128);
                    let m128: i128 = if *milli >= 0 {
                        *milli as i128
                    } else {
                        -(*milli as i128)
                    };
                    proof {
                        assert(d <= 0xFFFF_FFFF_FFFF_FFFFi128);
                        assert(0 <= m128 * d <= 0x8000_0000_0000_0000i128
                            * 0xFFFF_FFFF_FFFF_FFFFi128) by (nonlinear_arith)
                            requires
                                0 <= d <= 0xFFFF_FFFF_FFFF_FFFFi128,
                                0 <= m128 <= 0x8000_0000_0000_0000i128,
                        ;
                    }
                    let scaled_mag = m128 * d;
                    let mag = scaled_mag / 100000;
                    let delta: i128 = if *milli >= 0 {
                        mag
                    } else {
                        -mag
                    };
                    proof {
                        vstd::arithmetic::div_mod::lemma_div_pos_is_pos(scaled_mag as int, 100000);
                        vstd::arithmetic::div_mod::lemma_div_nonincreasing(
                            scaled_mag as int,
                            100000,
                        );
                    }
                    let base: i128 = if *relative {
                        v as i128
                    } else {
                        0
                    };
                    let raw = base + delta;
                    let newvol: i64 = if raw < vmin as i128 {
                        vmin
                    } else if raw > vmax as i128 {
                        vmax
                    } else {
                        raw as i64
                    };
                    let cardname = self.volumes[j].0.clone();
                    self.pending_sets.push((cardname, newvol));
                }
            }
        }
    }

    /// The set-requests computed so far; the driver performs each and the
    /// list starts over.
    pub fn take_pending_sets(&mut self) -> (r: Vec<(String, i64)>)
        ensures
            r == old(self).pending_sets,
            final(self).pending_sets@.len() == 0,
            final(self).volumes == old(self).volumes,
            final(self).old_volume == old(self).old_volume,
    {
        let mut out: Vec<(String, i64)> = Vec::new();
        core::mem::swap(&mut out, &mut self.pending_sets);
        out
    }

    /// Whether the mixer's volume changed since this was last asked.
    pub fn has_volume_changed(&mut self, card: &Option<String>) -> (r: bool)
        ensures
            final(self).volumes == old(self).volumes,
            final(self).pending_sets == old(self).pending_sets,
            r == (match spec_card_volumes(*old(self), *card) {
                Some(t) => Some(t.0),
                None => None::<i64>,
            } != old(self).old_volume),
            final(self).old_volume == match spec_card_volumes(*old(self), *card) {
                Some(t) => Some(t.0),
                None => None::<i64>,
            },
    {
        let new_volume = match self.get_volumes(card) {
            Some((v, _, _)) => Some(v),
            None => None,
        };
        let updated = match (new_volume, self.old_volume) {
            (Some(a), Some(b)) => a != b,
            (None, None) => false,
            _ => true,
        };
        if updated {
            self.old_volume = new_volume;
        }
        updated
    }
}

/// What a found index means: it is in range and names the card.
proof fn lemma_find_card_props(vs: Seq<(String, Option<(i64, i64, i64)>)>, card: Seq<char>)
    ensures
        spec_find_card(vs, card) matches Some(j) ==> 0 <= j < vs.len() && vs[j].0@ == card,
    decreases vs.len(),
{
    if vs.len() > 0 && vs[0].0@ != card {
        lemma_find_card_props(vs.drop_first(), card);
    }
}

/// Two lists with the same card names in the same places are searched
/// alike.
proof fn lemma_find_card_same_names(
    vs1: Seq<(String, Option<(i64, i64, i64)>)>,
    vs2: Seq<(String, Option<(i64, i64, i64)>)>,
    card: Seq<char>,
)
    requires
        vs1.len() == vs2.len(),
        forall|k: int| 0 <= k < vs1.len() ==> vs1[k].0@ == #[trigger] vs2[k].0@,
    ensures
        spec_find_card(vs1, card) == spec_find_card(vs2, card),
    decreases vs1.len(),
{
    if vs1.len() > 0 {
        assert(vs1.drop_first().len() == vs2.drop_first().len());
        assert(forall|k: int|
            0 <= k < vs1.drop_first().len() ==> vs1.drop_first()[k].0@ == #[trigger] vs2
                .drop_first()[k].0@);
        lemma_find_card_same_names(vs1.drop_first(), vs2.drop_first(), card);
    }
}

/// Appending an entry for a card not yet present makes it findable at the
/// end.
proof fn lemma_find_card_push(
    vs: Seq<(String, Option<(i64, i64, i64)>)>,
    entry: (String, Option<(i64, i64, i64)>),
    card: Seq<char>,
)
    requires
        spec_find_card(vs, card) is None,
        entry.0@ == card,
    ensures
        spec_find_card(vs.push(entry), card) == Some(vs.len() as int),
    decreases vs.len(),
{
    if vs.len() == 0 {
        assert(vs.push(entry)[0] == entry);
        assert(vs.push(entry).drop_first() =~= Seq::<
            (String, Option<(i64, i64, i64)>),
        >::empty());
    } else {
        assert(vs.push(entry)[0] == vs[0]);
        assert(vs.push(entry).drop_first() =~= vs.drop_first().push(entry));
        lemma_find_card_push(vs.drop_first(), entry, card);
    }
}

} // verus!
