//! The persisted form of a configuration snapshot, and the law that a
//! snapshot written and read back is field-for-field the one written.
//!
//! The format is one flat stream of characters: every number as exactly
//! twenty decimal digits, every string as its character count followed by
//! its characters raw, the strategy and the dynamic-timeout switch as one
//! character each, and the skip list as its length followed by its entries.
//! Fixed widths leave nothing to escape, so the encoding of every snapshot
//! decodes to exactly that snapshot.

use vstd::prelude::*;
use vstd::arithmetic::div_mod::{
    lemma_basic_div, lemma_div_denominator, lemma_div_multiples_vanish, lemma_fundamental_div_mod,
    lemma_mod_division_less_than_divisor,
};
use vstd::string::StrSliceExecFns;

use crate::config::{ConfigView, NotificationStrategy, NotifierConfig};
use crate::numeric::{all_dec_digits, dec_digit_val, dec_val, is_dec_digit};

verus! {

/// Ten to the power `e`.
pub open spec fn pow10(e: nat) -> int
    decreases e,
{
    if e == 0 {
        1
    } else {
        10 * pow10((e - 1) as nat)
    }
}

/// The character that writes the digit `d`.
pub open spec fn digit_char(d: int) -> char {
    ((48 + d) as u8) as char
}

/// `n` written as exactly twenty decimal digits, highest first.
pub open spec fn dec20(n: u64) -> Seq<char> {
    Seq::new(20, |i: int| digit_char((n as int / pow10((19 - i) as nat)) % 10))
}

/// The character that writes the dynamic-timeout switch.
pub open spec fn bool_char(b: bool) -> char {
    if b {
        '1'
    } else {
        '0'
    }
}

/// The character that writes the strategy.
pub open spec fn strategy_char(s: NotificationStrategy) -> char {
    match s {
        NotificationStrategy::Listener => 'l',
        NotificationStrategy::Polling => 'p',
    }
}

/// A string written as its character count and then its characters raw.
pub open spec fn str_enc(v: Seq<char>) -> Seq<char> {
    dec20(v.len() as u64) + v
}

/// The skip list written entry by entry.
pub open spec fn apps_enc(apps: Seq<Seq<char>>) -> Seq<char>
    decreases apps.len(),
{
    if apps.len() == 0 {
        Seq::empty()
    } else {
        str_enc(apps[0]) + apps_enc(apps.drop_first())
    }
}

/// The persisted form of a whole snapshot.
pub open spec fn spec_encode_config(c: ConfigView) -> Seq<char> {
    dec20(c.port as u64) + dec20(c.polling_rate) + seq![bool_char(c.dynamic_timeout)] + dec20(
        c.default_timeout,
    ) + dec20(c.reading_speed) + dec20(c.min_timeout) + dec20(c.max_timeout) + seq![
        strategy_char(c.notification_strategy),
    ] + str_enc(c.host) + dec20(c.skipped_apps.len() as u64) + apps_enc(c.skipped_apps)
}

/// Reading one twenty-digit number off the front of `s`: its value and the
/// rest, if the digits are there and the value fits.
pub open spec fn spec_decode_u64(s: Seq<char>) -> Option<(u64, Seq<char>)> {
    if s.len() >= 20 && all_dec_digits(s.take(20)) && dec_val(s.take(20)) <= u64::MAX {
        Some((dec_val(s.take(20)) as u64, s.skip(20)))
    } else {
        None
    }
}

/// Reading the dynamic-timeout switch off the front of `s`.
pub open spec fn spec_decode_bool(s: Seq<char>) -> Option<(bool, Seq<char>)> {
    if s.len() >= 1 && (s[0] == '1' || s[0] == '0') {
        Some(((s[0] == '1'), s.skip(1)))
    } else {
        None
    }
}

/// Reading the strategy off the front of `s`.
pub open spec fn spec_decode_strategy(s: Seq<char>) -> Option<(NotificationStrategy, Seq<char>)> {
    if s.len() >= 1 && s[0] == 'l' {
        Some((NotificationStrategy::Listener, s.skip(1)))
    } else if s.len() >= 1 && s[0] == 'p' {
        Some((NotificationStrategy::Polling, s.skip(1)))
    } else {
        None
    }
}

/// Reading one counted string off the front of `s`.
pub open spec fn spec_decode_str(s: Seq<char>) -> Option<(Seq<char>, Seq<char>)> {
    match spec_decode_u64(s) {
        Some((n, r)) => if r.len() >= n {
            Some((r.take(n as int), r.skip(n as int)))
        } else {
            None
        },
        None => None,
    }
}

/// Reading `k` counted strings off the front of `s`.
pub open spec fn spec_decode_apps(s: Seq<char>, k: nat) -> Option<(Seq<Seq<char>>, Seq<char>)>
    decreases k,
{
    if k == 0 {
        Some((Seq::empty(), s))
    } else {
        match spec_decode_str(s) {
            Some((v, r)) => match spec_decode_apps(r, (k - 1) as nat) {
                Some((vs, r2)) => Some((seq![v] + vs, r2)),
                None => None,
            },
            None => None,
        }
    }
}

/// Reading a whole snapshot: every field in order, nothing left over.
pub open spec fn spec_decode_config(s: Seq<char>) -> Option<ConfigView> {
    match spec_decode_u64(s) {
        None => None,
        Some((port, r1)) => if port > usize::MAX as u64 {
            None
        } else {
            match spec_decode_u64(r1) {
                None => None,
                Some((polling, r2)) => match spec_decode_bool(r2) {
                    None => None,
                    Some((dynamic, r3)) => match spec_decode_u64(r3) {
                        None => None,
                        Some((default_t, r4)) => match spec_decode_u64(r4) {
                            None => None,
                            Some((speed, r5)) => match spec_decode_u64(r5) {
                                None => None,
                                Some((min_t, r6)) => match spec_decode_u64(r6) {
                                    None => None,
                                    Some((max_t, r7)) => match spec_decode_strategy(r7) {
                                        None => None,
                                        Some((strat, r8)) => match spec_decode_str(r8) {
                                            None => None,
                                            Some((host, r9)) => match spec_decode_u64(r9) {
                                                None => None,
                                                Some((count, r10)) => match spec_decode_apps(
                                                    r10,
                                                    count as nat,
                                                ) {
                                                    None => None,
                                                    Some((apps, r11)) => if r11.len() == 0 {
                                                        Some(
                                                            ConfigView {
                                                                port: port as usize,
                                                                host,
                                                                notification_strategy: strat,
                                                                polling_rate: polling,
                                                                dynamic_timeout: dynamic,
                                                                default_timeout: default_t,
                                                                reading_speed: speed,
                                                                min_timeout: min_t,
                                                                max_timeout: max_t,
                                                                skipped_apps: apps,
                                                            },
                                                        )
                                                    } else {
                                                        None
                                                    },
                                                },
                                            },
                                        },
                                    },
                                },
                            },
                        },
                    },
                },
            }
        },
    }
}

impl ConfigView {
    /// Whether every string of the snapshot is short enough to count.  Every
    /// snapshot held in memory is: a vector or string is never longer than
    /// the address space.
    pub open spec fn fits(self) -> bool {
        &&& self.host.len() <= u64::MAX
        &&& self.skipped_apps.len() <= u64::MAX
        &&& forall|i: int|
            0 <= i < self.skipped_apps.len() ==> #[trigger] self.skipped_apps[i].len() <= u64::MAX
    }
}

/// Ten to any power is positive.
pub proof fn lemma_pow10_pos(e: nat)
    ensures
        pow10(e) > 0,
    decreases e,
{
    if e > 0 {
        lemma_pow10_pos((e - 1) as nat);
    }
}

/// Ten to a larger power is no smaller.
pub proof fn lemma_pow10_increases(e1: nat, e2: nat)
    requires
        e1 <= e2,
    ensures
        pow10(e1) <= pow10(e2),
    decreases e2 - e1,
{
    if e1 < e2 {
        lemma_pow10_increases(e1, (e2 - 1) as nat);
        lemma_pow10_pos((e2 - 1) as nat);
    }
}

/// The twenty digits of `n` are digits and write `n` back.
pub proof fn lemma_dec20_prefix(n: u64, j: int)
    requires
        0 <= j <= 20,
    ensures
        all_dec_digits(dec20(n).take(j)),
        dec_val(dec20(n).take(j)) == n as int / pow10((20 - j) as nat),
    decreases j,
{
    if j == 0 {
        assert(pow10(20) == 100000000000000000000) by {
            reveal_with_fuel(pow10, 21);
        };
        lemma_basic_div(n as int, pow10(20));
    } else {
        lemma_dec20_prefix(n, j - 1);
        let s = dec20(n);
        let m = n as int / pow10((20 - j) as nat);
        lemma_pow10_pos((20 - j) as nat);
        assert(s.take(j).drop_last() =~= s.take(j - 1));
        assert(s.take(j).last() == s[j - 1]);
        assert(s[j - 1] == digit_char(m % 10));
        lemma_mod_division_less_than_divisor(m, 10);
        assert(m >= 0) by {
            lemma_pow10_pos((20 - j) as nat);
        };
        assert(is_dec_digit(digit_char(m % 10)));
        assert(dec_digit_val(digit_char(m % 10)) == m % 10);
        // the shorter prefix writes m / 10
        assert(pow10((21 - j) as nat) == pow10((20 - j) as nat) * 10);
        lemma_div_denominator(n as int, pow10((20 - j) as nat), 10);
        assert(n as int / pow10((21 - j) as nat) == m / 10);
        lemma_fundamental_div_mod(m, 10);
        assert(dec_val(s.take(j)) == (m / 10) * 10 + m % 10);
    }
}

/// The twenty-digit form of `n` is all digits and writes `n`.
pub proof fn lemma_dec20_val(n: u64)
    ensures
        all_dec_digits(dec20(n)),
        dec_val(dec20(n)) == n,
{
    lemma_dec20_prefix(n, 20);
    assert(dec20(n).take(20) =~= dec20(n));
    assert(pow10(0) == 1);
    assert(n as int / 1 == n) by {
        lemma_fundamental_div_mod(n as int, 1);
    };
}

/// Reading a number off its own encoding yields the number and the rest.
pub proof fn lemma_decode_u64_enc(n: u64, tail: Seq<char>)
    ensures
        spec_decode_u64(dec20(n) + tail) == Some((n, tail)),
{
    let s = dec20(n) + tail;
    lemma_dec20_val(n);
    assert(s.take(20) =~= dec20(n));
    assert(s.skip(20) =~= tail);
}

/// Reading a counted string off its own encoding yields the string and the
/// rest.
pub proof fn lemma_decode_str_enc(v: Seq<char>, tail: Seq<char>)
    requires
        v.len() <= u64::MAX,
    ensures
        spec_decode_str(str_enc(v) + tail) == Some((v, tail)),
{
    let n = v.len() as u64;
    assert(str_enc(v) + tail =~= dec20(n) + (v + tail));
    lemma_decode_u64_enc(n, v + tail);
    assert((v + tail).take(n as int) =~= v);
    assert((v + tail).skip(n as int) =~= tail);
}

/// Reading a skip list off its own encoding yields the list and the rest.
pub proof fn lemma_decode_apps_enc(apps: Seq<Seq<char>>, tail: Seq<char>)
    requires
        forall|i: int| 0 <= i < apps.len() ==> #[trigger] apps[i].len() <= u64::MAX,
    ensures
        spec_decode_apps(apps_enc(apps) + tail, apps.len()) == Some((apps, tail)),
    decreases apps.len(),
{
    if apps.len() == 0 {
        assert(apps_enc(apps) + tail =~= tail);
        assert(apps =~= Seq::<Seq<char>>::empty());
    } else {
        let rest = apps.drop_first();
        assert(apps_enc(apps) + tail =~= str_enc(apps[0]) + (apps_enc(rest) + tail));
        lemma_decode_str_enc(apps[0], apps_enc(rest) + tail);
        lemma_decode_apps_enc(rest, tail);
        assert(seq![apps[0]] + rest =~= apps);
    }
}

/// Law: a snapshot persisted and read back is field-for-field the snapshot
/// that was persisted.
pub proof fn lemma_config_round_trip(c: ConfigView)
    requires
        c.fits(),
    ensures
        spec_decode_config(spec_encode_config(c)) == Some(c),
{
    let a1 = dec20(c.port as u64);
    let a2 = dec20(c.polling_rate);
    let a3 = seq![bool_char(c.dynamic_timeout)];
    let a4 = dec20(c.default_timeout);
    let a5 = dec20(c.reading_speed);
    let a6 = dec20(c.min_timeout);
    let a7 = dec20(c.max_timeout);
    let a8 = seq![strategy_char(c.notification_strategy)];
    let a9 = str_enc(c.host);
    let a10 = dec20(c.skipped_apps.len() as u64);
    let a11 = apps_enc(c.skipped_apps);
    let t11 = a11;
    let t10 = a10 + t11;
    let t9 = a9 + t10;
    let t8 = a8 + t9;
    let t7 = a7 + t8;
    let t6 = a6 + t7;
    let t5 = a5 + t6;
    let t4 = a4 + t5;
    let t3 = a3 + t4;
    let t2 = a2 + t3;
    let s = spec_encode_config(c);
    assert(s =~= a1 + t2);
    lemma_decode_u64_enc(c.port as u64, t2);
    lemma_decode_u64_enc(c.polling_rate, t3);
    assert(spec_decode_bool(t3) == Some((c.dynamic_timeout, t4))) by {
        assert(t3[0] == bool_char(c.dynamic_timeout));
        assert(t3.skip(1) =~= t4);
    };
    lemma_decode_u64_enc(c.default_timeout, t5);
    lemma_decode_u64_enc(c.reading_speed, t6);
    lemma_decode_u64_enc(c.min_timeout, t7);
    lemma_decode_u64_enc(c.max_timeout, t8);
    assert(spec_decode_strategy(t8) == Some((c.notification_strategy, t9))) by {
        assert(t8[0] == strategy_char(c.notification_strategy));
        assert(t8.skip(1) =~= t9);
        assert('l' != 'p');
    };
    lemma_decode_str_enc(c.host, t10);
    lemma_decode_u64_enc(c.skipped_apps.len() as u64, t11);
    lemma_decode_apps_enc(c.skipped_apps, Seq::empty());
    assert(a11 + Seq::<char>::empty() =~= a11);
    assert(spec_decode_config(s) == Some(c)) by {
        assert((c.port as u64) as usize == c.port);
    };
}

/// Extending the skip list by one entry appends that entry's encoding.
proof fn lemma_apps_enc_snoc(apps: Seq<Seq<char>>, k: int)
    requires
        0 <= k < apps.len(),
    ensures
        apps_enc(apps.take(k + 1)) == apps_enc(apps.take(k)) + str_enc(apps[k]),
    decreases k,
{
    if k == 0 {
        assert(apps.take(1).drop_first() =~= Seq::<Seq<char>>::empty());
        assert(apps.take(0) =~= Seq::<Seq<char>>::empty());
        assert(apps.take(1)[0] == apps[0]);
        assert(apps_enc(apps.take(1)) =~= apps_enc(apps.take(0)) + str_enc(apps[0]));
    } else {
        let d = apps.drop_first();
        lemma_apps_enc_snoc(d, k - 1);
        assert(apps.take(k + 1).drop_first() =~= d.take(k));
        assert(apps.take(k).drop_first() =~= d.take(k - 1));
        assert(apps.take(k + 1)[0] == apps[0]);
        assert(apps.take(k)[0] == apps[0]);
        assert(d[k - 1] == apps[k]);
        assert(str_enc(apps[0]) + (apps_enc(d.take(k - 1)) + str_enc(apps[k])) =~= (str_enc(
            apps[0],
        ) + apps_enc(d.take(k - 1))) + str_enc(apps[k]));
    }
}

/// Append one character.
fn push_char(out: &mut Vec<char>, ch: char)
    ensures
        final(out)@ == old(out)@ + seq![ch],
{
    out.push(ch);
    proof {
        assert(old(out)@.push(ch) =~= old(out)@ + seq![ch]);
    }
}

/// Append the twenty-digit form of `n`.
fn encode_u64_into(out: &mut Vec<char>, n: u64)
    ensures
        final(out)@ == old(out)@ + dec20(n),
{
    let mut p: u64 = 10_000_000_000_000_000_000;
    proof {
        assert(pow10(19) == 10000000000000000000) by {
            reveal_with_fuel(pow10, 20);
        };
    }
    let mut j: usize = 0;
    while j < 20
        invariant
            0 <= j <= 20,
            j < 20 ==> p as int == pow10((19 - j) as nat),
            out@ == old(out)@ + dec20(n).take(j as int),
        decreases 20 - j,
    {
        proof {
            lemma_pow10_pos((19 - j) as nat);
        }
        let d: u64 = (n / p) % 10;
        let c: char = (48 + d as u8) as char;
        out.push(c);
        proof {
            assert(dec20(n)[j as int] == digit_char((n as int / pow10((19 - j) as nat)) % 10));
            assert(c == digit_char((n as int / pow10((19 - j) as nat)) % 10));
            assert((old(out)@ + dec20(n).take(j as int)).push(c) =~= old(out)@ + dec20(n).take(
                j + 1,
            ));
        }
        if j < 19 {
            proof {
                assert(pow10((19 - j) as nat) == 10 * pow10((18 - j) as nat));
                lemma_div_multiples_vanish(pow10((18 - j) as nat), 10);
            }
            p = p / 10;
        }
        j += 1;
    }
    proof {
        assert(dec20(n).take(20) =~= dec20(n));
    }
}

/// Append the counted form of `s`.
fn encode_str_into(out: &mut Vec<char>, s: &str)
    ensures
        final(out)@ == old(out)@ + str_enc(s@),
{
    let n = s.unicode_len();
    encode_u64_into(out, n as u64);
    let mut i: usize = 0;
    while i < n
        invariant
            0 <= i <= n,
            n == s@.len(),
            out@ == old(out)@ + dec20(s@.len() as u64) + s@.take(i as int),
        decreases n - i,
    {
        let c = s.get_char(i);
        out.push(c);
        proof {
            assert((old(out)@ + dec20(s@.len() as u64) + s@.take(i as int)).push(c) =~= old(out)@
                + dec20(s@.len() as u64) + s@.take(i + 1));
        }
        i += 1;
    }
    proof {
        assert(s@.take(n as int) =~= s@);
        assert(old(out)@ + dec20(s@.len() as u64) + s@ =~= old(out)@ + str_enc(s@));
    }
}

/// Relies on `String`'s `FromIterator` over `char`: collecting characters
/// yields the string of exactly those characters, in order.
#[verifier::external_body]
fn string_from_chars(v: &Vec<char>) -> (r: String)
    ensures
        r@ == v@,
{
    v.iter().collect()
}

/// The characters of `s`, as a vector.
fn chars_vec(s: &str) -> (r: Vec<char>)
    ensures
        r@ == s@,
{
    let n = s.unicode_len();
    let mut r: Vec<char> = Vec::new();
    let mut i: usize = 0;
    while i < n
        invariant
            0 <= i <= n,
            n == s@.len(),
            r@ == s@.take(i as int),
        decreases n - i,
    {
        r.push(s.get_char(i));
        proof {
            assert(s@.take(i as int).push(s@[i as int]) =~= s@.take(i + 1));
        }
        i += 1;
    }
    proof {
        assert(s@.take(n as int) =~= s@);
    }
    r
}

/// Write one snapshot in its persisted form.
pub fn encode_config(c: &NotifierConfig) -> (r: String)
    ensures
        r@ == spec_encode_config(c@),
{
    let mut out: Vec<char> = Vec::new();
    encode_u64_into(&mut out, c.port as u64);
    encode_u64_into(&mut out, c.polling_rate);
    push_char(&mut out, if c.dynamic_timeout { '1' } else { '0' });
    encode_u64_into(&mut out, c.default_timeout);
    encode_u64_into(&mut out, c.reading_speed);
    encode_u64_into(&mut out, c.min_timeout);
    encode_u64_into(&mut out, c.max_timeout);
    match c.notification_strategy {
        NotificationStrategy::Listener => push_char(&mut out, 'l'),
        NotificationStrategy::Polling => push_char(&mut out, 'p'),
    }
    encode_str_into(&mut out, c.host.as_str());
    encode_u64_into(&mut out, c.skipped_apps.len() as u64);
    let ghost base = out@;
    let mut i: usize = 0;
    while i < c.skipped_apps.len()
        invariant
            0 <= i <= c.skipped_apps@.len(),
            base + apps_enc(c@.skipped_apps.take(i as int)) == out@,
            base == spec_encode_config(c@).take(base.len() as int),
            base + apps_enc(c@.skipped_apps) == spec_encode_config(c@),
        decreases c.skipped_apps@.len() - i,
    {
        let app = &c.skipped_apps[i];
        encode_str_into(&mut out, app.as_str());
        proof {
            lemma_apps_enc_snoc(c@.skipped_apps, i as int);
            assert(c@.skipped_apps[i as int] == app@);
        }
        i += 1;
    }
    proof {
        assert(c@.skipped_apps.take(c.skipped_apps@.len() as int) =~= c@.skipped_apps);
    }
    string_from_chars(&out)
}

/// Read one twenty-digit number at position `i`.
fn decode_u64_at(s: &Vec<char>, i: usize) -> (r: Option<(u64, usize)>)
    requires
        i <= s@.len(),
    ensures
        match r {
            Some(p) => spec_decode_u64(s@.skip(i as int)) == Some(
                (p.0, s@.skip(p.1 as int)),
            ) && i <= p.1 <= s@.len(),
            None => spec_decode_u64(s@.skip(i as int)) is None,
        },
{
    let ghost sub = s@.skip(i as int);
    let slen: usize = s.len();
    if slen - i < 20 {
        return None;
    }
    let mut acc: u128 = 0;
    let mut k: usize = 0;
    while k < 20
        invariant
            0 <= k <= 20,
            slen == s@.len(),
            i + 20 <= slen,
            sub == s@.skip(i as int),
            all_dec_digits(sub.take(k as int)),
            acc == dec_val(sub.take(k as int)),
            acc < pow10(k as nat),
        decreases 20 - k,
    {
        let c = s[i + k];
        proof {
            assert(sub[k as int] == s@[i + k]);
        }
        let d8: u8 = match crate::numeric::digit_of(c) {
            Some(x) => x,
            None => {
                proof {
                    assert(!is_dec_digit(sub.take(20)[k as int]));
                }
                return None;
            },
        };
        let d: u128 = d8 as u128;
        proof {
            assert(sub.take(k + 1).drop_last() =~= sub.take(k as int));
            assert(sub.take(k + 1).last() == sub[k as int]);
            assert(is_dec_digit(sub[k as int]));
            assert(dec_val(sub.take(k + 1)) == dec_val(sub.take(k as int)) * 10 + dec_digit_val(
                sub[k as int],
            ));
            assert(forall|q: int| 0 <= q < k ==> sub.take(k + 1)[q] == sub.take(k as int)[q]);
            assert(all_dec_digits(sub.take(k + 1)));
            lemma_pow10_increases((k + 1) as nat, 20);
            assert(pow10(20) == 100000000000000000000) by {
                reveal_with_fuel(pow10, 21);
            };
            assert(pow10((k + 1) as nat) == 10 * pow10(k as nat));
        }
        acc = acc * 10 + d;
        k += 1;
    }
    if acc > 0xFFFF_FFFF_FFFF_FFFF_u128 {
        return None;
    }
    proof {
        assert(s@.skip((i + 20) as int) =~= sub.skip(20));
    }
    Some((acc as u64, i + 20))
}

/// Read the dynamic-timeout switch at position `i`.
fn decode_bool_at(s: &Vec<char>, i: usize) -> (r: Option<(bool, usize)>)
    requires
        i <= s@.len(),
    ensures
        match r {
            Some(p) => spec_decode_bool(s@.skip(i as int)) == Some(
                (p.0, s@.skip(p.1 as int)),
            ) && i <= p.1 <= s@.len(),
            None => spec_decode_bool(s@.skip(i as int)) is None,
        },
{
    if i < s.len() {
        let c = s[i];
        proof {
            assert(s@.skip(i as int)[0] == s@[i as int]);
            assert(s@.skip(i as int).skip(1) =~= s@.skip(i + 1));
        }
        if c == '1' {
            Some((true, i + 1))
        } else if c == '0' {
            Some((false, i + 1))
        } else {
            None
        }
    } else {
        None
    }
}

/// Read the strategy at position `i`.
fn decode_strategy_at(s: &Vec<char>, i: usize) -> (r: Option<(NotificationStrategy, usize)>)
    requires
        i <= s@.len(),
    ensures
        match r {
            Some(p) => spec_decode_strategy(s@.skip(i as int)) == Some(
                (p.0, s@.skip(p.1 as int)),
            ) && i <= p.1 <= s@.len(),
            None => spec_decode_strategy(s@.skip(i as int)) is None,
        },
{
    if i < s.len() {
        let c = s[i];
        proof {
            assert(s@.skip(i as int)[0] == s@[i as int]);
            assert(s@.skip(i as int).skip(1) =~= s@.skip(i + 1));
        }
        if c == 'l' {
            Some((NotificationStrategy::Listener, i + 1))
        } else if c == 'p' {
            Some((NotificationStrategy::Polling, i + 1))
        } else {
            None
        }
    } else {
        None
    }
}

/// Read one counted string at position `i`.
fn decode_str_at(s: &Vec<char>, i: usize) -> (r: Option<(String, usize)>)
    requires
        i <= s@.len(),
    ensures
        match r {
            Some(p) => spec_decode_str(s@.skip(i as int)) == Some(
                (p.0@, s@.skip(p.1 as int)),
            ) && i <= p.1 <= s@.len(),
            None => spec_decode_str(s@.skip(i as int)) is None,
        },
{
    let (n, j) = match decode_u64_at(s, i) {
        Some(x) => x,
        None => {
            return None;
        },
    };
    let rem: usize = s.len() - j;
    if n > rem as u64 {
        return None;
    }
    let m = n as usize;
    let slen: usize = s.len();
    let mut buf: Vec<char> = Vec::new();
    let mut k: usize = 0;
    while k < m
        invariant
            0 <= k <= m,
            slen == s@.len(),
            j + m <= slen,
            buf@ == s@.subrange(j as int, j + k as int),
        decreases m - k,
    {
        buf.push(s[j + k]);
        proof {
            assert(s@.subrange(j as int, j + k as int).push(s@[j + k]) =~= s@.subrange(
                j as int,
                j + k + 1,
            ));
        }
        k += 1;
    }
    let v = string_from_chars(&buf);
    proof {
        assert(s@.subrange(j as int, (j + m) as int) =~= s@.skip(j as int).take(n as int));
        assert(s@.skip((j + m) as int) =~= s@.skip(j as int).skip(n as int));
    }
    Some((v, j + m))
}

/// Read a whole snapshot back from its persisted form: the snapshot if `s`
/// is exactly the encoding of one, nothing otherwise.
#[verifier::rlimit(50)]
#[verifier::loop_isolation(false)]
pub fn decode_config(s: &str) -> (r: Option<NotifierConfig>)
    ensures
        match r {
            Some(c) => spec_decode_config(s@) == Some(c@),
            None => spec_decode_config(s@) is None,
        },
{
    let v = chars_vec(s);
    proof {
        assert(v@.skip(0) =~= s@);
    }
    let (port64, i1) = match decode_u64_at(&v, 0) {
        Some(x) => x,
        None => {
            return None;
        },
    };
    if port64 > usize::MAX as u64 {
        return None;
    }
    let (polling, i2) = match decode_u64_at(&v, i1) {
        Some(x) => x,
        None => {
            return None;
        },
    };
    let (dynamic, i3) = match decode_bool_at(&v, i2) {
        Some(x) => x,
        None => {
            return None;
        },
    };
    let (default_t, i4) = match decode_u64_at(&v, i3) {
        Some(x) => x,
        None => {
            return None;
        },
    };
    let (speed, i5) = match decode_u64_at(&v, i4) {
        Some(x) => x,
        None => {
            return None;
        },
    };
    let (min_t, i6) = match decode_u64_at(&v, i5) {
        Some(x) => x,
        None => {
            return None;
        },
    };
    let (max_t, i7) = match decode_u64_at(&v, i6) {
        Some(x) => x,
        None => {
            return None;
        },
    };
    let (strat, i8) = match decode_strategy_at(&v, i7) {
        Some(x) => x,
        None => {
            return None;
        },
    };
    let (host, i9) = match decode_str_at(&v, i8) {
        Some(x) => x,
        None => {
            return None;
        },
    };
    let (count, i10) = match decode_u64_at(&v, i9) {
        Some(x) => x,
        None => {
            return None;
        },
    };
    let mut apps: Vec<String> = Vec::new();
    proof {
        assert(apps@.map_values(|x: String| x@) =~= Seq::<Seq<char>>::empty());
        if let Some(p) = spec_decode_apps(v@.skip(i10 as int), count as nat) {
            assert(Seq::<Seq<char>>::empty() + p.0 =~= p.0);
        }
    }
    let mut cur: usize = i10;
    let mut k: u64 = 0;
    while k < count
        invariant
            0 <= k <= count,
            cur <= v@.len(),
            match spec_decode_apps(v@.skip(cur as int), (count - k) as nat) {
                Some(p) => spec_decode_apps(v@.skip(i10 as int), count as nat) == Some(
                    (apps@.map_values(|x: String| x@) + p.0, p.1),
                ),
                None => spec_decode_apps(v@.skip(i10 as int), count as nat) is None,
            },
        decreases count - k,
    {
        let ghost before = apps@.map_values(|x: String| x@);
        let (a, nxt) = match decode_str_at(&v, cur) {
            Some(x) => x,
            None => {
                proof {
                    assert((count - k) as nat != 0);
                    assert(spec_decode_apps(v@.skip(cur as int), (count - k) as nat) is None);
                }
                return None;
            },
        };
        apps.push(a);
        proof {
            assert(apps@.map_values(|x: String| x@) =~= before.push(a@));
            if let Some(p) = spec_decode_apps(v@.skip(nxt as int), (count - k - 1) as nat) {
                assert(before + (seq![a@] + p.0) =~= before.push(a@) + p.0);
            }
        }
        cur = nxt;
        k += 1;
    }
    proof {
        assert(apps@.map_values(|x: String| x@) + Seq::<Seq<char>>::empty() =~= apps@.map_values(
            |x: String| x@,
        ));
        assert(spec_decode_apps(v@.skip(cur as int), (count - count) as nat) == Some(
            (Seq::<Seq<char>>::empty(), v@.skip(cur as int)),
        ));
        assert(spec_decode_apps(v@.skip(i10 as int), count as nat) == Some(
            (apps@.map_values(|x: String| x@), v@.skip(cur as int)),
        ));
    }
    if cur != v.len() {
        proof {
            assert(v@.skip(cur as int).len() > 0);
        }
        return None;
    }
    let cfg = NotifierConfig {
        port: port64 as usize,
        host,
        notification_strategy: strat,
        polling_rate: polling,
        dynamic_timeout: dynamic,
        default_timeout: default_t,
        reading_speed: speed,
        min_timeout: min_t,
        max_timeout: max_t,
        skipped_apps: apps,
    };
    proof {
        assert(v@.skip(cur as int).len() == 0);
        if let Some(c0) = spec_decode_config(s@) {
            assert(cfg@ =~= c0);
        }
    }
    Some(cfg)
}

} // verus!
