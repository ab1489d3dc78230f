use vstd::prelude::*;

use super::{InterpretItem, InterpretResult, ItemView};
use crate::text::{
    chars_of, dec, dec_digit, dec_digit_char, dec_string, hex2, push_char, push_dec, push_hex2,
    push_str, string_from_chars, trim, trim_of,
};

verus! {

/// Interprets CSS-style color codes.
pub struct ColorInterpreter;

/// What `str::to_lowercase` makes of a string.
pub uninterp spec fn lower_of(s: Seq<char>) -> Seq<char>;

/// Relies on `str::to_lowercase`: the result depends on the characters alone.
#[verifier::external_body]
fn lowercase(s: &str) -> (r: String)
    ensures
        r@ == lower_of(s@),
{
    s.to_lowercase()
}

/// The value of a hexadecimal digit, either case.
pub open spec fn hex_val(c: char) -> Option<nat> {
    if '0' <= c <= '9' {
        Some((c as int - '0' as int) as nat)
    } else if 'a' <= c <= 'f' {
        Some((c as int - 'a' as int + 10) as nat)
    } else if 'A' <= c <= 'F' {
        Some((c as int - 'A' as int + 10) as nat)
    } else {
        None
    }
}

pub open spec fn all_hex(h: Seq<char>) -> bool {
    forall|i: int| 0 <= i < h.len() ==> (#[trigger] hex_val(h[i])) is Some
}

/// A short-form channel: one digit, repeated (`f` is `ff`).
pub open spec fn nibble(c: char) -> u8 {
    (hex_val(c)->0 * 17) as u8
}

/// A long-form channel: two digits.
pub open spec fn pair(hi: char, lo: char) -> u8 {
    (hex_val(hi)->0 * 16 + hex_val(lo)->0) as u8
}

/// The color that the digits after `#` give: three, four, six or eight
/// hexadecimal digits; alpha is opaque where it is not given.
pub open spec fn hex_color(h: Seq<char>) -> Option<(u8, u8, u8, u8)> {
    if !all_hex(h) {
        None
    } else if h.len() == 3 {
        Some((nibble(h[0]), nibble(h[1]), nibble(h[2]), 255))
    } else if h.len() == 4 {
        Some((nibble(h[0]), nibble(h[1]), nibble(h[2]), nibble(h[3])))
    } else if h.len() == 6 {
        Some((pair(h[0], h[1]), pair(h[2], h[3]), pair(h[4], h[5]), 255))
    } else if h.len() == 8 {
        Some((pair(h[0], h[1]), pair(h[2], h[3]), pair(h[4], h[5]), pair(h[6], h[7])))
    } else {
        None
    }
}

/// The pieces of `s` between commas, in order.
pub open spec fn split_commas(s: Seq<char>) -> Seq<Seq<char>>
    decreases s.len(),
{
    if s.len() == 0 {
        seq![Seq::empty()]
    } else {
        let rest = split_commas(s.drop_last());
        if s.last() == ',' {
            rest.push(Seq::empty())
        } else {
            rest.update(rest.len() - 1, rest.last().push(s.last()))
        }
    }
}

pub open spec fn digit_value(c: char) -> nat {
    (c as int - '0' as int) as nat
}

pub open spec fn is_digit(c: char) -> bool {
    '0' <= c <= '9'
}

pub open spec fn all_digits(s: Seq<char>) -> bool {
    forall|i: int| 0 <= i < s.len() ==> #[trigger] is_digit(s[i])
}

/// The number that a run of decimal digits writes.
pub open spec fn digits_value(s: Seq<char>) -> nat
    decreases s.len(),
{
    if s.len() == 0 {
        0
    } else {
        digits_value(s.drop_last()) * 10 + digit_value(s.last())
    }
}

/// A channel value: an optional `+` and decimal digits, at most 255.
pub open spec fn channel_value(s: Seq<char>) -> Option<u8> {
    let d = if s.len() > 0 && s[0] == '+' { s.drop_first() } else { s };
    if d.len() > 0 && all_digits(d) && digits_value(d) <= 255 {
        Some(digits_value(d) as u8)
    } else {
        None
    }
}

/// How many fractional digits of an alpha value count.
pub const ALPHA_DIGITS: usize = 15;

pub open spec fn pow10(n: nat) -> nat
    decreases n,
{
    if n == 0 {
        1
    } else {
        10 * pow10((n - 1) as nat)
    }
}

/// `round(255 * 0.f)` with halves rounded up, from the first fifteen
/// fractional digits `f`.
pub open spec fn fraction_byte(f: Seq<char>) -> u8 {
    let g = if f.len() > 15 { f.take(15) } else { f };
    ((510 * digits_value(g) + pow10(g.len())) / (2 * pow10(g.len()))) as u8
}

/// The text of an alpha value without its sign.
pub open spec fn unsigned_part(s: Seq<char>) -> Seq<char> {
    if s.len() > 0 && (s[0] == '-' || s[0] == '+') {
        s.drop_first()
    } else {
        s
    }
}

/// `u` is digits, a point at `p`, and digits.
pub open spec fn point_at(u: Seq<char>, p: int) -> bool {
    &&& 0 <= p < u.len()
    &&& u[p] == '.'
    &&& all_digits(u.take(p))
    &&& all_digits(u.skip(p + 1))
}

/// The whole and fractional digits of an alpha value, where it is written
/// as digits with at most one point and at least one digit.
pub open spec fn decimal_parts(u: Seq<char>) -> Option<(Seq<char>, Seq<char>)> {
    if all_digits(u) && u.len() > 0 {
        Some((u, Seq::empty()))
    } else if u.len() >= 2 && exists|p: int| point_at(u, p) {
        let p = choose|p: int| point_at(u, p);
        Some((u.take(p), u.skip(p + 1)))
    } else {
        None
    }
}

pub open spec fn has_nonzero(s: Seq<char>) -> bool {
    exists|i: int| 0 <= i < s.len() && s[i] != '0'
}

/// Whole digits that write the number 1: zeros, then a final `1`.
pub open spec fn is_one(ip: Seq<char>) -> bool {
    &&& ip.len() > 0
    &&& ip.last() == '1'
    &&& forall|i: int| 0 <= i < ip.len() - 1 ==> ip[i] == '0'
}

/// An alpha value written as a decimal fraction (an optional sign, digits,
/// an optional point and more digits, at least one digit in all) between 0
/// and 1 inclusive, scaled to 0..255 with halves rounded up; a value
/// outside 0..1 gives `None`.
pub open spec fn alpha_value(s: Seq<char>) -> Option<u8> {
    match decimal_parts(unsigned_part(s)) {
        None => None,
        Some((ip, fp)) => if s.len() > 0 && s[0] == '-' {
            if has_nonzero(ip) || has_nonzero(fp) {
                None
            } else {
                Some(0)
            }
        } else if has_nonzero(ip) {
            if is_one(ip) && !has_nonzero(fp) {
                Some(255)
            } else {
                None
            }
        } else {
            Some(fraction_byte(fp))
        },
    }
}

/// The color that the text inside `rgb(...)` (or `rgba(...)` where
/// `with_alpha`) gives: three (or four) comma-separated values, each
/// trimmed.
pub open spec fn rgb_fn_color(inner: Seq<char>, with_alpha: bool) -> Option<(u8, u8, u8, u8)> {
    let parts = split_commas(inner);
    if with_alpha && parts.len() == 4 {
        match (
            channel_value(trim_of(parts[0])),
            channel_value(trim_of(parts[1])),
            channel_value(trim_of(parts[2])),
            alpha_value(trim_of(parts[3])),
        ) {
            (Some(r), Some(g), Some(b), Some(a)) => Some((r, g, b, a)),
            _ => None,
        }
    } else if !with_alpha && parts.len() == 3 {
        match (
            channel_value(trim_of(parts[0])),
            channel_value(trim_of(parts[1])),
            channel_value(trim_of(parts[2])),
        ) {
            (Some(r), Some(g), Some(b)) => Some((r, g, b, 255)),
            _ => None,
        }
    } else {
        None
    }
}

/// The color of a lowercased code in functional form: `rgb(r,g,b)` or
/// `rgba(r,g,b,a)`.
pub open spec fn functional_color(lower: Seq<char>) -> Option<(u8, u8, u8, u8)> {
    if lower.len() >= 5 && lower.take(4) == "rgb("@ && lower.last() == ')' {
        rgb_fn_color(lower.subrange(4, lower.len() - 1), false)
    } else if lower.len() >= 6 && lower.take(5) == "rgba("@ && lower.last() == ')' {
        rgb_fn_color(lower.subrange(5, lower.len() - 1), true)
    } else {
        None
    }
}

/// The color that a (trimmed) code gives.
pub open spec fn color_of(s: Seq<char>) -> Option<(u8, u8, u8, u8)> {
    if s.len() > 0 && s[0] == '#' {
        hex_color(s.drop_first())
    } else {
        functional_color(lower_of(s))
    }
}

/// The characters `v[lo..hi]`.
fn sub_chars(v: &Vec<char>, lo: usize, hi: usize) -> (r: Vec<char>)
    requires
        lo <= hi <= v@.len(),
    ensures
        r@ == v@.subrange(lo as int, hi as int),
{
    let mut r: Vec<char> = Vec::new();
    let mut i: usize = lo;
    while i < hi
        invariant
            lo <= i <= hi,
            hi <= v@.len(),
            r@ == v@.subrange(lo as int, i as int),
        decreases hi - i,
    {
        r.push(v[i]);
        i += 1;
        assert(r@ =~= v@.subrange(lo as int, i as int));
    }
    r
}

fn hex_digit_value(c: char) -> (r: Option<u8>)
    ensures
        match hex_val(c) {
            Some(n) => r == Some(n as u8) && n < 16,
            None => r is None,
        },
{
    if '0' <= c && c <= '9' {
        Some((c as u32 - '0' as u32) as u8)
    } else if 'a' <= c && c <= 'f' {
        Some((c as u32 - 'a' as u32 + 10) as u8)
    } else if 'A' <= c && c <= 'F' {
        Some((c as u32 - 'A' as u32 + 10) as u8)
    } else {
        None
    }
}

/// Parses the digits after `#`.
fn parse_hex(h: &Vec<char>) -> (r: Option<(u8, u8, u8, u8)>)
    ensures
        r == hex_color(h@),
{
    let n = h.len();
    if n != 3 && n != 4 && n != 6 && n != 8 {
        return None;
    }
    let mut vals: Vec<u8> = Vec::new();
    let mut i: usize = 0;
    while i < n
        invariant
            n == h@.len(),
            i <= n,
            vals@.len() == i,
            forall|j: int| 0 <= j < i ==> (#[trigger] hex_val(h@[j])) is Some && vals@[j]
                == hex_val(h@[j])->0 && vals@[j] < 16,
        decreases n - i,
    {
        match hex_digit_value(h[i]) {
            Some(d) => vals.push(d),
            None => {
                return None;
            },
        }
        i += 1;
    }
    assert(all_hex(h@));
    if n == 3 {
        Some((vals[0] * 17, vals[1] * 17, vals[2] * 17, 255))
    } else if n == 4 {
        Some((vals[0] * 17, vals[1] * 17, vals[2] * 17, vals[3] * 17))
    } else if n == 6 {
        Some((vals[0] * 16 + vals[1], vals[2] * 16 + vals[3], vals[4] * 16 + vals[5], 255))
    } else {
        Some(
            (
                vals[0] * 16 + vals[1],
                vals[2] * 16 + vals[3],
                vals[4] * 16 + vals[5],
                vals[6] * 16 + vals[7],
            ),
        )
    }
}

/// Parses one channel value, ignoring surrounding white space.
pub fn parse_channel(s: &str) -> (r: Option<u8>)
    ensures
        r == channel_value(trim_of(s@)),
{
    let t = chars_of(trim(s));
    let start: usize = if t.len() > 0 && t[0] == '+' {
        1
    } else {
        0
    };
    let ghost d = if t@.len() > 0 && t@[0] == '+' { t@.drop_first() } else { t@ };
    assert(d =~= t@.skip(start as int));
    if start >= t.len() {
        return None;
    }
    // `v` is the value so far, held at 256 once it passes 255.
    let mut v: u32 = 0;
    let mut i: usize = start;
    while i < t.len()
        invariant
            start <= i <= t@.len(),
            t@ == trim_of(s@),
            d == t@.skip(start as int),
            d == (if t@.len() > 0 && t@[0] == '+' { t@.drop_first() } else { t@ }),
            all_digits(t@.subrange(start as int, i as int)),
            v == (if digits_value(t@.subrange(start as int, i as int)) > 255 {
                256
            } else {
                digits_value(t@.subrange(start as int, i as int))
            }),
        decreases t@.len() - i,
    {
        let c = t[i];
        if !('0' <= c && c <= '9') {
            assert(d[i - start] == c);
            assert(!is_digit(d[i - start]));
            return None;
        }
        let ghost before = t@.subrange(start as int, i as int);
        let ghost dv = digits_value(before);
        let dig: u32 = c as u32 - '0' as u32;
        i += 1;
        let ghost after = t@.subrange(start as int, i as int);
        assert(after.drop_last() =~= before);
        assert(digits_value(after) == dv * 10 + dig);
        assert(all_digits(after));
        if v == 256 || v * 10 + dig > 255 {
            assert(dv * 10 + dig > 255) by (nonlinear_arith)
                requires
                    v == 256 ==> dv > 255,
                    v != 256 ==> v == dv,
                    v == 256 || v * 10 + dig > 255,
            ;
            v = 256;
        } else {
            v = v * 10 + dig;
        }
    }
    assert(t@.subrange(start as int, i as int) =~= d);
    if v > 255 {
        None
    } else {
        Some(v as u8)
    }
}

/// `round(255 * 0.f)` with halves rounded up, from the first fifteen digits
/// of `f` (all of them decimal digits).
fn fraction_to_byte(f: &Vec<char>) -> (r: u8)
    requires
        all_digits(f@),
    ensures
        r == fraction_byte(f@),
{
    let k: usize = if f.len() > ALPHA_DIGITS {
        ALPHA_DIGITS
    } else {
        f.len()
    };
    let ghost g = if f@.len() > 15 { f@.take(15) } else { f@ };
    assert(g =~= f@.take(k as int));
    let mut value: u64 = 0;
    let mut scale: u64 = 1;
    let mut i: usize = 0;
    while i < k
        invariant
            k <= 15,
            k <= f@.len(),
            i <= k,
            all_digits(f@),
            value == digits_value(f@.take(i as int)),
            scale == pow10(i as nat),
            value < scale,
            scale <= 1_000_000_000_000_000,
        decreases k - i,
    {
        assert(is_digit(f@[i as int]));
        let dig: u64 = (f[i] as u32 - '0' as u32) as u64;
        let ghost prev = f@.take(i as int);
        assert(f@.take(i + 1).drop_last() =~= prev);
        assert(pow10((i + 1) as nat) == 10 * pow10(i as nat));
        proof {
            lemma_pow10_bound(i as nat);
        }
        assert(value * 10 + dig < scale * 10) by (nonlinear_arith)
            requires
                value < scale,
                dig < 10,
        ;
        value = value * 10 + dig;
        scale = scale * 10;
        i += 1;
    }
    assert(510 * value + scale < 511 * scale);
    let r = (510 * value + scale) / (2 * scale);
    assert(r < 256) by (nonlinear_arith)
        requires
            r == (510 * value + scale) / (2 * scale),
            value < scale,
            scale > 0,
    ;
    r as u8
}

proof fn lemma_pow10_bound(i: nat)
    requires
        i < 15,
    ensures
        pow10(i) <= 100_000_000_000_000,
    decreases i,
{
    reveal_with_fuel(pow10, 15);
}

/// Parses an alpha value, ignoring surrounding white space.
fn parse_alpha(s: &str) -> (r: Option<u8>)
    ensures
        r == alpha_value(trim_of(s@)),
{
    let t = chars_of(trim(s));
    let signed = t.len() > 0 && (t[0] == '-' || t[0] == '+');
    let start: usize = if signed {
        1
    } else {
        0
    };
    let u = sub_chars(&t, start, t.len());
    assert(u@ =~= unsigned_part(t@));
    // Find the first point; everything else must be a digit.
    let mut p: usize = u.len();
    let mut i: usize = 0;
    while i < u.len()
        invariant
            i <= u@.len(),
            u@ == unsigned_part(t@),
            t@ == trim_of(s@),
            p <= u@.len(),
            p == u@.len() ==> all_digits(u@.take(i as int)),
            p < u@.len() ==> p < i && u@[p as int] == '.' && all_digits(u@.take(p as int))
                && all_digits(u@.subrange(p + 1, i as int)),
        decreases u@.len() - i,
    {
        let c = u[i];
        if c == '.' && p == u.len() {
            p = i;
            assert(u@.subrange(p + 1, i + 1) =~= Seq::<char>::empty());
        } else if !('0' <= c && c <= '9') {
            proof {
                assert(!is_digit(u@[i as int]));
                lemma_not_decimal(u@, p as int, i as int);
            }
            return None;
        } else {
            proof {
                assert(is_digit(u@[i as int]));
                if p == u@.len() {
                    assert(u@.take(i + 1) =~= u@.take(i as int).push(u@[i as int]));
                } else {
                    assert(u@.subrange(p + 1, i + 1) =~= u@.subrange(p + 1, i as int).push(
                        u@[i as int],
                    ));
                }
            }
        }
        i += 1;
    }
    let ghost uu = u@;
    let (ip, fp) = if p == u.len() {
        assert(u@.take(i as int) =~= u@);
        if u.len() == 0 {
            return None;
        }
        (sub_chars(&u, 0, u.len()), Vec::new())
    } else {
        assert(u@.subrange(p + 1, u@.len() as int) =~= u@.skip(p + 1));
        assert(point_at(u@, p as int));
        if u.len() < 2 {
            assert(!is_digit(u@[p as int]));
            return None;
        }
        proof {
            lemma_point_unique(u@, p as int);
        }
        (sub_chars(&u, 0, p), sub_chars(&u, p + 1, u.len()))
    };
    proof {
        if p < uu.len() {
            assert(ip@ =~= uu.take(p as int));
            assert(fp@ =~= uu.skip(p + 1));
            assert(!all_digits(uu)) by {
                assert(!is_digit(uu[p as int]));
            }
        } else {
            assert(ip@ =~= uu);
            assert(fp@ =~= Seq::<char>::empty());
        }
        assert(decimal_parts(uu) == Some((ip@, fp@)));
        assert(uu == unsigned_part(t@));
    }
    let ip_zero = all_zero(&ip);
    let fp_zero = all_zero(&fp);
    if t.len() > 0 && t[0] == '-' {
        if ip_zero && fp_zero {
            Some(0)
        } else {
            None
        }
    } else if !ip_zero {
        if writes_one(&ip) && fp_zero {
            Some(255)
        } else {
            None
        }
    } else {
        Some(fraction_to_byte(&fp))
    }
}

fn all_zero(v: &Vec<char>) -> (r: bool)
    ensures
        r == !has_nonzero(v@),
{
    let mut j: usize = 0;
    while j < v.len()
        invariant
            j <= v@.len(),
            forall|k: int| 0 <= k < j ==> v@[k] == '0',
        decreases v@.len() - j,
    {
        if v[j] != '0' {
            assert(v@[j as int] != '0');
            return false;
        }
        j += 1;
    }
    true
}

fn writes_one(v: &Vec<char>) -> (r: bool)
    ensures
        r == is_one(v@),
{
    let n = v.len();
    if n == 0 || v[n - 1] != '1' {
        return false;
    }
    let mut j: usize = 0;
    while j < n - 1
        invariant
            n == v@.len(),
            n > 0,
            j <= n - 1,
            forall|k: int| 0 <= k < j ==> v@[k] == '0',
        decreases n - 1 - j,
    {
        if v[j] != '0' {
            assert(v@[j as int] != '0');
            return false;
        }
        j += 1;
    }
    true
}

proof fn lemma_not_decimal(u: Seq<char>, p: int, i: int)
    requires
        0 <= i < u.len(),
        !is_digit(u[i]),
        u[i] != '.' || p < u.len(),
        p == u.len() || (p < i && u[p] == '.'),
        0 <= p <= u.len(),
    ensures
        decimal_parts(u) is None,
{
    assert(!all_digits(u));
    if exists|q: int| point_at(u, q) {
        let q = choose|q: int| point_at(u, q);
        if i < q {
            assert(u.take(q)[i] == u[i]);
            assert(!is_digit(u.take(q)[i]));
        } else if i > q {
            assert(u.skip(q + 1)[i - q - 1] == u[i]);
            assert(!is_digit(u.skip(q + 1)[i - q - 1]));
        } else {
            // u[i] is the point at q, so an earlier point p exists
            assert(p < i);
            assert(u.take(q)[p] == u[p]);
            assert(!is_digit(u.take(q)[p]));
        }
    }
}

proof fn lemma_point_unique(u: Seq<char>, p: int)
    requires
        point_at(u, p),
    ensures
        forall|q: int| point_at(u, q) ==> q == p,
{
    assert forall|q: int| point_at(u, q) implies q == p by {
        if q < p {
            assert(u.take(p)[q] == u[q]);
            assert(!is_digit(u[q]));
        } else if q > p {
            assert(u.take(q)[p] == u[p]);
            assert(!is_digit(u[p]));
        }
    }
}

pub open spec fn part_views(ps: Seq<Vec<char>>) -> Seq<Seq<char>> {
    ps.map_values(|p: Vec<char>| p@)
}

/// Splits `v` at its commas.
fn split_commas_of(v: &Vec<char>) -> (r: Vec<Vec<char>>)
    ensures
        part_views(r@) == split_commas(v@),
{
    let mut done: Vec<Vec<char>> = Vec::new();
    let mut cur: Vec<char> = Vec::new();
    let mut i: usize = 0;
    while i < v.len()
        invariant
            i <= v@.len(),
            part_views(done@).push(cur@) == split_commas(v@.take(i as int)),
        decreases v@.len() - i,
    {
        let ghost prev = v@.take(i as int);
        assert(v@.take(i + 1).drop_last() =~= prev);
        if v[i] == ',' {
            let ghost dv = part_views(done@).push(cur@);
            done.push(cur);
            cur = Vec::new();
            assert(part_views(done@).push(cur@) =~= dv.push(Seq::empty()));
        } else {
            let ghost dv = part_views(done@);
            let ghost old_cur = cur@;
            cur.push(v[i]);
            assert(part_views(done@).push(cur@) =~= dv.push(old_cur).update(
                dv.len() as int,
                old_cur.push(v@[i as int]),
            ));
        }
        i += 1;
    }
    assert(v@.take(i as int) =~= v@);
    done.push(cur);
    assert(part_views(done@) =~= split_commas(v@));
    done
}

/// Parses the text inside `rgb(...)`, or inside `rgba(...)` where
/// `with_alpha`.
fn parse_rgb_fn(inner: &Vec<char>, with_alpha: bool) -> (r: Option<(u8, u8, u8, u8)>)
    ensures
        r == rgb_fn_color(inner@, with_alpha),
{
    let parts = split_commas_of(inner);
    let ghost ps = split_commas(inner@);
    assert(parts@.len() == ps.len());
    if (with_alpha && parts.len() == 4) || (!with_alpha && parts.len() == 3) {
        assert(parts@[0]@ == ps[0]);
        assert(parts@[1]@ == ps[1]);
        assert(parts@[2]@ == ps[2]);
        let r = match parse_channel(string_from_chars(parts[0].as_slice()).as_str()) {
            Some(x) => x,
            None => {
                return None;
            },
        };
        let g = match parse_channel(string_from_chars(parts[1].as_slice()).as_str()) {
            Some(x) => x,
            None => {
                return None;
            },
        };
        let b = match parse_channel(string_from_chars(parts[2].as_slice()).as_str()) {
            Some(x) => x,
            None => {
                return None;
            },
        };
        if with_alpha {
            assert(parts@[3]@ == ps[3]);
            match parse_alpha(string_from_chars(parts[3].as_slice()).as_str()) {
                Some(a) => Some((r, g, b, a)),
                None => None,
            }
        } else {
            Some((r, g, b, 255))
        }
    } else {
        None
    }
}

fn starts_with_chars(v: &Vec<char>, prefix: &Vec<char>) -> (r: bool)
    ensures
        r == (v@.len() >= prefix@.len() && v@.take(prefix@.len() as int) == prefix@),
{
    if v.len() < prefix.len() {
        return false;
    }
    let mut i: usize = 0;
    while i < prefix.len()
        invariant
            i <= prefix@.len() <= v@.len(),
            forall|k: int| 0 <= k < i ==> v@[k] == prefix@[k],
        decreases prefix@.len() - i,
    {
        if v[i] != prefix[i] {
            assert(v@.take(prefix@.len() as int)[i as int] != prefix@[i as int]);
            return false;
        }
        i += 1;
    }
    assert(v@.take(prefix@.len() as int) =~= prefix@);
    true
}

/// Parses a lowercased color code in functional form.
pub fn parse_functional(lower: &str) -> (r: Option<(u8, u8, u8, u8)>)
    ensures
        r == functional_color(lower@),
{
    let cs = chars_of(lower);
    let n = cs.len();
    let rgb = chars_of("rgb(");
    let rgba = chars_of("rgba(");
    proof {
        reveal_strlit("rgb(");
        reveal_strlit("rgba(");
    }
    let closed = n > 0 && cs[n - 1] == ')';
    if n >= 5 && closed && starts_with_chars(&cs, &rgb) {
        parse_rgb_fn(&sub_chars(&cs, 4, n - 1), false)
    } else if n >= 6 && closed && starts_with_chars(&cs, &rgba) {
        parse_rgb_fn(&sub_chars(&cs, 5, n - 1), true)
    } else {
        None
    }
}

/// Parses a (trimmed) color code.
pub fn parse_color(s: &str) -> (r: Option<(u8, u8, u8, u8)>)
    ensures
        r == color_of(s@),
{
    let cs = chars_of(s);
    if cs.len() > 0 && cs[0] == '#' {
        parse_hex(&sub_chars(&cs, 1, cs.len()))
    } else {
        let lower = lowercase(s);
        parse_functional(lower.as_str())
    }
}

/// `n / d` rounded to the nearest integer, halves up.
pub open spec fn round_div(n: nat, d: nat) -> nat {
    (2 * n + d) / (2 * d)
}

pub open spec fn max3(r: u8, g: u8, b: u8) -> nat {
    let m = if r >= g { r } else { g };
    (if m >= b { m } else { b }) as nat
}

pub open spec fn min3(r: u8, g: u8, b: u8) -> nat {
    let m = if r <= g { r } else { g };
    (if m <= b { m } else { b }) as nat
}

/// HSL lightness in tenths of a percent.
pub open spec fn lightness_tenths(r: u8, g: u8, b: u8) -> nat {
    round_div(1000 * (max3(r, g, b) + min3(r, g, b)), 510)
}

/// HSL saturation in tenths of a percent; 0 for a gray.
pub open spec fn saturation_tenths(r: u8, g: u8, b: u8) -> nat {
    let hi = max3(r, g, b);
    let lo = min3(r, g, b);
    if hi == lo {
        0
    } else if hi + lo > 255 {
        round_div(1000 * (hi - lo) as nat, (510 - hi - lo) as nat)
    } else {
        round_div(1000 * (hi - lo) as nat, hi + lo)
    }
}

/// HSL hue in whole degrees; 0 for a gray. The sector follows the channel
/// that is largest, red first, then green; a red hue below zero wraps
/// round by 360.
pub open spec fn hue_degrees(r: u8, g: u8, b: u8) -> nat {
    let hi = max3(r, g, b);
    let lo = min3(r, g, b);
    let d = (hi - lo) as nat;
    if hi == lo {
        0
    } else if hi == r as nat {
        if g >= b {
            round_div((60 * (g - b)) as nat, d)
        } else {
            round_div((360 * d - 60 * (b - g)) as nat, d)
        }
    } else if hi == g as nat {
        round_div((60 * (b - r) + 120 * d) as nat, d)
    } else {
        round_div((60 * (r - g) + 240 * d) as nat, d)
    }
}

/// Alpha as a percentage, in tenths.
pub open spec fn alpha_tenths(a: u8) -> nat {
    round_div(1000 * a as nat, 255)
}

/// A number of tenths written with one decimal.
pub open spec fn tenths_text(t: nat) -> Seq<char> {
    dec(t / 10) + seq!['.', dec_digit(t % 10)]
}

pub open spec fn hex6_text(r: u8, g: u8, b: u8) -> Seq<char> {
    seq!['#'] + hex2(r) + hex2(g) + hex2(b)
}

pub open spec fn hsl_text(r: u8, g: u8, b: u8) -> Seq<char> {
    "hsl("@ + dec(hue_degrees(r, g, b)) + "°, "@ + tenths_text(saturation_tenths(r, g, b))
        + "%, "@ + tenths_text(lightness_tenths(r, g, b)) + "%)"@
}

/// What the color interpreter shows for a color.
pub open spec fn color_items(r: u8, g: u8, b: u8, a: u8) -> Seq<ItemView> {
    seq![
        ("Preview"@, hex6_text(r, g, b), Some([r, g, b, a])),
        ("Hex (RGB)"@, hex6_text(r, g, b), None),
        ("Hex (RGBA)"@, hex6_text(r, g, b) + hex2(a), None),
        ("R"@, dec(r as nat), None),
        ("G"@, dec(g as nat), None),
        ("B"@, dec(b as nat), None),
        ("A"@, dec(a as nat) + " ("@ + tenths_text(alpha_tenths(a)) + "%)"@, None),
        ("HSL"@, hsl_text(r, g, b), None),
    ]
}

fn round_div_exec(n: u64, d: u64) -> (r: u64)
    requires
        d > 0,
        n <= 1_000_000_000,
        d <= 1_000_000_000,
    ensures
        r == round_div(n as nat, d as nat),
{
    (2 * n + d) / (2 * d)
}

/// HSL of a color: hue in degrees, saturation and lightness in tenths of a
/// percent.
pub fn rgb_to_hsl(r: u8, g: u8, b: u8) -> (res: (u64, u64, u64))
    ensures
        res == (hue_degrees(r, g, b) as u64, saturation_tenths(r, g, b) as u64, lightness_tenths(
            r,
            g,
            b,
        ) as u64),
{
    let hi: u64 = if r >= g { r as u64 } else { g as u64 };
    let hi: u64 = if hi >= b as u64 { hi } else { b as u64 };
    let lo: u64 = if r <= g { r as u64 } else { g as u64 };
    let lo: u64 = if lo <= b as u64 { lo } else { b as u64 };
    assert(hi == max3(r, g, b) && lo == min3(r, g, b));
    let l = round_div_exec(1000 * (hi + lo), 510);
    if hi == lo {
        return (0, 0, l);
    }
    let d = hi - lo;
    let s = if hi + lo > 255 {
        round_div_exec(1000 * d, 510 - hi - lo)
    } else {
        round_div_exec(1000 * d, hi + lo)
    };
    let (r, g, b) = (r as u64, g as u64, b as u64);
    let h = if hi == r {
        if g >= b {
            round_div_exec(60 * (g - b), d)
        } else {
            round_div_exec(360 * d - 60 * (b - g), d)
        }
    } else if hi == g {
        round_div_exec(60 * b + 120 * d - 60 * r, d)
    } else {
        round_div_exec(60 * r + 240 * d - 60 * g, d)
    };
    (h, s, l)
}

fn push_tenths(out: &mut String, t: u64)
    ensures
        final(out)@ == old(out)@ + tenths_text(t as nat),
{
    push_dec(out, t / 10);
    push_char(out, '.');
    push_char(out, dec_digit_char(t % 10));
    assert(final(out)@ =~= old(out)@ + tenths_text(t as nat));
}

fn hex6_string(r: u8, g: u8, b: u8) -> (s: String)
    ensures
        s@ == hex6_text(r, g, b),
{
    let mut s = String::new();
    push_char(&mut s, '#');
    push_hex2(&mut s, r);
    push_hex2(&mut s, g);
    push_hex2(&mut s, b);
    assert(s@ =~= hex6_text(r, g, b));
    s
}

fn alpha_string(a: u8) -> (s: String)
    ensures
        s@ == dec(a as nat) + " ("@ + tenths_text(alpha_tenths(a)) + "%)"@,
{
    let mut s = dec_string(a as u64);
    push_str(&mut s, " (");
    push_tenths(&mut s, round_div_exec(1000 * a as u64, 255));
    push_str(&mut s, "%)");
    s
}

fn hsl_string(r: u8, g: u8, b: u8) -> (s: String)
    ensures
        s@ == hsl_text(r, g, b),
{
    let (h, sat, l) = rgb_to_hsl(r, g, b);
    let mut s = String::new();
    push_str(&mut s, "hsl(");
    push_dec(&mut s, h);
    push_str(&mut s, "°, ");
    push_tenths(&mut s, sat);
    push_str(&mut s, "%, ");
    push_tenths(&mut s, l);
    push_str(&mut s, "%)");
    assert(s@ =~= hsl_text(r, g, b));
    s
}

/// The items shown for a color.
pub fn build_result(r: u8, g: u8, b: u8, a: u8) -> (res: InterpretResult)
    ensures
        res@ == color_items(r, g, b, a),
{
    let hex6 = hex6_string(r, g, b);
    let mut hex8 = hex6_string(r, g, b);
    push_hex2(&mut hex8, a);
    let items = vec![
        InterpretItem::with_color("Preview", hex6, [r, g, b, a]),
        InterpretItem::text("Hex (RGB)", hex6_string(r, g, b)),
        InterpretItem::text("Hex (RGBA)", hex8),
        InterpretItem::text("R", dec_string(r as u64)),
        InterpretItem::text("G", dec_string(g as u64)),
        InterpretItem::text("B", dec_string(b as u64)),
        InterpretItem::text("A", alpha_string(a)),
        InterpretItem::text("HSL", hsl_string(r, g, b)),
    ];
    let res = InterpretResult::new(items);
    assert(res@ =~= color_items(r, g, b, a));
    res
}

impl ColorInterpreter {
    pub fn name(&self) -> (r: &'static str)
        ensures
            r@ == "Color Code"@,
    {
        "Color Code"
    }

    /// Applies where the trimmed text is a color code.
    pub fn interpret(&self, content: &str) -> (r: Option<InterpretResult>)
        ensures
            match color_of(trim_of(content@)) {
                Some((cr, cg, cb, ca)) => r matches Some(res) && res@ == color_items(cr, cg, cb, ca),
                None => r is None,
            },
    {
        match parse_color(trim(content)) {
            Some((r, g, b, a)) => Some(build_result(r, g, b, a)),
            None => None,
        }
    }
}

} // verus!
