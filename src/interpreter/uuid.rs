use vstd::prelude::*;

use super::color::{all_hex, pair};
use super::{InterpretItem, InterpretResult, ItemView};
use crate::text::{
    dec, dec_string, hex2, pad_left, push_char, push_hex2, push_repeat,
    push_str, string_of, trim, trim_of,
};

verus! {

/// Interprets UUIDs in any of their usual textual forms.
pub struct UuidInterpreter;

/// The Unix time (seconds, nanoseconds) that the uuid crate decodes from a
/// time-based UUID.
pub uninterp spec fn uuid_unix_time(b: Seq<u8>) -> Option<(u64, u32)>;

/// The 32 digits of a hyphenated form: 8-4-4-4-12 with hyphens between.
pub open spec fn hyphenated_digits(s: Seq<char>) -> Option<Seq<char>> {
    if s.len() == 36 && s[8] == '-' && s[13] == '-' && s[18] == '-' && s[23] == '-' {
        Some(
            s.take(8) + s.subrange(9, 13) + s.subrange(14, 18) + s.subrange(19, 23) + s.subrange(
                24,
                36,
            ),
        )
    } else {
        None
    }
}

/// `c` is the lowercase ASCII letter or symbol `l`, in either case.
pub open spec fn same_ignoring_case(c: char, l: char) -> bool {
    c == l || ('A' <= c <= 'Z' && c as int + 32 == l as int)
}

pub open spec fn has_urn_prefix(s: Seq<char>) -> bool {
    forall|i: int| 0 <= i < 9 ==> #[trigger] same_ignoring_case(s[i], "urn:uuid:"@[i])
}

/// The 32 hex digit positions of a UUID text: simple (32 digits),
/// hyphenated, hyphenated in braces, or hyphenated after `urn:uuid:` in
/// any case.
pub open spec fn uuid_digits(s: Seq<char>) -> Option<Seq<char>> {
    if s.len() == 32 {
        Some(s)
    } else if s.len() == 36 {
        hyphenated_digits(s)
    } else if s.len() == 38 && s[0] == '{' && s[37] == '}' {
        hyphenated_digits(s.subrange(1, 37))
    } else if s.len() == 45 && has_urn_prefix(s) {
        hyphenated_digits(s.skip(9))
    } else {
        None
    }
}

/// The sixteen bytes that a UUID text writes, two hex digits (either case)
/// per byte, or `None` where it is not one.
pub open spec fn uuid_text_bytes(s: Seq<char>) -> Option<Seq<u8>> {
    match uuid_digits(s) {
        Some(d) => if all_hex(d) {
            Some(Seq::new(16, |i: int| pair(d[2 * i], d[2 * i + 1])))
        } else {
            None
        },
        None => None,
    }
}

/// Relies on `uuid::Uuid::parse_str` and `Uuid::as_bytes`: it reads
/// exactly the forms of `uuid_text_bytes` (any other text, non-ASCII
/// included, is refused).
#[verifier::external_body]
fn parse_uuid(s: &str) -> (r: Option<[u8; 16]>)
    ensures
        match uuid_text_bytes(s@) {
            Some(v) => r matches Some(b) && b@ == v,
            None => r is None,
        },
{
    ::uuid::Uuid::parse_str(s).ok().map(|u| *u.as_bytes())
}

/// The version number: the high four bits of byte 6.
pub open spec fn version_num(b: Seq<u8>) -> u8 {
    b[6] / 16
}

/// Relies on `uuid::Uuid::get_timestamp` and `Timestamp::to_unix`: a time
/// exists exactly for versions 1, 6 and 7, and its nanoseconds stay below
/// one second.
#[verifier::external_body]
fn unix_time(b: [u8; 16]) -> (r: Option<(u64, u32)>)
    ensures
        r == uuid_unix_time(b@),
        r is Some <==> (version_num(b@) == 1 || version_num(b@) == 6 || version_num(b@) == 7),
        r matches Some((_, n)) ==> n < 1_000_000_000,
{
    ::uuid::Uuid::from_bytes(b).get_timestamp().map(|t| t.to_unix())
}

pub open spec fn all_bytes(b: Seq<u8>, v: u8) -> bool {
    forall|i: int| 0 <= i < 16 ==> b[i] == v
}

/// The name of the UUID's version, or `Unknown` where it has none that is
/// recognised.
pub open spec fn version_label(b: Seq<u8>) -> Seq<char> {
    let n = version_num(b);
    if n == 0 && all_bytes(b, 0) {
        "Nil"@
    } else if n == 1 {
        "Mac"@
    } else if n == 2 {
        "Dce"@
    } else if n == 3 {
        "Md5"@
    } else if n == 4 {
        "Random"@
    } else if n == 5 {
        "Sha1"@
    } else if n == 6 {
        "SortMac"@
    } else if n == 7 {
        "SortRand"@
    } else if n == 8 {
        "Custom"@
    } else if n == 15 && all_bytes(b, 255) {
        "Max"@
    } else {
        "Unknown"@
    }
}

/// The name of the UUID's variant, from the high bits of byte 8.
pub open spec fn variant_label(b: Seq<u8>) -> Seq<char> {
    if b[8] < 0x80 {
        "NCS"@
    } else if b[8] < 0xc0 {
        "RFC4122"@
    } else if b[8] < 0xe0 {
        "Microsoft"@
    } else {
        "Future"@
    }
}

/// The hex digits of bytes `lo..hi`.
pub open spec fn hex_run(b: Seq<u8>, lo: int, hi: int) -> Seq<char>
    decreases hi - lo,
{
    if hi <= lo {
        Seq::empty()
    } else {
        hex_run(b, lo, hi - 1) + hex2(b[hi - 1])
    }
}

/// Thirty-two lowercase hex digits.
pub open spec fn simple_text(b: Seq<u8>) -> Seq<char> {
    hex_run(b, 0, 16)
}

/// The 8-4-4-4-12 form with hyphens.
pub open spec fn hyphenated_text(b: Seq<u8>) -> Seq<char> {
    hex_run(b, 0, 4) + seq!['-'] + hex_run(b, 4, 6) + seq!['-'] + hex_run(b, 6, 8) + seq!['-']
        + hex_run(b, 8, 10) + seq!['-'] + hex_run(b, 10, 16)
}

/// `seconds.nanoseconds`, the fraction as nine digits.
pub open spec fn unix_time_text(secs: u64, nanos: u32) -> Seq<char> {
    dec(secs as nat) + seq!['.'] + pad_left(dec(nanos as nat), 9, '0')
}

/// What the UUID interpreter shows for the UUID `b` with decoded time `t`.
pub open spec fn uuid_items(b: Seq<u8>, t: Option<(u64, u32)>) -> Seq<ItemView> {
    let base = seq![
        ("Version"@, version_label(b), None),
        ("Variant"@, variant_label(b), None),
        ("Hyphenated"@, hyphenated_text(b), None),
        ("Simple (no hyphens)"@, simple_text(b), None),
        ("URN"@, "urn:uuid:"@ + hyphenated_text(b), None),
        ("Braced"@, seq!['{'] + hyphenated_text(b) + seq!['}'], None),
    ];
    match t {
        Some((secs, nanos)) => base.push(("Timestamp (Unix)"@, unix_time_text(secs, nanos), None)),
        None => base,
    }
}

fn is_all(b: &[u8; 16], v: u8) -> (r: bool)
    ensures
        r == all_bytes(b@, v),
{
    let mut i: usize = 0;
    while i < 16
        invariant
            i <= 16,
            forall|k: int| 0 <= k < i ==> b[k] == v,
        decreases 16 - i,
    {
        if b[i] != v {
            return false;
        }
        i += 1;
    }
    true
}

fn version_string(b: &[u8; 16]) -> (r: String)
    ensures
        r@ == version_label(b@),
{
    let n = b[6] / 16;
    let s = if n == 0 && is_all(b, 0) {
        "Nil"
    } else if n == 1 {
        "Mac"
    } else if n == 2 {
        "Dce"
    } else if n == 3 {
        "Md5"
    } else if n == 4 {
        "Random"
    } else if n == 5 {
        "Sha1"
    } else if n == 6 {
        "SortMac"
    } else if n == 7 {
        "SortRand"
    } else if n == 8 {
        "Custom"
    } else if n == 15 && is_all(b, 255) {
        "Max"
    } else {
        "Unknown"
    };
    string_of(s)
}

fn variant_string(b: &[u8; 16]) -> (r: String)
    ensures
        r@ == variant_label(b@),
{
    let s = if b[8] < 0x80 {
        "NCS"
    } else if b[8] < 0xc0 {
        "RFC4122"
    } else if b[8] < 0xe0 {
        "Microsoft"
    } else {
        "Future"
    };
    string_of(s)
}

fn push_hex_run(out: &mut String, b: &[u8; 16], lo: usize, hi: usize)
    requires
        lo <= hi <= 16,
    ensures
        final(out)@ == old(out)@ + hex_run(b@, lo as int, hi as int),
{
    let mut i: usize = lo;
    while i < hi
        invariant
            lo <= i <= hi <= 16,
            out@ == old(out)@ + hex_run(b@, lo as int, i as int),
        decreases hi - i,
    {
        push_hex2(out, b[i]);
        i += 1;
        assert(out@ =~= old(out)@ + hex_run(b@, lo as int, i as int));
    }
}

fn hyphenated_string(b: &[u8; 16]) -> (r: String)
    ensures
        r@ == hyphenated_text(b@),
{
    let mut s = String::new();
    push_hex_run(&mut s, b, 0, 4);
    push_char(&mut s, '-');
    push_hex_run(&mut s, b, 4, 6);
    push_char(&mut s, '-');
    push_hex_run(&mut s, b, 6, 8);
    push_char(&mut s, '-');
    push_hex_run(&mut s, b, 8, 10);
    push_char(&mut s, '-');
    push_hex_run(&mut s, b, 10, 16);
    assert(s@ =~= hyphenated_text(b@));
    s
}

fn unix_time_string(secs: u64, nanos: u32) -> (r: String)
    ensures
        r@ == unix_time_text(secs, nanos),
{
    let mut s = dec_string(secs);
    push_char(&mut s, '.');
    let frac = dec_string(nanos as u64);
    let n = frac.as_str().unicode_len();
    assert(n == dec(nanos as nat).len());
    if n < 9 {
        push_repeat(&mut s, '0', 9 - n);
    }
    push_str(&mut s, frac.as_str());
    assert(s@ =~= unix_time_text(secs, nanos));
    s
}

/// The items shown for the UUID `b` whose decoded time is `t`.
pub fn uuid_result(b: [u8; 16], t: Option<(u64, u32)>) -> (r: InterpretResult)
    ensures
        r@ == uuid_items(b@, t),
{
    let hyph = hyphenated_string(&b);
    let mut simple = String::new();
    push_hex_run(&mut simple, &b, 0, 16);
    let mut urn = string_of("urn:uuid:");
    push_str(&mut urn, hyph.as_str());
    let mut braced = String::new();
    push_char(&mut braced, '{');
    push_str(&mut braced, hyph.as_str());
    push_char(&mut braced, '}');
    assert(simple@ =~= simple_text(b@));
    assert(urn@ =~= "urn:uuid:"@ + hyphenated_text(b@));
    assert(braced@ =~= seq!['{'] + hyphenated_text(b@) + seq!['}']);
    let mut items = vec![
        InterpretItem::text("Version", version_string(&b)),
        InterpretItem::text("Variant", variant_string(&b)),
        InterpretItem::text("Hyphenated", hyph),
        InterpretItem::text("Simple (no hyphens)", simple),
        InterpretItem::text("URN", urn),
        InterpretItem::text("Braced", braced),
    ];
    match t {
        Some((secs, nanos)) => {
            items.push(InterpretItem::text("Timestamp (Unix)", unix_time_string(secs, nanos)));
        },
        None => {},
    }
    let r = InterpretResult::new(items);
    assert(r@.len() == uuid_items(b@, t).len());
    assert(r@ =~= uuid_items(b@, t));
    r
}

impl UuidInterpreter {
    pub fn name(&self) -> (r: &'static str)
        ensures
            r@ == "UUID"@,
    {
        "UUID"
    }

    /// Applies where the trimmed text parses as a UUID.
    pub fn interpret(&self, content: &str) -> (r: Option<InterpretResult>)
        ensures
            match uuid_text_bytes(trim_of(content@)) {
                Some(b) => {
                    &&& r matches Some(res) && res@ == uuid_items(b, uuid_unix_time(b))
                    &&& uuid_unix_time(b) is Some <==> (version_num(b) == 1 || version_num(b) == 6
                        || version_num(b) == 7)
                    &&& uuid_unix_time(b) matches Some((_, n)) ==> n < 1_000_000_000
                },
                None => r is None,
            },
    {
        match parse_uuid(trim(content)) {
            Some(b) => Some(uuid_result(b, unix_time(b))),
            None => None,
        }
    }
}

} // verus!
