use vstd::prelude::*;
use vstd::string::StringSliceAdditionalSpecFns;

use super::{InterpretItem, InterpretResult, ItemView};
use crate::text::{
    chars_of, dec, hex, hex2, pad_left, pad_right, push_char, push_hex, push_hex2, push_repeat,
    push_str, dec_string,
};

verus! {

/// Interprets any text as its UTF-8 bytes.
pub struct HexInterpreter;

/// The compact hexadecimal form of `bs`: two lowercase digits per byte,
/// nothing between them.
pub open spec fn compact_hex(bs: Seq<u8>) -> Seq<char>
    decreases bs.len(),
{
    if bs.len() == 0 {
        Seq::empty()
    } else {
        compact_hex(bs.drop_last()) + hex2(bs.last())
    }
}

/// Two digits per byte, with one space between consecutive bytes.
pub open spec fn spaced_hex(bs: Seq<u8>) -> Seq<char>
    decreases bs.len(),
{
    if bs.len() == 0 {
        Seq::empty()
    } else if bs.len() == 1 {
        hex2(bs[0])
    } else {
        spaced_hex(bs.drop_last()) + seq![' '] + hex2(bs.last())
    }
}

/// A byte as the ASCII gutter shows it: itself where printable, else `.`.
pub open spec fn gutter_char(b: u8) -> char {
    if 0x20 <= b < 0x7f {
        b as char
    } else {
        '.'
    }
}

/// The bytes of line `k` of a dump.
pub open spec fn chunk(bs: Seq<u8>, k: nat) -> Seq<u8> {
    let start: int = 16 * k as int;
    let end: int = if start + 16 <= bs.len() { start + 16 } else { bs.len() as int };
    bs.subrange(start, end)
}

/// Line `k` of a dump: a four-digit offset, the padded hex column and the
/// ASCII gutter, separated by two spaces.
pub open spec fn dump_line(bs: Seq<u8>, k: nat) -> Seq<char> {
    let c = chunk(bs, k);
    pad_left(hex(16 * k), 4, '0') + seq![' ', ' '] + pad_right(spaced_hex(c), 47, ' ') + seq![
        ' ',
        ' ',
    ] + c.map_values(|b: u8| gutter_char(b))
}

/// The first `n` lines of a dump, joined by line breaks.
pub open spec fn dump_lines(bs: Seq<u8>, n: nat) -> Seq<char>
    decreases n,
{
    if n == 0 {
        Seq::empty()
    } else if n == 1 {
        dump_line(bs, 0)
    } else {
        dump_lines(bs, (n - 1) as nat) + seq!['\n'] + dump_line(bs, (n - 1) as nat)
    }
}

/// The number of lines in a dump of `len` bytes.
pub open spec fn line_count(len: nat) -> nat {
    (len + 15) / 16
}

/// The whole dump of `bs`.
pub open spec fn hex_dump(bs: Seq<u8>) -> Seq<char> {
    dump_lines(bs, line_count(bs.len()))
}

/// What the hex interpreter shows for a text with bytes `bs` and
/// `n_chars` characters.
pub open spec fn hex_items(bs: Seq<u8>, n_chars: nat) -> Seq<ItemView> {
    seq![
        ("Bytes"@, dec(bs.len()), None),
        ("Chars (UTF-8)"@, dec(n_chars), None),
        ("Compact hex"@, compact_hex(bs), None),
        ("Hex dump"@, hex_dump(bs), None),
    ]
}

fn compact_hex_of(bs: &[u8]) -> (r: String)
    ensures
        r@ == compact_hex(bs@),
{
    let mut s = String::new();
    let mut i: usize = 0;
    while i < bs.len()
        invariant
            i <= bs@.len(),
            s@ == compact_hex(bs@.take(i as int)),
        decreases bs@.len() - i,
    {
        push_hex2(&mut s, bs[i]);
        i += 1;
        assert(bs@.take(i as int).drop_last() =~= bs@.take(i as int - 1));
    }
    assert(bs@.take(i as int) =~= bs@);
    s
}

/// Appends `n` in lowercase hexadecimal, zero-padded to four digits.
fn push_offset(out: &mut String, n: u64)
    ensures
        final(out)@ == old(out)@ + pad_left(hex(n as nat), 4, '0'),
{
    let mut off = String::new();
    push_hex(&mut off, n);
    assert(off@ =~= hex(n as nat));
    let off_len = chars_of(off.as_str()).len();
    if off_len < 4 {
        push_repeat(out, '0', 4 - off_len);
    }
    push_str(out, off.as_str());
    assert(out@ =~= old(out)@ + pad_left(hex(n as nat), 4, '0'));
}

/// Appends the hex column for `bs[start..end]`, padded to its full width.
fn push_hex_column(out: &mut String, bs: &[u8], start: usize, end: usize)
    requires
        start <= end <= bs@.len(),
        end - start <= 16,
    ensures
        final(out)@ == old(out)@ + pad_right(spaced_hex(bs@.subrange(start as int, end as int)), 47, ' '),
{
    let mut col = String::new();
    let mut i: usize = start;
    while i < end
        invariant
            start <= i <= end,
            end <= bs@.len(),
            end - start <= 16,
            col@ == spaced_hex(bs@.subrange(start as int, i as int)),
            col@.len() == (if i == start { 0 } else { 3 * (i - start) - 1 }),
        decreases end - i,
    {
        if i > start {
            push_char(&mut col, ' ');
        }
        push_hex2(&mut col, bs[i]);
        i += 1;
        assert(bs@.subrange(start as int, i as int).drop_last() =~= bs@.subrange(
            start as int,
            i as int - 1,
        ));
    }
    push_str(out, col.as_str());
    if end - start < 16 {
        let n: usize = if end == start { 47 } else { 47 - (3 * (end - start) - 1) };
        push_repeat(out, ' ', n);
    }
    assert(out@ =~= old(out)@ + pad_right(spaced_hex(bs@.subrange(start as int, end as int)), 47, ' '));
}

/// Appends the ASCII gutter for `bs[start..end]`.
fn push_gutter(out: &mut String, bs: &[u8], start: usize, end: usize)
    requires
        start <= end <= bs@.len(),
    ensures
        final(out)@ == old(out)@ + bs@.subrange(start as int, end as int).map_values(
            |b: u8| gutter_char(b),
        ),
{
    let mut j: usize = start;
    while j < end
        invariant
            start <= j <= end,
            end <= bs@.len(),
            out@ == old(out)@ + bs@.subrange(start as int, j as int).map_values(
                |b: u8| gutter_char(b),
            ),
        decreases end - j,
    {
        let b = bs[j];
        let g = if 0x20 <= b && b < 0x7f {
            b as char
        } else {
            '.'
        };
        push_char(out, g);
        j += 1;
        assert(out@ =~= old(out)@ + bs@.subrange(start as int, j as int).map_values(
            |b: u8| gutter_char(b),
        ));
    }
}

/// Appends line `k` of the dump of `bs`.
fn push_dump_line(out: &mut String, bs: &[u8], k: usize)
    requires
        16 * k < bs@.len(),
    ensures
        final(out)@ == old(out)@ + dump_line(bs@, k as nat),
{
    let len: usize = bs.len();
    assert(16 * k < len);
    let start: usize = 16 * k;
    let end: usize = if bs.len() - start >= 16 {
        start + 16
    } else {
        bs.len()
    };
    assert(chunk(bs@, k as nat) == bs@.subrange(start as int, end as int));
    push_offset(out, start as u64);
    push_char(out, ' ');
    push_char(out, ' ');
    push_hex_column(out, bs, start, end);
    push_char(out, ' ');
    push_char(out, ' ');
    push_gutter(out, bs, start, end);
    assert(out@ =~= old(out)@ + dump_line(bs@, k as nat));
}

/// The dump of `bs`: sixteen bytes per line, lines joined by line breaks.
pub fn hex_dump_of(bs: &[u8]) -> (r: String)
    ensures
        r@ == hex_dump(bs@),
{
    let mut out = String::new();
    let n: usize = bs.len() / 16 + if bs.len() % 16 == 0 { 0 } else { 1 };
    assert(n == line_count(bs@.len() as nat));
    let mut k: usize = 0;
    while k < n
        invariant
            k <= n,
            n == line_count(bs@.len() as nat),
            out@ == dump_lines(bs@, k as nat),
        decreases n - k,
    {
        if k > 0 {
            push_char(&mut out, '\n');
        }
        push_dump_line(&mut out, bs, k);
        k += 1;
    }
    out
}

impl HexInterpreter {
    pub fn name(&self) -> (r: &'static str)
        ensures
            r@ == "Hex Dump"@,
    {
        "Hex Dump"
    }

    /// Always applies: byte and character counts, compact hex and the dump.
    pub fn interpret(&self, content: &str) -> (r: Option<InterpretResult>)
        ensures
            r matches Some(res) && res@ == hex_items(content.spec_bytes(), content@.len()),
    {
        let bytes = content.as_bytes();
        let n_chars = chars_of(content).len();
        let items = vec![
            InterpretItem::text("Bytes", dec_string(bytes.len() as u64)),
            InterpretItem::text("Chars (UTF-8)", dec_string(n_chars as u64)),
            InterpretItem::text("Compact hex", compact_hex_of(bytes)),
            InterpretItem::text("Hex dump", hex_dump_of(bytes)),
        ];
        let r = InterpretResult::new(items);
        assert(r@ =~= hex_items(content.spec_bytes(), content@.len()));
        Some(r)
    }
}

} // verus!
