use vstd::arithmetic::div_mod::{
    lemma_div_multiples_vanish_fancy, lemma_fundamental_div_mod, lemma_mod_multiples_vanish,
    lemma_mod_pos_bound, lemma_small_mod,
};
use vstd::prelude::*;

use super::{item_views, InterpretItem, InterpretResult, ItemView};
use crate::text::{
    chars_of, dec, dec_digit, dec_digit_char, push_char, push_dec, push_str, string_from_chars,
    string_of, trim, trim_of,
};

verus! {

/// Interprets absolute and home-relative file system paths.
pub struct FilePathInterpreter;

/// What the file system says of a path, gathered before the path is
/// described.
pub struct PathFacts {
    pub exists: bool,
    pub is_symlink: bool,
    pub is_file: bool,
    pub is_dir: bool,
    pub parent: Option<String>,
    pub file_name: Option<String>,
    pub stem: Option<String>,
    pub extension: Option<String>,
    /// The file's size in bytes, or the message of the error that reading
    /// it gave.
    pub size: Option<Result<u64, String>>,
    /// Where a symbolic link points, as written in the link.
    pub link_target: Option<String>,
}

pub const KB: u64 = 1024;

pub const MB: u64 = 1024 * 1024;

pub const GB: u64 = 1024 * 1024 * 1024;

/// The path a trimmed text names: it must start with `/` or `~`; a leading
/// `~` becomes the home directory where one is known.
pub open spec fn path_target(t: Seq<char>, home: Option<Seq<char>>) -> Option<Seq<char>> {
    if t.len() == 0 || (t[0] != '/' && t[0] != '~') {
        None
    } else if t[0] == '~' && home is Some {
        Some(home->0 + t.drop_first())
    } else {
        Some(t)
    }
}

pub open spec fn home_view(home: Option<&str>) -> Option<Seq<char>> {
    match home {
        Some(h) => Some(h@),
        None => None,
    }
}

/// `n / d` rounded to the nearest integer, halves to even.
pub open spec fn round_half_even(n: nat, d: nat) -> nat {
    let q = n / d;
    let r = n % d;
    if 2 * r > d || (2 * r == d && q % 2 == 1) {
        q + 1
    } else {
        q
    }
}

/// `b / unit` with two decimals.
pub open spec fn scaled_text(b: nat, unit: nat) -> Seq<char> {
    let h = round_half_even(100 * b, unit);
    dec(h / 100) + seq!['.', dec_digit((h % 100) / 10), dec_digit(h % 10)]
}

/// A size in the largest unit it reaches (of KB, MB and GB, each 1024 of
/// the one below), with the exact byte count.
pub open spec fn size_text(b: u64) -> Seq<char> {
    let unit: nat = if b >= GB {
        GB as nat
    } else if b >= MB {
        MB as nat
    } else {
        KB as nat
    };
    let name = if b >= GB {
        " GB ("@
    } else if b >= MB {
        " MB ("@
    } else {
        " KB ("@
    };
    if b >= KB {
        scaled_text(b as nat, unit) + name + dec(b as nat) + " bytes)"@
    } else {
        dec(b as nat) + " bytes"@
    }
}

pub open spec fn bool_text(v: bool) -> Seq<char> {
    if v {
        "true"@
    } else {
        "false"@
    }
}

/// The node kind: a link first, then a file, a directory, something else
/// that exists, or `—` for nothing.
pub open spec fn kind_text(f: PathFacts) -> Seq<char> {
    if f.is_symlink {
        "Symlink"@
    } else if f.is_file {
        "File"@
    } else if f.is_dir {
        "Directory"@
    } else if f.exists {
        "Other"@
    } else {
        "—"@
    }
}

/// `items` with a text item appended where `v` holds a value.
pub open spec fn push_opt(items: Seq<ItemView>, label: Seq<char>, v: Option<String>) -> Seq<ItemView> {
    match v {
        Some(s) => items.push((label, s@, None)),
        None => items,
    }
}

pub open spec fn size_item_text(s: Result<u64, String>) -> Seq<char> {
    match s {
        Ok(n) => size_text(n),
        Err(e) => "(error: "@ + e@ + seq![')'],
    }
}

/// What the path interpreter shows for a path with the given facts: whether
/// it exists and its kind, and only for an existing path its parts, a
/// file's size and a link's target.
pub open spec fn path_items(f: PathFacts) -> Seq<ItemView> {
    let base = seq![("Exists"@, bool_text(f.exists), None), ("Type"@, kind_text(f), None)];
    if !f.exists {
        base
    } else {
        let a = push_opt(base, "Parent"@, f.parent);
        let b = push_opt(a, "Filename"@, f.file_name);
        let c = push_opt(b, "Stem"@, f.stem);
        let d = push_opt(c, "Extension"@, f.extension);
        let e = if f.is_file && f.size is Some {
            d.push(("Size"@, size_item_text(f.size->0), None))
        } else {
            d
        };
        if f.is_symlink {
            push_opt(e, "Symlink target"@, f.link_target)
        } else {
            e
        }
    }
}

proof fn lemma_split_hundredths(b: nat, unit: nat)
    requires
        unit > 0,
    ensures
        (100 * b) / unit == 100 * (b / unit) + (100 * (b % unit)) / unit,
        (100 * b) % unit == (100 * (b % unit)) % unit,
{
    let q = b / unit;
    let r = b % unit;
    lemma_fundamental_div_mod(b as int, unit as int);
    let q1 = (100 * r) / unit;
    let r1 = (100 * r) % unit;
    lemma_fundamental_div_mod(100 * r as int, unit as int);
    lemma_mod_pos_bound(100 * r as int, unit as int);
    assert(100 * b == unit * (100 * q + q1) + r1) by (nonlinear_arith)
        requires
            b == unit * q + r,
            100 * r == unit * q1 + r1,
    ;
    lemma_div_multiples_vanish_fancy((100 * q + q1) as int, r1 as int, unit as int);
    lemma_mod_multiples_vanish((100 * q + q1) as int, r1 as int, unit as int);
    lemma_small_mod(r1 as nat, unit as nat);
}

fn push_scaled(out: &mut String, b: u64, unit: u64)
    requires
        unit == KB || unit == MB || unit == GB,
    ensures
        final(out)@ == old(out)@ + scaled_text(b as nat, unit as nat),
{
    let q = b / unit;
    let r = b % unit;
    proof {
        lemma_split_hundredths(b as nat, unit as nat);
    }
    assert(q <= u64::MAX / 1024);
    let n = 100 * r;
    let q1 = n / unit;
    let r1 = n % unit;
    let total = 100 * q + q1;
    assert(total % 2 == q1 % 2);
    let h = if 2 * r1 > unit || (2 * r1 == unit && q1 % 2 == 1) {
        total + 1
    } else {
        total
    };
    assert(h == round_half_even(100 * b as nat, unit as nat));
    push_dec(out, h / 100);
    push_char(out, '.');
    push_char(out, dec_digit_char((h % 100) / 10));
    push_char(out, dec_digit_char(h % 10));
    assert(final(out)@ =~= old(out)@ + scaled_text(b as nat, unit as nat));
}

/// A file size for display: scaled with two decimals and the exact count in
/// bytes, or bytes alone below 1024.
pub fn format_size(bytes: u64) -> (r: String)
    ensures
        r@ == size_text(bytes),
{
    let mut s = String::new();
    if bytes >= GB {
        push_scaled(&mut s, bytes, GB);
        push_str(&mut s, " GB (");
    } else if bytes >= MB {
        push_scaled(&mut s, bytes, MB);
        push_str(&mut s, " MB (");
    } else if bytes >= KB {
        push_scaled(&mut s, bytes, KB);
        push_str(&mut s, " KB (");
    } else {
        push_dec(&mut s, bytes);
        push_str(&mut s, " bytes");
        assert(s@ =~= size_text(bytes));
        return s;
    }
    push_dec(&mut s, bytes);
    push_str(&mut s, " bytes)");
    assert(s@ =~= size_text(bytes));
    s
}

fn push_opt_item(items: &mut Vec<InterpretItem>, label: &str, v: &Option<String>)
    ensures
        item_views(final(items)@) == push_opt(
            item_views(old(items)@),
            label@,
            *v,
        ),
{
    match v {
        Some(s) => {
            items.push(InterpretItem::text(label, s.clone()));
            assert(item_views(final(items)@) =~= push_opt(
                item_views(old(items)@),
                label@,
                *v,
            ));
        },
        None => {},
    }
}

impl FilePathInterpreter {
    pub fn name(&self) -> (r: &'static str)
        ensures
            r@ == "File Path"@,
    {
        "File Path"
    }

    /// Whether `content` names a path: its trimmed text starts with `/` or
    /// `~`.
    pub fn applies(content: &str) -> (r: bool)
        ensures
            r == (path_target(trim_of(content@), None) is Some),
    {
        let t = chars_of(trim(content));
        t.len() > 0 && (t[0] == '/' || t[0] == '~')
    }

    /// The path that `content` names, if it names one: its trimmed text
    /// starts with `/` or `~`, and a leading `~` is replaced by `home` where
    /// that is known.
    pub fn target(content: &str, home: Option<&str>) -> (r: Option<String>)
        ensures
            match path_target(trim_of(content@), home_view(home)) {
                Some(p) => r matches Some(s) && s@ == p,
                None => r is None,
            },
    {
        let t = chars_of(trim(content));
        if t.len() == 0 || (t[0] != '/' && t[0] != '~') {
            return None;
        }
        if t[0] == '~' {
            match home {
                Some(h) => {
                    let mut s = string_of(h);
                    let mut i: usize = 1;
                    while i < t.len()
                        invariant
                            1 <= i <= t@.len(),
                            s@ == h@ + t@.subrange(1, i as int),
                        decreases t@.len() - i,
                    {
                        push_char(&mut s, t[i]);
                        i += 1;
                        assert(s@ =~= h@ + t@.subrange(1, i as int));
                    }
                    assert(t@.subrange(1, i as int) =~= t@.drop_first());
                    return Some(s);
                },
                None => {},
            }
        }
        Some(string_from_chars(t.as_slice()))
    }

    /// Describes a path from what the file system says of it.
    pub fn describe(facts: &PathFacts) -> (r: InterpretResult)
        ensures
            r@ == path_items(*facts),
    {
        let kind = if facts.is_symlink {
            "Symlink"
        } else if facts.is_file {
            "File"
        } else if facts.is_dir {
            "Directory"
        } else if facts.exists {
            "Other"
        } else {
            "—"
        };
        let mut items = vec![
            InterpretItem::text("Exists", string_of(if facts.exists { "true" } else { "false" })),
            InterpretItem::text("Type", string_of(kind)),
        ];
        assert(item_views(items@) =~= seq![
            ("Exists"@, bool_text(facts.exists), None),
            ("Type"@, kind_text(*facts), None),
        ]);
        let ghost base = item_views(items@);
        if facts.exists {
            push_opt_item(&mut items, "Parent", &facts.parent);
            push_opt_item(&mut items, "Filename", &facts.file_name);
            push_opt_item(&mut items, "Stem", &facts.stem);
            push_opt_item(&mut items, "Extension", &facts.extension);
            let ghost d = push_opt(
                push_opt(
                    push_opt(push_opt(base, "Parent"@, facts.parent), "Filename"@, facts.file_name),
                    "Stem"@,
                    facts.stem,
                ),
                "Extension"@,
                facts.extension,
            );
            assert(item_views(items@) == d);
            if facts.is_file {
                match &facts.size {
                    Some(Ok(n)) => {
                        let ghost prev = item_views(items@);
                        let it = InterpretItem::text("Size", format_size(*n));
                        assert(it@ == ("Size"@, size_item_text(facts.size->0), None::<[u8; 4]>));
                        items.push(it);
                        assert(item_views(items@) =~= prev.push(it@));
                    },
                    Some(Err(e)) => {
                        let mut msg = string_of("(error: ");
                        push_str(&mut msg, e.as_str());
                        push_char(&mut msg, ')');
                        let ghost prev = item_views(items@);
                        assert(msg@ =~= size_item_text(facts.size->0));
                        let it = InterpretItem::text("Size", msg);
                        assert(it@ == ("Size"@, size_item_text(facts.size->0), None::<[u8; 4]>));
                        items.push(it);
                        assert(item_views(items@) =~= prev.push(it@));
                    },
                    None => {},
                }
            }
            let ghost e = if facts.is_file && facts.size is Some {
                d.push(("Size"@, size_item_text(facts.size->0), None))
            } else {
                d
            };
            assert(item_views(items@) == e);
            if facts.is_symlink {
                push_opt_item(&mut items, "Symlink target", &facts.link_target);
            }
        }
        let r = InterpretResult::new(items);
        assert(r@ =~= path_items(*facts));
        r
    }
}

} // verus!
