use std::collections::VecDeque;

use vstd::prelude::*;

use crate::clock::{clock_instant, clock_text, format_clock, local_hms, now_unix_secs};
use crate::text::{chars_of, push_char, string_from_chars, trim, trim_of};

verus! {

/// What an entry holds: its text and its capture time in Unix seconds.
pub type EntryView = (Seq<char>, u64);

/// One captured clipboard snapshot. Neither field changes once it is made.
pub struct ClipboardEntry {
    content: String,
    unix_secs: u64,
}

impl View for ClipboardEntry {
    type V = EntryView;

    closed spec fn view(&self) -> EntryView {
        (self.content@, self.unix_secs)
    }
}

/// A line break or tab, which a preview shows as a space.
pub open spec fn is_layout_char(c: char) -> bool {
    c == '\n' || c == '\r' || c == '\t'
}

/// The trimmed text on one line: line breaks and tabs become spaces.
pub open spec fn single_line(s: Seq<char>) -> Seq<char> {
    trim_of(s).map_values(|c: char| if is_layout_char(c) { ' ' } else { c })
}

/// At most `max_chars` characters of the single-line text, with `…` added
/// where some were cut off.
pub open spec fn preview_text(s: Seq<char>, max_chars: nat) -> Seq<char> {
    let line = single_line(s);
    if line.len() > max_chars {
        line.take(max_chars as int).push('…')
    } else {
        line
    }
}

impl ClipboardEntry {
    /// An entry captured now.
    pub fn new(content: String) -> (r: Self)
        ensures
            r@.0 == content@,
    {
        let unix_secs = now_unix_secs();
        ClipboardEntry { content, unix_secs }
    }

    /// An entry captured at the given Unix second.
    pub fn with_timestamp(content: String, unix_secs: u64) -> (r: Self)
        ensures
            r@ == (content@, unix_secs),
    {
        ClipboardEntry { content, unix_secs }
    }

    pub fn content(&self) -> (r: &str)
        ensures
            r@ == self@.0,
    {
        self.content.as_str()
    }

    pub fn unix_secs(&self) -> (r: u64)
        ensures
            r == self@.1,
    {
        self.unix_secs
    }

    /// A truncated one-line preview for a list of entries.
    pub fn preview(&self, max_chars: usize) -> (r: String)
        ensures
            r@ == preview_text(self@.0, max_chars as nat),
    {
        let trimmed = trim(self.content.as_str());
        let cs = chars_of(trimmed);
        let mut line: Vec<char> = Vec::new();
        let mut i: usize = 0;
        while i < cs.len()
            invariant
                i <= cs@.len(),
                cs@ == trim_of(self@.0),
                line@ == single_line(self@.0).take(i as int),
            decreases cs@.len() - i,
        {
            let c = cs[i];
            let d = if c == '\n' || c == '\r' || c == '\t' {
                ' '
            } else {
                c
            };
            line.push(d);
            i += 1;
            assert(line@ =~= single_line(self@.0).take(i as int));
        }
        assert(line@ =~= single_line(self@.0));
        if line.len() > max_chars {
            line.truncate(max_chars);
            let mut out = string_from_chars(line.as_slice());
            push_char(&mut out, '…');
            assert(out@ =~= preview_text(self@.0, max_chars as nat));
            out
        } else {
            string_from_chars(line.as_slice())
        }
    }

    /// The capture time as `HH:MM:SS` in the machine's time zone
    /// (`??:??:??` where it has none for that instant). The instant looked
    /// up is `clock_instant(self.unix_secs())`.
    pub fn timestamp_str(&self) -> (r: String)
        ensures
            exists|t: Option<(u32, u32, u32)>|
                (t matches Some((h, m, s)) ==> h < 24 && m < 60 && s < 60) && r@ == clock_text(t),
    {
        let t = local_hms(clock_instant(self.unix_secs));
        format_clock(t)
    }
}

/// One entry as the history file records it: newest first, times in whole
/// seconds.
pub struct StoredEntry {
    pub content: String,
    pub unix_secs: u64,
}

/// The entries that a list of records describes, in the same order.
pub open spec fn records_view(records: Seq<StoredEntry>) -> Seq<EntryView> {
    records.map_values(|r: StoredEntry| (r.content@, r.unix_secs))
}

/// The first `cap` entries of `v`, or all of them where there are fewer.
pub open spec fn capped(v: Seq<EntryView>, cap: nat) -> Seq<EntryView> {
    if v.len() > cap {
        v.take(cap as int)
    } else {
        v
    }
}

/// Whether adding `content` to the entries `v` is suppressed: it equals the
/// newest entry's text.
pub open spec fn is_repeat(v: Seq<EntryView>, content: Seq<char>) -> bool {
    v.len() > 0 && v[0].0 == content
}

/// The entries after adding `content`, captured at `secs`, to `v` under
/// capacity `cap`: unchanged for a repeat of the newest entry, otherwise the
/// new entry in front and, where `v` was full, the oldest one gone.
pub open spec fn added(v: Seq<EntryView>, cap: nat, content: Seq<char>, secs: u64) -> Seq<EntryView> {
    if is_repeat(v, content) {
        v
    } else if v.len() >= cap {
        seq![(content, secs)] + v.take(v.len() - 1)
    } else {
        seq![(content, secs)] + v
    }
}

/// The capacity of a history made without one.
pub const DEFAULT_CAPACITY: usize = 50;

/// A bounded, newest-first history of clipboard entries.
pub struct ClipboardHistory {
    entries: VecDeque<ClipboardEntry>,
    max_size: usize,
}

impl View for ClipboardHistory {
    type V = Seq<EntryView>;

    closed spec fn view(&self) -> Seq<EntryView> {
        self.entries@.map_values(|e: ClipboardEntry| e@)
    }
}

impl ClipboardHistory {
    /// The most entries the history keeps.
    pub closed spec fn capacity(&self) -> nat {
        self.max_size as nat
    }

    /// The capacity is positive and the entries fit in it.
    pub closed spec fn wf(&self) -> bool {
        &&& self.max_size > 0
        &&& self.entries@.len() <= self.max_size
    }

    pub fn new(max_size: usize) -> (r: Self)
        requires
            max_size > 0,
        ensures
            r.wf(),
            r.capacity() == max_size,
            r@ == Seq::<EntryView>::empty(),
    {
        let r = ClipboardHistory { entries: VecDeque::new(), max_size };
        assert(r@ =~= Seq::<EntryView>::empty());
        r
    }

    /// A history holding the first `max_size` of the given records, in their
    /// order (newest first).
    pub fn from_stored(stored: Vec<StoredEntry>, max_size: usize) -> (r: Self)
        requires
            max_size > 0,
        ensures
            r.wf(),
            r.capacity() == max_size,
            r@ == capped(records_view(stored@), max_size as nat),
    {
        let mut history = Self::new(max_size);
        let ghost src = records_view(stored@);
        let ghost n: int = capped(src, max_size as nat).len() as int;
        for rec in it: stored
            invariant
                history.wf(),
                history.max_size == max_size,
                it.seq() == stored@,
                src == records_view(stored@),
                n == capped(src, max_size as nat).len(),
                history@ == src.take(if it.index() < n { it.index() as int } else { n }),
        {
            if history.entries.len() < max_size {
                let ghost before = history@;
                history.entries.push_back(ClipboardEntry { content: rec.content, unix_secs: rec.unix_secs });
                assert(history@ =~= before.push(src[it.index() as int]));
                assert(history@ =~= src.take(it.index() + 1));
            }
        }
        assert(history@ =~= capped(src, max_size as nat));
        history
    }

    /// The records that describe the current entries, newest first.
    pub fn to_stored(&self) -> (r: Vec<StoredEntry>)
        ensures
            records_view(r@) == self@,
    {
        let mut out: Vec<StoredEntry> = Vec::new();
        let mut i: usize = 0;
        while i < self.entries.len()
            invariant
                i <= self.entries@.len(),
                out@.len() == i,
                records_view(out@) == self@.take(i as int),
            decreases self.entries@.len() - i,
        {
            let e = &self.entries[i];
            assert(self@[i as int] == (e.content@, e.unix_secs));
            let ghost prev = out@;
            out.push(StoredEntry { content: e.content.clone(), unix_secs: e.unix_secs });
            assert(records_view(out@) =~= records_view(prev).push(self@[i as int]));
            i += 1;
            assert(records_view(out@) =~= self@.take(i as int));
        }
        assert(self@.take(i as int) =~= self@);
        out
    }

    /// Adds `content` as captured at `unix_secs`, unless it repeats the
    /// newest entry. Returns whether it was added.
    pub fn add_at(&mut self, content: String, unix_secs: u64) -> (r: bool)
        requires
            old(self).wf(),
        ensures
            final(self).wf(),
            final(self).capacity() == old(self).capacity(),
            r == !is_repeat(old(self)@, content@),
            final(self)@ == added(old(self)@, old(self).capacity(), content@, unix_secs),
            final(self)@.len() <= final(self).capacity(),
    {
        if self.entries.len() > 0 {
            if self.entries[0].content == content {
                return false;
            }
        }
        let ghost before = self@;
        if self.entries.len() >= self.max_size {
            self.entries.pop_back();
        }
        self.entries.push_front(ClipboardEntry { content, unix_secs });
        assert(self@ =~= added(before, self.capacity(), content@, unix_secs));
        true
    }

    /// Adds `content` as captured now, unless it repeats the newest entry.
    /// Returns whether it was added.
    pub fn add(&mut self, content: String) -> (r: bool)
        requires
            old(self).wf(),
        ensures
            final(self).wf(),
            final(self).capacity() == old(self).capacity(),
            r == !is_repeat(old(self)@, content@),
            exists|secs: u64| final(self)@ == added(old(self)@, old(self).capacity(), content@, secs),
            final(self)@.len() <= final(self).capacity(),
    {
        let secs = now_unix_secs();
        self.add_at(content, secs)
    }

    pub fn entries(&self) -> (r: &VecDeque<ClipboardEntry>)
        ensures
            r@.map_values(|e: ClipboardEntry| e@) == self@,
    {
        &self.entries
    }

    pub fn get(&self, index: usize) -> (r: Option<&ClipboardEntry>)
        ensures
            index < self@.len() ==> (r matches Some(e) && e@ == self@[index as int]),
            index >= self@.len() ==> r is None,
    {
        if index < self.entries.len() {
            Some(&self.entries[index])
        } else {
            None
        }
    }

    /// Removes the entry at `index`; an index past the end changes nothing.
    pub fn remove(&mut self, index: usize)
        requires
            old(self).wf(),
        ensures
            final(self).wf(),
            final(self).capacity() == old(self).capacity(),
            index < old(self)@.len() ==> final(self)@ == old(self)@.remove(index as int),
            index >= old(self)@.len() ==> final(self)@ == old(self)@,
    {
        let ghost before = self.entries@;
        let _ = self.entries.remove(index);
        proof {
            if index < before.len() {
                assert(self@ =~= before.map_values(|e: ClipboardEntry| e@).remove(index as int));
            }
        }
    }

    pub fn clear(&mut self)
        requires
            old(self).wf(),
        ensures
            final(self).wf(),
            final(self).capacity() == old(self).capacity(),
            final(self)@ == Seq::<EntryView>::empty(),
    {
        self.entries.clear();
        assert(self@ =~= Seq::<EntryView>::empty());
    }

    pub fn len(&self) -> (r: usize)
        ensures
            r == self@.len(),
    {
        self.entries.len()
    }

    pub fn is_empty(&self) -> (r: bool)
        ensures
            r == (self@.len() == 0),
    {
        self.entries.len() == 0
    }
}

impl Default for ClipboardHistory {
    /// An empty history with the default capacity.
    fn default() -> (r: Self)
        ensures
            r.wf(),
            r.capacity() == DEFAULT_CAPACITY,
            r@ == Seq::<EntryView>::empty(),
    {
        Self::new(DEFAULT_CAPACITY)
    }
}

/// The entries after adding each of `contents` in turn, the `k`-th captured
/// at `secs[k]`.
pub open spec fn added_all(
    v: Seq<EntryView>,
    cap: nat,
    contents: Seq<Seq<char>>,
    secs: Seq<u64>,
) -> Seq<EntryView>
    decreases contents.len(),
{
    if contents.len() == 0 || secs.len() < contents.len() {
        v
    } else {
        let k = contents.len() - 1;
        added(added_all(v, cap, contents.take(k), secs.take(k)), cap, contents[k], secs[k])
    }
}

/// However many entries are added, the history never holds more than its
/// capacity, and the newest entry is always the text added last.
pub proof fn lemma_adds_stay_bounded(
    v: Seq<EntryView>,
    cap: nat,
    contents: Seq<Seq<char>>,
    secs: Seq<u64>,
)
    requires
        cap > 0,
        v.len() <= cap,
        secs.len() == contents.len(),
    ensures
        added_all(v, cap, contents, secs).len() <= cap,
        contents.len() > 0 ==> added_all(v, cap, contents, secs)[0].0 == contents.last(),
    decreases contents.len(),
{
    if contents.len() > 0 {
        let k = contents.len() - 1;
        lemma_adds_stay_bounded(v, cap, contents.take(k), secs.take(k));
    }
}

/// Adding the same text twice in a row adds it once: the second add is
/// refused and changes nothing.
pub proof fn lemma_repeated_add_is_refused(
    v: Seq<EntryView>,
    cap: nat,
    content: Seq<char>,
    first: u64,
    second: u64,
)
    requires
        cap > 0,
    ensures
        is_repeat(added(v, cap, content, first), content),
        added(added(v, cap, content, first), cap, content, second) == added(v, cap, content, first),
{
}

/// Only the newest entry counts as a repeat: on an empty history with room
/// for three, adding `x`, `y`, `x` keeps all three, `x` twice.
pub proof fn lemma_repeat_check_is_adjacent_only(
    cap: nat,
    x: Seq<char>,
    y: Seq<char>,
    t1: u64,
    t2: u64,
    t3: u64,
)
    requires
        cap >= 3,
        x != y,
    ensures
        added(added(added(Seq::empty(), cap, x, t1), cap, y, t2), cap, x, t3)
            == seq![(x, t3), (y, t2), (x, t1)],
{
    let a = added(Seq::empty(), cap, x, t1);
    assert(a =~= seq![(x, t1)]);
    let b = added(a, cap, y, t2);
    assert(b =~= seq![(y, t2), (x, t1)]);
    assert(added(b, cap, x, t3) =~= seq![(x, t3), (y, t2), (x, t1)]);
}

/// Saving a history and loading the records back with capacity `cap` gives
/// its entries, text and second, cut to the first `cap`; with the history's
/// own capacity, exactly its entries.
pub proof fn lemma_save_load_round_trip(h: ClipboardHistory, stored: Seq<StoredEntry>, cap: nat)
    requires
        h.wf(),
        records_view(stored) == h@,
    ensures
        capped(records_view(stored), cap) == (if h@.len() > cap { h@.take(cap as int) } else { h@ }),
        capped(records_view(stored), h.capacity()) == h@,
        h@.len() <= cap ==> capped(records_view(stored), cap) == h@,
{
}

/// Removing the entry at an index within bounds shortens the entries by one
/// and keeps the others in their order.
pub proof fn lemma_remove_keeps_order(v: Seq<EntryView>, i: int)
    requires
        0 <= i < v.len(),
    ensures
        v.remove(i).len() == v.len() - 1,
        forall|j: int| 0 <= j < i ==> v.remove(i)[j] == v[j],
        forall|j: int| i <= j < v.len() - 1 ==> v.remove(i)[j] == v[j + 1],
{
}

/// Where a selection stands after the entry at `removed` is deleted: gone
/// if it was that entry, one lower if it was after it, unchanged otherwise.
pub open spec fn selection_after(selected: Option<usize>, removed: usize) -> Option<usize> {
    match selected {
        Some(sel) => if sel == removed {
            None
        } else if sel > removed {
            Some((sel - 1) as usize)
        } else {
            Some(sel)
        },
        None => None,
    }
}

/// Adjusts a selected index held outside the history for the removal of
/// the entry at `removed`.
pub fn selection_after_remove(selected: Option<usize>, removed: usize) -> (r: Option<usize>)
    ensures
        r == selection_after(selected, removed),
{
    match selected {
        Some(sel) => if sel == removed {
            None
        } else if sel > removed {
            Some(sel - 1)
        } else {
            Some(sel)
        },
        None => None,
    }
}

} // verus!
