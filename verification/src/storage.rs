//! Per-date stores: the append-only staging log of serialized events and
//! the store of daily notes, together with the line codec that lays staging
//! entries out as newline-terminated records.
//!
//! The stores model the contents of the two storage subdirectories (one
//! staging file and one note file per calendar date); the surrounding
//! application moves whole file texts in and out of them.
use vstd::prelude::*;

use crate::kv::KvList;
use crate::strutil::{
    clone_strings, first_at, lemma_first_at_is, lemma_ne_lines_skip, ne_lines, ne_lines_from,
    split_nonempty_lines, strip_cr,
};

verus! {

/// The staged events of every date; absence of a date models absence of
/// its staging file.
pub struct StagingLog {
    pub days: KvList<Vec<String>>,
}

impl StagingLog {
    pub open spec fn wf(&self) -> bool {
        self.days.wf()
    }

    /// The entries staged for date `d`, oldest first; empty when the date
    /// has never been written (absence is not an error).
    pub open spec fn entries_for(&self, d: Seq<char>) -> Seq<Seq<char>> {
        match self.days.spec_get(d) {
            Some(v) => v.deep_view(),
            None => Seq::empty(),
        }
    }

    /// Whether any record of date `d` exists at all.
    pub open spec fn has_day(&self, d: Seq<char>) -> bool {
        self.days.contains_key(d)
    }

    pub fn new() -> (r: Self)
        ensures
            r.wf(),
            forall|d: Seq<char>| r.entries_for(d) == Seq::<Seq<char>>::empty(),
            forall|d: Seq<char>| !r.has_day(d),
    {
        StagingLog { days: KvList::new() }
    }

    /// Appends one entry to the end of the date's record; every other
    /// date's record stays as it was.
    pub fn append(&mut self, date: &str, entry: &str)
        requires
            old(self).wf(),
        ensures
            final(self).wf(),
            final(self).entries_for(date@) == old(self).entries_for(date@).push(entry@),
            final(self).has_day(date@),
            forall|d2: Seq<char>|
                d2 != date@ ==> final(self).entries_for(d2) == old(self).entries_for(d2)
                    && final(self).has_day(d2) == old(self).has_day(d2),
    {
        let ghost before = self.entries_for(date@);
        let mut cur: Vec<String> = match self.days.get(date) {
            Some(v) => clone_strings(v),
            None => Vec::new(),
        };
        proof {
            assert(cur.deep_view() =~= before);
        }
        cur.push(entry.to_owned());
        proof {
            assert(cur.deep_view() =~= before.push(entry@));
        }
        self.days.insert(date.to_owned(), cur);
    }

    /// All entries staged for the date, oldest first; an unknown date
    /// yields the empty vector, not an error.
    pub fn read(&self, date: &str) -> (r: Vec<String>)
        ensures
            r.deep_view() == self.entries_for(date@),
    {
        match self.days.get(date) {
            Some(v) => {
                let r = clone_strings(v);
                proof {
                    assert(r.deep_view() =~= self.entries_for(date@));
                }
                r
            },
            None => {
                let r: Vec<String> = Vec::new();
                proof {
                    assert(r.deep_view() =~= Seq::<Seq<char>>::empty());
                }
                r
            },
        }
    }

    /// Removes the date's record entirely; clearing an unknown date is a
    /// no-op, not an error.
    pub fn clear(&mut self, date: &str)
        requires
            old(self).wf(),
        ensures
            final(self).wf(),
            !final(self).has_day(date@),
            final(self).entries_for(date@) == Seq::<Seq<char>>::empty(),
            forall|d2: Seq<char>|
                d2 != date@ ==> final(self).entries_for(d2) == old(self).entries_for(d2)
                    && final(self).has_day(d2) == old(self).has_day(d2),
    {
        self.days.remove(date);
    }

    pub fn contains_day(&self, date: &str) -> (r: bool)
        ensures
            r == self.has_day(date@),
    {
        self.days.contains(date)
    }
}

/// The daily notes, one markdown text per date; writing a date again
/// overwrites its note (idempotent re-generation).
pub struct NoteStore {
    pub notes: KvList<String>,
}

impl NoteStore {
    pub open spec fn wf(&self) -> bool {
        self.notes.wf()
    }

    /// The note text recorded for date `d`, if one has been written.
    pub open spec fn note_for(&self, d: Seq<char>) -> Option<Seq<char>> {
        match self.notes.spec_get(d) {
            Some(v) => Some(v@),
            None => None,
        }
    }

    pub fn new() -> (r: Self)
        ensures
            r.wf(),
            forall|d: Seq<char>| r.note_for(d) is None,
    {
        NoteStore { notes: KvList::new() }
    }

    /// Sets the date's note to exactly `content`, replacing any earlier
    /// note; every other date's note stays as it was.
    pub fn write_note(&mut self, date: &str, content: &str)
        requires
            old(self).wf(),
        ensures
            final(self).wf(),
            final(self).note_for(date@) == Some(content@),
            forall|d2: Seq<char>|
                d2 != date@ ==> final(self).note_for(d2) == old(self).note_for(d2),
    {
        self.notes.insert(date.to_owned(), content.to_owned());
    }

    /// The note written for the date, if any; absence is not an error.
    pub fn read_note(&self, date: &str) -> (r: Option<String>)
        ensures
            match r {
                Some(s) => self.note_for(date@) == Some(s@),
                None => self.note_for(date@) is None,
            },
    {
        match self.notes.get(date) {
            Some(v) => Some(v.clone()),
            None => None,
        }
    }
}

/// The text of a staging file holding `lines` in order: each line followed
/// by one newline.
pub open spec fn staging_text(lines: Seq<Seq<char>>) -> Seq<char>
    decreases lines.len(),
{
    if lines.len() == 0 {
        Seq::empty()
    } else {
        lines[0] + seq!['\n'] + staging_text(lines.drop_first())
    }
}

/// Appending a record to a staging file appends the line and a newline.
pub proof fn lemma_staging_text_push(lines: Seq<Seq<char>>, l: Seq<char>)
    ensures
        staging_text(lines.push(l)) == staging_text(lines) + l + seq!['\n'],
    decreases lines.len(),
{
    if lines.len() == 0 {
        assert(lines.push(l).drop_first() =~= Seq::<Seq<char>>::empty());
        assert(staging_text(lines.push(l).drop_first()) =~= Seq::<char>::empty());
        assert(staging_text(lines.push(l)) =~= staging_text(lines) + l + seq!['\n']);
    } else {
        assert(lines.push(l).drop_first() =~= lines.drop_first().push(l));
        lemma_staging_text_push(lines.drop_first(), l);
        assert(staging_text(lines.push(l)) =~= staging_text(lines) + l + seq!['\n']);
    }
}

/// One staging record as it is written to the file: the entry text with a
/// terminating newline.
pub fn encode_staging_line(entry: &str) -> (r: String)
    ensures
        r@ == entry@ + seq!['\n'],
{
    proof {
        reveal_strlit("\n");
    }
    let r = entry.to_owned().concat("\n");
    proof {
        assert(r@ =~= entry@ + seq!['\n']);
    }
    r
}

/// Decodes a staging file's text back into its records: its non-empty
/// lines, in file order.
pub fn decode_staging_text(content: &str) -> (r: Vec<String>)
    ensures
        r.deep_view() == ne_lines(content@),
{
    split_nonempty_lines(content)
}

/// Round trip of the staging line codec: a file laid out from entries that
/// are non-empty, hold no newline, and do not end in a carriage return
/// decodes to exactly those entries, in order.
pub proof fn lemma_staging_roundtrip(lines: Seq<Seq<char>>)
    requires
        forall|i: int|
            0 <= i < lines.len() ==> lines[i].len() > 0 && !lines[i].contains('\n')
                && lines[i][lines[i].len() - 1] != '\r',
    ensures
        ne_lines(staging_text(lines)) == lines,
    decreases lines.len(),
{
    if lines.len() == 0 {
        assert(ne_lines(staging_text(lines)) =~= lines);
    } else {
        let l0 = lines[0];
        let rest = lines.drop_first();
        let f = staging_text(lines);
        assert(f == l0 + seq!['\n'] + staging_text(rest));
        assert(forall|m: int| 0 <= m < l0.len() ==> f[m] == l0[m] && l0[m] != '\n');
        assert(f[l0.len() as int] == '\n');
        lemma_first_at_is(f, '\n', 0, l0.len() as int);
        assert(f.subrange(0, l0.len() as int) =~= l0);
        assert(strip_cr(l0) == l0);
        lemma_ne_lines_skip(f, l0.len() as int + 1);
        assert(f.subrange(l0.len() as int + 1, f.len() as int) =~= staging_text(rest));
        assert(forall|i: int|
            0 <= i < rest.len() ==> rest[i].len() > 0 && !rest[i].contains('\n')
                && rest[i][rest[i].len() - 1] != '\r');
        lemma_staging_roundtrip(rest);
        assert(ne_lines_from(f, 0) == seq![l0] + rest);
        assert(seq![l0] + rest =~= lines);
    }
}

} // verus!
