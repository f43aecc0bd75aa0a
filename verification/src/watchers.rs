//! Raw activity events and their wire form: one JSON object per staging
//! line, with every string field escaped by the verified encoder below.
use vstd::prelude::*;

pub mod git;

use crate::storage::{lemma_staging_roundtrip, staging_text, StagingLog};
use crate::strutil::{ne_lines, push_char};

verus! {

/// The payload of a commit event: which repository, which commit, its
/// subject line and author.
#[derive(Clone, Debug)]
pub struct CommitData {
    pub repo: String,
    pub hash: String,
    pub subject: String,
    pub author: String,
}

/// The kinds of raw events; only commits exist today, the staging format
/// leaves room for more.
#[derive(Clone, Copy, Debug, PartialEq, Eq, Structural)]
pub enum EventKind {
    Commit,
}

/// One immutable ingested event: a source tag, the event's own ISO-8601
/// timestamp, its kind, and the structured payload.
#[derive(Clone, Debug)]
pub struct RawEvent {
    pub source: String,
    pub timestamp: String,
    pub kind: EventKind,
    pub data: CommitData,
}

/// How one character is written inside a JSON string: quote, backslash
/// and the common control characters get two-character escapes, the other
/// control characters a `\u00XX` escape, everything else stands as itself.
pub open spec fn esc_char(c: char) -> Seq<char> {
    if c == '"' {
        seq!['\\', '"']
    } else if c == '\\' {
        seq!['\\', '\\']
    } else if c == '\n' {
        seq!['\\', 'n']
    } else if c == '\r' {
        seq!['\\', 'r']
    } else if c == '\t' {
        seq!['\\', 't']
    } else if (c as u32) < 0x20 {
        seq!['\\', 'u', '0', '0', hex_digit((c as u32 / 16) as int), hex_digit((c as u32 % 16) as int)]
    } else {
        seq![c]
    }
}

/// The lower-case hexadecimal digit for `n` in `0..16`.
pub open spec fn hex_digit(n: int) -> char {
    if n == 0 { '0' }
    else if n == 1 { '1' }
    else if n == 2 { '2' }
    else if n == 3 { '3' }
    else if n == 4 { '4' }
    else if n == 5 { '5' }
    else if n == 6 { '6' }
    else if n == 7 { '7' }
    else if n == 8 { '8' }
    else if n == 9 { '9' }
    else if n == 10 { 'a' }
    else if n == 11 { 'b' }
    else if n == 12 { 'c' }
    else if n == 13 { 'd' }
    else if n == 14 { 'e' }
    else { 'f' }
}

/// The body of a JSON string holding `s`: each character escaped in turn.
pub open spec fn json_escaped(s: Seq<char>) -> Seq<char>
    decreases s.len(),
{
    if s.len() == 0 {
        Seq::empty()
    } else {
        esc_char(s[0]) + json_escaped(s.drop_first())
    }
}

/// A whole JSON string literal holding `s`.
pub open spec fn json_string(s: Seq<char>) -> Seq<char> {
    seq!['"'] + json_escaped(s) + seq!['"']
}

pub proof fn lemma_json_escaped_push(s: Seq<char>, c: char)
    ensures
        json_escaped(s.push(c)) == json_escaped(s) + esc_char(c),
    decreases s.len(),
{
    if s.len() == 0 {
        assert(s.push(c).drop_first() =~= Seq::<char>::empty());
        assert(json_escaped(s.push(c).drop_first()) =~= Seq::<char>::empty());
        assert(json_escaped(s.push(c)) =~= json_escaped(s) + esc_char(c));
    } else {
        assert(s.push(c).drop_first() =~= s.drop_first().push(c));
        lemma_json_escaped_push(s.drop_first(), c);
        assert(json_escaped(s.push(c)) =~= json_escaped(s) + esc_char(c));
    }
}

/// A sequence free of raw newlines and carriage returns — what makes a
/// staging line safe to store one per line.
pub open spec fn line_clean(s: Seq<char>) -> bool {
    forall|k: int| 0 <= k < s.len() ==> s[k] != '\n' && s[k] != '\r'
}

/// Escaping leaves no raw newline or carriage return behind.
pub proof fn lemma_json_escaped_clean(s: Seq<char>)
    ensures
        line_clean(json_escaped(s)),
    decreases s.len(),
{
    if s.len() > 0 {
        lemma_json_escaped_clean(s.drop_first());
        assert(line_clean(esc_char(s[0])));
    }
}

/// Hexadecimal digit for `n` in `0..16`, as `hex_digit` reads.
fn hex_char(n: u32) -> (r: char)
    requires
        n < 16,
    ensures
        r == hex_digit(n as int),
{
    if n == 0 { '0' }
    else if n == 1 { '1' }
    else if n == 2 { '2' }
    else if n == 3 { '3' }
    else if n == 4 { '4' }
    else if n == 5 { '5' }
    else if n == 6 { '6' }
    else if n == 7 { '7' }
    else if n == 8 { '8' }
    else if n == 9 { '9' }
    else if n == 10 { 'a' }
    else if n == 11 { 'b' }
    else if n == 12 { 'c' }
    else if n == 13 { 'd' }
    else if n == 14 { 'e' }
    else { 'f' }
}

/// Appends the escaped body of `s` to `out`.
fn append_json_escaped(out: &mut String, s: &str)
    ensures
        final(out)@ == old(out)@ + json_escaped(s@),
{
    let n = s.unicode_len();
    let mut i: usize = 0;
    proof {
        assert(s@.subrange(0, 0) =~= Seq::<char>::empty());
        assert(out@ + json_escaped(s@.subrange(0, 0)) =~= out@);
    }
    while i < n
        invariant
            0 <= i <= n,
            n == s@.len(),
            out@ == old(out)@ + json_escaped(s@.subrange(0, i as int)),
        decreases n - i,
    {
        let ghost prefix = s@.subrange(0, i as int);
        let c = s.get_char(i);
        proof {
            assert(s@.subrange(0, i as int + 1) =~= prefix.push(c));
            lemma_json_escaped_push(prefix, c);
        }
        if c == '"' {
            out.append("\\\"");
            proof {
                reveal_strlit("\\\"");
                assert("\\\""@ =~= esc_char(c));
            }
        } else if c == '\\' {
            out.append("\\\\");
            proof {
                reveal_strlit("\\\\");
                assert("\\\\"@ =~= esc_char(c));
            }
        } else if c == '\n' {
            out.append("\\n");
            proof {
                reveal_strlit("\\n");
                assert("\\n"@ =~= esc_char(c));
            }
        } else if c == '\r' {
            out.append("\\r");
            proof {
                reveal_strlit("\\r");
                assert("\\r"@ =~= esc_char(c));
            }
        } else if c == '\t' {
            out.append("\\t");
            proof {
                reveal_strlit("\\t");
                assert("\\t"@ =~= esc_char(c));
            }
        } else if (c as u32) < 0x20 {
            let ghost before = out@;
            out.append("\\u00");
            push_char(out, hex_char((c as u32) / 16));
            push_char(out, hex_char((c as u32) % 16));
            proof {
                reveal_strlit("\\u00");
                assert(out@ =~= before + esc_char(c));
            }
        } else {
            push_char(out, c);
            proof {
                assert(out@.drop_last() + esc_char(c) =~= out@);
            }
        }
        proof {
            assert(out@ =~= old(out)@ + json_escaped(s@.subrange(0, i as int + 1)));
        }
        i = i + 1;
    }
    proof {
        assert(s@.subrange(0, n as int) =~= s@);
    }
}

/// Appends a whole JSON string literal holding `s` to `out`.
fn append_json_string(out: &mut String, s: &str)
    ensures
        final(out)@ == old(out)@ + json_string(s@),
{
    push_char(out, '"');
    append_json_escaped(out, s);
    push_char(out, '"');
    proof {
        assert(out@ =~= old(out)@ + json_string(s@));
    }
}

/// The serialized name of an event kind.
pub open spec fn kind_name(k: EventKind) -> Seq<char> {
    match k {
        EventKind::Commit => "Commit"@,
    }
}

/// The one-line JSON form of an event: fixed keys in declaration order,
/// every string field escaped.
pub open spec fn spec_event_json(e: RawEvent) -> Seq<char> {
    "{\"source\":"@ + json_string(e.source@) + ",\"timestamp\":"@ + json_string(e.timestamp@)
        + ",\"kind\":"@ + json_string(kind_name(e.kind)) + ",\"data\":{\"repo\":"@ + json_string(
        e.data.repo@,
    ) + ",\"hash\":"@ + json_string(e.data.hash@) + ",\"subject\":"@ + json_string(e.data.subject@)
        + ",\"author\":"@ + json_string(e.data.author@) + "}}"@
}

impl RawEvent {
    /// Serializes the event as its staging line: exactly `spec_event_json`.
    pub fn to_json_line(&self) -> (r: String)
        ensures
            r@ == spec_event_json(*self),
    {
        let mut out = String::new();
        out.append("{\"source\":");
        append_json_string(&mut out, self.source.as_str());
        out.append(",\"timestamp\":");
        append_json_string(&mut out, self.timestamp.as_str());
        out.append(",\"kind\":");
        let kname: &str = match self.kind {
            EventKind::Commit => "Commit",
        };
        proof {
            assert(kname@ == kind_name(self.kind));
        }
        append_json_string(&mut out, kname);
        out.append(",\"data\":{\"repo\":");
        append_json_string(&mut out, self.data.repo.as_str());
        out.append(",\"hash\":");
        append_json_string(&mut out, self.data.hash.as_str());
        out.append(",\"subject\":");
        append_json_string(&mut out, self.data.subject.as_str());
        out.append(",\"author\":");
        append_json_string(&mut out, self.data.author.as_str());
        out.append("}}");
        proof {
            assert(out@ =~= spec_event_json(*self));
        }
        out
    }
}

/// Serializes an event and appends it to the date's staging log: the one
/// step the ingestion loop takes for each received event.
pub fn stage_event(staging: &mut StagingLog, date: &str, event: &RawEvent)
    requires
        old(staging).wf(),
    ensures
        final(staging).wf(),
        final(staging).entries_for(date@) == old(staging).entries_for(date@).push(
            spec_event_json(*event),
        ),
        final(staging).has_day(date@),
        forall|d2: Seq<char>|
            d2 != date@ ==> final(staging).entries_for(d2) == old(staging).entries_for(d2)
                && final(staging).has_day(d2) == old(staging).has_day(d2),
{
    let line = event.to_json_line();
    staging.append(date, line.as_str());
}

/// Staged event lines survive the file round trip: a staging file laid
/// out from serialized events decodes to exactly those serialized events,
/// in order — every event line meets the codec's conditions.
pub proof fn lemma_staged_events_roundtrip(events: Seq<RawEvent>)
    ensures
        ne_lines(staging_text(events.map_values(|e: RawEvent| spec_event_json(e)))) ==
            events.map_values(|e: RawEvent| spec_event_json(e)),
{
    let lines = events.map_values(|e: RawEvent| spec_event_json(e));
    assert forall|i: int|
        0 <= i < lines.len() implies lines[i].len() > 0 && !lines[i].contains('\n')
        && lines[i][lines[i].len() - 1] != '\r' by {
        lemma_event_json_line_ok(events[i]);
    }
    lemma_staging_roundtrip(lines);
}

/// A serialized event line is non-empty, holds no raw newline or carriage
/// return, and ends in a closing brace — exactly what the staging file
/// codec's round trip asks of its records.
pub proof fn lemma_event_json_line_ok(e: RawEvent)
    ensures
        spec_event_json(e).len() > 0,
        !spec_event_json(e).contains('\n'),
        spec_event_json(e)[spec_event_json(e).len() - 1] != '\r',
{
    reveal_strlit("{\"source\":");
    reveal_strlit(",\"timestamp\":");
    reveal_strlit(",\"kind\":");
    reveal_strlit(",\"data\":{\"repo\":");
    reveal_strlit(",\"hash\":");
    reveal_strlit(",\"subject\":");
    reveal_strlit(",\"author\":");
    reveal_strlit("}}");
    lemma_json_escaped_clean(e.source@);
    lemma_json_escaped_clean(e.timestamp@);
    lemma_json_escaped_clean(kind_name(e.kind));
    lemma_json_escaped_clean(e.data.repo@);
    lemma_json_escaped_clean(e.data.hash@);
    lemma_json_escaped_clean(e.data.subject@);
    lemma_json_escaped_clean(e.data.author@);
    let j = spec_event_json(e);
    assert(j[j.len() - 1] == '}');
    assert forall|k: int| 0 <= k < j.len() implies j[k] != '\n' by {
        assert(line_clean("{\"source\":"@));
        assert(line_clean(",\"timestamp\":"@));
        assert(line_clean(",\"kind\":"@));
        assert(line_clean(",\"data\":{\"repo\":"@));
        assert(line_clean(",\"hash\":"@));
        assert(line_clean(",\"subject\":"@));
        assert(line_clean(",\"author\":"@));
        assert(line_clean("}}"@));
        assert(line_clean(json_string(e.source@)));
        assert(line_clean(json_string(e.timestamp@)));
        assert(line_clean(json_string(kind_name(e.kind))));
        assert(line_clean(json_string(e.data.repo@)));
        assert(line_clean(json_string(e.data.hash@)));
        assert(line_clean(json_string(e.data.subject@)));
        assert(line_clean(json_string(e.data.author@)));
    }
}

} // verus!
