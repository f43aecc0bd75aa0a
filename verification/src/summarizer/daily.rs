//! Rendering a day's staged events into the conversation handed to the
//! language-model provider.
use vstd::prelude::*;

use crate::error::AmberError;
use crate::summarizer::provider::{LlmProvider, Message};

verus! {

/// The system instruction for a daily note on `date`: the fixed prompt
/// text with the date spliced in.
pub open spec fn spec_system_prompt(date: Seq<char>) -> Seq<char> {
    "You are a personal knowledge assistant. Generate a daily development note for "@ + date
        + ".\nFormat the note as markdown with YAML frontmatter.\n\nFrontmatter must include: date, topics (list), people (list).\n\nUse these section headings (only include sections with content):\n- Shipped: completed features/fixes\n- Worked On: in-progress work\n- Decisions: technical decisions made\n- Discovered: new tools, techniques, insights\n- Links: relevant URLs from commits/events\n- People: collaborators and their contributions\n- Events: meetings, reviews, discussions\n\nRules:\n- Use concrete references (commit hashes, file names, branch names)\n- No fluff or filler text\n- Be concise but specific"@
}

/// Event texts joined by single newlines, in order.
pub open spec fn joined_events(evs: Seq<Seq<char>>) -> Seq<char>
    decreases evs.len(),
{
    if evs.len() == 0 {
        Seq::empty()
    } else if evs.len() == 1 {
        evs[0]
    } else {
        joined_events(evs.drop_last()) + seq!['\n'] + evs.last()
    }
}

/// The user turn for `date`: a fixed lead-in, the date, and the joined
/// raw event texts.
pub open spec fn spec_user_prompt(date: Seq<char>, evs: Seq<Seq<char>>) -> Seq<char> {
    "Here are the raw events for "@ + date + ":\n\n"@ + joined_events(evs)
}

/// Joins the staged event texts with newlines, in staging order.
pub fn join_events(events: &Vec<String>) -> (r: String)
    ensures
        r@ == joined_events(events.deep_view()),
{
    proof {
        reveal_strlit("\n");
    }
    let ghost dv = events.deep_view();
    let mut out = String::new();
    let n = events.len();
    let mut i: usize = 0;
    proof {
        assert(out@ =~= joined_events(dv.subrange(0, 0)));
    }
    while i < n
        invariant
            0 <= i <= n,
            n == events@.len(),
            dv == events.deep_view(),
            out@ == joined_events(dv.subrange(0, i as int)),
        decreases n - i,
    {
        if i > 0 {
            out.append("\n");
        }
        out.append(events[i].as_str());
        proof {
            reveal_strlit("\n");
            let cur = dv.subrange(0, i as int + 1);
            assert(cur.drop_last() =~= dv.subrange(0, i as int));
            assert(cur.last() == dv[i as int]);
            assert(out@ =~= joined_events(cur));
        }
        i = i + 1;
    }
    proof {
        assert(dv.subrange(0, n as int) =~= dv);
    }
    out
}

/// Builds the two-turn conversation for a daily note: the system
/// instruction describing the note's structure, then the user turn with
/// the joined raw events.
pub fn build_messages(date: &str, events: &Vec<String>) -> (msgs: Vec<Message>)
    ensures
        msgs@.len() == 2,
        msgs@[0].role@ == "system"@,
        msgs@[0].content@ == spec_system_prompt(date@),
        msgs@[1].role@ == "user"@,
        msgs@[1].content@ == spec_user_prompt(date@, events.deep_view()),
{
    let mut sys = String::from_str(
        "You are a personal knowledge assistant. Generate a daily development note for ",
    );
    sys.append(date);
    sys.append(
        ".\nFormat the note as markdown with YAML frontmatter.\n\nFrontmatter must include: date, topics (list), people (list).\n\nUse these section headings (only include sections with content):\n- Shipped: completed features/fixes\n- Worked On: in-progress work\n- Decisions: technical decisions made\n- Discovered: new tools, techniques, insights\n- Links: relevant URLs from commits/events\n- People: collaborators and their contributions\n- Events: meetings, reviews, discussions\n\nRules:\n- Use concrete references (commit hashes, file names, branch names)\n- No fluff or filler text\n- Be concise but specific",
    );
    proof {
        assert(sys@ =~= spec_system_prompt(date@));
    }
    let mut user = String::from_str("Here are the raw events for ");
    user.append(date);
    user.append(":\n\n");
    let joined = join_events(events);
    user.append(joined.as_str());
    proof {
        assert(user@ =~= spec_user_prompt(date@, events.deep_view()));
    }
    let mut msgs: Vec<Message> = Vec::new();
    msgs.push(Message::system(sys));
    msgs.push(Message::user(user));
    msgs
}

/// Turns a day's staged events into note text through the provider.
pub struct DailySummarizer;

impl DailySummarizer {
    /// Renders the conversation for `date` over `events` and asks the
    /// provider to complete it; the provider's answer — text or failure —
    /// is returned as it came.
    pub fn generate<P: LlmProvider>(date: &str, events: Vec<String>, provider: &P) -> (r: Result<
        String,
        AmberError,
    >) {
        let messages = build_messages(date, &events);
        provider.complete(messages)
    }
}

} // verus!
