//! The texts the queue manager writes: the prompts of worker and
//! orchestrator turns, the messages it queues between agents, feed entries,
//! and the explanation of a failed post-turn step.

use vstd::prelude::*;

use crate::models::{strategy_label, ActiveStrategy, Message};

use crate::system::queue::{focus_groups, focus_view};
use vstd::seq_lib::lemma_concat_associative;
use crate::text::{chars_of, i64_to_string, joined, join_strings, owned, push_str_chars, push_string, signed_decimal, string_of, strings_view, trim, trim_chars, trim_str, u64_to_string, decimal};

verus! {

fn cat(parts: &Vec<&str>) -> (r: String)
    ensures
        r@ == cat_spec(parts@.map_values(|s: &str| s@)),
{
    let mut out: Vec<char> = Vec::new();
    let mut i: usize = 0;
    let ghost all = parts@.map_values(|s: &str| s@);
    while i < parts.len()
        invariant
            i <= parts@.len(),
            all == parts@.map_values(|s: &str| s@),
            out@ == cat_spec(all.take(i as int)),
        decreases parts@.len() - i,
    {
        push_str_chars(&mut out, parts[i]);
        assert(all.take(i + 1).drop_last() =~= all.take(i as int));
        i = i + 1;
    }
    assert(all.take(i as int) =~= all);
    string_of(&out)
}

/// The pieces laid end to end.
pub open spec fn cat_spec(parts: Seq<Seq<char>>) -> Seq<char>
    decreases parts.len(),
{
    if parts.len() == 0 {
        Seq::empty()
    } else {
        cat_spec(parts.drop_last()) + parts.last()
    }
}

/// `ws<id>`.
pub open spec fn worker_name(worker_id: i64) -> Seq<char> {
    "ws"@ + signed_decimal(worker_id as int)
}

pub(crate) fn worker_name_exec(worker_id: i64) -> (r: String)
    ensures
        r@ == worker_name(worker_id),
{
    let mut v = chars_of("ws");
    push_str_chars(&mut v, i64_to_string(worker_id).as_str());
    string_of(&v)
}

// ---------------------------------------------------------------------------
// Turn prompts
// ---------------------------------------------------------------------------

/// The head of a turn prompt: the message's number, sender, recipient and
/// trimmed text.
pub open spec fn prompt_head(m: Message) -> Seq<char> {
    cat_spec(
        seq![
            "Queue message #"@,
            signed_decimal(m.id as int),
            " from "@,
            trim(m.from@),
            " to "@,
            trim(m.to@),
            ":\n\n"@,
            trim(m.message@),
        ],
    )
}

fn prompt_head_exec(m: &Message) -> (r: String)
    ensures
        r@ == prompt_head(*m),
{
    let id = i64_to_string(m.id);
    let from = trim_str(m.from.as_str());
    let to = trim_str(m.to.as_str());
    let text = trim_str(m.message.as_str());
    let parts: Vec<&str> = vec![
        "Queue message #",
        id.as_str(),
        " from ",
        from.as_str(),
        " to ",
        to.as_str(),
        ":\n\n",
        text.as_str(),
    ];
    let r = cat(&parts);
    assert(parts@.map_values(|s: &str| s@) =~= seq![
        "Queue message #"@,
        signed_decimal(m.id as int),
        " from "@,
        trim(m.from@),
        " to "@,
        trim(m.to@),
        ":\n\n"@,
        trim(m.message@),
    ]);
    r
}

/// The prompt of a worker turn for queued message `m`.
pub open spec fn worker_prompt(m: Message) -> Seq<char> {
    prompt_head(m) + "\n\nRespond with a JSON object matching the Robot Farm worker turn schema.\n"@
}

/// The prompt of a worker turn for a queued message.
pub fn format_worker_prompt(message: &Message) -> (r: String)
    ensures
        r@ == worker_prompt(*message),
{
    let mut v = chars_of(prompt_head_exec(message).as_str());
    push_str_chars(
        &mut v,
        "\n\nRespond with a JSON object matching the Robot Farm worker turn schema.\n",
    );
    string_of(&v)
}

/// The focus groups of a strategy as shown: joined with `, `, or `none`.
pub open spec fn focus_text(groups: Seq<Seq<char>>) -> Seq<char> {
    if groups.len() == 0 {
        "none"@
    } else {
        joined(groups, ", "@)
    }
}

/// The line naming the active strategy and its focus groups.
pub open spec fn footer(s: ActiveStrategy) -> Seq<char> {
    "Active Strategy: "@ + strategy_label(s.id) + " | Focus Groups: "@ + focus_text(
        focus_groups(focus_view(s.focus)),
    )
}

/// The line naming the active strategy and its focus groups.
pub fn strategy_footer(strategy: &ActiveStrategy) -> (r: String)
    ensures
        r@ == footer(*strategy),
{
    let mut groups: Vec<String> = Vec::new();
    if let Some(f) = &strategy.focus {
        let mut i: usize = 0;
        while i < f.len()
            invariant
                i <= f@.len(),
                strategy.focus == Some(*f),
                strings_view(groups@) =~= Seq::new(i as nat, |k: int| signed_decimal(f@[k] as int)),
            decreases f@.len() - i,
        {
            let ghost before = strings_view(groups@);
            push_string(&mut groups, i64_to_string(f[i]));
            assert(strings_view(groups@) =~= before.push(signed_decimal(f@[i as int] as int)));
            i = i + 1;
        }
    } else {
        assert(strings_view(groups@) =~= Seq::<Seq<char>>::empty());
    }
    assert(strings_view(groups@) =~= focus_groups(focus_view(strategy.focus)));
    let mut v = chars_of("Active Strategy: ");
    push_str_chars(&mut v, strategy.id.as_str());
    push_str_chars(&mut v, " | Focus Groups: ");
    if groups.len() == 0 {
        push_str_chars(&mut v, "none");
    } else {
        push_str_chars(&mut v, join_strings(&groups, ", ").as_str());
    }
    string_of(&v)
}

/// The prompt of an orchestrator turn for queued message `m` under the
/// active strategy `s`.
pub open spec fn orchestrator_prompt(m: Message, s: ActiveStrategy) -> Seq<char> {
    prompt_head(m)
        + "\n\nRespond with a JSON object matching the Robot Farm orchestrator turn schema.\n\n"@
        + footer(s) + "\n"@
}

/// The prompt of an orchestrator turn for a queued message.
pub fn format_orchestrator_prompt(message: &Message, strategy: &ActiveStrategy) -> (r: String)
    ensures
        r@ == orchestrator_prompt(*message, *strategy),
{
    let mut v = chars_of(prompt_head_exec(message).as_str());
    push_str_chars(
        &mut v,
        "\n\nRespond with a JSON object matching the Robot Farm orchestrator turn schema.\n\n",
    );
    push_str_chars(&mut v, strategy_footer(strategy).as_str());
    push_str_chars(&mut v, "\n");
    string_of(&v)
}

// ---------------------------------------------------------------------------
// Messages between agents
// ---------------------------------------------------------------------------

/// Optional text, trimmed, kept only when not blank.
pub open spec fn nonblank(o: Option<Seq<char>>) -> Option<Seq<char>> {
    match o {
        Some(t) => if trim(t).len() > 0 {
            Some(trim(t))
        } else {
            None
        },
        None => None,
    }
}

/// The text of an optional string.
pub open spec fn opt_text(o: Option<&str>) -> Option<Seq<char>> {
    match o {
        Some(s) => Some(s@),
        None => None,
    }
}

fn nonblank_exec(o: Option<&str>) -> (r: Option<String>)
    ensures
        match r {
            Some(s) => nonblank(opt_text(o)) == Some(s@),
            None => nonblank(opt_text(o)) is None,
        },
{
    match o {
        Some(s) => {
            let t = trim_chars(&chars_of(s));
            if t.len() == 0 {
                None
            } else {
                Some(string_of(&t))
            }
        },
        None => None,
    }
}

/// A worker's status update as queued for the orchestrator: none when both
/// its summary and details are blank; else `ws<id>: <summary>` (or
/// `ws<id> sent a status update.` without a summary), followed by the
/// details after a blank line.
pub open spec fn status_update(worker_id: i64, summary: Seq<char>, details: Option<Seq<char>>) -> Option<
    Seq<char>,
> {
    let s = trim(summary);
    let d = nonblank(details);
    if s.len() == 0 && d is None {
        None
    } else {
        let body = if s.len() == 0 {
            worker_name(worker_id) + " sent a status update."@
        } else {
            worker_name(worker_id) + ": "@ + s
        };
        Some(
            match d {
                Some(t) => body + "\n\n"@ + t,
                None => body,
            },
        )
    }
}

/// A worker's status update as queued for the orchestrator.
pub fn format_status_update(worker_id: i64, summary: &str, details: Option<&str>) -> (r: Option<
    String,
>)
    ensures
        match r {
            Some(s) => status_update(worker_id, summary@, opt_text(details)) == Some(s@),
            None => status_update(worker_id, summary@, opt_text(details)) is None,
        },
{
    let s = trim_chars(&chars_of(summary));
    let d = nonblank_exec(details);
    if s.len() == 0 && d.is_none() {
        return None;
    }
    let mut body = chars_of(worker_name_exec(worker_id).as_str());
    if s.len() == 0 {
        push_str_chars(&mut body, " sent a status update.");
    } else {
        push_str_chars(&mut body, ": ");
        crate::text::push_all(&mut body, &s);
    }
    if let Some(t) = d {
        push_str_chars(&mut body, "\n\n");
        push_str_chars(&mut body, t.as_str());
    }
    Some(string_of(&body))
}

/// What a blocked worker tells the orchestrator.
pub open spec fn blocked_message(worker_id: i64, task_slug: Seq<char>, reason: Seq<char>) -> Seq<char> {
    worker_name(worker_id) + " is blocked on "@ + task_slug + ": "@ + reason
}

/// What a blocked worker tells the orchestrator.
pub fn format_blocked_message(worker_id: i64, task_slug: &str, reason: &str) -> (r: String)
    ensures
        r@ == blocked_message(worker_id, task_slug@, reason@),
{
    let mut v = chars_of(worker_name_exec(worker_id).as_str());
    push_str_chars(&mut v, " is blocked on ");
    push_str_chars(&mut v, task_slug);
    push_str_chars(&mut v, ": ");
    push_str_chars(&mut v, reason);
    string_of(&v)
}

/// The numbered steps of an assignment: `1. first`, `2. second`, ...
pub open spec fn numbered(steps: Seq<Seq<char>>) -> Seq<Seq<char>> {
    Seq::new(steps.len(), |i: int| decimal((i + 1) as nat) + ". "@ + steps[i])
}

/// The sections of an assignment message, in order: the task, the turn's
/// summary and details, the steps and the acceptance criteria (each only
/// when given and not blank), and the reminder of how to answer.
pub open spec fn assignment_sections(
    summary: Seq<char>,
    details: Option<Seq<char>>,
    task_slug: Seq<char>,
    task_title: Seq<char>,
    steps: Seq<Seq<char>>,
    acceptance: Option<Seq<char>>,
) -> Seq<Seq<char>> {
    seq!["New assignment: "@ + task_slug + " ("@ + task_title + ")"@] + (if trim(summary).len() > 0 {
        seq!["Summary: "@ + trim(summary)]
    } else {
        Seq::empty()
    }) + (match nonblank(details) {
        Some(d) => seq!["Details:\n"@ + d],
        None => Seq::empty(),
    }) + (if steps.len() > 0 {
        seq!["Steps:\n"@ + joined(numbered(steps), "\n"@)]
    } else {
        Seq::empty()
    }) + (match nonblank(acceptance) {
        Some(a) => seq!["Acceptance Criteria:\n"@ + a],
        None => Seq::empty(),
    }) + seq!["Respond with STATUS_UPDATE for long-running work and COMPLETE_TASK when finished."@]
}

/// Joining two non-empty lists of parts puts `sep` between what each
/// joins to.
pub proof fn lemma_joined_append(a: Seq<Seq<char>>, b: Seq<Seq<char>>, sep: Seq<char>)
    requires
        a.len() > 0,
        b.len() > 0,
    ensures
        joined(a + b, sep) == joined(a, sep) + sep + joined(b, sep),
    decreases b.len(),
{
    let ab = a + b;
    assert(ab.last() == b.last());
    assert(ab.drop_last() =~= a + b.drop_last());
    if b.len() == 1 {
        assert(a + b.drop_last() =~= a);
        assert(joined(b, sep) == b[0]);
    } else {
        lemma_joined_append(a, b.drop_last(), sep);
        lemma_concat_associative(joined(a, sep) + sep, joined(b.drop_last(), sep), sep + b.last());
        assert(joined(a, sep) + sep + joined(b.drop_last(), sep) + sep + b.last() =~= joined(a, sep)
            + sep + (joined(b.drop_last(), sep) + sep + b.last()));
    }
}

/// When the orchestrator gives details that are not blank, the worker's
/// assignment message carries them, trimmed, as a `Details:` section right
/// after the heading and the summary (when there is one), before the steps
/// and the acceptance criteria.
pub proof fn lemma_assignment_carries_details(
    summary: Seq<char>,
    details: Seq<char>,
    task_slug: Seq<char>,
    task_title: Seq<char>,
    steps: Seq<Seq<char>>,
    acceptance: Option<Seq<char>>,
)
    requires
        trim(details).len() > 0,
    ensures
        ({
            let msg = joined(
                assignment_sections(summary, Some(details), task_slug, task_title, steps, acceptance),
                "\n\n"@,
            );
            let head = "New assignment: "@ + task_slug + " ("@ + task_title + ")"@;
            let lead = if trim(summary).len() > 0 {
                head + "\n\n"@ + ("Summary: "@ + trim(summary))
            } else {
                head
            };
            (lead + "\n\n"@ + ("Details:\n"@ + trim(details))).is_prefix_of(msg)
        }),
{
    let sep = "\n\n"@;
    let head = "New assignment: "@ + task_slug + " ("@ + task_title + ")"@;
    let sm: Seq<Seq<char>> = if trim(summary).len() > 0 {
        seq!["Summary: "@ + trim(summary)]
    } else {
        Seq::empty()
    };
    let dd = "Details:\n"@ + trim(details);
    let st: Seq<Seq<char>> = if steps.len() > 0 {
        seq!["Steps:\n"@ + joined(numbered(steps), "\n"@)]
    } else {
        Seq::empty()
    };
    let ac: Seq<Seq<char>> = match nonblank(acceptance) {
        Some(a) => seq!["Acceptance Criteria:\n"@ + a],
        None => Seq::empty(),
    };
    let rem: Seq<Seq<char>> = seq![
        "Respond with STATUS_UPDATE for long-running work and COMPLETE_TASK when finished."@,
    ];
    let a = seq![head] + sm + seq![dd];
    let r = st + ac + rem;
    assert(assignment_sections(summary, Some(details), task_slug, task_title, steps, acceptance)
        =~= a + r);
    lemma_joined_append(a, r, sep);
    lemma_joined_append(seq![head] + sm, seq![dd], sep);
    assert(joined(seq![dd], sep) == dd);
    let lead = if trim(summary).len() > 0 {
        head + sep + ("Summary: "@ + trim(summary))
    } else {
        head
    };
    if trim(summary).len() > 0 {
        lemma_joined_append(seq![head], sm, sep);
        assert(joined(seq![head], sep) == head);
        assert(joined(sm, sep) == "Summary: "@ + trim(summary));
    } else {
        assert(seq![head] + sm =~= seq![head]);
        assert(joined(seq![head], sep) == head);
    }
    assert(joined(seq![head] + sm, sep) == lead);
    let msg = joined(a + r, sep);
    assert(msg == (lead + sep + dd) + sep + joined(r, sep));
    assert((lead + sep + dd).is_prefix_of(msg)) by {
        let pre = lead + sep + dd;
        assert(msg.subrange(0, pre.len() as int) =~= pre);
    }
}

/// The message telling a worker of its new assignment: the sections
/// separated by blank lines.
pub fn format_assignment_message(
    summary: &str,
    details: Option<&str>,
    task_slug: &str,
    task_title: &str,
    steps: &Vec<String>,
    acceptance: Option<&str>,
) -> (r: String)
    ensures
        r@ == joined(
            assignment_sections(
                summary@,
                opt_text(details),
                task_slug@,
                task_title@,
                strings_view(steps@),
                opt_text(acceptance),
            ),
            "\n\n"@,
        ),
{
    let ghost want = assignment_sections(
        summary@,
        opt_text(details),
        task_slug@,
        task_title@,
        strings_view(steps@),
        opt_text(acceptance),
    );
    let mut sections: Vec<String> = Vec::new();
    let mut head = chars_of("New assignment: ");
    push_str_chars(&mut head, task_slug);
    push_str_chars(&mut head, " (");
    push_str_chars(&mut head, task_title);
    push_str_chars(&mut head, ")");
    push_string(&mut sections, string_of(&head));
    let ghost s1 = strings_view(sections@);
    let s = trim_chars(&chars_of(summary));
    if s.len() > 0 {
        let mut v = chars_of("Summary: ");
        crate::text::push_all(&mut v, &s);
        push_string(&mut sections, string_of(&v));
    }
    let ghost s2 = strings_view(sections@);
    if let Some(d) = nonblank_exec(details) {
        let mut v = chars_of("Details:\n");
        push_str_chars(&mut v, d.as_str());
        push_string(&mut sections, string_of(&v));
    }
    let ghost s3 = strings_view(sections@);
    if steps.len() > 0 {
        let mut lines: Vec<String> = Vec::new();
        let mut i: usize = 0;
        while i < steps.len()
            invariant
                i <= steps@.len(),
                strings_view(lines@) =~= numbered(strings_view(steps@)).take(i as int),
            decreases steps@.len() - i,
        {
            let mut v = chars_of(u64_to_string((i as u64) + 1).as_str());
            push_str_chars(&mut v, ". ");
            push_str_chars(&mut v, steps[i].as_str());
            let ghost before = strings_view(lines@);
            push_string(&mut lines, string_of(&v));
            assert(strings_view(lines@) =~= before.push(
                numbered(strings_view(steps@))[i as int],
            ));
            i = i + 1;
        }
        assert(numbered(strings_view(steps@)).take(i as int) =~= numbered(strings_view(steps@)));
        let mut v = chars_of("Steps:\n");
        push_str_chars(&mut v, join_strings(&lines, "\n").as_str());
        push_string(&mut sections, string_of(&v));
    }
    let ghost s4 = strings_view(sections@);
    if let Some(a) = nonblank_exec(acceptance) {
        let mut v = chars_of("Acceptance Criteria:\n");
        push_str_chars(&mut v, a.as_str());
        push_string(&mut sections, string_of(&v));
    }
    let ghost s5 = strings_view(sections@);
    push_string(
        &mut sections,
        owned("Respond with STATUS_UPDATE for long-running work and COMPLETE_TASK when finished."),
    );
    assert(strings_view(sections@) =~= want);
    join_strings(&sections, "\n\n")
}

/// The orchestrator's status update as queued for a worker: `Status:
/// <summary>` and the details, separated by a blank line, each when not
/// blank; a fixed sentence when both are.
pub open spec fn orchestrator_status(summary: Seq<char>, details: Option<Seq<char>>) -> Seq<char> {
    let parts = (if trim(summary).len() > 0 {
        seq!["Status: "@ + trim(summary)]
    } else {
        Seq::empty()
    }) + (match nonblank(details) {
        Some(d) => seq![d],
        None => Seq::empty(),
    });
    if parts.len() == 0 {
        "Orchestrator sent a status update."@
    } else {
        joined(parts, "\n\n"@)
    }
}

/// The orchestrator's status update as queued for a worker.
pub fn format_orchestrator_status(summary: &str, details: Option<&str>) -> (r: String)
    ensures
        r@ == orchestrator_status(summary@, opt_text(details)),
{
    let mut parts: Vec<String> = Vec::new();
    let s = trim_chars(&chars_of(summary));
    if s.len() > 0 {
        let mut v = chars_of("Status: ");
        crate::text::push_all(&mut v, &s);
        push_string(&mut parts, string_of(&v));
    }
    let ghost p1 = strings_view(parts@);
    if let Some(d) = nonblank_exec(details) {
        push_string(&mut parts, d);
    }
    let ghost want = (if trim(summary@).len() > 0 {
        seq!["Status: "@ + trim(summary@)]
    } else {
        Seq::<Seq<char>>::empty()
    }) + (match nonblank(opt_text(details)) {
        Some(d) => seq![d],
        None => Seq::<Seq<char>>::empty(),
    });
    assert(strings_view(parts@) =~= want);
    if parts.len() == 0 {
        owned("Orchestrator sent a status update.")
    } else {
        join_strings(&parts, "\n\n")
    }
}

/// What the orchestrator is told when a worker's task is finished:
/// `ws<id> completed <slug>`, with the worker's notes after a colon when
/// not blank.
pub open spec fn completion_message(worker_id: i64, task_slug: Seq<char>, notes: Option<Seq<char>>) -> Seq<
    char,
> {
    let head = worker_name(worker_id) + " completed "@ + task_slug;
    match nonblank(notes) {
        Some(n) => head + ": "@ + n,
        None => head,
    }
}

/// What the orchestrator is told when a worker's task is finished.
pub fn format_completion_message(worker_id: i64, task_slug: &str, notes: Option<&str>) -> (r: String)
    ensures
        r@ == completion_message(worker_id, task_slug@, opt_text(notes)),
{
    let mut v = chars_of(worker_name_exec(worker_id).as_str());
    push_str_chars(&mut v, " completed ");
    push_str_chars(&mut v, task_slug);
    if let Some(n) = nonblank_exec(notes) {
        push_str_chars(&mut v, ": ");
        push_str_chars(&mut v, n.as_str());
    }
    string_of(&v)
}

} // verus!
