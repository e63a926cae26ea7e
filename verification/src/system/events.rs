//! Events of the system layer shown in the feed: who sent them to whom,
//! what they are about, and when.

use vstd::prelude::*;

use crate::models::FeedLevel;
use crate::split::{strip_prefix, strip_prefix_chars};
use crate::text::{
    chars_of, decimal, eq_ignore_case, i64_to_string, lower_chars, lower_seq, owned, parse_i64,
    parse_signed64, push_str_chars, signed_decimal, string_of, trim, trim_chars,
};

verus! {

/// The current time (`chrono::Utc::now`) in milliseconds since the Unix
/// epoch. Nothing is stated of it: it is read from the system clock.
#[verifier::external_body]
fn now_millis() -> i64 {
    chrono::Utc::now().timestamp_millis()
}

/// Who sends or receives an event.
#[derive(Debug, Clone, Copy, PartialEq, Eq, Structural)]
pub enum SystemActor {
    System,
    Orchestrator,
    Worker(i64),
    QualityAssurance,
}

/// How an actor is shown: `System`, `Orchestrator`, `Quality Assurance`,
/// or `ws<id>` for a worker.
pub open spec fn actor_label(a: SystemActor) -> Seq<char> {
    match a {
        SystemActor::System => "System"@,
        SystemActor::Orchestrator => "Orchestrator"@,
        SystemActor::QualityAssurance => "Quality Assurance"@,
        SystemActor::Worker(id) => "ws"@ + signed_decimal(id as int),
    }
}

/// The actor a label names: after trimming, `system`, `orchestrator`,
/// `quality assurance` or `qa` in any ASCII case, or `ws<id>` (in any
/// case) with an `i64` id.
pub open spec fn actor_named(value: Seq<char>) -> Option<SystemActor> {
    let t = lower_seq(trim(value));
    if t == "system"@ {
        Some(SystemActor::System)
    } else if t == "orchestrator"@ {
        Some(SystemActor::Orchestrator)
    } else if t == "quality assurance"@ || t == "qa"@ {
        Some(SystemActor::QualityAssurance)
    } else {
        match strip_prefix(t, "ws"@) {
            Some(rest) => match parse_signed64(rest) {
                Some(id) => Some(SystemActor::Worker(id as i64)),
                None => None,
            },
            None => None,
        }
    }
}

impl SystemActor {
    /// How the actor is shown.
    pub fn label(&self) -> (r: String)
        ensures
            r@ == actor_label(*self),
    {
        match self {
            SystemActor::System => owned("System"),
            SystemActor::Orchestrator => owned("Orchestrator"),
            SystemActor::QualityAssurance => owned("Quality Assurance"),
            SystemActor::Worker(id) => {
                let mut v = chars_of("ws");
                let n = i64_to_string(*id);
                push_str_chars(&mut v, n.as_str());
                string_of(&v)
            },
        }
    }

    /// The actor `value` names, if any.
    pub fn from_label(value: &str) -> (r: Option<Self>)
        ensures
            r == actor_named(value@),
    {
        let trimmed = trim_chars(&chars_of(value));
        let lower = lower_chars(&trimmed);
        if eq_ignore_case(&trimmed, &chars_of("system")) {
            proof {
                reveal_strlit("system");
                assert(lower_seq("system"@) =~= "system"@);
            }
            return Some(SystemActor::System);
        }
        proof {
            reveal_strlit("system");
            assert(lower_seq("system"@) =~= "system"@);
        }
        if eq_ignore_case(&trimmed, &chars_of("orchestrator")) {
            proof {
                reveal_strlit("orchestrator");
                assert(lower_seq("orchestrator"@) =~= "orchestrator"@);
            }
            return Some(SystemActor::Orchestrator);
        }
        proof {
            reveal_strlit("orchestrator");
            assert(lower_seq("orchestrator"@) =~= "orchestrator"@);
        }
        proof {
            reveal_strlit("quality assurance");
            reveal_strlit("qa");
            assert(lower_seq("quality assurance"@) =~= "quality assurance"@);
            assert(lower_seq("qa"@) =~= "qa"@);
        }
        if eq_ignore_case(&trimmed, &chars_of("quality assurance")) || eq_ignore_case(
            &trimmed,
            &chars_of("qa"),
        ) {
            return Some(SystemActor::QualityAssurance);
        }
        match strip_prefix_chars(&lower, &chars_of("ws")) {
            Some(rest) => match parse_i64(&rest) {
                Some(id) => Some(SystemActor::Worker(id)),
                None => None,
            },
            None => None,
        }
    }
}

/// What an event is about.
#[derive(Debug, Clone, Copy, PartialEq, Eq, Structural)]
pub enum SystemEventCategory {
    Strategy,
    Queue,
    Validation,
    User,
    Merge,
    Routing,
}

/// The name of a category.
pub open spec fn category_label(c: SystemEventCategory) -> Seq<char> {
    match c {
        SystemEventCategory::Strategy => "strategy"@,
        SystemEventCategory::Queue => "queue"@,
        SystemEventCategory::Validation => "validation"@,
        SystemEventCategory::User => "user"@,
        SystemEventCategory::Merge => "merge"@,
        SystemEventCategory::Routing => "routing"@,
    }
}

impl SystemEventCategory {
    /// The name of the category.
    pub fn as_str(&self) -> (r: &'static str)
        ensures
            r@ == category_label(*self),
    {
        match self {
            SystemEventCategory::Strategy => "strategy",
            SystemEventCategory::Queue => "queue",
            SystemEventCategory::Validation => "validation",
            SystemEventCategory::User => "user",
            SystemEventCategory::Merge => "merge",
            SystemEventCategory::Routing => "routing",
        }
    }
}

/// The structured details of an event (shown as a JSON object).
#[derive(Debug, Clone)]
pub enum EventDetails {
    /// `{"hint": ...}`: a hint for the orchestrator.
    Hint(String),
    /// `{"message": ...}`: a message between actors.
    Message(String),
    /// `{"worker": ..., "details": ...}`: a failed validation of a worker.
    Validation { worker: i64, details: String },
}

/// An event of the system layer.
#[derive(Debug)]
pub struct SystemEvent {
    pub level: FeedLevel,
    pub source: SystemActor,
    pub target: SystemActor,
    pub category: SystemEventCategory,
    pub summary: String,
    pub details: EventDetails,
    /// When the event was emitted, in milliseconds since the Unix epoch (UTC).
    pub emitted_at: i64,
}

impl SystemEvent {
    /// An event emitted now.
    pub fn new(
        level: FeedLevel,
        source: SystemActor,
        target: SystemActor,
        category: SystemEventCategory,
        summary: &str,
        details: EventDetails,
    ) -> (r: Self)
        ensures
            r.level == level,
            r.source == source,
            r.target == target,
            r.category == category,
            r.summary@ == summary@,
            r.details == details,
    {
        SystemEvent {
            level,
            source,
            target,
            category,
            summary: owned(summary),
            details,
            emitted_at: now_millis(),
        }
    }
}

/// A worker's label names the worker again; so do the labels of the other
/// actors.
pub proof fn lemma_actor_label_roundtrip(a: SystemActor)
    ensures
        actor_named(actor_label(a)) == Some(a),
{
    reveal_strlit("System");
    reveal_strlit("Orchestrator");
    reveal_strlit("Quality Assurance");
    reveal_strlit("system");
    reveal_strlit("orchestrator");
    reveal_strlit("quality assurance");
    reveal_strlit("qa");
    reveal_strlit("ws");
    match a {
        SystemActor::Worker(id) => {
            let l = actor_label(a);
            let d = signed_decimal(id as int);
            crate::text::lemma_parse_signed_decimal(id as int);
            crate::text::lemma_decimal_digits(if id < 0 { (-id) as nat } else { id as nat });
            assert(trim(l) == l) by {
                crate::text::lemma_trim_no_ws(l);
            }
            assert(lower_seq(l) =~= l) by {
                assert forall|i: int| 0 <= i < l.len() implies crate::text::lower(l[i]) == l[i] by {
                    if i >= 2 {
                        assert(l[i] == d[i - 2]);
                        if id < 0 && i == 2 {
                        } else {
                            let k = if id < 0 { i - 3 } else { i - 2 };
                            assert(crate::text::is_digit(
                                decimal(if id < 0 { (-id) as nat } else { id as nat })[k],
                            ));
                        }
                    }
                }
            }
            assert(l[0] == 'w');
            assert(strip_prefix(l, "ws"@) == Some(d)) by {
                assert(l.skip(2) =~= d);
                assert(l.take(2) =~= "ws"@);
            }
        },
        _ => {
            let l = actor_label(a);
            crate::text::lemma_trim_no_ws(l);
            assert(lower_seq("System"@) =~= "system"@);
            assert(lower_seq("Orchestrator"@) =~= "orchestrator"@);
            assert(lower_seq("Quality Assurance"@) =~= "quality assurance"@);
        },
    }
}

} // verus!
