//! The concern checklist of a full design session: which areas of
//! design the recorded decisions already cover.
use vstd::prelude::*;
use crate::namemap::NameMap;
use crate::render::{lemma_render_contains, lemma_render_take, lemma_take_full, render};
use crate::schema::{Decision, PROJECT};
use crate::text::{
    chars_eq, chars_of, contains_chars, lemma_contains_within, lower_chars, lower_seq, seq_contains, str_eq,
};

verus! {

/// An area of design that every component has to settle.
#[derive(PartialEq, Eq, Structural, Debug, Clone, Copy)]
pub enum ConcernArea {
    DataStructures,
    ErrorHandling,
    Concurrency,
    Validation,
    Performance,
    ExternalBoundaries,
    Security,
    Storage,
    Dependencies,
}

/// The areas, in the order the checklist lists them.
pub open spec fn all_areas() -> Seq<ConcernArea> {
    seq![
        ConcernArea::DataStructures,
        ConcernArea::ErrorHandling,
        ConcernArea::Concurrency,
        ConcernArea::Validation,
        ConcernArea::Performance,
        ConcernArea::ExternalBoundaries,
        ConcernArea::Security,
        ConcernArea::Storage,
        ConcernArea::Dependencies,
    ]
}

pub fn areas() -> (v: Vec<ConcernArea>)
    ensures
        v@ == all_areas(),
{
    let mut v = Vec::new();
    v.push(ConcernArea::DataStructures);
    v.push(ConcernArea::ErrorHandling);
    v.push(ConcernArea::Concurrency);
    v.push(ConcernArea::Validation);
    v.push(ConcernArea::Performance);
    v.push(ConcernArea::ExternalBoundaries);
    v.push(ConcernArea::Security);
    v.push(ConcernArea::Storage);
    v.push(ConcernArea::Dependencies);
    assert(v@ =~= all_areas());
    v
}

pub open spec fn area_label(a: ConcernArea) -> Seq<char> {
    match a {
        ConcernArea::DataStructures => "Data structures"@,
        ConcernArea::ErrorHandling => "Error handling"@,
        ConcernArea::Concurrency => "Concurrency"@,
        ConcernArea::Validation => "Validation"@,
        ConcernArea::Performance => "Performance"@,
        ConcernArea::ExternalBoundaries => "External boundaries"@,
        ConcernArea::Security => "Security boundaries"@,
        ConcernArea::Storage => "Storage"@,
        ConcernArea::Dependencies => "Dependencies"@,
    }
}

pub fn label(a: ConcernArea) -> (s: &'static str)
    ensures
        s@ == area_label(a),
{
    match a {
        ConcernArea::DataStructures => "Data structures",
        ConcernArea::ErrorHandling => "Error handling",
        ConcernArea::Concurrency => "Concurrency",
        ConcernArea::Validation => "Validation",
        ConcernArea::Performance => "Performance",
        ConcernArea::ExternalBoundaries => "External boundaries",
        ConcernArea::Security => "Security boundaries",
        ConcernArea::Storage => "Storage",
        ConcernArea::Dependencies => "Dependencies",
    }
}

/// The tag that files a decision under the area.
pub open spec fn area_tag(a: ConcernArea) -> Seq<char> {
    match a {
        ConcernArea::DataStructures => "data-structures"@,
        ConcernArea::ErrorHandling => "error-handling"@,
        ConcernArea::Concurrency => "concurrency"@,
        ConcernArea::Validation => "validation"@,
        ConcernArea::Performance => "performance"@,
        ConcernArea::ExternalBoundaries => "external-boundaries"@,
        ConcernArea::Security => "security"@,
        ConcernArea::Storage => "storage"@,
        ConcernArea::Dependencies => "dependencies"@,
    }
}

pub fn tag(a: ConcernArea) -> (s: &'static str)
    ensures
        s@ == area_tag(a),
{
    match a {
        ConcernArea::DataStructures => "data-structures",
        ConcernArea::ErrorHandling => "error-handling",
        ConcernArea::Concurrency => "concurrency",
        ConcernArea::Validation => "validation",
        ConcernArea::Performance => "performance",
        ConcernArea::ExternalBoundaries => "external-boundaries",
        ConcernArea::Security => "security",
        ConcernArea::Storage => "storage",
        ConcernArea::Dependencies => "dependencies",
    }
}

/// Lower-case words whose presence in a decision's choice or reason
/// places the decision in the area.
pub open spec fn area_keywords(a: ConcernArea) -> Seq<Seq<char>> {
    match a {
        ConcernArea::DataStructures => seq![
            "data structure"@,
            "struct"@,
            "enum"@,
            "btree"@,
            "hashmap"@,
            "vector"@,
            "queue"@,
        ],
        ConcernArea::ErrorHandling => seq!["error"@, "panic"@, "fail"@, "retry"@, "fallback"@],
        ConcernArea::Concurrency => seq![
            "concurren"@,
            "lock"@,
            "mutex"@,
            "thread"@,
            "async"@,
            "channel"@,
            "atomic"@,
            "parallel"@,
        ],
        ConcernArea::Validation => seq![
            "validat"@,
            "integrity"@,
            "sanitiz"@,
            "invariant"@,
            "schema"@,
        ],
        ConcernArea::Performance => seq![
            "perform"@,
            "cache"@,
            "caching"@,
            "batch"@,
            "latency"@,
            "throughput"@,
        ],
        ConcernArea::ExternalBoundaries => seq![
            "protocol"@,
            "api"@,
            "http"@,
            "serializ"@,
            "json"@,
            "rpc"@,
        ],
        ConcernArea::Security => seq![
            "secur"@,
            "auth"@,
            "jwt"@,
            "token"@,
            "secret"@,
            "encrypt"@,
            "permission"@,
        ],
        ConcernArea::Storage => seq![
            "storage"@,
            "persist"@,
            "database"@,
            "disk"@,
            "file"@,
            "sql"@,
            "redis"@,
        ],
        ConcernArea::Dependencies => seq!["dependenc"@, "crate"@, "library"@, "vendor"@],
    }
}

fn push_all(v: &mut Vec<&'static str>, words: &[&'static str])
    ensures
        final(v)@.map_values(|s: &str| s@) == old(v)@.map_values(|s: &str| s@) + words@.map_values(
            |s: &str| s@,
        ),
{
    let ghost start = v@;
    for i in 0..words.len()
        invariant
            v@ == start + words@.take(i as int),
    {
        v.push(words[i]);
        assert(words@.take(i + 1) =~= words@.take(i as int).push(words@[i as int]));
    }
    assert(words@.take(words@.len() as int) =~= words@);
    assert(v@.map_values(|s: &str| s@) =~= start.map_values(|s: &str| s@) + words@.map_values(
        |s: &str| s@,
    ));
}

pub fn keywords(a: ConcernArea) -> (v: Vec<&'static str>)
    ensures
        v@.map_values(|s: &str| s@) == area_keywords(a),
{
    let mut v: Vec<&'static str> = Vec::new();
    match a {
        ConcernArea::DataStructures => {
            push_all(&mut v, &["data structure", "struct", "enum", "btree", "hashmap", "vector", "queue"]);
        },
        ConcernArea::ErrorHandling => {
            push_all(&mut v, &["error", "panic", "fail", "retry", "fallback"]);
        },
        ConcernArea::Concurrency => {
            push_all(&mut v, &["concurren", "lock", "mutex", "thread", "async", "channel", "atomic", "parallel"]);
        },
        ConcernArea::Validation => {
            push_all(&mut v, &["validat", "integrity", "sanitiz", "invariant", "schema"]);
        },
        ConcernArea::Performance => {
            push_all(&mut v, &["perform", "cache", "caching", "batch", "latency", "throughput"]);
        },
        ConcernArea::ExternalBoundaries => {
            push_all(&mut v, &["protocol", "api", "http", "serializ", "json", "rpc"]);
        },
        ConcernArea::Security => {
            push_all(&mut v, &["secur", "auth", "jwt", "token", "secret", "encrypt", "permission"]);
        },
        ConcernArea::Storage => {
            push_all(&mut v, &["storage", "persist", "database", "disk", "file", "sql", "redis"]);
        },
        ConcernArea::Dependencies => {
            push_all(&mut v, &["dependenc", "crate", "library", "vendor"]);
        },
    }
    assert(v@.map_values(|s: &str| s@) =~= area_keywords(a));
    v
}

/// One of the decision's tags, lower-cased, names the area.
pub open spec fn tag_matches(a: ConcernArea, d: Decision) -> bool {
    exists|i: int| 0 <= i < d.tags@.len() && lower_seq(#[trigger] d.tags@[i]@) == area_tag(a)
}

/// One of the area's keywords occurs in the lower-cased choice or reason.
pub open spec fn keyword_matches(a: ConcernArea, d: Decision) -> bool {
    exists|j: int|
        0 <= j < area_keywords(a).len() && (seq_contains(lower_seq(d.choice@), #[trigger] area_keywords(a)[j])
            || seq_contains(lower_seq(d.reason@), area_keywords(a)[j]))
}

/// The decision settles something in the area.
pub open spec fn covers(a: ConcernArea, d: Decision) -> bool {
    tag_matches(a, d) || keyword_matches(a, d)
}

pub fn decision_covers(a: ConcernArea, d: &Decision) -> (r: bool)
    ensures
        r == covers(a, *d),
{
    let t = chars_of(tag(a));
    for i in 0..d.tags.len()
        invariant
            t@ == area_tag(a),
            forall|k: int| 0 <= k < i ==> lower_seq(#[trigger] d.tags@[k]@) != area_tag(a),
    {
        if chars_eq(&lower_chars(d.tags[i].as_str()), &t) {
            return true;
        }
    }
    let choice = lower_chars(d.choice.as_str());
    let reason = lower_chars(d.reason.as_str());
    let kws = keywords(a);
    for j in 0..kws.len()
        invariant
            kws@.map_values(|s: &str| s@) == area_keywords(a),
            choice@ == lower_seq(d.choice@),
            reason@ == lower_seq(d.reason@),
            !tag_matches(a, *d),
            forall|k: int|
                0 <= k < j ==> !(seq_contains(lower_seq(d.choice@), #[trigger] area_keywords(a)[k])
                    || seq_contains(lower_seq(d.reason@), area_keywords(a)[k])),
    {
        let kw = chars_of(kws[j]);
        assert(kw@ == area_keywords(a)[j as int]);
        if contains_chars(&choice, &kw) || contains_chars(&reason, &kw) {
            return true;
        }
    }
    false
}

/// Some decision filed under the project or under `component` covers the area.
pub open spec fn covered(a: ConcernArea, decisions: NameMap<Decision>, component: Seq<char>) -> bool {
    exists|i: int|
        0 <= i < decisions.entries@.len() && (decisions.entries@[i].value.component@ == PROJECT@
            || decisions.entries@[i].value.component@ == component) && covers(
            a,
            #[trigger] decisions.entries@[i].value,
        )
}

pub open spec fn status_line(a: ConcernArea, decisions: NameMap<Decision>, component: Seq<char>) -> Seq<char> {
    (if covered(a, decisions, component) {
        "- [COVERED] "@
    } else {
        "- [UNCOVERED] "@
    }) + area_label(a) + "\n"@
}

pub const CONCERN_HEADER: &'static str = "CONCERN STATUS (areas settled by recorded decisions):\n";

/// The checklist: one line per area, COVERED or UNCOVERED.
pub open spec fn concern_status_text(decisions: NameMap<Decision>, component: Seq<char>) -> Seq<char> {
    CONCERN_HEADER@ + render(all_areas(), |a: ConcernArea| status_line(a, decisions, component)) + "\n"@
}

fn area_covered(a: ConcernArea, decisions: &NameMap<Decision>, component: &str) -> (r: bool)
    ensures
        r == covered(a, *decisions, component@),
{
    let entries = &decisions.entries;
    for i in 0..entries.len()
        invariant
            entries == &decisions.entries,
            forall|k: int|
                0 <= k < i ==> !((entries@[k].value.component@ == PROJECT@ || entries@[k].value.component@
                    == component@) && covers(a, #[trigger] entries@[k].value)),
    {
        let d = &entries[i].value;
        if (str_eq(d.component.as_str(), PROJECT) || str_eq(d.component.as_str(), component))
            && decision_covers(a, d) {
            return true;
        }
    }
    false
}

/// The concern checklist for `component`, judged by the decisions filed
/// under the project or under `component`.
pub fn concern_status(decisions: &NameMap<Decision>, component: &str) -> (s: String)
    ensures
        s@ == concern_status_text(*decisions, component@),
{
    let ghost f = |a: ConcernArea| status_line(a, *decisions, component@);
    let all = areas();
    let mut s = String::new();
    s.append(CONCERN_HEADER);
    for i in 0..all.len()
        invariant
            all@ == all_areas(),
            f == (|a: ConcernArea| status_line(a, *decisions, component@)),
            s@ == CONCERN_HEADER@ + render(all_areas().take(i as int), f),
    {
        proof {
            lemma_render_take(all_areas(), i as int, f);
        }
        let a = all[i];
        if area_covered(a, decisions, component) {
            s.append("- [COVERED] ");
        } else {
            s.append("- [UNCOVERED] ");
        }
        s.append(label(a));
        s.append("\n");
        assert(s@ =~= CONCERN_HEADER@ + render(all_areas().take(i + 1), f));
    }
    proof {
        lemma_take_full(all_areas());
    }
    s.append("\n");
    s
}

/// The position of an area in the checklist.
pub open spec fn area_index(a: ConcernArea) -> int {
    match a {
        ConcernArea::DataStructures => 0,
        ConcernArea::ErrorHandling => 1,
        ConcernArea::Concurrency => 2,
        ConcernArea::Validation => 3,
        ConcernArea::Performance => 4,
        ConcernArea::ExternalBoundaries => 5,
        ConcernArea::Security => 6,
        ConcernArea::Storage => 7,
        ConcernArea::Dependencies => 8,
    }
}

/// A keyword of an area found in a decision's lower-cased choice or in its
/// lower-cased reason settles the area: the decision covers it, and the
/// checklist of the decision's component (or of every component, for a
/// project-wide decision) marks the area COVERED.
pub proof fn lemma_keyword_in_choice_or_reason_covers(
    decisions: NameMap<Decision>,
    component: Seq<char>,
    a: ConcernArea,
    i: int,
    j: int,
)
    requires
        0 <= i < decisions.entries@.len(),
        0 <= j < area_keywords(a).len(),
        decisions.entries@[i].value.component@ == PROJECT@ || decisions.entries@[i].value.component@ == component,
        seq_contains(lower_seq(decisions.entries@[i].value.reason@), area_keywords(a)[j]) || seq_contains(
            lower_seq(decisions.entries@[i].value.choice@),
            area_keywords(a)[j],
        ),
    ensures
        covers(a, decisions.entries@[i].value),
        seq_contains(concern_status_text(decisions, component), "- [COVERED] "@ + area_label(a) + "\n"@),
{
    let d = decisions.entries@[i].value;
    assert(keyword_matches(a, d));
    assert(covered(a, decisions, component));
    let f = |x: ConcernArea| status_line(x, decisions, component);
    let k = area_index(a);
    assert(all_areas()[k] == a);
    lemma_render_contains(all_areas(), f, k);
    lemma_contains_within(render(all_areas(), f), f(a), CONCERN_HEADER@, "\n"@);
    assert(CONCERN_HEADER@ + render(all_areas(), f) + "\n"@ =~= concern_status_text(decisions, component));
}

} // verus!
