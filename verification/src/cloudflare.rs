//! Decision procedure of the Cloudflare challenge bypass and the search for
//! the Turnstile widget in a page's DOM.

use vstd::prelude::*;
use crate::browser::{has_cookie, is_challenge_title, is_cloudflare_challenge, cookies_contain};
use crate::error::BrowserError;
use crate::numbers::{decimal, decimal_text};
use crate::text::{contains, push_str, str_contains, str_eq};

verus! {

/// Most clicks on the Turnstile checkbox during one bypass.
pub const MAX_CLICK_ATTEMPTS: u32 = 8;

/// Progress of a bypass between two title polls.
#[derive(Debug, Clone, Copy, PartialEq, Eq)]
pub struct BypassState {
    /// A challenge page has been seen.
    pub challenge_detected: bool,
    /// Clicks sent since the challenge was first seen.
    pub click_count: u32,
}

/// What the bypass does after a title poll.
#[derive(Debug, Clone, PartialEq, Eq)]
pub enum BypassAction {
    /// Give up with this message.
    Fail(String),
    /// The page is through: collect the cookies.
    ExtractCookies,
    /// Sleep one poll interval and poll again.
    Wait,
    /// Look for the Turnstile widget and click it.
    TryClick,
}

/// A state the bypass can be in.
pub open spec fn bypass_state_ok(s: BypassState) -> bool {
    s.click_count <= MAX_CLICK_ATTEMPTS
}

/// The state before the first poll.
pub fn bypass_start() -> (s: BypassState)
    ensures
        !s.challenge_detected,
        s.click_count == 0,
        bypass_state_ok(s),
{
    BypassState { challenge_detected: false, click_count: 0 }
}

/// Message of a bypass that ran out of its `timeout_secs` with a challenge
/// pending.
pub open spec fn bypass_timeout_message(auto_click: bool, timeout_secs: u64) -> Seq<char> {
    "cloudflare bypass timeout after "@ + decimal(timeout_secs as nat) + "s   challenge was not solved. "@
        + if auto_click {
        "auto-click was active but couldn't solve it."@
    } else {
        "hint: use autoClick: true to automatically click the Turnstile."@
    }
}

/// The state after a poll that saw `title` (in time).
pub open spec fn bypass_next_state(s: BypassState, title: Seq<char>) -> BypassState {
    if is_challenge_title(title) && !s.challenge_detected {
        BypassState { challenge_detected: true, click_count: 0 }
    } else {
        s
    }
}

/// The action after a poll: `timed_out` says whether the overall time limit
/// has passed, `title` is the page title just read.
pub open spec fn bypass_next_action(s: BypassState, timed_out: bool, title: Seq<char>, auto_click: bool) -> BypassAction {
    if timed_out {
        if s.challenge_detected {
            BypassAction::Fail(arbitrary())
        } else {
            BypassAction::ExtractCookies
        }
    } else if is_challenge_title(title) {
        if auto_click && bypass_next_state(s, title).click_count < MAX_CLICK_ATTEMPTS {
            BypassAction::TryClick
        } else {
            BypassAction::Wait
        }
    } else if title.len() == 0 {
        BypassAction::Wait
    } else {
        BypassAction::ExtractCookies
    }
}

/// One poll of the bypass loop: the next state and what to do.
pub fn bypass_step(s: BypassState, timed_out: bool, title: &str, auto_click: bool, timeout_secs: u64) -> (r: (BypassState, BypassAction))
    requires
        bypass_state_ok(s),
    ensures
        bypass_state_ok(r.0),
        timed_out ==> r.0 == s,
        !timed_out ==> r.0 == bypass_next_state(s, title@),
        match (r.1, bypass_next_action(s, timed_out, title@, auto_click)) {
            (BypassAction::Fail(m), BypassAction::Fail(_)) => m@ == bypass_timeout_message(auto_click, timeout_secs),
            (a, b) => a == b,
        },
{
    if timed_out {
        if s.challenge_detected {
            let mut m = String::new();
            push_str(&mut m, "cloudflare bypass timeout after ");
            push_str(&mut m, decimal_text(timeout_secs).as_str());
            push_str(&mut m, "s   challenge was not solved. ");
            if auto_click {
                push_str(&mut m, "auto-click was active but couldn't solve it.");
            } else {
                push_str(&mut m, "hint: use autoClick: true to automatically click the Turnstile.");
            }
            return (s, BypassAction::Fail(m));
        }
        return (s, BypassAction::ExtractCookies);
    }
    if is_cloudflare_challenge(title) {
        let next = if !s.challenge_detected {
            BypassState { challenge_detected: true, click_count: 0 }
        } else {
            s
        };
        if auto_click && next.click_count < MAX_CLICK_ATTEMPTS {
            return (next, BypassAction::TryClick);
        }
        return (next, BypassAction::Wait);
    }
    if title.is_empty() {
        return (s, BypassAction::Wait);
    }
    (s, BypassAction::ExtractCookies)
}

/// The state after a click attempt; `clicked` says whether a click was sent.
pub fn bypass_after_click(s: BypassState, clicked: bool) -> (r: BypassState)
    requires
        bypass_state_ok(s),
        s.click_count < MAX_CLICK_ATTEMPTS,
    ensures
        bypass_state_ok(r),
        r.challenge_detected == s.challenge_detected,
        r.click_count == if clicked { s.click_count + 1 } else { s.click_count as int },
{
    if clicked {
        BypassState { challenge_detected: s.challenge_detected, click_count: s.click_count + 1 }
    } else {
        s
    }
}

/// After a click, a title shows the challenge is solved when it is not
/// empty and no longer a challenge title.
pub fn title_shows_solved(title: &str) -> (b: bool)
    ensures
        b == (title@.len() > 0 && !is_challenge_title(title@)),
{
    !title.is_empty() && !is_cloudflare_challenge(title)
}

/// Outcome of one search for the Turnstile widget.
#[derive(Debug, Clone, Copy, PartialEq, Eq)]
pub enum WidgetSearch {
    /// A click was sent: watch the title.
    Clicked,
    /// Out of time: give up this attempt.
    GiveUp,
    /// Not found yet: sleep one poll interval and search again.
    Retry,
}

/// Decides one search for the Turnstile widget: `timed_out` is read before
/// the search, `clicked` says whether the search sent a click.
pub fn widget_search_step(timed_out: bool, clicked: bool) -> (r: WidgetSearch)
    ensures
        timed_out ==> r == WidgetSearch::GiveUp,
        !timed_out && clicked ==> r == WidgetSearch::Clicked,
        !timed_out && !clicked ==> r == WidgetSearch::Retry,
{
    if timed_out {
        WidgetSearch::GiveUp
    } else if clicked {
        WidgetSearch::Clicked
    } else {
        WidgetSearch::Retry
    }
}

/// Whether an in-place solve may start another click attempt after
/// `attempts_made` attempts: it fails once all attempts are spent, and
/// before that when the time is up.
pub fn in_place_attempt(attempts_made: u32, timed_out: bool) -> (r: Result<(), BrowserError>)
    ensures
        attempts_made >= MAX_CLICK_ATTEMPTS ==> (r matches Err(BrowserError::CloudflareTimeout(m))
            && m@ == "cloudflare in-place solve: max click attempts reached"@),
        attempts_made < MAX_CLICK_ATTEMPTS && timed_out ==> (r matches Err(BrowserError::CloudflareTimeout(m))
            && m@ == "cloudflare in-place solve timed out"@),
        attempts_made < MAX_CLICK_ATTEMPTS && !timed_out ==> r is Ok,
{
    if attempts_made >= MAX_CLICK_ATTEMPTS {
        let mut m = String::new();
        push_str(&mut m, "cloudflare in-place solve: max click attempts reached");
        return Err(BrowserError::CloudflareTimeout(m));
    }
    if timed_out {
        let mut m = String::new();
        push_str(&mut m, "cloudflare in-place solve timed out");
        return Err(BrowserError::CloudflareTimeout(m));
    }
    Ok(())
}

/// Every step keeps the click count within its limit, never forgets a
/// detected challenge, and a timed-out poll fails exactly when a challenge
/// was seen.
pub proof fn lemma_bypass_step_laws(s: BypassState, timed_out: bool, title: Seq<char>, auto_click: bool)
    requires
        bypass_state_ok(s),
    ensures
        bypass_state_ok(bypass_next_state(s, title)),
        s.challenge_detected ==> bypass_next_state(s, title).challenge_detected,
        s.challenge_detected ==> bypass_next_state(s, title) == s,
        timed_out ==> (bypass_next_action(s, timed_out, title, auto_click) is Fail <==> s.challenge_detected),
        !timed_out && title.len() > 0 && !is_challenge_title(title) ==> bypass_next_action(
            s,
            timed_out,
            title,
            auto_click,
        ) is ExtractCookies,
        bypass_next_action(s, timed_out, title, auto_click) is TryClick ==> auto_click
            && bypass_next_state(s, title).click_count < MAX_CLICK_ATTEMPTS,
{
}

/// A poll in time that reads a title containing one of the challenge
/// titles ("Just a moment", "Checking your browser", "Attention Required",
/// "Please Wait", "Um momento") never lets the bypass go on to the cookies:
/// the challenge counts as detected, and from the start of a bypass with
/// auto-click on the widget is clicked.
pub proof fn lemma_challenge_page_is_held(s: BypassState, title: Seq<char>, auto_click: bool)
    requires
        bypass_state_ok(s),
        contains(title, "Just a moment"@) || contains(title, "Checking your browser"@) || contains(
            title,
            "Attention Required"@,
        ) || contains(title, "Please Wait"@) || contains(title, "Um momento"@),
    ensures
        !(bypass_next_action(s, false, title, auto_click) is ExtractCookies),
        !(bypass_next_action(s, false, title, auto_click) is Fail),
        bypass_next_state(s, title).challenge_detected,
        auto_click && !s.challenge_detected ==> bypass_next_action(s, false, title, auto_click) is TryClick,
        !auto_click ==> bypass_next_action(s, false, title, auto_click) is Wait,
{
    crate::browser::lemma_challenge_title_cases(title);
}

/// Outcome of one poll for the clearance cookie.
#[derive(Debug, Clone, PartialEq, Eq)]
pub enum CookiePoll {
    /// The clearance cookie is there.
    Found,
    /// Give up: no clearance cookie in time.
    GiveUp,
    /// Sleep and read the cookies again.
    Retry,
}

/// Decides a poll for the clearance cookie: found wins over the time limit.
pub fn cookie_poll_step(cookies: &Vec<(String, String)>, timed_out: bool) -> (r: CookiePoll)
    ensures
        has_cookie(cookies@, "cf_clearance"@) ==> r == CookiePoll::Found,
        !has_cookie(cookies@, "cf_clearance"@) && timed_out ==> r == CookiePoll::GiveUp,
        !has_cookie(cookies@, "cf_clearance"@) && !timed_out ==> r == CookiePoll::Retry,
{
    if cookies_contain(cookies, "cf_clearance") {
        CookiePoll::Found
    } else if timed_out {
        CookiePoll::GiveUp
    } else {
        CookiePoll::Retry
    }
}

// ─── a bypass as a whole ──────────────────────────────────────────────────

/// The state after a round that went for the Turnstile widget: one more
/// click when a click was sent.
pub open spec fn clicked_state(s: BypassState, clicked: bool) -> BypassState {
    if clicked {
        BypassState { challenge_detected: s.challenge_detected, click_count: (s.click_count + 1) as u32 }
    } else {
        s
    }
}

/// How the title-watching part of a bypass ends.
#[derive(Debug, Clone, Copy, PartialEq, Eq, Structural)]
pub enum TitleWatch {
    /// A challenge was seen and the time ran out.
    TimedOut,
    /// The page is through (or never showed a challenge): read the cookies.
    ReadCookies,
    /// The rounds given do not reach an end.
    Pending,
}

/// The title-watching part of a bypass from state `s`, over its rounds.
/// Round `rounds[j]` holds whether the time limit had passed when it
/// started, the title read, and, for a round that goes for the Turnstile
/// widget, whether a click was sent and whether the title then showed the
/// challenge solved.
pub open spec fn bypass_title_watch(s: BypassState, rounds: Seq<(bool, Seq<char>, bool, bool)>, auto_click: bool) -> TitleWatch
    decreases rounds.len(),
{
    if rounds.len() == 0 {
        TitleWatch::Pending
    } else {
        let timed_out = rounds[0].0;
        let title = rounds[0].1;
        let next = if timed_out { s } else { bypass_next_state(s, title) };
        match bypass_next_action(s, timed_out, title, auto_click) {
            BypassAction::Fail(_) => TitleWatch::TimedOut,
            BypassAction::ExtractCookies => TitleWatch::ReadCookies,
            BypassAction::Wait => bypass_title_watch(next, rounds.drop_first(), auto_click),
            BypassAction::TryClick => if rounds[0].2 && rounds[0].3 {
                TitleWatch::ReadCookies
            } else {
                bypass_title_watch(clicked_state(next, rounds[0].2), rounds.drop_first(), auto_click)
            },
        }
    }
}

/// The cookie-reading part of a bypass over its polls: `polls[j]` holds the
/// cookies read and whether the time for them had passed. It ends at the
/// first poll with a clearance cookie (`Found`) or, before that, at the
/// first poll out of time (`GiveUp`); the index is that of the poll it
/// ended at (`Retry` when no poll given ends it).
pub open spec fn bypass_cookie_reads(polls: Seq<(Seq<(String, String)>, bool)>) -> (CookiePoll, nat)
    decreases polls.len(),
{
    if polls.len() == 0 {
        (CookiePoll::Retry, 0)
    } else if has_cookie(polls[0].0, "cf_clearance"@) {
        (CookiePoll::Found, 0)
    } else if polls[0].1 {
        (CookiePoll::GiveUp, 0)
    } else {
        let rest = bypass_cookie_reads(polls.drop_first());
        (rest.0, rest.1 + 1)
    }
}

/// How a whole bypass ends.
#[derive(Debug, Clone, Copy, PartialEq, Eq, Structural)]
pub enum BypassEnd {
    /// The clearance cookie was read: the cookies and user agent are returned.
    Cleared,
    /// A challenge was seen and not solved in time.
    ChallengeTimeout,
    /// No clearance cookie turned up in time.
    NoClearance,
    /// The rounds and polls given do not reach an end.
    Pending,
}

/// A whole bypass from its start, over its title rounds and cookie polls.
pub open spec fn bypass_run(
    rounds: Seq<(bool, Seq<char>, bool, bool)>,
    polls: Seq<(Seq<(String, String)>, bool)>,
    auto_click: bool,
) -> BypassEnd {
    match bypass_title_watch(BypassState { challenge_detected: false, click_count: 0 }, rounds, auto_click) {
        TitleWatch::TimedOut => BypassEnd::ChallengeTimeout,
        TitleWatch::Pending => BypassEnd::Pending,
        TitleWatch::ReadCookies => match bypass_cookie_reads(polls).0 {
            CookiePoll::Found => BypassEnd::Cleared,
            CookiePoll::GiveUp => BypassEnd::NoClearance,
            CookiePoll::Retry => BypassEnd::Pending,
        },
    }
}

proof fn lemma_cookie_reads(polls: Seq<(Seq<(String, String)>, bool)>)
    ensures
        bypass_cookie_reads(polls).0 is Found ==> bypass_cookie_reads(polls).1 < polls.len() && has_cookie(
            polls[bypass_cookie_reads(polls).1 as int].0,
            "cf_clearance"@,
        ),
        (forall|j: int| 0 <= j < polls.len() ==> !has_cookie(#[trigger] polls[j].0, "cf_clearance"@)) ==> !(
        bypass_cookie_reads(polls).0 is Found),
        (forall|j: int| 0 <= j < polls.len() ==> !has_cookie(#[trigger] polls[j].0, "cf_clearance"@)) && (exists|j: int|
            0 <= j < polls.len() && (#[trigger] polls[j]).1) ==> bypass_cookie_reads(polls).0 is GiveUp,
    decreases polls.len(),
{
    if polls.len() > 0 {
        let rest = polls.drop_first();
        lemma_cookie_reads(rest);
        if forall|j: int| 0 <= j < polls.len() ==> !has_cookie(#[trigger] polls[j].0, "cf_clearance"@) {
            assert forall|j: int| 0 <= j < rest.len() implies !has_cookie(#[trigger] rest[j].0, "cf_clearance"@) by {
                assert(rest[j] == polls[j + 1]);
            }
            if exists|j: int| 0 <= j < polls.len() && (#[trigger] polls[j]).1 {
                let w = choose|j: int| 0 <= j < polls.len() && (#[trigger] polls[j]).1;
                if w > 0 {
                    assert(rest[w - 1] == polls[w]);
                }
            }
        }
        if bypass_cookie_reads(polls).0 is Found && !has_cookie(polls[0].0, "cf_clearance"@) {
            assert(rest[bypass_cookie_reads(rest).1 as int] == polls[bypass_cookie_reads(polls).1 as int]);
        }
    }
}

proof fn lemma_challenge_outlasts(s: BypassState, rounds: Seq<(bool, Seq<char>, bool, bool)>, auto_click: bool)
    requires
        bypass_state_ok(s),
        forall|j: int| 0 <= j < rounds.len() ==> is_challenge_title((#[trigger] rounds[j]).1) && !(rounds[j].2 && rounds[j].3),
        exists|j: int| 0 <= j < rounds.len() && (#[trigger] rounds[j]).0,
        rounds.len() > 0 && (s.challenge_detected || !rounds[0].0),
    ensures
        bypass_title_watch(s, rounds, auto_click) is TimedOut,
    decreases rounds.len(),
{
    let r0 = rounds[0];
    if !r0.0 {
        let rest = rounds.drop_first();
        let next = bypass_next_state(s, r0.1);
        let w = choose|j: int| 0 <= j < rounds.len() && (#[trigger] rounds[j]).0;
        assert(w > 0);
        assert(rest[w - 1] == rounds[w]);
        assert forall|j: int| 0 <= j < rest.len() implies is_challenge_title((#[trigger] rest[j]).1) && !(rest[j].2
            && rest[j].3) by {
            assert(rest[j] == rounds[j + 1]);
        }
        assert(is_challenge_title(r0.1));
        assert(next.challenge_detected);
        match bypass_next_action(s, false, r0.1, auto_click) {
            BypassAction::TryClick => {
                lemma_challenge_outlasts(clicked_state(next, r0.2), rest, auto_click);
            },
            _ => {
                lemma_challenge_outlasts(next, rest, auto_click);
            },
        }
    }
}

/// A bypass as a whole. It returns cookies only from a read that holds the
/// `cf_clearance` cookie. When no cookie read holds that cookie it never
/// succeeds, and once a read is out of time it fails with a timeout, also
/// when no challenge was ever seen. When every title read shows a challenge
/// (none of them before the time ran out), no click solves it, and the time
/// runs out, it fails with a challenge timeout.
pub proof fn lemma_bypass_run(
    rounds: Seq<(bool, Seq<char>, bool, bool)>,
    polls: Seq<(Seq<(String, String)>, bool)>,
    auto_click: bool,
)
    ensures
        bypass_run(rounds, polls, auto_click) is Cleared ==> bypass_cookie_reads(polls).1 < polls.len() && has_cookie(
            polls[bypass_cookie_reads(polls).1 as int].0,
            "cf_clearance"@,
        ),
        (forall|j: int| 0 <= j < polls.len() ==> !has_cookie(#[trigger] polls[j].0, "cf_clearance"@)) ==> !(bypass_run(
            rounds,
            polls,
            auto_click,
        ) is Cleared),
        (forall|j: int| 0 <= j < polls.len() ==> !has_cookie(#[trigger] polls[j].0, "cf_clearance"@)) && (exists|j: int|
            0 <= j < polls.len() && (#[trigger] polls[j]).1) && !(bypass_run(rounds, polls, auto_click) is Pending)
            ==> bypass_run(rounds, polls, auto_click) is ChallengeTimeout || bypass_run(rounds, polls, auto_click) is NoClearance,
        (forall|j: int| 0 <= j < rounds.len() ==> is_challenge_title((#[trigger] rounds[j]).1) && !(rounds[j].2
            && rounds[j].3)) && (exists|j: int| 0 <= j < rounds.len() && (#[trigger] rounds[j]).0) && !rounds[0].0
            ==> bypass_run(rounds, polls, auto_click) is ChallengeTimeout,
{
    lemma_cookie_reads(polls);
    if (forall|j: int| 0 <= j < rounds.len() ==> is_challenge_title((#[trigger] rounds[j]).1) && !(rounds[j].2
        && rounds[j].3)) && (exists|j: int| 0 <= j < rounds.len() && (#[trigger] rounds[j]).0) && !rounds[0].0 {
        lemma_challenge_outlasts(BypassState { challenge_detected: false, click_count: 0 }, rounds, auto_click);
    }
}

// ─── Turnstile widget search ─────────────────────────────────────────────

/// A DOM node as the page's document tree reports it.
#[derive(Debug)]
pub struct DomNode {
    pub node_id: i64,
    pub node_name: String,
    /// Attribute names and values, interleaved.
    pub attributes: Option<Vec<String>>,
    pub shadow_roots: Option<Vec<DomNode>>,
    pub children: Option<Vec<DomNode>>,
    pub content_document: Option<Box<DomNode>>,
}

/// Value following the first attribute name `src`, if any.
pub open spec fn src_attr(attrs: Seq<String>) -> Option<Seq<char>> {
    if exists|i: int| 0 <= i < attrs.len() && attrs[i]@ == "src"@ {
        let i = choose|i: int| 0 <= i < attrs.len() && attrs[i]@ == "src"@ && forall|j: int|
            0 <= j < i ==> attrs[j]@ != "src"@;
        if i + 1 < attrs.len() {
            Some(attrs[i + 1]@)
        } else {
            None
        }
    } else {
        None
    }
}

/// The node itself is the Turnstile iframe.
pub open spec fn is_turnstile_frame(n: DomNode) -> bool {
    &&& n.node_name@ == "IFRAME"@
    &&& n.attributes matches Some(attrs)
    &&& src_attr(attrs@) matches Some(src)
    &&& (contains(src, "challenges.cloudflare.com"@) || contains(src, "turnstile"@))
}

/// First Turnstile iframe in `n`'s subtree, searching the node, then its
/// shadow roots, then its children, then its content document.
pub open spec fn turnstile_in(n: DomNode) -> Option<i64>
    decreases n, 1int,
{
    if is_turnstile_frame(n) {
        Some(n.node_id)
    } else {
        let in_shadows = match n.shadow_roots {
            Some(v) => turnstile_in_list(v@, 0),
            None => None,
        };
        if in_shadows is Some {
            in_shadows
        } else {
            let in_children = match n.children {
                Some(v) => turnstile_in_list(v@, 0),
                None => None,
            };
            if in_children is Some {
                in_children
            } else {
                match n.content_document {
                    Some(d) => turnstile_in(*d),
                    None => None,
                }
            }
        }
    }
}

/// First Turnstile iframe in the subtrees of `nodes[k..]`.
pub open spec fn turnstile_in_list(nodes: Seq<DomNode>, k: int) -> Option<i64>
    decreases nodes, nodes.len() - k,
{
    if k < 0 || k >= nodes.len() {
        None
    } else {
        let here = turnstile_in(nodes[k]);
        if here is Some {
            here
        } else {
            turnstile_in_list(nodes, k + 1)
        }
    }
}

fn src_value(attrs: &Vec<String>) -> (r: Option<&String>)
    ensures
        r matches Some(v) ==> src_attr(attrs@) == Some(v@),
        r is None <==> src_attr(attrs@) is None,
{
    let mut i: usize = 0;
    while i < attrs.len()
        invariant
            i <= attrs.len(),
            forall|j: int| 0 <= j < i ==> attrs@[j]@ != "src"@,
        decreases attrs.len() - i,
    {
        if str_eq(attrs[i].as_str(), "src") {
            let ghost c = choose|k: int| 0 <= k < attrs@.len() && attrs@[k]@ == "src"@ && forall|j: int|
                0 <= j < k ==> attrs@[j]@ != "src"@;
            proof {
                assert(0 <= i < attrs@.len() && attrs@[i as int]@ == "src"@ && forall|j: int|
                    0 <= j < i ==> attrs@[j]@ != "src"@);
                if c < i {
                    assert(attrs@[c]@ != "src"@);
                } else if c > i {
                    assert(attrs@[i as int]@ != "src"@);
                }
            }
            if i + 1 < attrs.len() {
                return Some(&attrs[i + 1]);
            }
            return None;
        }
        i = i + 1;
    }
    None
}

fn frame_check(n: &DomNode) -> (b: bool)
    ensures
        b == is_turnstile_frame(*n),
{
    if !str_eq(n.node_name.as_str(), "IFRAME") {
        return false;
    }
    match &n.attributes {
        Some(attrs) => match src_value(attrs) {
            Some(src) => str_contains(src.as_str(), "challenges.cloudflare.com") || str_contains(
                src.as_str(),
                "turnstile",
            ),
            None => false,
        },
        None => false,
    }
}

fn find_in_list(nodes: &Vec<DomNode>) -> (r: Option<i64>)
    ensures
        r == turnstile_in_list(nodes@, 0),
    decreases nodes@, 0int,
{
    let mut k: usize = 0;
    while k < nodes.len()
        invariant
            k <= nodes.len(),
            turnstile_in_list(nodes@, 0) == turnstile_in_list(nodes@, k as int),
        decreases nodes.len() - k,
    {
        let here = find_turnstile_iframe(&nodes[k]);
        if here.is_some() {
            return here;
        }
        k = k + 1;
    }
    None
}

/// The node id of the first Turnstile iframe in a document tree.
pub fn find_turnstile_iframe(node: &DomNode) -> (r: Option<i64>)
    ensures
        r == turnstile_in(*node),
    decreases *node, 1int,
{
    if frame_check(node) {
        return Some(node.node_id);
    }
    if let Some(shadows) = &node.shadow_roots {
        let found = find_in_list(shadows);
        if found.is_some() {
            return found;
        }
    }
    if let Some(children) = &node.children {
        let found = find_in_list(children);
        if found.is_some() {
            return found;
        }
    }
    match &node.content_document {
        Some(doc) => find_turnstile_iframe(doc),
        None => None,
    }
}

// ─── the click ────────────────────────────────────────────────────────────

/// Kind of a mouse event sent to the page.
#[derive(Debug, Clone, Copy, PartialEq, Eq, Structural)]
pub enum MouseEventKind {
    Moved,
    Pressed,
    Released,
}

/// Where a mouse event of a Turnstile click goes.
#[derive(Debug, Clone, Copy, PartialEq, Eq, Structural)]
pub enum ClickPoint {
    /// A point off to the side of the checkbox.
    Start,
    /// A point between the start and the checkbox.
    Midway,
    /// The checkbox.
    Target,
}

/// One mouse event of a Turnstile click: its kind, where it goes, and
/// whether it carries the left button with a click count of 1.
#[derive(Debug, Clone, Copy, PartialEq, Eq, Structural)]
pub struct MouseStep {
    pub kind: MouseEventKind,
    pub point: ClickPoint,
    pub left_button: bool,
}

/// The mouse events of a Turnstile click, in order: a move to a start
/// point, a move midway, a move onto the checkbox, then a press and a
/// release of the left button there.
pub open spec fn turnstile_gesture() -> Seq<MouseStep> {
    seq![
        MouseStep { kind: MouseEventKind::Moved, point: ClickPoint::Start, left_button: false },
        MouseStep { kind: MouseEventKind::Moved, point: ClickPoint::Midway, left_button: false },
        MouseStep { kind: MouseEventKind::Moved, point: ClickPoint::Target, left_button: false },
        MouseStep { kind: MouseEventKind::Pressed, point: ClickPoint::Target, left_button: true },
        MouseStep { kind: MouseEventKind::Released, point: ClickPoint::Target, left_button: true },
    ]
}

/// The click on the Turnstile widget of a document tree: the node id of
/// the first Turnstile iframe and the mouse events to send, in order. With
/// no such iframe there is nothing to click and no event to send. A click
/// is three moves, the last onto the checkbox, then a press and a release
/// of the left button, both at that same point.
pub fn turnstile_click_plan(doc: &DomNode) -> (r: Option<(i64, Vec<MouseStep>)>)
    ensures
        turnstile_in(*doc) is None ==> r is None,
        turnstile_in(*doc) is Some ==> (r matches Some(p) && p.0 == turnstile_in(*doc)->0 && p.1@ == turnstile_gesture()),
        r matches Some(p) ==> p.1@.len() == 5
            && (forall|i: int| 0 <= i < 3 ==> (#[trigger] p.1@[i]).kind == MouseEventKind::Moved)
            && p.1@[3].kind == MouseEventKind::Pressed && p.1@[4].kind == MouseEventKind::Released
            && p.1@[2].point == ClickPoint::Target && p.1@[3].point == ClickPoint::Target
            && p.1@[4].point == ClickPoint::Target && p.1@[3].left_button && p.1@[4].left_button,
{
    match find_turnstile_iframe(doc) {
        None => None,
        Some(id) => {
            let mut steps: Vec<MouseStep> = Vec::new();
            steps.push(MouseStep { kind: MouseEventKind::Moved, point: ClickPoint::Start, left_button: false });
            steps.push(MouseStep { kind: MouseEventKind::Moved, point: ClickPoint::Midway, left_button: false });
            steps.push(MouseStep { kind: MouseEventKind::Moved, point: ClickPoint::Target, left_button: false });
            steps.push(MouseStep { kind: MouseEventKind::Pressed, point: ClickPoint::Target, left_button: true });
            steps.push(MouseStep { kind: MouseEventKind::Released, point: ClickPoint::Target, left_button: true });
            proof {
                assert(steps@ =~= turnstile_gesture());
            }
            Some((id, steps))
        },
    }
}

} // verus!
