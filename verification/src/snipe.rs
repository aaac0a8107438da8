//! The snipe engine: case-insensitive challenge matching with a strict
//! zero/one/many resolution policy, the precise-wait plan, and the retry
//! policy that wraps the listing fetch with linear backoff.
use vstd::prelude::*;

use crate::ctfd::{Challenge, ChallengeBrief, CtfdError};

verus! {

/// The lower-cased form of a character sequence, as `str::to_lowercase`
/// yields it: a function of the characters alone.
pub uninterp spec fn lower_of(s: Seq<char>) -> Seq<char>;

/// Relies on `str::to_lowercase`: the result depends on the characters
/// alone; an empty input gives an empty result.
#[verifier::external_body]
fn lowercase(s: &str) -> (r: String)
    ensures
        r@ == lower_of(s@),
        s@.len() == 0 ==> r@.len() == 0,
{
    s.to_lowercase()
}

/// `needle` occurs contiguously somewhere in `hay`.
pub open spec fn is_substring(needle: Seq<char>, hay: Seq<char>) -> bool {
    exists|i: int|
        0 <= i && i + needle.len() <= hay.len() && #[trigger] hay.subrange(i, i + needle.len())
            == needle
}

/// Relies on `str::contains` with a string pattern: true exactly when the
/// pattern occurs as a contiguous substring.
#[verifier::external_body]
fn str_contains(hay: &str, needle: &str) -> (r: bool)
    ensures
        r == is_substring(needle@, hay@),
{
    hay.contains(needle)
}

/// A brief matches a title target when its lower-cased name contains the
/// lower-cased target.
pub open spec fn title_matches(c: ChallengeBrief, title: Seq<char>) -> bool {
    is_substring(lower_of(title), lower_of(c.name@))
}

/// The title-match test as a predicate over briefs, one fixed target.
pub open spec fn title_pred(title: Seq<char>) -> spec_fn(ChallengeBrief) -> bool {
    |c: ChallengeBrief| title_matches(c, title)
}

/// A challenge matches a body target when its lower-cased description
/// contains the lower-cased target.
pub open spec fn body_matches(c: Challenge, body: Seq<char>) -> bool {
    is_substring(lower_of(body), lower_of(c.description@))
}

/// The body-match test as a predicate over challenges, one fixed target.
pub open spec fn body_pred(body: Seq<char>) -> spec_fn(Challenge) -> bool {
    |c: Challenge| body_matches(c, body)
}

/// How the matcher's selection resolved: no candidate, exactly one, or an
/// ambiguity that enumerates every candidate's id and name so the operator
/// can re-target — the engine never guesses among several.
pub enum Resolution {
    NoMatch,
    Resolved(i32),
    Ambiguous(Vec<(i32, String)>),
}

/// What the engine does after a selection pass: submit to the one resolved
/// challenge, fall through to the body pass, or stop with the normal
/// "no match" outcome.
#[derive(Debug)]
pub enum SnipeStep {
    Submit(i32),
    TryBodyPass,
    NoMatchDone,
}

/// The snipe engine's own failures, beside those of the API client.
#[derive(Debug)]
pub enum SnipeError {
    /// The wait target is already past or inside the guard band.
    TimingPrecondition,
    /// Several challenges matched; the pairs list every candidate.
    Ambiguous(Vec<(i32, String)>),
    /// The API client failed underneath the engine.
    Client(CtfdError),
}

/// The snipe command's configuration, as the operator supplies it: the flag
/// to submit, an optional release instant to wait for (milliseconds on the
/// platform's clock), the title substring, and an optional body substring.
pub struct Snipe {
    /// the flag to submit
    pub flag: String,
    /// wait until this time
    pub wait_until: Option<i64>,
    /// text to look for in title
    pub title_target: String,
    /// text to look for in the title and body
    pub body_target: Option<String>,
}

impl Snipe {
    /// Stage one of the matcher: every brief whose name, lower-cased,
    /// contains the lower-cased title target, in listing order.
    #[verifier::loop_isolation(false)]
    pub fn find_title_matches(title: &str, challs: Vec<ChallengeBrief>) -> (r: Vec<
        ChallengeBrief,
    >)
        ensures
            r@ == challs@.filter(title_pred(title@)),
    {
        let title_search = lowercase(title);
        let mut rest = challs;
        let mut out: Vec<ChallengeBrief> = Vec::new();
        let ghost mut k: int = 0;
        proof {
            reveal(Seq::filter);
            assert(challs@.subrange(0, 0) =~= Seq::<ChallengeBrief>::empty());
            assert(rest@ =~= challs@.skip(0));
        }
        while rest.len() > 0
            invariant
                0 <= k <= challs@.len(),
                k + rest@.len() == challs@.len(),
                rest@ == challs@.skip(k),
                out@ == challs@.subrange(0, k).filter(title_pred(title@)),
            decreases rest.len(),
        {
            let ghost before = rest@;
            let c = rest.remove(0);
            proof {
                assert(c == challs@[k]);
                assert(rest@ =~= before.skip(1));
                assert(rest@ =~= challs@.skip(k + 1));
            }
            let name_lower = lowercase(c.name.as_str());
            let hit = str_contains(name_lower.as_str(), title_search.as_str());
            proof {
                reveal(Seq::filter);
                assert(hit == title_matches(c, title@));
                assert(challs@.subrange(0, k + 1).drop_last() =~= challs@.subrange(0, k));
                assert(challs@.subrange(0, k + 1).last() == challs@[k]);
            }
            if hit {
                out.push(c);
            }
            proof {
                k = k + 1;
            }
        }
        proof {
            assert(challs@.subrange(0, challs@.len() as int) =~= challs@);
        }
        out
    }

    /// Stage two of the matcher: every challenge whose description,
    /// lower-cased, contains the lower-cased body target, in order.
    #[verifier::loop_isolation(false)]
    pub fn find_body_matches(body: &str, challs: Vec<Challenge>) -> (r: Vec<Challenge>)
        ensures
            r@ == challs@.filter(body_pred(body@)),
    {
        let body_search = lowercase(body);
        let mut rest = challs;
        let mut out: Vec<Challenge> = Vec::new();
        let ghost mut k: int = 0;
        proof {
            reveal(Seq::filter);
            assert(challs@.subrange(0, 0) =~= Seq::<Challenge>::empty());
            assert(rest@ =~= challs@.skip(0));
        }
        while rest.len() > 0
            invariant
                0 <= k <= challs@.len(),
                k + rest@.len() == challs@.len(),
                rest@ == challs@.skip(k),
                out@ == challs@.subrange(0, k).filter(body_pred(body@)),
            decreases rest.len(),
        {
            let ghost before = rest@;
            let c = rest.remove(0);
            proof {
                assert(c == challs@[k]);
                assert(rest@ =~= before.skip(1));
                assert(rest@ =~= challs@.skip(k + 1));
            }
            let descr_lower = lowercase(c.description.as_str());
            let hit = str_contains(descr_lower.as_str(), body_search.as_str());
            proof {
                reveal(Seq::filter);
                assert(hit == body_matches(c, body@));
                assert(challs@.subrange(0, k + 1).drop_last() =~= challs@.subrange(0, k));
                assert(challs@.subrange(0, k + 1).last() == challs@[k]);
            }
            if hit {
                out.push(c);
            }
            proof {
                k = k + 1;
            }
        }
        proof {
            assert(challs@.subrange(0, challs@.len() as int) =~= challs@);
        }
        out
    }
}

/// The id/name pair a candidate is enumerated by in an ambiguity report.
pub open spec fn spec_id_name(c: ChallengeBrief) -> (i32, String) {
    (c.id, c.name)
}

/// The id/name pair of a fully expanded candidate.
pub open spec fn spec_id_name_full(c: Challenge) -> (i32, String) {
    (c.id, c.name)
}

/// The zero/one/many policy over stage-one matches: none resolves to
/// nothing, one resolves to that challenge's id, several abort with the full
/// candidate list — never a guess.
pub fn resolve_briefs(matches: &Vec<ChallengeBrief>) -> (r: Resolution)
    ensures
        matches@.len() == 0 ==> r == Resolution::NoMatch,
        matches@.len() == 1 ==> r == Resolution::Resolved(matches@[0].id),
        matches@.len() >= 2 ==> (r matches Resolution::Ambiguous(l) && l@ == matches@.map_values(
            |c: ChallengeBrief| spec_id_name(c),
        )),
{
    if matches.len() == 0 {
        Resolution::NoMatch
    } else if matches.len() == 1 {
        Resolution::Resolved(matches[0].id)
    } else {
        let mut l: Vec<(i32, String)> = Vec::new();
        let mut i: usize = 0;
        proof {
            assert(matches@.subrange(0, 0) =~= Seq::<ChallengeBrief>::empty());
        }
        while i < matches.len()
            invariant
                i <= matches@.len(),
                l@ =~= matches@.subrange(0, i as int).map_values(
                    |c: ChallengeBrief| spec_id_name(c),
                ),
            decreases matches@.len() - i,
        {
            l.push((matches[i].id, matches[i].name.clone()));
            proof {
                assert(matches@.subrange(0, i + 1).drop_last() =~= matches@.subrange(0, i as int));
                assert(l@ =~= matches@.subrange(0, i + 1).map_values(
                    |c: ChallengeBrief| spec_id_name(c),
                ));
            }
            i = i + 1;
        }
        proof {
            assert(matches@.subrange(0, matches@.len() as int) =~= matches@);
        }
        Resolution::Ambiguous(l)
    }
}

/// The same zero/one/many policy over stage-two matches.
pub fn resolve_challenges(matches: &Vec<Challenge>) -> (r: Resolution)
    ensures
        matches@.len() == 0 ==> r == Resolution::NoMatch,
        matches@.len() == 1 ==> r == Resolution::Resolved(matches@[0].id),
        matches@.len() >= 2 ==> (r matches Resolution::Ambiguous(l) && l@ == matches@.map_values(
            |c: Challenge| spec_id_name_full(c),
        )),
{
    if matches.len() == 0 {
        Resolution::NoMatch
    } else if matches.len() == 1 {
        Resolution::Resolved(matches[0].id)
    } else {
        let mut l: Vec<(i32, String)> = Vec::new();
        let mut i: usize = 0;
        proof {
            assert(matches@.subrange(0, 0) =~= Seq::<Challenge>::empty());
        }
        while i < matches.len()
            invariant
                i <= matches@.len(),
                l@ =~= matches@.subrange(0, i as int).map_values(|c: Challenge| spec_id_name_full(c)),
            decreases matches@.len() - i,
        {
            l.push((matches[i].id, matches[i].name.clone()));
            proof {
                assert(matches@.subrange(0, i + 1).drop_last() =~= matches@.subrange(0, i as int));
                assert(l@ =~= matches@.subrange(0, i + 1).map_values(
                    |c: Challenge| spec_id_name_full(c),
                ));
            }
            i = i + 1;
        }
        proof {
            assert(matches@.subrange(0, matches@.len() as int) =~= matches@);
        }
        Resolution::Ambiguous(l)
    }
}

/// What follows a selection pass. One resolved challenge is submitted to;
/// several candidates abort the whole operation with the ambiguity error,
/// never a guess among them. The body pass is tried only when this pass
/// found nothing and a body target was supplied; zero matches with nothing
/// left to try is the normal "no match" outcome, not an error.
pub fn plan_after_matches(r: Resolution, body_pass_available: bool) -> (s: Result<
    SnipeStep,
    SnipeError,
>)
    ensures
        r matches Resolution::Resolved(id) ==> s == Ok::<SnipeStep, SnipeError>(
            SnipeStep::Submit(id),
        ),
        (r is NoMatch && body_pass_available) ==> s == Ok::<SnipeStep, SnipeError>(
            SnipeStep::TryBodyPass,
        ),
        (r is NoMatch && !body_pass_available) ==> s == Ok::<SnipeStep, SnipeError>(
            SnipeStep::NoMatchDone,
        ),
        r matches Resolution::Ambiguous(l) ==> s == Err::<SnipeStep, SnipeError>(
            SnipeError::Ambiguous(l),
        ),
{
    match r {
        Resolution::Resolved(id) => Ok(SnipeStep::Submit(id)),
        Resolution::NoMatch => {
            if body_pass_available {
                Ok(SnipeStep::TryBodyPass)
            } else {
                Ok(SnipeStep::NoMatchDone)
            }
        },
        Resolution::Ambiguous(l) => Err(SnipeError::Ambiguous(l)),
    }
}

/// One candidate's entry in the ambiguity report: its id in brackets, then
/// its name.
pub open spec fn spec_candidate_entry(e: (i32, String)) -> Seq<char> {
    " ["@ + crate::ctfd::spec_i64_dec(e.0 as int) + "] "@ + e.1@
}

/// Every candidate's entry, in match order.
pub open spec fn spec_ambiguity_entries(l: Seq<(i32, String)>) -> Seq<char>
    decreases l.len(),
{
    if l.len() == 0 {
        Seq::<char>::empty()
    } else {
        spec_ambiguity_entries(l.drop_last()) + spec_candidate_entry(l.last())
    }
}

/// The operator-facing ambiguity message: it enumerates every candidate's id
/// and name, so the operator can re-target.
pub open spec fn spec_ambiguity_report(l: Seq<(i32, String)>) -> Seq<char> {
    "Found multiple matches:"@ + spec_ambiguity_entries(l)
}

/// Renders the ambiguity message, candidate for candidate.
#[verifier::loop_isolation(false)]
pub fn ambiguity_report(l: &Vec<(i32, String)>) -> (r: String)
    ensures
        r@ == spec_ambiguity_report(l@),
{
    let mut out = String::new();
    out.append("Found multiple matches:");
    let mut i: usize = 0;
    proof {
        reveal_strlit("Found multiple matches:");
        assert(out@ =~= spec_ambiguity_report(l@.subrange(0, 0)));
    }
    while i < l.len()
        invariant
            i <= l@.len(),
            out@ == spec_ambiguity_report(l@.subrange(0, i as int)),
        decreases l@.len() - i,
    {
        out.append(" [");
        let digits = crate::ctfd::int_to_string(l[i].0 as i64);
        out.append(digits.as_str());
        out.append("] ");
        out.append(l[i].1.as_str());
        proof {
            reveal_strlit(" [");
            reveal_strlit("] ");
            assert(l@.subrange(0, i + 1).drop_last() =~= l@.subrange(0, i as int));
            assert(l@.subrange(0, i + 1).last() == l@[i as int]);
            assert(out@ =~= spec_ambiguity_report(l@.subrange(0, i + 1)));
        }
        i = i + 1;
    }
    proof {
        assert(l@.subrange(0, l@.len() as int) =~= l@);
    }
    out
}

/// The fixed guard band: the tail of every wait is spent busy-polling, for
/// sub-second wake accuracy a coarse sleep cannot give. Spinning costs CPU
/// for this whole band; that trade is deliberate.
pub const GUARD_BAND_MS: u64 = 10_000;

/// Plans a precise wait: how long the coarse, scheduler-yielding sleep runs
/// before the busy-poll takes over for the guard band. A target already
/// past, or closer than the guard band, is a usage error, raised before any
/// sleeping or network activity.
pub fn wait_plan(now_ms: i64, target_ms: i64) -> (r: Result<u64, SnipeError>)
    ensures
        target_ms - now_ms >= GUARD_BAND_MS ==> r == Ok::<u64, SnipeError>(
            ((target_ms - now_ms) - GUARD_BAND_MS) as u64,
        ),
        target_ms - now_ms < GUARD_BAND_MS ==> r == Err::<u64, SnipeError>(
            SnipeError::TimingPrecondition,
        ),
{
    let lead: i128 = (target_ms as i128) - (now_ms as i128);
    if lead < GUARD_BAND_MS as i128 {
        Err(SnipeError::TimingPrecondition)
    } else {
        proof {
            assert(lead - GUARD_BAND_MS <= u64::MAX);
        }
        Ok((lead - GUARD_BAND_MS as i128) as u64)
    }
}

/// The busy-poll test: the wait is over exactly when the clock has reached
/// the target. The caller re-reads the clock and asks again, without
/// yielding, until this says so.
pub fn wait_complete(now_ms: i64, target_ms: i64) -> (r: bool)
    ensures
        r == (now_ms >= target_ms),
{
    now_ms >= target_ms
}

/// The backoff unit of the listing retry loop.
pub const BASE_DELAY_MS: u64 = 50;

/// The retry loop's only state: how many attempts have failed so far.
pub struct PollState {
    pub attempts: u32,
}

/// What the retry loop does next: hand the listing out, or sleep for the
/// given delay and try again.
pub enum PollDirective {
    Done(Vec<ChallengeBrief>),
    Retry(u64),
}

impl PollState {
    pub fn new() -> (r: PollState)
        ensures
            r.attempts == 0,
    {
        PollState { attempts: 0 }
    }

    /// One step of the unbounded retry policy: a success is handed out
    /// unchanged and at once; a failure asks for a sleep of `BASE_DELAY_MS`
    /// times the number of failures so far — linear backoff whose first
    /// retry waits not at all — and is never itself surfaced. The loop has
    /// no attempt cap by design: it retries until the platform responds.
    /// (After `u32::MAX` failures the counter, and with it the delay, stops
    /// growing rather than overflowing.)
    pub fn step(&mut self, resp: Result<Vec<ChallengeBrief>, CtfdError>) -> (r: PollDirective)
        ensures
            resp matches Ok(c) ==> r == PollDirective::Done(c) && *final(self) == *old(self),
            resp is Err ==> (r matches PollDirective::Retry(d) && d == BASE_DELAY_MS
                * old(self).attempts) && final(self).attempts == (if old(self).attempts
                < u32::MAX {
                old(self).attempts + 1
            } else {
                old(self).attempts as int
            }),
    {
        match resp {
            Ok(c) => PollDirective::Done(c),
            Err(_) => {
                let delay: u64 = BASE_DELAY_MS * (self.attempts as u64);
                if self.attempts < u32::MAX {
                    self.attempts = self.attempts + 1;
                }
                PollDirective::Retry(delay)
            },
        }
    }
}

} // verus!
