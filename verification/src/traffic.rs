//! Weighted traffic rollouts: the values `traffic:start` and `traffic:set`
//! take, and how a rollout is started, evaluated, promoted and aborted.

use vstd::prelude::*;
use crate::cli::{Argument, value_text, required_utf8, required_positive_u64, number_value, needs_positive};
use crate::process_manager::{valid_application_name, validate_name};
use crate::text::{concat_str, str_eq};
use crate::text::{chars_of, parse_unsigned, parse_u64_chars};
use crate::process_manager::{RolloutDecision, RolloutPhase};
use vstd::arithmetic::div_mod::{lemma_fundamental_div_mod, lemma_mod_pos_bound, lemma_small_mod};

verus! {

/// The longest a rollout may evaluate its candidate: one week.
pub const MAX_ROLLOUT_DEADLINE_SECONDS: u64 = 604_800;

/// The share of traffic, in basis points, that `--weight-bps` gives the candidate.
pub open spec fn basis_points(value: Option<&Argument>) -> Result<u16, Seq<char>> {
    match value_text(value, "--weight-bps"@) {
        Err(e) => Err(e),
        Ok(t) => match parse_unsigned(t, u16::MAX as int) {
            Some(n) => if n <= 10_000 {
                Ok(n as u16)
            } else {
                Err("--weight-bps requires an integer from 0 to 10000"@)
            },
            None => Err("--weight-bps requires an integer from 0 to 10000"@),
        },
    }
}

/// Reads `--weight-bps`: 0 to 10000 basis points.
pub fn parse_basis_points(value: Option<&Argument>) -> (r: Result<u16, String>)
    ensures
        match (r, basis_points(value)) {
            (Ok(n), Ok(m)) => n == m,
            (Err(e), Err(m)) => e@ == m,
            _ => false,
        },
{
    let text = match required_utf8(value, "--weight-bps") {
        Ok(t) => t,
        Err(e) => {
            return Err(e);
        },
    };
    let chars = chars_of(text.as_str());
    proof {
        assert(chars@.subrange(0, chars@.len() as int) =~= chars@);
    }
    match parse_u64_chars(&chars, 0, chars.len()) {
        Some(n) => {
            if n <= 10_000 {
                Ok(n as u16)
            } else {
                Err(String::from_str("--weight-bps requires an integer from 0 to 10000"))
            }
        },
        None => Err(String::from_str("--weight-bps requires an integer from 0 to 10000")),
    }
}

/// The evaluation deadline, in seconds, that `--deadline-seconds` gives.
pub open spec fn rollout_deadline(value: Option<&Argument>) -> Result<u64, Seq<char>> {
    match value_text(value, "--deadline-seconds"@) {
        Err(e) => Err(e),
        Ok(t) => match parse_unsigned(t, u64::MAX as int) {
            Some(n) => if 1 <= n <= MAX_ROLLOUT_DEADLINE_SECONDS {
                Ok(n as u64)
            } else {
                Err("--deadline-seconds requires an integer from 1 to 604800"@)
            },
            None => Err("--deadline-seconds requires an integer from 1 to 604800"@),
        },
    }
}

/// Reads `--deadline-seconds`: 1 second to a week.
pub fn parse_rollout_deadline(value: Option<&Argument>) -> (r: Result<u64, String>)
    ensures
        match (r, rollout_deadline(value)) {
            (Ok(n), Ok(m)) => n == m,
            (Err(e), Err(m)) => e@ == m,
            _ => false,
        },
{
    let text = match required_utf8(value, "--deadline-seconds") {
        Ok(t) => t,
        Err(e) => {
            return Err(e);
        },
    };
    let chars = chars_of(text.as_str());
    proof {
        assert(chars@.subrange(0, chars@.len() as int) =~= chars@);
    }
    match parse_u64_chars(&chars, 0, chars.len()) {
        Some(n) => {
            if 1 <= n && n <= MAX_ROLLOUT_DEADLINE_SECONDS {
                Ok(n)
            } else {
                Err(String::from_str("--deadline-seconds requires an integer from 1 to 604800"))
            }
        },
        None => Err(String::from_str("--deadline-seconds requires an integer from 1 to 604800")),
    }
}

/// `a + b`, or the largest `u64` where that overflows.
pub open spec fn saturating_sum(a: u64, b: u64) -> u64 {
    if a + b > u64::MAX {
        u64::MAX
    } else {
        (a + b) as u64
    }
}

/// `a * b`, or the largest `u64` where that overflows.
pub open spec fn saturating_product(a: u64, b: u64) -> u64 {
    if a * b > u64::MAX {
        u64::MAX
    } else {
        (a * b) as u64
    }
}

/// How a new ingress starts: evaluating a candidate that gets some traffic,
/// until the deadline after `now_millis`, or serving the stable backend.
pub fn initial_rollout(has_candidate: bool, weight_basis_points: u16, now_millis: u64, deadline_seconds: u64) -> (r: (
    RolloutPhase,
    Option<u64>,
))
    ensures
        (has_candidate && weight_basis_points > 0) ==> r == (RolloutPhase::Evaluating, Some(
            saturating_sum(now_millis, saturating_product(deadline_seconds, 1000)),
        )),
        !(has_candidate && weight_basis_points > 0) ==> r == (RolloutPhase::Stable, None::<u64>),
{
    if has_candidate && weight_basis_points > 0 {
        let span = if deadline_seconds > u64::MAX / 1000 {
            u64::MAX
        } else {
            deadline_seconds * 1000
        };
        (RolloutPhase::Evaluating, Some(now_millis.saturating_add(span)))
    } else {
        (RolloutPhase::Stable, None)
    }
}

/// The rollout state the manager keeps for a traffic ingress, over backends
/// of type `B`.
pub struct TrafficRollout<B> {
    pub stable: B,
    pub candidate: Option<B>,
    pub candidate_weight_basis_points: u16,
    pub phase: RolloutPhase,
    pub deadline_millis: Option<u64>,
    pub generation: u64,
    pub last_decision: Option<RolloutDecision>,
    pub last_evaluated_at_millis: Option<u64>,
    pub last_evaluated_candidate_requests: Option<u64>,
    pub last_evaluated_candidate_errors: Option<u64>,
}

/// The candidate's error rate in basis points, rounded up: 0 without
/// requests, and kept to its low 16 bits as the manager stores it.
pub open spec fn error_basis_points(requests: u64, errors: u64) -> u16 {
    if requests == 0 {
        0
    } else {
        (((errors * 10000 + requests - 1) / (requests as int)) % 65536) as u16
    }
}

/// Computes the candidate's error rate in basis points, rounding up.
pub fn candidate_error_basis_points(requests: u64, errors: u64) -> (r: u16)
    ensures
        r == error_basis_points(requests, errors),
{
    if requests == 0 {
        return 0;
    }
    let total: u128 = (errors as u128) * 10000 + (requests as u128) - 1;
    let quotient: u128 = total / (requests as u128);
    (quotient % 65536) as u16
}

/// How an evaluation decides: the deadline first, then the number of
/// candidate requests, then the error rate.
pub open spec fn decide(
    expired: bool,
    requests: u64,
    minimum_requests: u64,
    error_bps: u16,
    maximum_error_bps: u16,
) -> RolloutDecision {
    if expired {
        RolloutDecision::DeadlineAborted
    } else if requests < minimum_requests {
        RolloutDecision::Pending
    } else if error_bps <= maximum_error_bps {
        RolloutDecision::Promoted
    } else {
        RolloutDecision::Aborted
    }
}

/// Whether the rollout's deadline has passed at `now_millis`.
pub open spec fn deadline_passed<B>(r: TrafficRollout<B>, now_millis: u64) -> bool {
    r.deadline_millis matches Some(d) && now_millis >= d
}

/// The rollout after an evaluation that decided `d`.
pub open spec fn evaluated<B>(
    r: TrafficRollout<B>,
    d: RolloutDecision,
    requests: u64,
    errors: u64,
    now_millis: u64,
) -> TrafficRollout<B> {
    let pending = d == RolloutDecision::Pending;
    let promoted = d == RolloutDecision::Promoted;
    TrafficRollout {
        stable: if promoted {
            r.candidate->Some_0
        } else {
            r.stable
        },
        candidate: if pending {
            r.candidate
        } else {
            None
        },
        candidate_weight_basis_points: if pending {
            r.candidate_weight_basis_points
        } else {
            0
        },
        phase: if pending {
            r.phase
        } else if promoted {
            RolloutPhase::Promoted
        } else {
            RolloutPhase::Aborted
        },
        deadline_millis: if pending {
            r.deadline_millis
        } else {
            None
        },
        generation: if pending {
            r.generation
        } else {
            (r.generation + 1) as u64
        },
        last_decision: Some(d),
        last_evaluated_at_millis: Some(now_millis),
        last_evaluated_candidate_requests: Some(requests),
        last_evaluated_candidate_errors: Some(errors),
    }
}

/// Why an evaluation is refused, if it is.
pub open spec fn evaluation_refusal<B>(r: TrafficRollout<B>, metrics_generation: u64, d: RolloutDecision) -> Option<
    Seq<char>,
> {
    if r.candidate is None || r.phase != RolloutPhase::Evaluating {
        Some("traffic ingress has no rollout under evaluation"@)
    } else if metrics_generation != r.generation {
        Some("rollout metrics have not reached the active generation"@)
    } else if d != RolloutDecision::Pending && r.generation == u64::MAX {
        Some("traffic generation exhausted"@)
    } else {
        None
    }
}

/// Evaluates a rollout against the candidate's request and error counts,
/// measured at `metrics_generation`: decides, records the evaluation and,
/// unless the decision is pending, ends the rollout. Returns the new state,
/// the decision and the candidate's error rate in basis points.
pub fn evaluate_rollout<B>(
    rollout: TrafficRollout<B>,
    metrics_generation: u64,
    candidate_requests: u64,
    candidate_errors: u64,
    minimum_requests: u64,
    maximum_error_bps: u16,
    now_millis: u64,
) -> (r: Result<(TrafficRollout<B>, RolloutDecision, u16), String>)
    ensures
        ({
            let bps = error_basis_points(candidate_requests, candidate_errors);
            let d = decide(
                deadline_passed(rollout, now_millis),
                candidate_requests,
                minimum_requests,
                bps,
                maximum_error_bps,
            );
            match (r, evaluation_refusal(rollout, metrics_generation, d)) {
                (Ok((next, decision, error_bps)), None) => decision == d && error_bps == bps && next == evaluated(
                    rollout,
                    d,
                    candidate_requests,
                    candidate_errors,
                    now_millis,
                ),
                (Err(e), Some(m)) => e@ == m,
                _ => false,
            }
        }),
{
    let mut next = rollout;
    let evaluating = match next.phase {
        RolloutPhase::Evaluating => true,
        _ => false,
    };
    if next.candidate.is_none() || !evaluating {
        return Err(String::from_str("traffic ingress has no rollout under evaluation"));
    }
    if metrics_generation != next.generation {
        return Err(String::from_str("rollout metrics have not reached the active generation"));
    }
    let expired = match next.deadline_millis {
        Some(deadline) => now_millis >= deadline,
        None => false,
    };
    let error_bps = candidate_error_basis_points(candidate_requests, candidate_errors);
    let decision = if expired {
        RolloutDecision::DeadlineAborted
    } else if candidate_requests < minimum_requests {
        RolloutDecision::Pending
    } else if error_bps <= maximum_error_bps {
        RolloutDecision::Promoted
    } else {
        RolloutDecision::Aborted
    };
    next.last_decision = Some(decision);
    next.last_evaluated_at_millis = Some(now_millis);
    next.last_evaluated_candidate_requests = Some(candidate_requests);
    next.last_evaluated_candidate_errors = Some(candidate_errors);
    match decision {
        RolloutDecision::Pending => {},
        _ => {
            if next.generation == u64::MAX {
                return Err(String::from_str("traffic generation exhausted"));
            }
            let promoted = match decision {
                RolloutDecision::Promoted => true,
                _ => false,
            };
            let candidate = next.candidate.take();
            if promoted {
                match candidate {
                    Some(c) => {
                        next.stable = c;
                    },
                    None => {},
                }
                next.phase = RolloutPhase::Promoted;
            } else {
                next.phase = RolloutPhase::Aborted;
            }
            next.candidate_weight_basis_points = 0;
            next.deadline_millis = None;
            next.generation = next.generation + 1;
        },
    }
    Ok((next, decision, error_bps))
}

/// The rollout after `traffic:promote` (`promote`) or `traffic:abort`.
pub open spec fn finished<B>(r: TrafficRollout<B>, promote: bool) -> TrafficRollout<B> {
    TrafficRollout {
        stable: if promote {
            r.candidate->Some_0
        } else {
            r.stable
        },
        candidate: None,
        candidate_weight_basis_points: 0,
        phase: if promote {
            RolloutPhase::Promoted
        } else {
            RolloutPhase::Aborted
        },
        deadline_millis: None,
        generation: (r.generation + 1) as u64,
        last_decision: Some(
            if promote {
                RolloutDecision::Promoted
            } else {
                RolloutDecision::Aborted
            },
        ),
        ..r
    }
}

/// Ends a rollout by hand: promotes its candidate to the stable backend, or
/// aborts it; either way the candidate stops receiving traffic.
pub fn finish_rollout<B>(rollout: TrafficRollout<B>, promote: bool) -> (r: Result<TrafficRollout<B>, String>)
    ensures
        match r {
            Err(e) => if promote && rollout.candidate is None {
                e@ == "traffic ingress has no candidate to promote"@
            } else {
                rollout.generation == u64::MAX && e@ == "traffic generation exhausted"@
            },
            Ok(next) => !(promote && rollout.candidate is None) && rollout.generation < u64::MAX && next == finished(
                rollout,
                promote,
            ),
        },
{
    let mut next = rollout;
    if promote {
        match next.candidate.take() {
            Some(c) => {
                next.stable = c;
            },
            None => {
                return Err(String::from_str("traffic ingress has no candidate to promote"));
            },
        }
    }
    next.candidate = None;
    next.candidate_weight_basis_points = 0;
    next.phase = if promote {
        RolloutPhase::Promoted
    } else {
        RolloutPhase::Aborted
    };
    next.deadline_millis = None;
    next.last_decision = Some(
        if promote {
            RolloutDecision::Promoted
        } else {
            RolloutDecision::Aborted
        },
    );
    if next.generation == u64::MAX {
        return Err(String::from_str("traffic generation exhausted"));
    }
    next.generation = next.generation + 1;
    Ok(next)
}

/// The rollout after `traffic:set` gave it, where given, a new candidate and
/// a new weight: a candidate with traffic starts a fresh evaluation that ends
/// at the deadline after `now_millis`.
pub open spec fn reconfigured<B>(
    r: TrafficRollout<B>,
    candidate: Option<B>,
    weight: Option<u16>,
    now_millis: u64,
    deadline_seconds: u64,
) -> TrafficRollout<B> {
    let next_candidate = if candidate is Some {
        candidate
    } else {
        r.candidate
    };
    let next_weight = match weight {
        Some(w) => w,
        None => r.candidate_weight_basis_points,
    };
    let starts = next_candidate is Some && next_weight > 0;
    TrafficRollout {
        stable: r.stable,
        candidate: next_candidate,
        candidate_weight_basis_points: next_weight,
        phase: if starts {
            RolloutPhase::Evaluating
        } else {
            r.phase
        },
        deadline_millis: if starts {
            Some(saturating_sum(now_millis, saturating_product(deadline_seconds, 1000)))
        } else {
            r.deadline_millis
        },
        generation: (r.generation + 1) as u64,
        last_decision: if starts {
            None
        } else {
            r.last_decision
        },
        last_evaluated_at_millis: if starts {
            None
        } else {
            r.last_evaluated_at_millis
        },
        last_evaluated_candidate_requests: if starts {
            None
        } else {
            r.last_evaluated_candidate_requests
        },
        last_evaluated_candidate_errors: if starts {
            None
        } else {
            r.last_evaluated_candidate_errors
        },
    }
}

/// Applies `traffic:set` to a rollout and moves it to the next generation.
pub fn reconfigure_rollout<B>(
    rollout: TrafficRollout<B>,
    candidate: Option<B>,
    weight: Option<u16>,
    now_millis: u64,
    deadline_seconds: u64,
) -> (r: Result<TrafficRollout<B>, String>)
    ensures
        match r {
            Ok(next) => rollout.generation < u64::MAX && next == reconfigured(
                rollout,
                candidate,
                weight,
                now_millis,
                deadline_seconds,
            ),
            Err(e) => rollout.generation == u64::MAX && e@ == "traffic generation exhausted"@,
        },
{
    let mut next = rollout;
    match candidate {
        Some(c) => {
            next.candidate = Some(c);
        },
        None => {},
    }
    match weight {
        Some(w) => {
            next.candidate_weight_basis_points = w;
        },
        None => {},
    }
    if next.candidate.is_some() && next.candidate_weight_basis_points > 0 {
        let span = if deadline_seconds > u64::MAX / 1000 {
            u64::MAX
        } else {
            deadline_seconds * 1000
        };
        next.phase = RolloutPhase::Evaluating;
        next.deadline_millis = Some(now_millis.saturating_add(span));
        next.last_decision = None;
        next.last_evaluated_at_millis = None;
        next.last_evaluated_candidate_requests = None;
        next.last_evaluated_candidate_errors = None;
    }
    if next.generation == u64::MAX {
        return Err(String::from_str("traffic generation exhausted"));
    }
    next.generation = next.generation + 1;
    Ok(next)
}

/// The error rate is rounded up, never in the candidate's favour: with at most
/// as many errors as requests it lies between 0 and 10000 basis points, covers
/// the true rate, and is less than one basis point above it.
pub proof fn lemma_error_rate_rounds_up(requests: u64, errors: u64)
    requires
        0 < requests,
        errors <= requests,
    ensures
        error_basis_points(requests, errors) <= 10000,
        error_basis_points(requests, errors) * requests >= errors * 10000,
        (error_basis_points(requests, errors) - 1) * requests < errors * 10000,
{
    let n: int = errors * 10000 + requests - 1;
    let d: int = requests as int;
    let q: int = n / d;
    lemma_fundamental_div_mod(n, d);
    lemma_mod_pos_bound(n, d);
    assert(n < d * 10001) by (nonlinear_arith)
        requires
            n == errors * 10000 + d - 1,
            errors <= d,
            0 < d,
    ;
    assert(0 <= q <= 10000) by (nonlinear_arith)
        requires
            n == d * q + n % d,
            0 <= n % d < d,
            0 <= n < d * 10001,
            0 < d,
    ;
    lemma_small_mod(q as nat, 65536);
    assert(error_basis_points(requests, errors) == q);
    assert(q * d >= errors * 10000 && (q - 1) * d < errors * 10000) by (nonlinear_arith)
        requires
            n == d * q + n % d,
            0 <= n % d < d,
            n == errors * 10000 + d - 1,
    ;
}

/// A rollout is promoted by evaluation exactly when its deadline has not
/// passed, the candidate served at least the minimum number of requests, and
/// its error rate is within the allowed bound; a candidate that served enough
/// requests without an error before the deadline is always promoted.
pub proof fn lemma_promotion_needs_evidence(
    expired: bool,
    requests: u64,
    errors: u64,
    minimum_requests: u64,
    maximum_error_bps: u16,
)
    ensures
        decide(
            expired,
            requests,
            minimum_requests,
            error_basis_points(requests, errors),
            maximum_error_bps,
        ) == RolloutDecision::Promoted <==> !expired && requests >= minimum_requests && error_basis_points(
            requests,
            errors,
        ) <= maximum_error_bps,
        !expired && requests >= minimum_requests && errors == 0 ==> decide(
            expired,
            requests,
            minimum_requests,
            error_basis_points(requests, errors),
            maximum_error_bps,
        ) == RolloutDecision::Promoted,
{
    if requests > 0 && errors == 0 {
        let n: int = requests - 1;
        lemma_small_mod(n as nat, requests as nat);
        lemma_fundamental_div_mod(n, requests as int);
        assert(n / (requests as int) == 0) by (nonlinear_arith)
            requires
                n == requests * (n / (requests as int)) + n % (requests as int),
                n % (requests as int) == n,
                0 < requests,
        ;
    }
}

/// An evaluation that promotes or aborts ends the rollout exactly as
/// `traffic:promote` or `traffic:abort` would, and records the evaluation;
/// a pending evaluation changes nothing but the record.
pub proof fn lemma_evaluation_ends_like_manual<B>(
    r: TrafficRollout<B>,
    requests: u64,
    errors: u64,
    now_millis: u64,
)
    ensures
        evaluated(r, RolloutDecision::Promoted, requests, errors, now_millis) == (TrafficRollout {
            last_evaluated_at_millis: Some(now_millis),
            last_evaluated_candidate_requests: Some(requests),
            last_evaluated_candidate_errors: Some(errors),
            ..finished(r, true)
        }),
        evaluated(r, RolloutDecision::Aborted, requests, errors, now_millis) == (TrafficRollout {
            last_evaluated_at_millis: Some(now_millis),
            last_evaluated_candidate_requests: Some(requests),
            last_evaluated_candidate_errors: Some(errors),
            ..finished(r, false)
        }),
        evaluated(r, RolloutDecision::Pending, requests, errors, now_millis) == (TrafficRollout {
            last_decision: Some(RolloutDecision::Pending),
            last_evaluated_at_millis: Some(now_millis),
            last_evaluated_candidate_requests: Some(requests),
            last_evaluated_candidate_errors: Some(errors),
            ..r
        }),
{
}

/// What `traffic:evaluate` has read from `args[i..]` on top of `st`: the
/// ingress name, the minimum candidate requests, the largest candidate error
/// rate in basis points, and `--json`.
pub open spec fn evaluate_scan(
    args: Seq<Argument>,
    i: int,
    st: (Option<Seq<char>>, Option<u64>, Option<u16>, bool),
) -> Result<(Option<Seq<char>>, Option<u64>, Option<u16>, bool), Seq<char>>
    decreases args.len() - i,
{
    if i < 0 || i >= args.len() {
        Ok(st)
    } else {
        let w = args[i].text@;
        let v = if i + 1 < args.len() {
            Some(&args[i + 1])
        } else {
            None
        };
        if w == "--min-candidate-requests"@ {
            match number_value(v, w, u64::MAX as int, true, needs_positive()) {
                Err(e) => Err(e),
                Ok(n) => evaluate_scan(args, i + 2, (st.0, Some(n as u64), st.2, st.3)),
            }
        } else if w == "--max-candidate-error-bps"@ {
            match basis_points(v) {
                Err(e) => Err(e),
                Ok(b) => evaluate_scan(args, i + 2, (st.0, st.1, Some(b), st.3)),
            }
        } else if w == "--json"@ {
            evaluate_scan(args, i + 1, (st.0, st.1, st.2, true))
        } else if w.len() > 0 && w[0] == '-' {
            Err("unknown traffic:evaluate option: "@ + w)
        } else if st.0 is None {
            evaluate_scan(args, i + 1, (Some(w), st.1, st.2, st.3))
        } else {
            Err("traffic:evaluate accepts one name"@)
        }
    }
}

/// What `traffic:evaluate` makes of its arguments: the ingress name, the
/// minimum number of candidate requests, the largest candidate error rate
/// and `--json`; all but `--json` are required.
pub open spec fn evaluate_request(args: Seq<Argument>) -> Result<(Seq<char>, u64, u16, bool), Seq<char>> {
    match evaluate_scan(args, 0, (None, None, None, false)) {
        Err(e) => Err(e),
        Ok((name, minimum, maximum, json)) => if name is None {
            Err("traffic:evaluate requires a name"@)
        } else if !valid_application_name(name->0) {
            Err("application name must contain 1-64 ASCII letters, digits, '.', '-' or '_'"@)
        } else if minimum is None {
            Err("traffic:evaluate requires --min-candidate-requests"@)
        } else if maximum is None {
            Err("traffic:evaluate requires --max-candidate-error-bps"@)
        } else {
            Ok((name->0, minimum->0, maximum->0, json))
        },
    }
}

/// Reads the arguments of `traffic:evaluate NAME --min-candidate-requests N
/// --max-candidate-error-bps B [--json]`.
pub fn parse_evaluate_arguments(args: &Vec<Argument>) -> (r: Result<(String, u64, u16, bool), String>)
    ensures
        match (r, evaluate_request(args@)) {
            (Ok((n, a, b, j)), Ok((m, c, d, k))) => n@ == m && a == c && b == d && j == k,
            (Err(e), Err(m)) => e@ == m,
            _ => false,
        },
{
    let mut name: Option<String> = None;
    let mut minimum: Option<u64> = None;
    let mut maximum: Option<u16> = None;
    let mut json = false;
    let n = args.len();
    let mut i: usize = 0;
    while i < n
        invariant
            n == args@.len(),
            i <= n + 1,
            evaluate_scan(args@, 0, (None, None, None, false)) == evaluate_scan(
                args@,
                i as int,
                (
                    match name {
                        Some(s) => Some(s@),
                        None => None,
                    },
                    minimum,
                    maximum,
                    json,
                ),
            ),
        decreases n + 1 - i,
    {
        let w = args[i].text.as_str();
        let v = if i + 1 < n {
            Some(&args[i + 1])
        } else {
            None
        };
        if str_eq(w, "--min-candidate-requests") {
            match required_positive_u64(v, w) {
                Err(e) => {
                    return Err(e);
                },
                Ok(k) => {
                    minimum = Some(k);
                    i = i + 2;
                },
            }
        } else if str_eq(w, "--max-candidate-error-bps") {
            match parse_basis_points(v) {
                Err(e) => {
                    return Err(e);
                },
                Ok(b) => {
                    maximum = Some(b);
                    i = i + 2;
                },
            }
        } else if str_eq(w, "--json") {
            json = true;
            i = i + 1;
        } else if w.unicode_len() > 0 && w.get_char(0) == '-' {
            return Err(concat_str("unknown traffic:evaluate option: ", w));
        } else if name.is_none() {
            name = Some(args[i].text.clone());
            i = i + 1;
        } else {
            return Err(String::from_str("traffic:evaluate accepts one name"));
        }
    }
    let name = match name {
        None => {
            return Err(String::from_str("traffic:evaluate requires a name"));
        },
        Some(s) => s,
    };
    if let Err(e) = validate_name(name.as_str()) {
        return Err(e);
    }
    let minimum = match minimum {
        None => {
            return Err(String::from_str("traffic:evaluate requires --min-candidate-requests"));
        },
        Some(k) => k,
    };
    let maximum = match maximum {
        None => {
            return Err(String::from_str("traffic:evaluate requires --max-candidate-error-bps"));
        },
        Some(b) => b,
    };
    Ok((name, minimum, maximum, json))
}

} // verus!
