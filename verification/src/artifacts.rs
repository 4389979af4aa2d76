//! The footprint of a project's regenerable development artifacts, and the
//! budget that `pam dev` keeps them within.

use vstd::prelude::*;
use crate::cli::Argument;
use crate::text::{chars_of, parse_unsigned, parse_u64_chars, concat_str};
use crate::project::{
    ProjectKind, ProjectContext, ArtifactState, ArtifactInspection, CleanupArtifactKind, cleanup_plan,
    cleanup_targets, kind_number, CleanupReport, clean_after_dev, cleanup_outcome, state_bytes, state_files,
};

verus! {

/// The largest development artifact budget, and the default: 8 GiB.
pub const DEFAULT_DEV_ARTIFACT_BUDGET_BYTES: u64 = 8_589_934_592;

/// The smallest development artifact budget: 256 MiB.
pub const MIN_DEV_ARTIFACT_BUDGET_BYTES: u64 = 268_435_456;

/// How the artifacts compare with the budget.
#[derive(Clone, Copy, Debug, PartialEq, Eq, Structural)]
pub enum ArtifactBudgetState {
    WithinBudget,
    Exceeded,
    IncompleteScan,
}

impl ArtifactBudgetState {
    /// The integer reported to clients.
    pub fn code(self) -> (c: u8)
        ensures
            c == match self {
                ArtifactBudgetState::WithinBudget => 1u8,
                ArtifactBudgetState::Exceeded => 2u8,
                ArtifactBudgetState::IncompleteScan => 3u8,
            },
    {
        match self {
            ArtifactBudgetState::WithinBudget => 1,
            ArtifactBudgetState::Exceeded => 2,
            ArtifactBudgetState::IncompleteScan => 3,
        }
    }
}

/// The budget that `PAM_DEV_ARTIFACT_BUDGET_BYTES` sets: the default where
/// it is unset, else a byte count within the bounds.
pub open spec fn budget_setting(value: Option<Argument>) -> Result<u64, Seq<char>> {
    match value {
        None => Ok(DEFAULT_DEV_ARTIFACT_BUDGET_BYTES),
        Some(v) => if !v.utf8 {
            Err("PAM_DEV_ARTIFACT_BUDGET_BYTES must be valid UTF-8"@)
        } else {
            match parse_unsigned(v.text@, u64::MAX as int) {
                None => Err("PAM_DEV_ARTIFACT_BUDGET_BYTES must be an integer byte count"@),
                Some(n) => if MIN_DEV_ARTIFACT_BUDGET_BYTES <= n <= DEFAULT_DEV_ARTIFACT_BUDGET_BYTES {
                    Ok(n as u64)
                } else {
                    Err("PAM_DEV_ARTIFACT_BUDGET_BYTES must be between 268435456 and 8589934592"@)
                },
            }
        },
    }
}

/// Reads the development artifact budget from the value of
/// `PAM_DEV_ARTIFACT_BUDGET_BYTES`, if it is set.
pub fn dev_artifact_budget(value: Option<&Argument>) -> (r: Result<u64, String>)
    ensures
        match (r, budget_setting(match value { Some(v) => Some(*v), None => None })) {
            (Ok(n), Ok(m)) => n == m,
            (Err(e), Err(m)) => e@ == m,
            _ => false,
        },
{
    let v = match value {
        None => {
            return Ok(DEFAULT_DEV_ARTIFACT_BUDGET_BYTES);
        },
        Some(v) => v,
    };
    if !v.utf8 {
        return Err(String::from_str("PAM_DEV_ARTIFACT_BUDGET_BYTES must be valid UTF-8"));
    }
    let chars = chars_of(v.text.as_str());
    proof {
        assert(chars@.subrange(0, chars@.len() as int) =~= chars@);
    }
    match parse_u64_chars(&chars, 0, chars.len()) {
        None => Err(String::from_str("PAM_DEV_ARTIFACT_BUDGET_BYTES must be an integer byte count")),
        Some(n) => {
            if MIN_DEV_ARTIFACT_BUDGET_BYTES <= n && n <= DEFAULT_DEV_ARTIFACT_BUDGET_BYTES {
                Ok(n)
            } else {
                Err(String::from_str("PAM_DEV_ARTIFACT_BUDGET_BYTES must be between 268435456 and 8589934592"))
            }
        },
    }
}

/// One line of the footprint: path, kind code, whether it exists, bytes,
/// files, and whether it was scanned completely.
pub struct FootprintEntry {
    pub path: String,
    pub kind_code: u8,
    pub exists: bool,
    pub bytes: u64,
    pub files: u64,
    pub complete: bool,
}

/// The footprint of a project's artifacts.
pub struct ArtifactFootprint {
    pub bytes: u64,
    pub files: u64,
    pub complete: bool,
    pub entries: Vec<FootprintEntry>,
}

pub open spec fn footprint_view(e: FootprintEntry) -> (Seq<char>, u8, bool, u64, u64, bool) {
    (e.path@, e.kind_code, e.exists, e.bytes, e.files, e.complete)
}

/// The footprint line of one target, or the failure to report.
pub open spec fn footprint_line(target: (Seq<char>, CleanupArtifactKind), inspection: ArtifactInspection) -> Result<
    (Seq<char>, u8, bool, u64, u64, bool),
    Seq<char>,
> {
    let kind = kind_number(target.1);
    match inspection.state {
        ArtifactState::Missing => Ok((target.0, kind, false, 0u64, 0u64, true)),
        ArtifactState::Failed(message) => Err(message@),
        ArtifactState::Directory { bytes, files, complete } => Ok((target.0, kind, true, bytes, files, complete)),
        _ => Ok((target.0, kind, true, 0u64, 0u64, false)),
    }
}

/// The footprint lines of the first `n` targets, or the first failure.
pub open spec fn footprint_lines(
    targets: Seq<(Seq<char>, CleanupArtifactKind)>,
    inspections: Seq<ArtifactInspection>,
    n: nat,
) -> Result<Seq<(Seq<char>, u8, bool, u64, u64, bool)>, Seq<char>>
    decreases n,
{
    if n == 0 {
        Ok(Seq::empty())
    } else {
        match footprint_lines(targets, inspections, (n - 1) as nat) {
            Err(e) => Err(e),
            Ok(lines) => match footprint_line(targets[n - 1], inspections[n - 1]) {
                Err(e) => Err(e),
                Ok(line) => Ok(lines.push(line)),
            },
        }
    }
}

/// `a + b`, or the largest `u64` where that overflows.
pub open spec fn saturating(a: u64, b: u64) -> u64 {
    if a + b > u64::MAX {
        u64::MAX
    } else {
        (a + b) as u64
    }
}

/// The bytes of the lines, summed without going past the largest `u64`.
pub open spec fn footprint_bytes(lines: Seq<(Seq<char>, u8, bool, u64, u64, bool)>) -> u64
    decreases lines.len(),
{
    if lines.len() == 0 {
        0
    } else {
        saturating(footprint_bytes(lines.drop_last()), lines.last().3)
    }
}

/// The files of the lines, summed without going past the largest `u64`.
pub open spec fn footprint_files(lines: Seq<(Seq<char>, u8, bool, u64, u64, bool)>) -> u64
    decreases lines.len(),
{
    if lines.len() == 0 {
        0
    } else {
        saturating(footprint_files(lines.drop_last()), lines.last().4)
    }
}

/// Every line was scanned completely.
pub open spec fn footprint_complete(lines: Seq<(Seq<char>, u8, bool, u64, u64, bool)>) -> bool {
    forall|i: int| 0 <= i < lines.len() ==> #[trigger] lines[i].5
}

proof fn lemma_error_stays(
    targets: Seq<(Seq<char>, CleanupArtifactKind)>,
    inspections: Seq<ArtifactInspection>,
    n: nat,
    m: nat,
)
    requires
        n <= m,
        footprint_lines(targets, inspections, n) is Err,
    ensures
        footprint_lines(targets, inspections, m) == footprint_lines(targets, inspections, n),
    decreases m - n,
{
    if n < m {
        lemma_error_stays(targets, inspections, n, (m - 1) as nat);
    }
}

/// Measures a project's artifacts from the inspection of every target of a
/// full cleanup (in the order of `cleanup_targets(kind, true)`): the line of
/// each, the totals (saturating), and whether all were scanned completely;
/// or the first failure.
pub fn artifact_footprint(context: &ProjectContext, inspections: &Vec<ArtifactInspection>) -> (r: Result<
    ArtifactFootprint,
    String,
>)
    requires
        inspections@.len() == cleanup_plan(context.kind, true).len(),
    ensures
        match (r, footprint_lines(cleanup_plan(context.kind, true), inspections@, inspections@.len())) {
            (Ok(f), Ok(lines)) => {
                &&& f.entries@.map_values(|e: FootprintEntry| footprint_view(e)) == lines
                &&& f.bytes == footprint_bytes(lines)
                &&& f.files == footprint_files(lines)
                &&& f.complete == footprint_complete(lines)
            },
            (Err(e), Err(m)) => e@ == m,
            _ => false,
        },
{
    let targets = cleanup_targets(context.kind, true);
    let ghost plan = cleanup_plan(context.kind, true);
    let mut entries: Vec<FootprintEntry> = Vec::new();
    let mut bytes: u64 = 0;
    let mut files: u64 = 0;
    let mut complete = true;
    let mut i: usize = 0;
    while i < inspections.len()
        invariant
            inspections@.len() == plan.len(),
            plan == cleanup_plan(context.kind, true),
            crate::project::target_views(targets@) == plan,
            i <= inspections@.len(),
            footprint_lines(plan, inspections@, i as nat) matches Ok(lines) && {
                &&& entries@.map_values(|e: FootprintEntry| footprint_view(e)) == lines
                &&& bytes == footprint_bytes(lines)
                &&& files == footprint_files(lines)
                &&& complete == footprint_complete(lines)
            },
        decreases inspections.len() - i,
    {
        let ghost lines = footprint_lines(plan, inspections@, i as nat)->Ok_0;
        let (path, kind) = targets[i];
        assert(plan[i as int] == (path@, kind));
        let kind_code: u8 = match kind {
            CleanupArtifactKind::Cache => 1,
            CleanupArtifactKind::Build => 2,
        };
        let entry = match &inspections[i].state {
            ArtifactState::Missing => FootprintEntry {
                path: String::from_str(path),
                kind_code,
                exists: false,
                bytes: 0,
                files: 0,
                complete: true,
            },
            ArtifactState::Failed(message) => {
                proof {
                    assert(footprint_line(plan[i as int], inspections@[i as int]) == Err::<
                        (Seq<char>, u8, bool, u64, u64, bool),
                        Seq<char>,
                    >(message@));
                    assert(footprint_lines(plan, inspections@, (i + 1) as nat) == Err::<
                        Seq<(Seq<char>, u8, bool, u64, u64, bool)>,
                        Seq<char>,
                    >(message@));
                    lemma_error_stays(plan, inspections@, (i + 1) as nat, inspections@.len());
                }
                return Err(message.clone());
            },
            ArtifactState::Directory { bytes, files, complete } => FootprintEntry {
                path: String::from_str(path),
                kind_code,
                exists: true,
                bytes: *bytes,
                files: *files,
                complete: *complete,
            },
            _ => FootprintEntry {
                path: String::from_str(path),
                kind_code,
                exists: true,
                bytes: 0,
                files: 0,
                complete: false,
            },
        };
        let ghost line = footprint_view(entry);
        assert(footprint_line(plan[i as int], inspections@[i as int]) == Ok::<
            (Seq<char>, u8, bool, u64, u64, bool),
            Seq<char>,
        >(line));
        bytes = bytes.saturating_add(entry.bytes);
        files = files.saturating_add(entry.files);
        complete = complete && entry.complete;
        entries.push(entry);
        proof {
            let next = lines.push(line);
            assert(next.drop_last() =~= lines);
            assert(entries@.map_values(|e: FootprintEntry| footprint_view(e)) =~= next);
            assert(complete == footprint_complete(next)) by {
                if complete {
                    assert forall|k: int| 0 <= k < next.len() implies #[trigger] next[k].5 by {
                        if k < lines.len() {
                            assert(next[k] == lines[k]);
                        }
                    }
                } else if !line.5 {
                    assert(!next[next.len() - 1].5);
                } else {
                    let k = choose|k: int| 0 <= k < lines.len() && !#[trigger] lines[k].5;
                    assert(next[k] == lines[k]);
                }
            }
        }
        i = i + 1;
    }
    Ok(ArtifactFootprint { bytes, files, complete, entries })
}

/// The budget state of a footprint.
pub open spec fn budget_state(complete: bool, bytes: u64, limit_bytes: u64) -> ArtifactBudgetState {
    if !complete {
        ArtifactBudgetState::IncompleteScan
    } else if bytes > limit_bytes {
        ArtifactBudgetState::Exceeded
    } else {
        ArtifactBudgetState::WithinBudget
    }
}

/// How a footprint compares with the budget: an incomplete scan cannot be
/// judged; otherwise within the budget or over it.
pub fn artifact_budget_state(footprint: &ArtifactFootprint, limit_bytes: u64) -> (r: ArtifactBudgetState)
    ensures
        r == budget_state(footprint.complete, footprint.bytes, limit_bytes),
{
    if !footprint.complete {
        ArtifactBudgetState::IncompleteScan
    } else if footprint.bytes > limit_bytes {
        ArtifactBudgetState::Exceeded
    } else {
        ArtifactBudgetState::WithinBudget
    }
}

/// What keeping to the budget asks before `pam dev`: refusal of a budget out
/// of bounds or of a footprint that was not scanned completely; nothing to
/// do within the budget; else a full cleanup, reported with the bytes found.
pub open spec fn budget_enforcement(budget_bytes: u64, complete: bool, bytes: u64, root: Seq<char>) -> Result<
    Option<u64>,
    Seq<char>,
> {
    if !(MIN_DEV_ARTIFACT_BUDGET_BYTES <= budget_bytes <= DEFAULT_DEV_ARTIFACT_BUDGET_BYTES) {
        Err("development artifact budget is outside the supported bounds"@)
    } else if !complete {
        Err(
            "cannot enforce the development artifact budget because "@ + root
                + " could not be scanned completely"@,
        )
    } else if bytes <= budget_bytes {
        Ok(None)
    } else {
        Ok(Some(bytes))
    }
}

/// Decides whether the artifacts must be cleaned before `pam dev`: `Some`
/// with the bytes found where they exceed the budget.
pub fn budget_decision(context: &ProjectContext, budget_bytes: u64, footprint: &ArtifactFootprint) -> (r:
    Result<Option<u64>, String>)
    ensures
        match (r, budget_enforcement(budget_bytes, footprint.complete, footprint.bytes, context.root@)) {
            (Ok(a), Ok(b)) => a == b,
            (Err(e), Err(m)) => e@ == m,
            _ => false,
        },
{
    if budget_bytes < MIN_DEV_ARTIFACT_BUDGET_BYTES || budget_bytes > DEFAULT_DEV_ARTIFACT_BUDGET_BYTES {
        return Err(String::from_str("development artifact budget is outside the supported bounds"));
    }
    if !footprint.complete {
        let mut e = concat_str("cannot enforce the development artifact budget because ", context.root.as_str());
        e.append(" could not be scanned completely");
        return Err(e);
    }
    if footprint.bytes <= budget_bytes {
        Ok(None)
    } else {
        Ok(Some(footprint.bytes))
    }
}

/// Keeps the artifacts within the budget before `pam dev`: refuses as
/// `budget_decision` does; within the budget does nothing; over it plans
/// the full cleanup of the project (from the inspection of each of its
/// targets, under the resolved `root`) and gives the bytes found with that
/// plan, or the cleanup's refusal.
pub fn enforce_dev_artifact_budget(
    context: &ProjectContext,
    budget_bytes: u64,
    footprint: &ArtifactFootprint,
    root: &str,
    inspections: &Vec<ArtifactInspection>,
) -> (r: Result<Option<(u64, CleanupReport)>, String>)
    requires
        inspections@.len() == cleanup_plan(context.kind, true).len(),
        state_bytes(inspections@) <= u64::MAX,
        state_files(inspections@) <= u64::MAX,
    ensures
        match budget_enforcement(budget_bytes, footprint.complete, footprint.bytes, context.root@) {
            Err(m) => r matches Err(e) && e@ == m,
            Ok(None) => r matches Ok(None),
            Ok(Some(bytes)) => match r {
                Ok(Some((found, report))) => found == bytes && cleanup_outcome(Ok(report), context.kind, true, false, root@, inspections@),
                Ok(None) => false,
                Err(e) => cleanup_outcome(Err(e), context.kind, true, false, root@, inspections@),
            },
        },
{
    match budget_decision(context, budget_bytes, footprint) {
        Err(e) => Err(e),
        Ok(None) => Ok(None),
        Ok(Some(bytes)) => match clean_after_dev(context, root, inspections) {
            Ok(report) => Ok(Some((bytes, report))),
            Err(e) => Err(e),
        },
    }
}

/// The commands suggested next for a kind of project.
pub open spec fn next_commands(kind: ProjectKind) -> Seq<Seq<char>> {
    match kind {
        ProjectKind::Laravel => seq!["pam doctor"@, "pam dev"@, "pam test"@, "pam benchmark <url>"@],
        ProjectKind::Product => seq!["pam info"@, "pam clean --dry-run"@, "read README.md"@],
        _ => seq!["pam doctor"@, "pam dev"@, "pam test"@, "pam build"@],
    }
}

/// The commands suggested next for a kind of project.
pub fn contextual_next_commands(kind: ProjectKind) -> (r: Vec<&'static str>)
    ensures
        r@.map_values(|s: &'static str| s@) == next_commands(kind),
{
    let r = match kind {
        ProjectKind::Laravel => vec!["pam doctor", "pam dev", "pam test", "pam benchmark <url>"],
        ProjectKind::Product => vec!["pam info", "pam clean --dry-run", "read README.md"],
        _ => vec!["pam doctor", "pam dev", "pam test", "pam build"],
    };
    assert(r@.map_values(|s: &'static str| s@) =~= next_commands(kind));
    r
}

/// Before `pam dev`, a cleanup is asked for exactly when the budget report
/// says the artifacts exceed the budget; a scan that is not complete is never
/// judged, and within the budget nothing is done.
pub proof fn lemma_enforcement_follows_budget_state(budget_bytes: u64, complete: bool, bytes: u64, root: Seq<char>)
    requires
        MIN_DEV_ARTIFACT_BUDGET_BYTES <= budget_bytes <= DEFAULT_DEV_ARTIFACT_BUDGET_BYTES,
    ensures
        budget_enforcement(budget_bytes, complete, bytes, root) is Err <==> budget_state(complete, bytes, budget_bytes)
            == ArtifactBudgetState::IncompleteScan,
        budget_enforcement(budget_bytes, complete, bytes, root) == Ok::<Option<u64>, Seq<char>>(Some(bytes))
            <==> budget_state(complete, bytes, budget_bytes) == ArtifactBudgetState::Exceeded,
        budget_enforcement(budget_bytes, complete, bytes, root) == Ok::<Option<u64>, Seq<char>>(None)
            <==> budget_state(complete, bytes, budget_bytes) == ArtifactBudgetState::WithinBudget,
{
}

} // verus!
