use vstd::prelude::*;

use crate::project::ProjectStats;

verus! {

/// One contribution to a repository's score, with the label shown in the
/// report breakdown.
#[derive(Debug, Clone)]
pub struct ScoreFactor {
    pub label: String,
    pub points: u32,
}

/// The letter grade that a point total maps to, as a sequence of characters.
pub open spec fn spec_grade(points: u32) -> Seq<char> {
    if points >= 101 {
        "S+"@
    } else if points >= 90 {
        "S"@
    } else if points >= 80 {
        "A+"@
    } else if points >= 70 {
        "A"@
    } else if points >= 60 {
        "B+"@
    } else if points >= 50 {
        "B"@
    } else if points >= 40 {
        "C+"@
    } else if points >= 30 {
        "C"@
    } else if points >= 20 {
        "D"@
    } else {
        "F"@
    }
}

/// Map a point total to its letter grade; totals above 100 earn the top tier.
pub fn grade_from_points(points: u32) -> (r: String)
    ensures
        r@ == spec_grade(points),
{
    let label: &str = if points >= 101 {
        "S+"
    } else if points >= 90 {
        "S"
    } else if points >= 80 {
        "A+"
    } else if points >= 70 {
        "A"
    } else if points >= 60 {
        "B+"
    } else if points >= 50 {
        "B"
    } else if points >= 40 {
        "C+"
    } else if points >= 30 {
        "C"
    } else if points >= 20 {
        "D"
    } else {
        "F"
    };
    label.to_owned()
}

/// The smaller of two values.
pub open spec fn spec_min(a: int, b: int) -> int {
    if a < b {
        a
    } else {
        b
    }
}

/// The points the test situation earns: missing tests weigh more than few
/// tests.
pub open spec fn spec_tests_points(p: ProjectStats) -> int {
    if !p.tests.has_tests {
        20
    } else if p.tests.test_files_count < 3 {
        10
    } else {
        0
    }
}

/// Twenty points per committed environment file, capped at sixty.
pub open spec fn spec_env_points(p: ProjectStats) -> int {
    spec_min(p.security.env_files_count as int, 3) * 20
}

/// Twenty points per hardcoded-secret hint, capped at sixty.
pub open spec fn spec_secrets_points(p: ProjectStats) -> int {
    spec_min(p.security.hardcoded_secrets_hints as int, 3) * 20
}

/// Up to ten points for dependency bloat: one point per ten dependencies,
/// topping out at one hundred of them.
pub open spec fn spec_deps_points(p: ProjectStats) -> int {
    spec_min(p.deps.total as int, 100) / 10
}

/// The whole point total: the AI-ratio points the caller derived from the
/// commit history, plus every project signal's contribution. The total is
/// deliberately uncapped.
pub open spec fn spec_score_points(ai_pts: int, p: ProjectStats) -> int {
    ai_pts + spec_tests_points(p) + spec_env_points(p) + spec_secrets_points(p)
        + spec_deps_points(p) + (if p.vibe.no_linting {
        10int
    } else {
        0int
    }) + (if p.vibe.no_ci_cd {
        10int
    } else {
        0int
    }) + (if p.vibe.boomer_ai {
        10int
    } else {
        0int
    }) + (if p.vibe.node_modules_in_git {
        15int
    } else {
        0int
    }) + (if p.vibe.mega_commit {
        10int
    } else {
        0int
    }) + (if p.vibe.no_gitignore {
        10int
    } else {
        0int
    }) + (if p.vibe.no_readme {
        10int
    } else {
        0int
    }) + (if p.vibe.todo_flood {
        5int
    } else {
        0int
    }) + (if p.vibe.single_branch {
        5int
    } else {
        0int
    })
}

/// The breakdown rows as the specification sees them.
pub open spec fn factor_view(v: Seq<ScoreFactor>) -> Seq<(Seq<char>, int)> {
    v.map(|i: int, f: ScoreFactor| (f.label@, f.points as int))
}

/// A breakdown row that appears only when its factor contributed.
pub open spec fn spec_row(present: bool, label: Seq<char>, pts: int) -> Seq<(Seq<char>, int)> {
    if present {
        seq![(label, pts)]
    } else {
        Seq::empty()
    }
}

/// The breakdown the score shows: one labelled row per contributing factor,
/// in a fixed order, rows with nothing to say left out.
pub open spec fn spec_score_breakdown(ai_pts: int, p: ProjectStats) -> Seq<(Seq<char>, int)> {
    spec_row(ai_pts > 0, "AI Ratio"@, ai_pts) + spec_row(!p.tests.has_tests, "No Tests"@, 20)
        + spec_row(p.tests.has_tests && p.tests.test_files_count < 3, "Few Tests"@, 10)
        + spec_row(spec_env_points(p) > 0, ".env in Git"@, spec_env_points(p)) + spec_row(
        spec_secrets_points(p) > 0,
        "Hardcoded Secrets"@,
        spec_secrets_points(p),
    ) + spec_row(spec_deps_points(p) > 0, "Deps Bloat"@, spec_deps_points(p)) + spec_row(
        p.vibe.no_linting,
        "No Linting"@,
        10,
    ) + spec_row(p.vibe.no_ci_cd, "No CI/CD"@, 10) + spec_row(p.vibe.boomer_ai, "Boomer AI"@, 10)
        + spec_row(p.vibe.node_modules_in_git, "node_modules in Git"@, 15) + spec_row(
        p.vibe.mega_commit,
        "Mega Commit"@,
        10,
    ) + spec_row(p.vibe.no_gitignore, "No .gitignore"@, 10) + spec_row(
        p.vibe.no_readme,
        "No README"@,
        10,
    ) + spec_row(p.vibe.todo_flood, "TODO Flood"@, 5) + spec_row(
        p.vibe.single_branch,
        "Single Branch"@,
        5,
    )
}

/// Append one row when its factor contributed.
fn push_row(v: &mut Vec<ScoreFactor>, present: bool, label: &str, pts: u32)
    ensures
        factor_view(final(v)@) == factor_view(old(v)@) + spec_row(present, label@, pts as int),
{
    let ghost pre = factor_view(v@);
    if present {
        v.push(ScoreFactor { label: label.to_owned(), points: pts });
        proof {
            assert(factor_view(v@) =~= pre + spec_row(true, label@, pts as int));
        }
    } else {
        proof {
            assert(factor_view(v@) =~= pre + spec_row(false, label@, pts as int));
        }
    }
}

/// Build the labelled breakdown rows in their fixed order.
fn build_breakdown(ai_pts: u32, project: &ProjectStats) -> (r: Vec<ScoreFactor>)
    requires
        ai_pts <= 60,
    ensures
        factor_view(r@) == spec_score_breakdown(ai_pts as int, *project),
{
    let ghost p = *project;
    let mut breakdown: Vec<ScoreFactor> = Vec::new();
    proof {
        assert(factor_view(breakdown@) =~= Seq::<(Seq<char>, int)>::empty());
    }
    push_row(&mut breakdown, ai_pts > 0, "AI Ratio", ai_pts);
    proof {
        assert(Seq::<(Seq<char>, int)>::empty() + spec_row(ai_pts as int > 0, "AI Ratio"@, ai_pts as int)
            =~= spec_row(ai_pts as int > 0, "AI Ratio"@, ai_pts as int));
    }
    push_row(&mut breakdown, !project.tests.has_tests, "No Tests", 20);
    push_row(
        &mut breakdown,
        project.tests.has_tests && project.tests.test_files_count < 3,
        "Few Tests",
        10,
    );
    let env_points: u32 = env_points_of(project);
    push_row(&mut breakdown, env_points > 0, ".env in Git", env_points);
    let secrets_points: u32 = secrets_points_of(project);
    push_row(&mut breakdown, secrets_points > 0, "Hardcoded Secrets", secrets_points);
    let deps_pts: u32 = deps_points_of(project);
    push_row(&mut breakdown, deps_pts > 0, "Deps Bloat", deps_pts);
    push_row(&mut breakdown, project.vibe.no_linting, "No Linting", 10);
    push_row(&mut breakdown, project.vibe.no_ci_cd, "No CI/CD", 10);
    push_row(&mut breakdown, project.vibe.boomer_ai, "Boomer AI", 10);
    push_row(&mut breakdown, project.vibe.node_modules_in_git, "node_modules in Git", 15);
    push_row(&mut breakdown, project.vibe.mega_commit, "Mega Commit", 10);
    push_row(&mut breakdown, project.vibe.no_gitignore, "No .gitignore", 10);
    push_row(&mut breakdown, project.vibe.no_readme, "No README", 10);
    push_row(&mut breakdown, project.vibe.todo_flood, "TODO Flood", 5);
    push_row(&mut breakdown, project.vibe.single_branch, "Single Branch", 5);
    breakdown
}

/// The committed-environment-file points, capped.
fn env_points_of(project: &ProjectStats) -> (r: u32)
    ensures
        r == spec_env_points(*project),
{
    if project.security.env_files_count < 3 {
        (project.security.env_files_count as u32) * 20
    } else {
        60
    }
}

/// The hardcoded-secret points, capped.
fn secrets_points_of(project: &ProjectStats) -> (r: u32)
    ensures
        r == spec_secrets_points(*project),
{
    if project.security.hardcoded_secrets_hints < 3 {
        (project.security.hardcoded_secrets_hints as u32) * 20
    } else {
        60
    }
}

/// The dependency-bloat points, capped.
fn deps_points_of(project: &ProjectStats) -> (r: u32)
    ensures
        r == spec_deps_points(*project),
{
    if project.deps.total < 100 {
        (project.deps.total as u32) / 10
    } else {
        10
    }
}

/// The flag points from the vibe signals.
pub open spec fn spec_vibe_points(p: ProjectStats) -> int {
    (if p.vibe.no_linting {
        10int
    } else {
        0int
    }) + (if p.vibe.no_ci_cd {
        10int
    } else {
        0int
    }) + (if p.vibe.boomer_ai {
        10int
    } else {
        0int
    }) + (if p.vibe.node_modules_in_git {
        15int
    } else {
        0int
    }) + (if p.vibe.mega_commit {
        10int
    } else {
        0int
    }) + (if p.vibe.no_gitignore {
        10int
    } else {
        0int
    }) + (if p.vibe.no_readme {
        10int
    } else {
        0int
    }) + (if p.vibe.todo_flood {
        5int
    } else {
        0int
    }) + (if p.vibe.single_branch {
        5int
    } else {
        0int
    })
}

/// The points from the vibe flags alone.
#[verifier::rlimit(100)]
fn vibe_points_of(project: &ProjectStats) -> (r: u32)
    ensures
        r == spec_vibe_points(*project),
        r <= 85,
{
    let mut points: u32 = 0;
    if project.vibe.no_linting {
        points = points + 10;
    }
    if project.vibe.no_ci_cd {
        points = points + 10;
    }
    if project.vibe.boomer_ai {
        points = points + 10;
    }
    if project.vibe.node_modules_in_git {
        points = points + 15;
    }
    if project.vibe.mega_commit {
        points = points + 10;
    }
    if project.vibe.no_gitignore {
        points = points + 10;
    }
    if project.vibe.no_readme {
        points = points + 10;
    }
    if project.vibe.todo_flood {
        points = points + 5;
    }
    if project.vibe.single_branch {
        points = points + 5;
    }
    points
}

/// The uncapped point total for the score.
#[verifier::rlimit(100)]
fn total_points(ai_pts: u32, project: &ProjectStats) -> (r: u32)
    requires
        ai_pts <= 60,
    ensures
        r == spec_score_points(ai_pts as int, *project),
{
    let mut points: u32 = ai_pts;
    if !project.tests.has_tests {
        points = points + 20;
    } else if project.tests.test_files_count < 3 {
        points = points + 10;
    }
    points = points + env_points_of(project);
    points = points + secrets_points_of(project);
    points = points + deps_points_of(project);
    points = points + vibe_points_of(project);
    points
}

/// Compute the score from the AI-ratio points — zero to sixty, derived from
/// the commit history by the caller — and the project statistics: the
/// uncapped point total, its letter grade, and the labelled breakdown of
/// every factor that contributed.
pub fn calculate(ai_pts: u32, project: &ProjectStats) -> (r: (u32, String, Vec<ScoreFactor>))
    requires
        ai_pts <= 60,
    ensures
        r.0 == spec_score_points(ai_pts as int, *project),
        r.1@ == spec_grade(r.0),
        factor_view(r.2@) == spec_score_breakdown(ai_pts as int, *project),
{
    let points = total_points(ai_pts, project);
    let breakdown = build_breakdown(ai_pts, project);
    let grade = grade_from_points(points);
    (points, grade, breakdown)
}

} // verus!
