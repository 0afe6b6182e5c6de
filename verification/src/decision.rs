//! A technology decision framework: scores five languages against a
//! project's requirements and ranks them. Scores are held in tenths of a
//! point (a 9.5 is 95), which the scoring tables hit exactly, so the whole
//! evaluation is plain integer logic; `total_score` is the sum of the four
//! part scores (four times their mean, in tenths), which orders candidates
//! exactly as the mean does.

use vstd::prelude::*;
use vstd::multiset::Multiset;
use vstd::seq_lib::group_to_multiset_ensures;
use vstd::string::StringExecFns;

verus! {

/// What a project asks of its implementation language. Team experience is
/// a list of (language, years) pairs; the first entry for a language
/// counts, an absent language counts as zero years.
pub struct ProjectRequirements {
    pub performance_critical: bool,
    pub memory_constraints: bool,
    pub team_experience: Vec<(String, i32)>,
    pub development_timeline: i32,
    pub maintenance_period: i32,
    pub concurrent_users: i32,
    pub data_volume_gb: i32,
}

/// A language's scores against one set of requirements, in tenths of a
/// point. `total_score` is the sum of the four part scores.
pub struct LanguageScore {
    pub language: String,
    pub performance_score: u32,
    pub development_speed_score: u32,
    pub maintenance_score: u32,
    pub risk_score: u32,
    pub total_score: u32,
}

/// Mathematical abstraction of a [`LanguageScore`].
pub struct ScoreV {
    pub language: Seq<char>,
    pub performance_score: u32,
    pub development_speed_score: u32,
    pub maintenance_score: u32,
    pub risk_score: u32,
    pub total_score: u32,
}

impl View for LanguageScore {
    type V = ScoreV;

    open spec fn view(&self) -> ScoreV {
        ScoreV {
            language: self.language@,
            performance_score: self.performance_score,
            development_speed_score: self.development_speed_score,
            maintenance_score: self.maintenance_score,
            risk_score: self.risk_score,
            total_score: self.total_score,
        }
    }
}

impl DeepView for LanguageScore {
    type V = ScoreV;

    open spec fn deep_view(&self) -> ScoreV {
        self@
    }
}

/// The experience recorded for `lang`: the years of its first entry, 0
/// when it has none.
pub open spec fn experience_of(exp: Seq<(String, i32)>, lang: Seq<char>) -> i32
    decreases exp.len(),
{
    if exp.len() == 0 {
        0
    } else if exp.first().0@ == lang {
        exp.first().1
    } else {
        experience_of(exp.drop_first(), lang)
    }
}

/// Looks the experience for `lang` up in the list.
fn lookup_experience(exp: &Vec<(String, i32)>, lang: &str) -> (r: i32)
    ensures
        r == experience_of(exp@, lang@),
{
    let key = String::from_str(lang);
    let mut i: usize = 0;
    proof {
        assert(exp@.skip(0) =~= exp@);
    }
    while i < exp.len()
        invariant
            i <= exp@.len(),
            key@ == lang@,
            experience_of(exp@, lang@) == experience_of(exp@.skip(i as int), lang@),
        decreases exp@.len() - i,
    {
        proof {
            assert(exp@.skip(i as int).first() == exp@[i as int]);
            assert(exp@.skip(i as int).drop_first() =~= exp@.skip(i + 1));
        }
        if exp[i].0 == key {
            return exp[i].1;
        }
        i += 1;
    }
    proof {
        assert(exp@.skip(exp@.len() as int) =~= Seq::<(String, i32)>::empty());
    }
    0
}

/// The development-speed score a language earns from `years` of team
/// experience, given its per-band scores.
pub open spec fn speed_score(years: i32, fresh: u32, some: u32, seasoned: u32) -> u32 {
    if years == 0 {
        fresh
    } else if 1 <= years <= 2 {
        some
    } else {
        seasoned
    }
}

/// Rust's scores: strong when performance matters, a steep start for an
/// inexperienced team, type safety paying off over long maintenance, and
/// risky only under a very short timeline.
pub open spec fn eval_rust(req: ProjectRequirements) -> ScoreV {
    let p: u32 = if req.performance_critical {
        90
    } else {
        70
    };
    let d: u32 = speed_score(experience_of(req.team_experience@, "rust"@), 30, 60, 80);
    let m: u32 = if req.maintenance_period > 5 {
        90
    } else {
        70
    };
    let k: u32 = if req.development_timeline < 6 {
        40
    } else {
        80
    };
    ScoreV {
        language: "Rust"@,
        performance_score: p,
        development_speed_score: d,
        maintenance_score: m,
        risk_score: k,
        total_score: (p + d + m + k) as u32,
    }
}

/// Java's scores: garbage collection can bottleneck very large concurrent
/// loads; otherwise a stable, well-known quantity.
pub open spec fn eval_java(req: ProjectRequirements) -> ScoreV {
    let p: u32 = if req.performance_critical && req.concurrent_users > 10000 {
        60
    } else {
        80
    };
    let d: u32 = speed_score(experience_of(req.team_experience@, "java"@), 50, 80, 90);
    let m: u32 = 80;
    let k: u32 = 90;
    ScoreV {
        language: "Java"@,
        performance_score: p,
        development_speed_score: d,
        maintenance_score: m,
        risk_score: k,
        total_score: (p + d + m + k) as u32,
    }
}

/// Python's scores: fastest to develop in, slow where performance is
/// critical, strained by very large data volumes.
pub open spec fn eval_python(req: ProjectRequirements) -> ScoreV {
    let p: u32 = if req.performance_critical {
        40
    } else {
        70
    };
    let d: u32 = 90;
    let m: u32 = if req.data_volume_gb > 100 {
        50
    } else {
        70
    };
    let k: u32 = 80;
    ScoreV {
        language: "Python"@,
        performance_score: p,
        development_speed_score: d,
        maintenance_score: m,
        risk_score: k,
        total_score: (p + d + m + k) as u32,
    }
}

/// C++'s scores: top performance, a steep learning curve, complexity that
/// costs over long maintenance, and memory-management risk for teams with
/// little experience.
pub open spec fn eval_cpp(req: ProjectRequirements) -> ScoreV {
    let e = experience_of(req.team_experience@, "cpp"@);
    let p: u32 = 95;
    let d: u32 = speed_score(e, 20, 50, 70);
    let m: u32 = if req.maintenance_period > 5 {
        50
    } else {
        70
    };
    let k: u32 = if e < 3 {
        30
    } else {
        70
    };
    ScoreV {
        language: "C++"@,
        performance_score: p,
        development_speed_score: d,
        maintenance_score: m,
        risk_score: k,
        total_score: (p + d + m + k) as u32,
    }
}

/// Go's scores: garbage collection weighs under tight memory and
/// performance demands; easy to pick up, simple to maintain.
pub open spec fn eval_go(req: ProjectRequirements) -> ScoreV {
    let p: u32 = if req.performance_critical && req.memory_constraints {
        65
    } else {
        80
    };
    let d: u32 = speed_score(experience_of(req.team_experience@, "go"@), 60, 80, 90);
    let m: u32 = 80;
    let k: u32 = 80;
    ScoreV {
        language: "Go"@,
        performance_score: p,
        development_speed_score: d,
        maintenance_score: m,
        risk_score: k,
        total_score: (p + d + m + k) as u32,
    }
}

/// Builds the score record a spec evaluation describes.
fn make_score(
    language: &str,
    p: u32,
    d: u32,
    m: u32,
    k: u32,
) -> (r: LanguageScore)
    requires
        p <= 100,
        d <= 100,
        m <= 100,
        k <= 100,
    ensures
        r@ == (ScoreV {
            language: language@,
            performance_score: p,
            development_speed_score: d,
            maintenance_score: m,
            risk_score: k,
            total_score: (p + d + m + k) as u32,
        }),
{
    LanguageScore {
        language: String::from_str(language),
        performance_score: p,
        development_speed_score: d,
        maintenance_score: m,
        risk_score: k,
        total_score: p + d + m + k,
    }
}

/// Sorts scores by `total_score`, highest first, by repeatedly moving a
/// maximum over. Which of two equal totals comes first is not fixed.
fn sort_scores_desc(scores: Vec<LanguageScore>) -> (r: Vec<LanguageScore>)
    ensures
        r@.len() == scores@.len(),
        forall|i: int, j: int|
            0 <= i <= j < r@.len() ==> (#[trigger] r@[i]).total_score
                >= (#[trigger] r@[j]).total_score,
        r.deep_view().to_multiset() == scores.deep_view().to_multiset(),
{
    broadcast use group_to_multiset_ensures;

    let ghost orig = scores.deep_view();
    let mut rest = scores;
    let mut out: Vec<LanguageScore> = Vec::new();
    proof {
        assert(out.deep_view() =~= Seq::<ScoreV>::empty());
        assert(out.deep_view().to_multiset().add(rest.deep_view().to_multiset())
            =~= orig.to_multiset());
    }
    while rest.len() > 0
        invariant
            out@.len() + rest@.len() == orig.len(),
            out.deep_view().to_multiset().add(rest.deep_view().to_multiset())
                == orig.to_multiset(),
            forall|i: int, j: int|
                0 <= i <= j < out@.len() ==> (#[trigger] out@[i]).total_score
                    >= (#[trigger] out@[j]).total_score,
            forall|i: int, j: int|
                0 <= i < out@.len() && 0 <= j < rest@.len() ==> (#[trigger] out@[i]).total_score
                    >= (#[trigger] rest@[j]).total_score,
        decreases rest@.len(),
    {
        let mut best: usize = 0;
        let mut j: usize = 1;
        while j < rest.len()
            invariant
                0 <= best < rest@.len(),
                1 <= j <= rest@.len(),
                rest@.len() > 0,
                forall|m: int|
                    0 <= m < j ==> rest@[best as int].total_score
                        >= (#[trigger] rest@[m]).total_score,
            decreases rest@.len() - j,
        {
            if rest[j].total_score > rest[best].total_score {
                best = j;
            }
            j += 1;
        }
        let ghost rd = rest.deep_view();
        let ghost od = out.deep_view();
        let ghost pre_rest = rest@;
        let ghost pre_out = out@;
        let x = rest.remove(best);
        out.push(x);
        proof {
            rd.to_multiset_ensures();
            od.to_multiset_ensures();
            assert(x.deep_view() == rd[best as int]);
            assert(rest.deep_view() =~= rd.remove(best as int));
            assert(out.deep_view() =~= od.push(rd[best as int]));
            assert(rd.remove(best as int).to_multiset() =~= rd.to_multiset().remove(
                rd[best as int],
            ));
            assert(od.push(rd[best as int]).to_multiset() =~= od.to_multiset().insert(
                rd[best as int],
            ));
            assert(rd.contains(rd[best as int]));
            assert(rd.to_multiset().count(rd[best as int]) > 0);
            assert(out.deep_view().to_multiset().add(rest.deep_view().to_multiset())
                =~= od.to_multiset().add(rd.to_multiset()));
            assert forall|i2: int, j2: int|
                0 <= i2 < out@.len() && 0 <= j2 < rest@.len() implies (#[trigger] out@[i2]).total_score
                >= (#[trigger] rest@[j2]).total_score by {
                if j2 < best {
                    assert(rest@[j2] == pre_rest[j2]);
                } else {
                    assert(rest@[j2] == pre_rest[j2 + 1]);
                }
                if i2 < pre_out.len() {
                    assert(out@[i2] == pre_out[i2]);
                } else {
                    assert(out@[i2] == pre_rest[best as int]);
                }
            }
        }
    }
    proof {
        assert(rest.deep_view().to_multiset() =~= Multiset::<ScoreV>::empty());
        assert(out.deep_view().to_multiset().add(Multiset::<ScoreV>::empty())
            =~= out.deep_view().to_multiset());
    }
    out
}

/// The framework: evaluates every candidate language against the
/// requirements and hands the scores back ranked best first.
pub struct TechDecisionFramework;

impl TechDecisionFramework {
    /// Scores Rust, Java, Python, C++ and Go against `req` and returns
    /// the five score records ordered by descending `total_score`.
    pub fn recommend_language(req: &ProjectRequirements) -> (r: Vec<LanguageScore>)
        ensures
            r@.len() == 5,
            forall|i: int, j: int|
                0 <= i <= j < r@.len() ==> (#[trigger] r@[i]).total_score
                    >= (#[trigger] r@[j]).total_score,
            r.deep_view().to_multiset() == seq![
                eval_rust(*req),
                eval_java(*req),
                eval_python(*req),
                eval_cpp(*req),
                eval_go(*req),
            ].to_multiset(),
    {
        let rust_e = lookup_experience(&req.team_experience, "rust");
        let java_e = lookup_experience(&req.team_experience, "java");
        let cpp_e = lookup_experience(&req.team_experience, "cpp");
        let go_e = lookup_experience(&req.team_experience, "go");

        let rust = make_score(
            "Rust",
            if req.performance_critical { 90 } else { 70 },
            if rust_e == 0 { 30 } else if 1 <= rust_e && rust_e <= 2 { 60 } else { 80 },
            if req.maintenance_period > 5 { 90 } else { 70 },
            if req.development_timeline < 6 { 40 } else { 80 },
        );
        let java = make_score(
            "Java",
            if req.performance_critical && req.concurrent_users > 10000 { 60 } else { 80 },
            if java_e == 0 { 50 } else if 1 <= java_e && java_e <= 2 { 80 } else { 90 },
            80,
            90,
        );
        let python = make_score(
            "Python",
            if req.performance_critical { 40 } else { 70 },
            90,
            if req.data_volume_gb > 100 { 50 } else { 70 },
            80,
        );
        let cpp = make_score(
            "C++",
            95,
            if cpp_e == 0 { 20 } else if 1 <= cpp_e && cpp_e <= 2 { 50 } else { 70 },
            if req.maintenance_period > 5 { 50 } else { 70 },
            if cpp_e < 3 { 30 } else { 70 },
        );
        let go = make_score(
            "Go",
            if req.performance_critical && req.memory_constraints { 65 } else { 80 },
            if go_e == 0 { 60 } else if 1 <= go_e && go_e <= 2 { 80 } else { 90 },
            80,
            80,
        );

        let ghost expected = seq![
            eval_rust(*req),
            eval_java(*req),
            eval_python(*req),
            eval_cpp(*req),
            eval_go(*req),
        ];
        let mut scores: Vec<LanguageScore> = Vec::new();
        scores.push(rust);
        scores.push(java);
        scores.push(python);
        scores.push(cpp);
        scores.push(go);
        proof {
            assert(scores.deep_view() =~= expected);
        }
        sort_scores_desc(scores)
    }
}

} // verus!
