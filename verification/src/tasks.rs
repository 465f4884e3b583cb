use vstd::prelude::*;
use crate::text::{chars_of, owned, push_str};

verus! {

/// The cargo profile that release artifacts are built with.
#[derive(Debug, Clone, Copy, PartialEq, Eq, Structural)]
pub enum BuildProfile {
    Debug,
    Release,
}

impl BuildProfile {
    /// The name of the profile's output directory under `target/<triple>/`.
    pub fn dir_name(self) -> (s: &'static str)
        ensures
            s@ == match self {
                BuildProfile::Debug => "debug"@,
                BuildProfile::Release => "release"@,
            },
    {
        match self {
            BuildProfile::Debug => "debug",
            BuildProfile::Release => "release",
        }
    }

    /// The cargo flag that selects the profile, if it needs one.
    pub fn as_cargo_flag(self) -> (f: Option<&'static str>)
        ensures
            match self {
                BuildProfile::Debug => f is None,
                BuildProfile::Release => f is Some && f->0@ == "--release"@,
            },
    {
        match self {
            BuildProfile::Debug => None,
            BuildProfile::Release => Some("--release"),
        }
    }
}

/// `text` holds `part` somewhere.
pub open spec fn contains_seq(text: Seq<char>, part: Seq<char>) -> bool {
    exists|i: int| 0 <= i && i + part.len() <= text.len() && #[trigger] text.subrange(i, i + part.len()) == part
}

/// Whether `text` holds `part` somewhere.
pub fn str_contains(text: &str, part: &str) -> (b: bool)
    ensures
        b == contains_seq(text@, part@),
{
    let t = chars_of(text);
    let p = chars_of(part);
    if p.len() > t.len() {
        return false;
    }
    let mut i: usize = 0;
    while i <= t.len() - p.len()
        invariant
            t@ == text@,
            p@ == part@,
            p.len() <= t.len(),
            i <= t.len() - p.len() + 1,
            forall|k: int| 0 <= k < i ==> #[trigger] t@.subrange(k, k + p@.len()) != p@,
        decreases t.len() - i,
    {
        let mut j: usize = 0;
        let mut same = true;
        while j < p.len()
            invariant
                i + p.len() <= t.len(),
                j <= p.len(),
                same == forall|k: int| 0 <= k < j ==> t@[i + k] == p@[k],
            decreases p.len() - j,
        {
            if t[i + j] != p[j] {
                same = false;
            }
            j = j + 1;
        }
        if same {
            assert(t@.subrange(i as int, i + p@.len()) =~= p@);
            return true;
        }
        assert(t@.subrange(i as int, i + p@.len()) != p@) by {
            let k = choose|k: int| 0 <= k < p@.len() && t@[i + k] != p@[k];
            assert(t@.subrange(i as int, i + p@.len())[k] != p@[k]);
        }
        i = i + 1;
    }
    false
}

/// The file name of a binary on a target: with `.exe` on Windows targets.
pub fn binary_name(bin_name: &str, target: &str) -> (name: String)
    ensures
        name@ == if contains_seq(target@, "windows"@) {
            bin_name@ + ".exe"@
        } else {
            bin_name@
        },
{
    let mut name = owned(bin_name);
    if str_contains(target, "windows") {
        push_str(&mut name, ".exe");
    }
    name
}

/// One step of a CI job: a label and the arguments of the cargo command it runs.
#[derive(Debug, Clone, PartialEq, Eq)]
pub struct CargoStep {
    pub label: String,
    pub args: Vec<String>,
}

pub open spec fn step_view(s: CargoStep) -> (Seq<char>, Seq<Seq<char>>) {
    (s.label@, s.args.deep_view())
}

pub open spec fn steps_view(steps: Seq<CargoStep>) -> Seq<(Seq<char>, Seq<Seq<char>>)> {
    steps.map_values(|s: CargoStep| step_view(s))
}

fn push_arg(args: &mut Vec<String>, arg: &str)
    ensures
        final(args).deep_view() == old(args).deep_view().push(arg@),
{
    args.push(owned(arg));
    assert(args.deep_view() =~= old(args).deep_view().push(arg@));
}

pub open spec fn check_steps() -> Seq<(Seq<char>, Seq<Seq<char>>)> {
    seq![
        ("Check formatting"@, seq!["fmt"@, "--all"@, "--"@, "--check"@]),
        ("Clippy"@, seq!["clippy"@, "--all-targets"@, "--all-features"@, "--"@, "-D"@, "warnings"@]),
        ("Test sim_core"@, seq!["test"@, "-p"@, "sim_core"@]),
        ("Test sim_experiments"@, seq!["test"@, "-p"@, "sim_experiments"@]),
    ]
}

pub open spec fn example_steps() -> Seq<(Seq<char>, Seq<Seq<char>>)> {
    seq![
        ("Run scenario_run (500 riders, 100 drivers)"@, seq!["run"@, "-p"@, "sim_core"@, "--example"@, "scenario_run"@, "--release"@]),
        ("Run scenario_run_large (10K riders, 7K drivers)"@, seq!["run"@, "-p"@, "sim_core"@, "--example"@, "scenario_run_large"@, "--release"@]),
    ]
}

pub open spec fn bench_steps() -> Seq<(Seq<char>, Seq<Seq<char>>)> {
    seq![("Run benchmarks"@, seq!["bench"@, "--package"@, "sim_core"@, "--bench"@, "performance"@])]
}

/// The steps of the check job: formatting, clippy, and the tests of the core and
/// experiment crates.
pub fn ci_check() -> (steps: Vec<CargoStep>)
    ensures
        steps_view(steps@) == check_steps(),
{
    let mut a1: Vec<String> = Vec::new();
    push_arg(&mut a1, "fmt");
    push_arg(&mut a1, "--all");
    push_arg(&mut a1, "--");
    push_arg(&mut a1, "--check");
    let mut a2: Vec<String> = Vec::new();
    push_arg(&mut a2, "clippy");
    push_arg(&mut a2, "--all-targets");
    push_arg(&mut a2, "--all-features");
    push_arg(&mut a2, "--");
    push_arg(&mut a2, "-D");
    push_arg(&mut a2, "warnings");
    let mut a3: Vec<String> = Vec::new();
    push_arg(&mut a3, "test");
    push_arg(&mut a3, "-p");
    push_arg(&mut a3, "sim_core");
    let mut a4: Vec<String> = Vec::new();
    push_arg(&mut a4, "test");
    push_arg(&mut a4, "-p");
    push_arg(&mut a4, "sim_experiments");
    assert(a1.deep_view() =~= seq!["fmt"@, "--all"@, "--"@, "--check"@]);
    assert(a2.deep_view() =~= seq!["clippy"@, "--all-targets"@, "--all-features"@, "--"@, "-D"@, "warnings"@]);
    assert(a3.deep_view() =~= seq!["test"@, "-p"@, "sim_core"@]);
    assert(a4.deep_view() =~= seq!["test"@, "-p"@, "sim_experiments"@]);
    let mut steps: Vec<CargoStep> = Vec::new();
    steps.push(CargoStep { label: owned("Check formatting"), args: a1 });
    steps.push(CargoStep { label: owned("Clippy"), args: a2 });
    steps.push(CargoStep { label: owned("Test sim_core"), args: a3 });
    steps.push(CargoStep { label: owned("Test sim_experiments"), args: a4 });
    assert(steps_view(steps@) =~= seq![
        ("Check formatting"@, seq!["fmt"@, "--all"@, "--"@, "--check"@]),
        ("Clippy"@, seq!["clippy"@, "--all-targets"@, "--all-features"@, "--"@, "-D"@, "warnings"@]),
        ("Test sim_core"@, seq!["test"@, "-p"@, "sim_core"@]),
        ("Test sim_experiments"@, seq!["test"@, "-p"@, "sim_experiments"@]),
    ]);
    steps
}

/// The steps of the examples job: the standard and the large scenario, in release mode.
pub fn ci_examples() -> (steps: Vec<CargoStep>)
    ensures
        steps_view(steps@) == example_steps(),
{
    let mut a1: Vec<String> = Vec::new();
    push_arg(&mut a1, "run");
    push_arg(&mut a1, "-p");
    push_arg(&mut a1, "sim_core");
    push_arg(&mut a1, "--example");
    push_arg(&mut a1, "scenario_run");
    push_arg(&mut a1, "--release");
    let mut a2: Vec<String> = Vec::new();
    push_arg(&mut a2, "run");
    push_arg(&mut a2, "-p");
    push_arg(&mut a2, "sim_core");
    push_arg(&mut a2, "--example");
    push_arg(&mut a2, "scenario_run_large");
    push_arg(&mut a2, "--release");
    assert(a1.deep_view() =~= seq!["run"@, "-p"@, "sim_core"@, "--example"@, "scenario_run"@, "--release"@]);
    assert(a2.deep_view() =~= seq!["run"@, "-p"@, "sim_core"@, "--example"@, "scenario_run_large"@, "--release"@]);
    let mut steps: Vec<CargoStep> = Vec::new();
    steps.push(CargoStep { label: owned("Run scenario_run (500 riders, 100 drivers)"), args: a1 });
    steps.push(
        CargoStep { label: owned("Run scenario_run_large (10K riders, 7K drivers)"), args: a2 },
    );
    assert(steps_view(steps@) =~= seq![
        ("Run scenario_run (500 riders, 100 drivers)"@, seq!["run"@, "-p"@, "sim_core"@, "--example"@, "scenario_run"@, "--release"@]),
        ("Run scenario_run_large (10K riders, 7K drivers)"@, seq!["run"@, "-p"@, "sim_core"@, "--example"@, "scenario_run_large"@, "--release"@]),
    ]);
    steps
}

/// The steps of the benchmark job.
pub fn ci_bench() -> (steps: Vec<CargoStep>)
    ensures
        steps_view(steps@) == bench_steps(),
{
    let mut a1: Vec<String> = Vec::new();
    push_arg(&mut a1, "bench");
    push_arg(&mut a1, "--package");
    push_arg(&mut a1, "sim_core");
    push_arg(&mut a1, "--bench");
    push_arg(&mut a1, "performance");
    assert(a1.deep_view() =~= seq!["bench"@, "--package"@, "sim_core"@, "--bench"@, "performance"@]);
    let mut steps: Vec<CargoStep> = Vec::new();
    steps.push(CargoStep { label: owned("Run benchmarks"), args: a1 });
    assert(steps_view(steps@) =~= seq![
        ("Run benchmarks"@, seq!["bench"@, "--package"@, "sim_core"@, "--bench"@, "performance"@]),
    ]);
    steps
}

/// A CI job.
#[derive(Debug, Clone, Copy, PartialEq, Eq, Structural)]
pub enum CiJob {
    Check,
    Examples,
    Bench,
    All,
}

/// The steps of a CI job, in the order they run; `All` runs check, examples and bench.
pub fn ci_job_steps(job: CiJob) -> (steps: Vec<CargoStep>)
    ensures
        steps_view(steps@) == match job {
            CiJob::Check => check_steps(),
            CiJob::Examples => example_steps(),
            CiJob::Bench => bench_steps(),
            CiJob::All => check_steps() + example_steps() + bench_steps(),
        },
{
    match job {
        CiJob::Check => ci_check(),
        CiJob::Examples => ci_examples(),
        CiJob::Bench => ci_bench(),
        CiJob::All => {
            let mut steps = ci_check();
            let mut examples = ci_examples();
            let mut bench = ci_bench();
            let ghost (c, e, b) = (steps@, examples@, bench@);
            steps.append(&mut examples);
            steps.append(&mut bench);
            assert(steps@ =~= c + e + b);
            assert(steps_view(c + e + b) =~= steps_view(c) + steps_view(e) + steps_view(b));
            steps
        },
    }
}

/// The cargo arguments that build the serverless runtime binary for a target.
pub fn serverless_build_args(target: &str, profile: BuildProfile) -> (args: Vec<String>)
    ensures
        args.deep_view() == seq!["build"@, "-p"@, "sim_serverless_sweep_lambda"@, "--target"@, target@, "--bin"@, "sweep_runtime"@]
            + match profile {
            BuildProfile::Debug => Seq::<Seq<char>>::empty(),
            BuildProfile::Release => seq!["--release"@],
        },
{
    let mut args: Vec<String> = Vec::new();
    push_arg(&mut args, "build");
    push_arg(&mut args, "-p");
    push_arg(&mut args, "sim_serverless_sweep_lambda");
    push_arg(&mut args, "--target");
    push_arg(&mut args, target);
    push_arg(&mut args, "--bin");
    push_arg(&mut args, "sweep_runtime");
    let ghost base = args.deep_view();
    if let Some(flag) = profile.as_cargo_flag() {
        push_arg(&mut args, flag);
    }
    assert(args.deep_view() =~= seq!["build"@, "-p"@, "sim_serverless_sweep_lambda"@, "--target"@, target@, "--bin"@, "sweep_runtime"@]
        + match profile {
        BuildProfile::Debug => Seq::<Seq<char>>::empty(),
        BuildProfile::Release => seq!["--release"@],
    });
    args
}

} // verus!
