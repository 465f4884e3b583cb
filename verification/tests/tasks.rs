use ridesim::tasks::{
    binary_name, ci_bench, ci_check, ci_examples, ci_job_steps, serverless_build_args, BuildProfile,
    CiJob,
};

#[test]
fn build_profiles_name_directory_and_flag() {
    assert_eq!(BuildProfile::Debug.dir_name(), "debug");
    assert_eq!(BuildProfile::Release.dir_name(), "release");
    assert_eq!(BuildProfile::Debug.as_cargo_flag(), None);
    assert_eq!(BuildProfile::Release.as_cargo_flag(), Some("--release"));
}

#[test]
fn windows_targets_get_exe_binaries() {
    assert_eq!(binary_name("sweep_runtime", "x86_64-pc-windows-msvc"), "sweep_runtime.exe");
    assert_eq!(binary_name("sweep_runtime", "x86_64-unknown-linux-gnu"), "sweep_runtime");
    assert_eq!(binary_name("b", "windows"), "b.exe");
    assert_eq!(binary_name("b", "window"), "b");
}

#[test]
fn ci_jobs_list_their_cargo_steps() {
    let check = ci_check();
    assert_eq!(check.len(), 4);
    assert_eq!(check[0].label, "Check formatting");
    assert_eq!(check[0].args, vec!["fmt", "--all", "--", "--check"]);
    assert_eq!(ci_examples()[1].args[4], "scenario_run_large");
    assert_eq!(ci_bench()[0].args, vec!["bench", "--package", "sim_core", "--bench", "performance"]);
    assert_eq!(ci_job_steps(CiJob::All).len(), 7);
    assert_eq!(ci_job_steps(CiJob::Bench).len(), 1);
}

#[test]
fn serverless_build_adds_release_flag() {
    let args = serverless_build_args("x86_64-unknown-linux-gnu", BuildProfile::Release);
    assert_eq!(
        args,
        vec!["build", "-p", "sim_serverless_sweep_lambda", "--target", "x86_64-unknown-linux-gnu", "--bin", "sweep_runtime", "--release"]
    );
    assert_eq!(serverless_build_args("t", BuildProfile::Debug).len(), 7);
}
