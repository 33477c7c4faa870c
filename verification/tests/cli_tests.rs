use trix::cli::build::command::{cmd_build, cmd_build_legacy, BuildArgs, BuildPlan, BuildSource};
use trix::cli::common::{build_resolved_attribute, parse_arg_pairs, CommonArgs, CommonError};
use trix::cli::copy::{cmd_copy, copy_command, CopyArgs};
use trix::cli::develop::command::{cmd_develop, develop_shell_options, effective_command as develop_effective_command, DevelopArgs};
use trix::cli::develop::{
    file_shell_command, flake_shell_command, get_effective_command, remote_develop_command, run as develop_run,
    shell_env, DevelopArgs as ShellDevelopArgs, DevelopMode, EnvChange,
};
use trix::cli::eval::{
    applied_expr, delegation_command, eval_mode, expand_eval_attr_path, local_eval_command, next_eval_candidate,
    nodes_to_prefetch, remote_eval_command,
    EvalArgs, EvalError, EvalMode,
};
use trix::cli::fmt::{formatter_attr, formatter_exe, remote_fmt_command, FmtArgs};
use trix::cli::hash::{
    cmd_hash, handle, handle_convert, handle_file, handle_legacy, run as hash_run, ConvertArgs, FileArgs, HashArgs,
    HashCommands, LegacyArgs, PathArgs,
};
use trix::cli::log::{missing_log_message, remote_log_command};
use trix::cli::os::{
    configuration_attr_path, is_current_dir_ref, missing_lock_message, named_host, rebuild_command,
    rebuild_expr_with_header, rebuild_failure_message, repl_command, repl_expr, repl_is_passthrough,
    repl_passthrough_command, split_flake_ref, RebuildAction, RebuildArgs, ReplArgs,
};
use trix::cli::registry::{
    added_line, entry_not_found_message, pin_revision, pinned_line, registry_list_line, removed_line, RegistryError,
};
use trix::cli::repl::{cmd_repl, ReplArgs as FlakeReplArgs, ReplPlan};
use trix::cli::run::{app_attr, remote_run_command, RunArgs};
use trix::cli::search::{run as search_run, SearchArgs};
use trix::cli::shell::{
    build_interpreter_command, effective_command, exit_failure_message, quote_arg, remote_shell_command, shell_path,
    ShellArgs, ShellError,
};
use trix::cli::style::{bold, cyan, magenta, yellow};
use trix::command::NixCommand;
use trix::json::Json;
use trix::nix::{apply_common_args, CommonOptions, ResolvedInstallable};

fn strings(v: &[&str]) -> Vec<String> {
    v.iter().map(|x| x.to_string()).collect()
}

fn common_args() -> CommonArgs {
    CommonArgs {
        extra_args: vec![],
        extra_argstrs: vec![],
        store: None,
        max_jobs: None,
        cores: None,
        keep_going: false,
        keep_failed: false,
        no_build_output: false,
        quiet: false,
    }
}

fn remote(flake_ref: &str, attr: &str) -> ResolvedInstallable {
    ResolvedInstallable {
        is_local: false,
        flake_ref: Some(flake_ref.to_string()),
        attr_part: attr.to_string(),
        flake_dir: None,
    }
}

fn local(dir: Option<&str>) -> ResolvedInstallable {
    ResolvedInstallable {
        is_local: true,
        flake_ref: None,
        attr_part: "default".to_string(),
        flake_dir: dir.map(|d| d.to_string()),
    }
}

fn build_args(installable: &str, nix_file: Option<&str>, no_link: bool) -> BuildArgs {
    BuildArgs {
        installable: installable.to_string(),
        out_link: "result".to_string(),
        no_link,
        nix_file: nix_file.map(|f| f.to_string()),
        common: common_args(),
    }
}

#[test]
fn argument_pairs() {
    assert_eq!(
        parse_arg_pairs(&strings(&["a", "1", "b", "2", "c"])),
        vec![("a".to_string(), "1".to_string()), ("b".to_string(), "2".to_string())]
    );
    assert!(parse_arg_pairs(&strings(&["x"])).is_empty());
}

#[test]
fn common_options_become_flags() {
    let mut c = common_args();
    c.extra_args = strings(&["n", "1"]);
    c.extra_argstrs = strings(&["s", "v"]);
    c.store = Some("/st".to_string());
    c.max_jobs = Some(4);
    c.cores = Some(-1);
    c.keep_going = true;
    c.quiet = true;
    let o: CommonOptions = c.to_common_options();
    let mut cmd = NixCommand::new("nix-build");
    apply_common_args(&mut cmd, &o);
    assert_eq!(
        cmd.args,
        strings(&[
            "--arg", "n", "1", "--argstr", "s", "v", "--store", "/st", "--max-jobs", "4", "--cores", "-1",
            "--keep-going", "--quiet"
        ])
    );
}

#[test]
fn local_build_directory() {
    assert_eq!(build_resolved_attribute(&local(Some("/src"))).ok(), Some("/src".to_string()));
    assert!(matches!(build_resolved_attribute(&local(None)), Err(CommonError::NoFlakeDirectory)));
    assert_eq!(CommonError::NoFlakeDirectory.message(), "No flake directory");
}

#[test]
fn build_from_a_file() {
    match cmd_build(build_args("hello", Some("default.nix"), false), &local(Some("/src")), false) {
        BuildPlan::Legacy(c) => {
            assert_eq!(c.program, "nix-build");
            assert_eq!(c.args, strings(&["default.nix", "-A", "hello", "-o", "result"]));
        }
        _ => panic!("expected a legacy build"),
    }
    match cmd_build(build_args(".#default", Some("f.nix"), true), &local(None), false) {
        BuildPlan::Legacy(c) => assert_eq!(c.args, strings(&["f.nix", "--no-link"])),
        _ => panic!("expected a legacy build"),
    }
}

#[test]
fn build_of_a_remote_flake() {
    match cmd_build(build_args("github:a/b#hello", None, true), &remote("github:a/b", "hello"), true) {
        BuildPlan::Passthrough(c) => {
            assert_eq!(c.program, "nix");
            assert_eq!(c.args, strings(&["build", "github:a/b#hello", "--no-link"]));
        }
        _ => panic!("expected a passthrough"),
    }
}

#[test]
fn build_of_a_remote_tree() {
    match cmd_build(build_args("github:a/b#pkg", None, false), &remote("github:a/b", ".#pkg"), false) {
        BuildPlan::Legacy(c) => {
            assert_eq!(c.program, "nix-build");
            assert_eq!(
                c.args,
                strings(&["-E", "import (builtins.fetchTree \"github:a/b\")", "-A", "pkg", "-o", "result"])
            );
        }
        _ => panic!("expected a legacy build"),
    }
}

#[test]
fn build_of_a_local_flake() {
    assert!(matches!(cmd_build(build_args(".", None, false), &local(Some("/s")), false), BuildPlan::Local(Some(l)) if l == "result"));
    assert!(matches!(cmd_build(build_args(".", None, true), &local(Some("/s")), false), BuildPlan::Local(None)));
}

#[test]
fn legacy_build_command() {
    let o = common_args().to_common_options();
    let c = cmd_build_legacy(BuildSource::Expr("e".to_string()), "default", None, &o);
    assert_eq!(c.args, strings(&["-E", "e", "--no-link"]));
    let c = cmd_build_legacy(BuildSource::File("x.nix".to_string()), "pkgs.hello", Some("out"), &o);
    assert_eq!(c.args, strings(&["x.nix", "-A", "pkgs.hello", "-o", "out"]));
}

#[test]
fn copies() {
    let a = CopyArgs { installable: "x".to_string(), to: "ssh://h".to_string(), no_check_sigs: true };
    assert_eq!(copy_command(&a, "/nix/store/p").args, strings(&["copy", "--to", "ssh://h", "/nix/store/p", "--no-check-sigs"]));
    assert!(cmd_copy(&a, &local(None)).is_none());
    assert_eq!(
        cmd_copy(&a, &remote("github:a/b", "pkg")).unwrap().args,
        strings(&["copy", "--to", "ssh://h", "github:a/b#pkg", "--no-check-sigs"])
    );
}

fn develop_args() -> DevelopArgs {
    DevelopArgs {
        installable: ".".to_string(),
        command: None,
        interpreter: None,
        script: None,
        script_args: vec![],
        extra_args: vec![],
        extra_argstrs: vec![],
        store: None,
    }
}

#[test]
fn develop_commands() {
    let mut a = develop_args();
    assert_eq!(develop_effective_command(&a), None);
    a.command = Some("make".to_string());
    assert_eq!(develop_effective_command(&a), Some("make".to_string()));
    a.interpreter = Some("python3".to_string());
    assert_eq!(develop_effective_command(&a), Some("python3".to_string()));
    a.script = Some("my script.py".to_string());
    a.script_args = strings(&["it's"]);
    assert_eq!(develop_effective_command(&a), Some("python3 'my script.py' 'it'\\''s'".to_string()));
}

#[test]
fn develop_remote_and_local() {
    let mut a = develop_args();
    a.command = Some("make".to_string());
    a.store = Some("/st".to_string());
    a.extra_args = strings(&["x", "1"]);
    assert!(cmd_develop(&a, &local(None)).is_none());
    assert_eq!(
        cmd_develop(&a, &remote("github:a/b", "dev")).unwrap().args,
        strings(&["develop", "github:a/b#dev", "--command", "make", "--store", "/st", "--arg", "x", "1"])
    );
    let cfg = Json::Object(vec![("bash-prompt".to_string(), Json::Str("$ ".to_string()))]);
    let o = develop_shell_options(&a, &cfg);
    assert_eq!(o.command, Some("make".to_string()));
    assert_eq!(o.bash_prompt, Some("$ ".to_string()));
    assert_eq!(o.bash_prompt_prefix, None);
    assert_eq!(o.extra_args, vec![("x".to_string(), "1".to_string())]);
}

fn eval_args() -> EvalArgs {
    EvalArgs {
        installable: ".".to_string(),
        impure: false,
        expr: None,
        file: None,
        arg: vec![],
        argstr: vec![],
        override_input: vec![],
        json: false,
        raw: false,
        apply: None,
    }
}

#[test]
fn eval_modes() {
    let mut a = eval_args();
    assert!(matches!(eval_mode(&a), Ok(EvalMode::Flake)));
    a.arg = strings(&["x", "1"]);
    assert!(matches!(eval_mode(&a), Err(EvalError::ArgsNeedSource)));
    assert_eq!(EvalError::ArgsNeedSource.message(), "--arg and --argstr require --file or --expr to be specified");
    a.expr = Some("{ x }: x".to_string());
    assert!(matches!(eval_mode(&a), Ok(EvalMode::Delegate)));
}

#[test]
fn eval_delegation() {
    let mut a = eval_args();
    a.expr = Some("{ a = 1; }".to_string());
    a.installable = "a".to_string();
    a.json = true;
    assert_eq!(
        delegation_command(&a).args,
        strings(&[
            "--extra-experimental-features", "nix-command flakes", "eval", "--expr", "{ a = 1; }", "--apply",
            "x: x.a", "--json", "--impure"
        ])
    );
    let mut b = eval_args();
    b.file = Some("f.nix".to_string());
    b.argstr = strings(&["n", "v", "odd"]);
    b.raw = true;
    assert_eq!(
        delegation_command(&b).args,
        strings(&[
            "--extra-experimental-features", "nix-command flakes", "eval", "--file", "f.nix", "--argstr", "n", "v",
            "--raw", "--impure"
        ])
    );
}

#[test]
fn eval_candidates() {
    let sys = "x86_64-linux";
    let e = |p: &[&str]| expand_eval_attr_path(&strings(p), sys);
    assert_eq!(e(&["packages", "hello"]), vec![strings(&["packages", "x86_64-linux", "hello"])]);
    assert_eq!(e(&["packages", "aarch64-linux", "hello"]), vec![strings(&["packages", "aarch64-linux", "hello"])]);
    assert_eq!(e(&["templates", "f"]), vec![strings(&["templates", "f"])]);
    assert_eq!(
        e(&["lib", "testValue"]),
        vec![
            strings(&["packages", "x86_64-linux", "lib", "testValue"]),
            strings(&["legacyPackages", "x86_64-linux", "lib", "testValue"]),
            strings(&["lib", "testValue"]),
        ]
    );
    assert_eq!(
        e(&["hello"]),
        vec![
            strings(&["packages", "x86_64-linux", "hello"]),
            strings(&["legacyPackages", "x86_64-linux", "hello"]),
            strings(&["hello"]),
        ]
    );
    assert_eq!(e(&[]), vec![Vec::<String>::new()]);
}

#[test]
fn eval_local_commands() {
    assert_eq!(applied_expr(&None, "e".to_string()), "e");
    assert_eq!(applied_expr(&Some("f".to_string()), "e".to_string()), "(f) (e)");
    let c = local_eval_command(true, "1 + 1");
    assert_eq!(c.program, "nix");
    assert_eq!(c.args, strings(&["eval", "--raw", "--impure", "--expr", "1 + 1"]));
    assert_eq!(local_eval_command(false, "x").args, strings(&["eval", "--impure", "--expr", "x"]));
}

#[test]
fn formatters() {
    let a = FmtArgs { installable: ".".to_string(), args: strings(&["a.nix"]), store: None };
    assert_eq!(remote_fmt_command(&a, "github:a/b").args, strings(&["fmt", "github:a/b", "--", "a.nix"]));
    assert_eq!(remote_fmt_command(&FmtArgs { installable: ".".to_string(), args: vec![], store: None }, "").args, strings(&["fmt"]));
    assert_eq!(formatter_attr("default", "x86_64-linux"), "formatter.x86_64-linux");
    assert_eq!(formatter_attr("", "x86_64-linux"), "formatter.x86_64-linux");
    assert_eq!(formatter_attr("formatter.x.y", "s"), "formatter.x.y");
    assert_eq!(formatter_exe("/nix/store/p", "nixfmt"), "/nix/store/p/bin/nixfmt");
}

#[test]
fn hashes() {
    let f = FileArgs { paths: strings(&["a"]), base16: false, base32: true, base64: false, sri: true, type_: Some("sha1".to_string()) };
    let mut c = NixCommand::new("nix");
    handle_file(&mut c, &f);
    assert_eq!(c.args, strings(&["file", "--base32", "--sri", "--type", "sha1", "a"]));
    let p = PathArgs { paths: strings(&["d"]), base16: true, base32: false, base64: true, sri: false, type_: None };
    let mut c = NixCommand::new("nix");
    handle(&mut c, &p);
    assert_eq!(c.args, strings(&["path", "--base16", "--base64", "d"]));
    let mut c = NixCommand::new("nix");
    handle_legacy(&mut c, &LegacyArgs { hashes: strings(&["h"]), type_: Some("sha256".to_string()) }, "to-sri");
    assert_eq!(c.args, strings(&["to-sri", "--type", "sha256", "h"]));
    let conv = ConvertArgs { hashes: strings(&["h1", "h2"]), from: Some("base16".to_string()), to: None, hash_algo: Some("sha256".to_string()) };
    let mut c = NixCommand::new("nix");
    handle_convert(&mut c, &conv);
    assert_eq!(c.args, strings(&["convert", "--from", "base16", "--hash-algo", "sha256", "h1", "h2"]));
    let h = cmd_hash(&HashCommands::ToBase32(LegacyArgs { hashes: strings(&["x"]), type_: None }));
    assert_eq!(h.program, "nix");
    assert_eq!(h.args, strings(&["hash", "to-base32", "x"]));
    let r = hash_run(&HashArgs { command: HashCommands::Convert(conv) });
    assert_eq!(r.args, strings(&["hash", "convert", "--from", "base16", "--hash-algo", "sha256", "h1", "h2"]));
}

#[test]
fn logs() {
    assert_eq!(remote_log_command("github:a/b", "hello").args, strings(&["log", "github:a/b#hello"]));
    assert_eq!(missing_log_message("/nix/store/x.drv"), "No build log available for /nix/store/x.drv");
}

#[test]
fn os_rebuild() {
    let a = RebuildArgs {
        action: RebuildAction::Switch,
        flake_ref: None,
        sudo: false,
        ask_sudo_password: true,
        build_host: Some("b".to_string()),
        target_host: None,
        profile_name: None,
        show_trace: true,
        print_expr: false,
        nixos_verbose: false,
        passthrough: strings(&["--fast"]),
    };
    let c = rebuild_command(&a, "/tmp/e.nix");
    assert_eq!(c.program, "nixos-rebuild");
    assert_eq!(
        c.args,
        strings(&["switch", "--file", "/tmp/e.nix", "--sudo", "--ask-sudo-password", "--build-host", "b", "--show-trace", "--fast"])
    );
    assert_eq!(RebuildAction::BuildVmWithBootloader.as_nixos_rebuild_arg(), "build-vm-with-bootloader");
    assert_eq!(RebuildAction::DryBuild.as_nixos_rebuild_arg(), "dry-build");
}

#[test]
fn os_flake_references() {
    assert_eq!(split_flake_ref(&Some(".#host".to_string())), (".".to_string(), Some("host".to_string())));
    assert_eq!(split_flake_ref(&Some("/etc/nixos".to_string())), ("/etc/nixos".to_string(), None));
    assert_eq!(split_flake_ref(&None), (".".to_string(), None));
    assert!(is_current_dir_ref(""));
    assert!(is_current_dir_ref("."));
    assert!(!is_current_dir_ref("/x"));
    assert_eq!(named_host(&Some("h".to_string())), Some("h".to_string()));
    assert_eq!(named_host(&Some(String::new())), None);
    assert_eq!(configuration_attr_path("h"), strings(&["nixosConfigurations", "h"]));
}

#[test]
fn os_texts() {
    assert_eq!(
        rebuild_expr_with_header("/f", "h", "t", "E"),
        "# Generated by trix for NixOS rebuild\n# Flake: /f\n# Host: h\n# Generated: t\nE\n"
    );
    let r = repl_expr("/f", "h", "B");
    assert!(r.starts_with("# NixOS REPL - generated by trix\n# Flake: /f\n# Host: h\n"));
    assert!(r.contains("nixosConfig = B;\n"));
    assert_eq!(rebuild_failure_message(Some(2)), "nixos-rebuild exited with code 2");
    assert_eq!(rebuild_failure_message(None), "nixos-rebuild was terminated by signal");
    assert_eq!(missing_lock_message("/f/flake.lock"), "flake.lock not found at /f/flake.lock. Run 'trix flake lock' first.");
}

#[test]
fn os_repl() {
    let mut a = ReplArgs { flake_ref: None, file: None, attr: None, show_trace: true, print_expr: false, passthrough: vec![] };
    assert!(!repl_is_passthrough(&a));
    assert_eq!(repl_command("E", &a).args, strings(&["repl", "--expr", "E", "--show-trace"]));
    a.file = Some("c.nix".to_string());
    assert!(repl_is_passthrough(&a));
    let c = repl_passthrough_command(&a);
    assert_eq!(c.program, "nixos-rebuild");
    assert_eq!(c.args, strings(&["repl", "--file", "c.nix", "--show-trace"]));
}

#[test]
fn registry_lines() {
    assert_eq!(registry_list_line(false, "nixpkgs", "user", "github:NixOS/nixpkgs"), "user   flake:nixpkgs github:NixOS/nixpkgs");
    assert_eq!(registry_list_line(true, "n", "global", "r"), "\x1b[2mglobal\x1b[0m \x1b[1mflake:n\x1b[0m r");
    assert_eq!(added_line(false, "n", "r"), "Added: flake:n -> r");
    assert_eq!(removed_line(false, "n"), "Removed: flake:n");
    assert_eq!(pinned_line(true, "n", "abc"), "Pinned: \x1b[1mflake:n\x1b[0m to \x1b[36mabc\x1b[39m");
    assert_eq!(entry_not_found_message("n"), "Entry 'n' not found in user registry.");
    assert_eq!(pin_revision(Some("abc".to_string())).ok(), Some("abc".to_string()));
    assert!(matches!(pin_revision(None), Err(RegistryError::RevisionRequired)));
    assert_eq!(RegistryError::RevisionRequired.message(), "--to revision is required");
}

#[test]
fn runs() {
    let a = RunArgs { installable: "x".to_string(), args: strings(&["--help"]), extra_args: vec![], extra_argstrs: vec![], store: Some("/st".to_string()) };
    assert_eq!(remote_run_command(&a, "github:a/b", "app").args, strings(&["run", "github:a/b#app", "--store", "/st", "--", "--help"]));
    assert_eq!(app_attr("x86_64-linux", ""), "apps.x86_64-linux.default");
    assert_eq!(app_attr("x86_64-linux", "hi"), "apps.x86_64-linux.hi");
}

#[test]
fn searches() {
    let a = SearchArgs { flake_ref: "nixpkgs".to_string(), patterns: strings(&["hello"]), json: true, no_desc: true };
    assert_eq!(
        search_run(&a).args,
        strings(&["--extra-experimental-features", "nix-command flakes", "search", "nixpkgs", "hello", "--json", "--no-description"])
    );
}

#[test]
fn shells() {
    assert_eq!(quote_arg("plain"), "plain");
    assert_eq!(quote_arg("a b"), "'a b'");
    assert_eq!(quote_arg("it's"), "'it'\\''s'");
    assert_eq!(quote_arg("say \"hi\""), "'say \"hi\"'");
    assert_eq!(build_interpreter_command("bash", "s.sh", &strings(&["x y"])), "bash s.sh 'x y'");
    let a = ShellArgs { installables: strings(&["nixpkgs#hello"]), command: Some("hello".to_string()), interpreter: None, script: None, script_args: vec![] };
    assert_eq!(effective_command(&a), Some("hello".to_string()));
    assert_eq!(
        remote_shell_command(&strings(&["github:a/b#x"]), &Some("x".to_string())).args,
        strings(&["shell", "github:a/b#x", "--command", "x"])
    );
    assert_eq!(shell_path(&strings(&["/a/bin", "/b/bin"]), "/usr/bin").ok(), Some("/a/bin:/b/bin:/usr/bin".to_string()));
    assert_eq!(shell_path(&strings(&["/a/bin"]), "").ok(), Some("/a/bin".to_string()));
    assert!(matches!(shell_path(&vec![], "/usr/bin"), Err(ShellError::NoBinDirectories)));
    assert_eq!(ShellError::NoBinDirectories.message(), "No bin directories found in packages");
    assert_eq!(exit_failure_message(Some(3)), "Command failed with exit code: 3");
    assert_eq!(exit_failure_message(None), "Command failed with exit code: 1");
    assert_eq!(exit_failure_message(Some(-2)), "Command failed with exit code: -2");
}

#[test]
fn styles() {
    assert_eq!(yellow("w", true), "\x1b[1;33mw\x1b[0m");
    assert_eq!(magenta("m", true), "\x1b[1;35mm\x1b[0m");
    assert_eq!(cyan("c", true), "\x1b[36mc\x1b[0m");
    assert_eq!(bold("b", true), "\x1b[1mb\x1b[0m");
    assert_eq!(bold("b", false), "b");
}

#[test]
fn remote_evaluation() {
    let mut c = common_args();
    c.store = Some("/st".to_string());
    c.extra_argstrs = strings(&["a", "b"]);
    let o = c.to_common_options();
    assert_eq!(
        remote_eval_command("github:a/b", "x", true, false, &Some("f".to_string()), &o).args,
        strings(&["eval", "github:a/b#x", "--json", "--apply", "f", "--store", "/st", "--argstr", "a", "b"])
    );
}

#[test]
fn repl_plans() {
    match cmd_repl(&FlakeReplArgs { flake_ref: None }, &None) {
        ReplPlan::Nix(c) => assert_eq!(c.args, strings(&["repl"])),
        ReplPlan::Local => panic!("expected a plain repl"),
    }
    let args = FlakeReplArgs { flake_ref: Some("nixpkgs".to_string()) };
    match cmd_repl(&args, &Some(remote("flake:nixpkgs", ""))) {
        ReplPlan::Nix(c) => assert_eq!(c.args, strings(&["repl", "flake:nixpkgs"])),
        ReplPlan::Local => panic!("expected a passthrough"),
    }
    assert!(matches!(cmd_repl(&args, &Some(local(Some("/src")))), ReplPlan::Local));
}

#[test]
fn eval_prefetches_nodes_not_overridden() {
    let nodes = strings(&["root", "nixpkgs", "utils", "home"]);
    let picked = nodes_to_prefetch(&nodes, "root", &strings(&["utils"]));
    assert_eq!(picked, strings(&["nixpkgs", "home"]));
    assert_eq!(nodes_to_prefetch(&nodes, "root", &vec![]), strings(&["nixpkgs", "utils", "home"]));
}

#[test]
fn eval_candidates_tried_in_turn() {
    assert_eq!(next_eval_candidate(3, 0, true), Some(1));
    assert_eq!(next_eval_candidate(3, 1, true), Some(2));
    assert_eq!(next_eval_candidate(3, 2, true), None);
    assert_eq!(next_eval_candidate(3, 0, false), None);
}

fn shell_develop_args() -> ShellDevelopArgs {
    ShellDevelopArgs {
        installable: ".".to_string(),
        impure: false,
        file: None,
        attr: None,
        arg: vec![],
        argstr: vec![],
        command: vec![],
        ignore_env: false,
        keep_env_var: vec![],
        set_env_var: vec![],
        unset_env_var: vec![],
    }
}

#[test]
fn develop_on_nix_shell() {
    let mut a = shell_develop_args();
    assert!(matches!(develop_run(&a), DevelopMode::Flake));
    assert_eq!(get_effective_command(&a), None);
    a.command = strings(&["make", "-j", "4"]);
    assert_eq!(get_effective_command(&a), Some("make -j 4".to_string()));
    a.file = Some("shell.nix".to_string());
    a.attr = Some("dev".to_string());
    a.arg = strings(&["x", "1", "dangling"]);
    a.argstr = strings(&["name", "v"]);
    a.ignore_env = true;
    a.keep_env_var = strings(&["HOME"]);
    assert!(matches!(develop_run(&a), DevelopMode::File));
    let c = file_shell_command(&a, "/src/shell.nix");
    assert_eq!(c.program, "nix-shell");
    assert_eq!(
        c.args,
        strings(&[
            "/src/shell.nix", "-A", "dev", "--arg", "x", "1", "--argstr", "name", "v", "--pure", "--keep", "HOME",
            "--command", "make -j 4",
        ])
    );
    let f = flake_shell_command(&a, "/nix/store/x.drv");
    assert_eq!(f.args, strings(&["/nix/store/x.drv", "--pure", "--keep", "HOME", "--command", "make -j 4"]));
}

#[test]
fn develop_shell_environment() {
    let mut a = shell_develop_args();
    a.set_env_var = strings(&["A", "1", "B", "2"]);
    a.unset_env_var = strings(&["C"]);
    let env = shell_env(&a, false);
    assert_eq!(env.len(), 4);
    assert!(matches!(&env[0], EnvChange::Assign(k, v) if k == "NIX_BUILD_SHELL" && v == "bash"));
    assert!(matches!(&env[1], EnvChange::Assign(k, v) if k == "A" && v == "1"));
    assert!(matches!(&env[2], EnvChange::Assign(k, v) if k == "B" && v == "2"));
    assert!(matches!(&env[3], EnvChange::Unset(k) if k == "C"));
    assert_eq!(shell_env(&a, true).len(), 3);
}

#[test]
fn develop_remote_on_nix_develop() {
    let mut a = shell_develop_args();
    a.installable = "github:o/r".to_string();
    a.ignore_env = true;
    a.keep_env_var = strings(&["HOME"]);
    a.set_env_var = strings(&["A", "1"]);
    a.unset_env_var = strings(&["C"]);
    a.command = strings(&["echo", "hi"]);
    let c = remote_develop_command(&a);
    assert_eq!(c.program, "nix");
    assert_eq!(
        c.args,
        strings(&[
            "develop", "github:o/r", "--ignore-env", "--keep-env-var", "HOME", "--set-env-var", "A", "1",
            "--unset-env-var", "C", "--command", "sh", "-c", "echo hi",
        ])
    );
}
