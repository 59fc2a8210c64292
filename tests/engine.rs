use native_install::autotargets::{
    apply_bin_defaults, apply_lib_defaults, crate_name_of, with_extension, fresh_lib_type, get_auto_targets,
    lib_extension, product_name, LibProduct, ManifestInfo, PackageInfo,
};
use native_install::dirs::{placeholder_root, InstallDirs, RootName};
use native_install::install::{
    combine_modes, copy_needed, delegate_args, delegate_succeeded, entry_dest, node_strip,
    plan_node, plan_target, run_exit_status, run_outcome, DelegateArg, NodePlan, NodeStep,
    RunOutcome, TargetPlan,
};
use native_install::manifest::{NativeInstallMetadata, Platform, Target, TargetType};
use native_install::mode::{apply_mode, InvalidMode};
use native_install::options::Options;
use native_install::path::InstallPath;
use native_install::resolve::convert_to_path;

fn p(text: &str) -> InstallPath {
    InstallPath {
        rooted: text.starts_with('/'),
        parts: text
            .split('/')
            .filter(|s| !s.is_empty())
            .map(|s| s.to_string())
            .collect(),
    }
}

fn dirs() -> InstallDirs {
    InstallDirs {
        prefix: p("/usr/local"),
        exec_prefix: p("/usr/local"),
        bindir: p("/usr/local/bin"),
        sbindir: p("/usr/local/sbin"),
        libdir: p("/usr/local/lib"),
        libexecdir: p("/usr/local/libexec"),
        includedir: p("/usr/local/include"),
        datarootdir: p("/usr/local/share"),
        datadir: p("/usr/local/share/data"),
        mandir: p("/usr/local/share/man"),
        infodir: p("/usr/local/share/info"),
        docdir: p("/usr/local/share/doc/pkg"),
        localedir: p("/usr/local/share/locale"),
        localstatedir: p("/usr/local/var"),
        sharedstatedir: p("/usr/local/com"),
        sysconfdir: p("/usr/local/etc"),
    }
}

fn linux() -> Platform {
    Platform {
        exe_extension: String::new(),
        dll_extension: "so".to_string(),
        dll_prefix: "lib".to_string(),
        windows: false,
    }
}

fn windows() -> Platform {
    Platform {
        exe_extension: "exe".to_string(),
        dll_extension: "dll".to_string(),
        dll_prefix: String::new(),
        windows: true,
    }
}

// ---- permission algebra ----

#[test]
fn assign_644_from_any_bits() {
    for bits in [0u32, 0o777, 0o7777, 0o100755, 0o4711, 0o2000] {
        assert_eq!(apply_mode(bits, "=644", false, 0o022), Ok(0o644));
        assert_eq!(apply_mode(bits, "=644", true, 0o777), Ok(0o644));
    }
}

#[test]
fn owner_execute_only() {
    for bits in [0u32, 0o644, 0o7000, 0o600, 0o100] {
        assert_eq!(apply_mode(bits, "u+x", false, 0o022), Ok(bits | 0o100));
    }
}

#[test]
fn conditional_execute() {
    assert_eq!(apply_mode(0o644, "a+X", false, 0o022), Ok(0o644));
    assert_eq!(apply_mode(0o644, "a+X", true, 0o022), Ok(0o755));
    assert_eq!(apply_mode(0o744, "a+X", false, 0o022), Ok(0o755));
}

#[test]
fn plain_octal_is_masked_by_umask() {
    assert_eq!(apply_mode(0, "755", false, 0o022), Ok(0o755));
    assert_eq!(apply_mode(0o777, "666", false, 0o077), Ok(0o600));
}

#[test]
fn numeric_add_and_remove() {
    assert_eq!(apply_mode(0o600, "+044", false, 0o777), Ok(0o644));
    assert_eq!(apply_mode(0o777, "-022", false, 0), Ok(0o755));
}

#[test]
fn symbolic_clause_list() {
    assert_eq!(apply_mode(0, "u=rwx,g=rx,o=rx", false, 0o022), Ok(0o755));
    assert_eq!(apply_mode(0o777, "u=rw,g=r,o=r", false, 0o022), Ok(0o644));
    assert_eq!(apply_mode(0o666, "go-w", false, 0), Ok(0o644));
    assert_eq!(apply_mode(0o644, "u+s", false, 0), Ok(0o4644));
    assert_eq!(apply_mode(0o755, "o+t", false, 0), Ok(0o1755));
    assert_eq!(apply_mode(0o4755, "u=rw", false, 0), Ok(0o655));
}

#[test]
fn missing_class_uses_umask() {
    assert_eq!(apply_mode(0o644, "+x", false, 0o022), Ok(0o755));
    assert_eq!(apply_mode(0o600, "+r", false, 0o077), Ok(0o600 | 0o400));
    assert_eq!(apply_mode(0o777, "-w", false, 0o002), Ok(0o557));
}

#[test]
fn run_wide_mode_is_applied_after_declared_mode() {
    let m = combine_modes(&Some("u=rw,g=r,o=r".to_string()), &Some("a+x".to_string()));
    assert_eq!(m, Some("u=rw,g=r,o=r,a+x".to_string()));
    assert_eq!(apply_mode(0, m.as_deref().unwrap(), false, 0o022), Ok(0o755));
    assert_eq!(combine_modes(&None, &Some("644".to_string())), Some("644".to_string()));
    assert_eq!(combine_modes(&Some("644".to_string()), &None), Some("644".to_string()));
    assert_eq!(combine_modes(&None, &None), None);
}

#[test]
fn invalid_modes() {
    assert_eq!(apply_mode(0o644, "z+x", false, 0), Err(InvalidMode));
    assert_eq!(apply_mode(0o644, "u+q", false, 0), Err(InvalidMode));
    assert_eq!(apply_mode(0o644, "u", false, 0), Err(InvalidMode));
    assert_eq!(apply_mode(0o644, "", false, 0), Err(InvalidMode));
    assert_eq!(apply_mode(0o644, "u+x,", false, 0), Err(InvalidMode));
    assert_eq!(apply_mode(0o644, "64x", false, 0), Err(InvalidMode));
    assert_eq!(apply_mode(0o644, "=8", false, 0), Err(InvalidMode));
    assert_eq!(apply_mode(0o644, "77777777777", false, 0), Err(InvalidMode));
}

// ---- path templates ----

#[test]
fn absolute_template_unchanged() {
    let r = convert_to_path(&p("/opt/tool/bin"), &dirs(), &p("/usr/local/bin"));
    assert_eq!(r, p("/opt/tool/bin"));
    let r = convert_to_path(&p("/<bindir>/x"), &dirs(), &p("/usr/local/bin"));
    assert_eq!(r, p("/<bindir>/x"));
}

#[test]
fn placeholder_spellings() {
    let d = dirs();
    let fb = p("/fallback");
    assert_eq!(convert_to_path(&p("<bindir>/tool"), &d, &fb), p("/usr/local/bin/tool"));
    assert_eq!(convert_to_path(&p("@libdir@/x/y.so"), &d, &fb), p("/usr/local/lib/x/y.so"));
    assert_eq!(convert_to_path(&p("${sysconfdir}/app.conf"), &d, &fb), p("/usr/local/etc/app.conf"));
    assert_eq!(convert_to_path(&p("${docdir}/README"), &d, &fb), p("/usr/local/share/doc/pkg/README"));
    assert_eq!(convert_to_path(&p("${datarootdir}/x"), &d, &fb), p("/usr/local/share/x"));
    assert_eq!(convert_to_path(&p("<prefix>"), &d, &fb), p("/usr/local"));
    assert_eq!(convert_to_path(&p("@exec_prefix@/z"), &d, &fb), p("/usr/local/z"));
}

#[test]
fn every_root_has_three_spellings() {
    let names = [
        "prefix", "exec_prefix", "bindir", "sbindir", "libdir", "libexecdir", "includedir",
        "datarootdir", "datadir", "mandir", "infodir", "docdir", "localedir", "localstatedir",
        "sharedstatedir", "sysconfdir",
    ];
    for n in names {
        let a = placeholder_root(&format!("<{}>", n)).unwrap();
        let b = placeholder_root(&format!("@{}@", n)).unwrap();
        let c = placeholder_root(&format!("${{{}}}", n)).unwrap();
        assert_eq!(a, b);
        assert_eq!(a, c);
        assert_eq!(a.name(), n);
    }
    assert_eq!(placeholder_root("<docdir>"), Some(RootName::Docdir));
    assert_eq!(placeholder_root("${datarootdir}"), Some(RootName::Datarootdir));
}

#[test]
fn non_placeholders() {
    for s in ["bindir", "<bindir", "bindir>", "@bindir", "{bindir}", "$bindir", "<bogus>", "<>", "x<bindir>", "<bindir>x", "${bindir>", ""] {
        assert_eq!(placeholder_root(s), None, "{}", s);
    }
}

#[test]
fn fallback_prepends_primary() {
    let d = dirs();
    assert_eq!(convert_to_path(&p("share/app/data"), &d, &p("/primary")), p("/primary/share/app/data"));
    assert_eq!(convert_to_path(&p("<bogus>/x"), &d, &p("/primary")), p("/primary/<bogus>/x"));
    assert_eq!(convert_to_path(&p("a/<bindir>"), &d, &p("/primary")), p("/primary/a/<bindir>"));
    assert_eq!(convert_to_path(&p(""), &d, &p("/primary")), p("/primary"));
    assert_eq!(convert_to_path(&p("rel"), &d, &p("")), p("rel"));
}

#[test]
fn destinations_are_absolute() {
    let d = dirs();
    for t in ["x", "<bindir>/y", "@mandir@", "${localedir}/de", "", "./a/../b", "<nothing>/z", "/abs"] {
        let r = convert_to_path(&p(t), &d, &p("/primary"));
        assert!(r.rooted, "{}", t);
    }
}

// ---- roots ----

#[test]
fn install_roots() {
    let d = dirs();
    let mut o = Options::default();
    let h = linux();
    assert_eq!(TargetType::Bin.get_install_root(&d, &o, &h), Some(&d.bindir));
    assert_eq!(TargetType::SBin.get_install_root(&d, &o, &h), Some(&d.sbindir));
    assert_eq!(TargetType::Library.get_install_root(&d, &o, &h), Some(&d.libdir));
    assert_eq!(TargetType::Shared.get_install_root(&d, &o, &h), Some(&d.libdir));
    assert_eq!(TargetType::Shared.get_install_root(&d, &o, &windows()), Some(&d.bindir));
    assert_eq!(TargetType::Libexec.get_install_root(&d, &o, &h), Some(&d.libexecdir));
    assert_eq!(TargetType::Include.get_install_root(&d, &o, &h), Some(&d.includedir));
    assert_eq!(TargetType::Sysconfig.get_install_root(&d, &o, &h), Some(&d.sysconfdir));
    assert_eq!(TargetType::Data.get_install_root(&d, &o, &h), Some(&d.datadir));
    assert_eq!(TargetType::Doc.get_install_root(&d, &o, &h), Some(&d.docdir));
    assert_eq!(TargetType::Man.get_install_root(&d, &o, &h), Some(&d.mandir));
    assert_eq!(TargetType::Info.get_install_root(&d, &o, &h), Some(&d.infodir));
    assert_eq!(TargetType::Run.get_install_root(&d, &o, &h), None);
    o.no_sbin = true;
    o.no_libexec = true;
    o.shared_targets_are_libraries = Some(false);
    assert_eq!(TargetType::SBin.get_install_root(&d, &o, &h), Some(&d.bindir));
    assert_eq!(TargetType::Libexec.get_install_root(&d, &o, &h), Some(&d.bindir));
    assert_eq!(TargetType::Shared.get_install_root(&d, &o, &h), Some(&d.bindir));
    o.shared_targets_are_libraries = Some(true);
    assert_eq!(TargetType::Shared.get_install_root(&d, &o, &windows()), Some(&d.libdir));
}

// ---- planning ----

#[test]
fn bin_scenario_internal_copy() {
    let d = dirs();
    let o = Options::default();
    let h = linux();
    let mut t = Target {
        type_: Some(TargetType::Bin),
        target_file: Some(p("./build/app")),
        installed_path: Some(p("app")),
        ..Target::default()
    };
    let file = t.target_file.clone();
    apply_bin_defaults(&mut t, "app", &o, &h);
    // the defaults give the mode; keep the declared artifact
    t.target_file = file;
    assert_eq!(t.mode.as_deref(), Some("u=rwx,g=rx,o=rx"));
    match plan_target(&d, &t, &o, &h) {
        TargetPlan::Place(pl) => {
            assert_eq!(pl.dest, p("/usr/local/bin/app"));
            assert_eq!(pl.source, Some(p("./build/app")));
            assert!(pl.delegate.is_none());
            assert!(pl.exec_class);
            assert!(!pl.dry_run);
            assert_eq!(pl.mode.as_deref(), Some("u=rwx,g=rx,o=rx"));
            assert_eq!(apply_mode(0o644, pl.mode.as_deref().unwrap(), pl.exec_class, 0o022), Ok(0o755));
            match plan_node(false, Some(10), None, false, true, true, true, &node_strip(false, &pl.strip_program)) {
                NodePlan::Steps(v) => {
                    assert_eq!(v.len(), 2);
                    assert!(matches!(v[0], NodeStep::CopyFile));
                    assert!(matches!(v[1], NodeStep::SetMode));
                }
                other => panic!("{:?}", other),
            }
        }
        other => panic!("{:?}", other),
    }
}

#[test]
fn run_target_exit_codes() {
    assert_eq!(run_outcome(Some(10)), RunOutcome::Skipped);
    assert_eq!(run_exit_status(RunOutcome::Skipped), None);
    assert_eq!(run_outcome(Some(3)), RunOutcome::Failed);
    assert_eq!(run_exit_status(RunOutcome::Failed), Some(1));
    assert_eq!(run_outcome(Some(0)), RunOutcome::Succeeded);
    assert_eq!(run_outcome(Some(20)), RunOutcome::Succeeded);
    assert_eq!(run_exit_status(RunOutcome::Succeeded), None);
    assert_eq!(run_outcome(Some(2)), RunOutcome::Failed);
    assert_eq!(run_outcome(Some(1)), RunOutcome::Failed);
    assert_eq!(run_outcome(None), RunOutcome::Failed);
}

#[test]
fn run_target_plan() {
    let d = dirs();
    let mut o = Options::default();
    o.verbose = true;
    let t = Target {
        type_: Some(TargetType::Run),
        target_file: Some(p("./post_install.sh")),
        install_dir: Some(p("<datadir>/app")),
        ..Target::default()
    };
    match plan_target(&d, &t, &o, &linux()) {
        TargetPlan::RunStep { program, cwd, verbose, dry_run } => {
            assert_eq!(program, p("./post_install.sh"));
            assert_eq!(cwd, Some(p("/usr/local/share/data/app")));
            assert!(verbose);
            assert!(!dry_run);
        }
        other => panic!("{:?}", other),
    }
    let t = Target { type_: Some(TargetType::Run), ..Target::default() };
    assert!(matches!(plan_target(&d, &t, &o, &linux()), TargetPlan::RunWithoutFile));
}

#[test]
fn plan_skips_and_errors() {
    let d = dirs();
    let o = Options::default();
    let h = linux();
    let t = Target { type_: Some(TargetType::Bin), exclude: true, ..Target::default() };
    assert!(matches!(plan_target(&d, &t, &o, &h), TargetPlan::Excluded));
    let t = Target::default();
    assert!(matches!(plan_target(&d, &t, &o, &h), TargetPlan::Nothing));
    let t = Target { type_: Some(TargetType::Data), target_file: Some(p("x")), ..Target::default() };
    assert!(matches!(plan_target(&d, &t, &o, &h), TargetPlan::NoInstalledPath));
    let t = Target { type_: Some(TargetType::Data), installed_path: Some(p("x")), ..Target::default() };
    assert!(matches!(plan_target(&d, &t, &o, &h), TargetPlan::NoSource));
    let t = Target {
        type_: Some(TargetType::Data),
        installed_path: Some(p("x")),
        directory: true,
        ..Target::default()
    };
    assert!(matches!(plan_target(&d, &t, &o, &h), TargetPlan::Place(_)));
}

#[test]
fn privilege_policy() {
    let d = dirs();
    let h = linux();
    let t = Target {
        type_: Some(TargetType::SBin),
        privileged: true,
        installed_path: Some(p("daemon")),
        target_file: Some(p("daemon")),
        ..Target::default()
    };
    let mut o = Options::default();
    assert!(matches!(plan_target(&d, &t, &o, &h), TargetPlan::Place(_)));
    o.user_prefix = true;
    assert!(matches!(plan_target(&d, &t, &o, &h), TargetPlan::Withheld));
    o.install_privileged = Some(true);
    assert!(matches!(plan_target(&d, &t, &o, &h), TargetPlan::Place(_)));
    o.user_prefix = false;
    o.install_privileged = Some(false);
    assert!(matches!(plan_target(&d, &t, &o, &h), TargetPlan::Withheld));
}

#[test]
fn install_dir_override_and_delegate() {
    let d = dirs();
    let h = linux();
    let mut o = Options::default();
    o.install = Some(p("/usr/bin/install"));
    o.strip = Some(p("/usr/bin/strip"));
    o.verbose = true;
    o.mode = Some("a+r".to_string());
    let t = Target {
        type_: Some(TargetType::Bin),
        install_dir: Some(p("<libexecdir>/pkg")),
        installed_path: Some(p("tool")),
        target_file: Some(p("build/tool")),
        mode: Some("755".to_string()),
        installed_aliases: Some(vec![p("/usr/local/bin/t")]),
        ..Target::default()
    };
    match plan_target(&d, &t, &o, &h) {
        TargetPlan::Place(pl) => {
            assert_eq!(pl.dest, p("/usr/local/libexec/pkg/tool"));
            assert_eq!(pl.mode.as_deref(), Some("755,a+r"));
            assert_eq!(pl.strip_program, Some(p("/usr/bin/strip")));
            assert_eq!(pl.aliases, vec![p("/usr/local/bin/t")]);
            let dl = pl.delegate.unwrap();
            assert_eq!(dl.program, p("/usr/bin/install"));
            let words: Vec<String> = dl
                .args
                .iter()
                .map(|a| match a {
                    DelegateArg::Text(s) => s.clone(),
                    DelegateArg::Path(q) => format!("path:{}", q.parts.join("/")),
                    DelegateArg::StripProgram(q) => format!("strip:{}", q.parts.join("/")),
                })
                .collect();
            assert_eq!(
                words,
                vec![
                    "-s", "strip:usr/bin/strip", "-D", "-v", "-m", "755,a+r", "-T",
                    "path:build/tool", "path:usr/local/libexec/pkg/tool",
                ]
            );
        }
        other => panic!("{:?}", other),
    }
    let t2 = Target { strip: Some(false), ..t };
    match plan_target(&d, &t2, &o, &h) {
        TargetPlan::Place(pl) => assert_eq!(pl.strip_program, None),
        other => panic!("{:?}", other),
    }
}

#[test]
fn delegate_directory_arguments() {
    let a = delegate_args(&None, false, false, &None, true, &None, &p("/d"));
    assert_eq!(a.len(), 2);
    assert!(matches!(&a[0], DelegateArg::Text(s) if s == "-d"));
    assert!(matches!(&a[1], DelegateArg::Path(q) if *q == p("/d")));
    let a = delegate_args(&None, true, false, &None, true, &Some(p("src")), &p("/d"));
    assert_eq!(a.len(), 3);
    assert!(matches!(&a[0], DelegateArg::Text(s) if s == "-D"));
    assert!(matches!(&a[1], DelegateArg::Path(q) if *q == p("src")));
    assert!(delegate_succeeded(Some(0)));
    assert!(!delegate_succeeded(Some(1)));
    assert!(!delegate_succeeded(None));
}

#[test]
fn dry_run_is_marked() {
    let mut o = Options::default();
    o.dry_run = true;
    let t = Target {
        type_: Some(TargetType::Doc),
        installed_path: Some(p("README")),
        target_file: Some(p("README")),
        ..Target::default()
    };
    match plan_target(&dirs(), &t, &o, &linux()) {
        TargetPlan::Place(pl) => {
            assert!(pl.dry_run);
            assert_eq!(pl.dest, p("/usr/local/share/doc/pkg/README"));
            assert!(!pl.exec_class);
        }
        other => panic!("{:?}", other),
    }
}

// ---- built-in install ----

#[test]
fn second_install_is_skipped() {
    // first install: destination absent
    assert!(copy_needed(false, Some(100), None));
    // after it the destination is newer or as new
    assert!(!copy_needed(false, Some(100), Some(100)));
    assert!(!copy_needed(false, Some(100), Some(250)));
    assert!(copy_needed(false, Some(300), Some(250)));
    assert!(copy_needed(false, None, Some(250)));
    assert!(matches!(plan_node(false, Some(5), Some(9), false, true, true, false, &None), NodePlan::UpToDate));
}

#[test]
fn force_always_copies() {
    for (s, d) in [(Some(1i128), Some(2i128)), (Some(2), Some(2)), (None, None), (Some(3), Some(1))] {
        assert!(copy_needed(true, s, d));
    }
    assert!(matches!(plan_node(true, Some(5), Some(9), false, true, true, false, &None), NodePlan::Steps(_)));
}

#[test]
fn node_steps() {
    match plan_node(false, None, None, true, true, true, true, &Some(p("/usr/bin/strip"))) {
        NodePlan::Steps(v) => {
            assert_eq!(v.len(), 3);
            assert!(matches!(v[0], NodeStep::CreateDir));
            assert!(matches!(v[1], NodeStep::Descend));
            assert!(matches!(v[2], NodeStep::SetMode));
        }
        other => panic!("{:?}", other),
    }
    match plan_node(false, None, None, true, false, false, false, &None) {
        NodePlan::Steps(v) => assert!(v.is_empty()),
        other => panic!("{:?}", other),
    }
    match plan_node(false, None, None, false, true, true, false, &Some(p("/usr/bin/strip"))) {
        NodePlan::Steps(v) => {
            assert_eq!(v.len(), 2);
            assert!(matches!(v[0], NodeStep::CopyFile));
            assert!(matches!(&v[1], NodeStep::Strip(q) if *q == p("/usr/bin/strip")));
        }
        other => panic!("{:?}", other),
    }
    assert!(matches!(plan_node(false, None, None, false, false, true, true, &None), NodePlan::MissingSource));
    assert_eq!(node_strip(true, &Some(p("/s"))), None);
    assert_eq!(node_strip(false, &Some(p("/s"))), Some(p("/s")));
}

#[test]
fn tree_structure_is_mirrored() {
    // src/{a.txt, sub/{b.txt, deeper/{c.txt}}}
    let src = p("src");
    let dest = p("/usr/local/share/app");
    let entries: [&[&str]; 5] = [
        &["a.txt"],
        &["sub"],
        &["sub", "b.txt"],
        &["sub", "deeper"],
        &["sub", "deeper", "c.txt"],
    ];
    for rel in entries {
        let mut s = src.clone();
        let mut d = dest.clone();
        for name in rel {
            s = entry_dest(&s, name);
            d = entry_dest(&d, name);
        }
        assert_eq!(s, p(&format!("src/{}", rel.join("/"))));
        assert_eq!(d, p(&format!("/usr/local/share/app/{}", rel.join("/"))));
    }
}

// ---- targets from the cargo manifest ----

#[test]
fn names_of_products() {
    assert_eq!(crate_name_of("my-cool-tool"), "my_cool_tool");
    assert_eq!(crate_name_of(""), "");
    assert_eq!(product_name(&None, "a-b"), "a_b");
    assert_eq!(product_name(&Some("x-y".to_string()), "a-b"), "x-y");
    assert_eq!(fresh_lib_type("staticlib"), Some(TargetType::Library));
    assert_eq!(fresh_lib_type("cdylib"), Some(TargetType::Shared));
    assert_eq!(fresh_lib_type("rlib"), None);
    assert_eq!(lib_extension("cdylib", &linux()).as_deref(), Some("so"));
    assert_eq!(lib_extension("dylib", &windows()).as_deref(), Some("dll"));
    assert_eq!(lib_extension("staticlib", &linux()).as_deref(), Some("a"));
    assert_eq!(lib_extension("staticlib", &windows()).as_deref(), Some("lib"));
    assert_eq!(lib_extension("rlib", &linux()).as_deref(), Some("rlib"));
    assert_eq!(lib_extension("proc-macro", &linux()), None);
}

#[test]
fn bin_defaults() {
    let mut o = Options::default();
    let mut t = Target { privileged: true, ..Target::default() };
    apply_bin_defaults(&mut t, "tool", &o, &linux());
    assert_eq!(t.type_, Some(TargetType::SBin));
    assert_eq!(t.mode.as_deref(), Some("u=rwx,g=rx,o=rx"));
    assert_eq!(t.strip, Some(true));
    assert_eq!(t.installed_path, Some(p("tool")));
    assert_eq!(t.target_file, Some(p("target/release/tool")));
    o.debug = true;
    o.out_dir = Some(p("/tmp/out"));
    let mut t = Target { mode: Some("700".to_string()), installed_path: Some(p("bin/tool.old")), ..Target::default() };
    apply_bin_defaults(&mut t, "tool", &o, &windows());
    assert_eq!(t.type_, Some(TargetType::Bin));
    assert_eq!(t.mode.as_deref(), Some("700"));
    assert_eq!(t.installed_path, Some(p("bin/tool.exe")));
    assert_eq!(t.target_file, Some(p("/tmp/out/debug/tool.exe")));
    let mut t = Target { exclude: true, ..Target::default() };
    apply_bin_defaults(&mut t, "tool", &o, &linux());
    assert!(t.mode.is_none() && t.type_.is_none() && t.target_file.is_none());
}

#[test]
fn lib_defaults() {
    let o = Options::default();
    let mut t = Target::default();
    apply_lib_defaults(&mut t, "foo-cdylib", "cdylib", true, &o, &p("/src/foo"), &linux());
    assert_eq!(t.mode.as_deref(), Some("u=rw,g=r,o=r"));
    assert_eq!(t.strip, Some(true));
    assert_eq!(t.prefix.as_deref(), Some("lib"));
    assert_eq!(t.installed_path, Some(p("libfoo-cdylib.so")));
    assert_eq!(t.target_file, Some(p("/src/foo/target/release/libfoo-cdylib.so")));
    let mut t = Target::default();
    apply_lib_defaults(&mut t, "foo", "staticlib", false, &o, &p("/src/foo"), &linux());
    assert_eq!(t.strip, None);
    assert_eq!(t.installed_path, Some(p("libfoo.a")));
    let mut t = Target::default();
    apply_lib_defaults(&mut t, "foo", "rlib", true, &o, &p("/src/foo"), &linux());
    assert_eq!(t.strip, Some(false));
    assert_eq!(t.installed_path, Some(p("libfoo.rlib")));
    let mut t = Target::default();
    apply_lib_defaults(&mut t, "foo", "proc-macro", true, &o, &p("/src/foo"), &linux());
    assert_eq!(t.installed_path, None);
    assert_eq!(t.target_file, None);
}

#[test]
fn auto_targets_from_manifest() {
    let o = Options::default();
    let declared = Target {
        type_: Some(TargetType::Man),
        installed_path: Some(p("man1/tool.1")),
        target_file: Some(p("doc/tool.1")),
        ..Target::default()
    };
    let m = ManifestInfo {
        package: Some(PackageInfo {
            name: "my-tool".to_string(),
            metadata: Some(NativeInstallMetadata { install_targets: vec![("manpage".to_string(), declared)] }),
        }),
        bins: vec![None, Some("helper".to_string())],
        lib: Some(LibProduct { name: None, crate_types: vec!["cdylib".to_string(), "rlib".to_string(), "staticlib".to_string()] }),
    };
    let mut targets: Vec<(String, Target)> = Vec::new();
    get_auto_targets(&m, &mut targets, &o, &p("/src/my-tool"), &linux());
    let names: Vec<&str> = targets.iter().map(|(n, _)| n.as_str()).collect();
    assert_eq!(names, vec!["manpage", "my_tool", "helper", "my_tool-cdylib", "my_tool-staticlib"]);
    assert_eq!(targets[1].1.target_file, Some(p("target/release/my_tool")));
    assert_eq!(targets[3].1.type_, Some(TargetType::Shared));
    assert_eq!(targets[4].1.type_, Some(TargetType::Library));
    assert_eq!(targets[4].1.installed_path, Some(p("libmy_tool-staticlib.a")));

    let none = ManifestInfo { package: None, bins: vec![None], lib: None };
    let mut t2: Vec<(String, Target)> = Vec::new();
    get_auto_targets(&none, &mut t2, &o, &p("/x"), &linux());
    assert!(t2.is_empty());
}

#[test]
fn file_name_extensions() {
    assert_eq!(with_extension("libfoo", "a"), "libfoo.a");
    assert_eq!(with_extension("libfoo.a", "so"), "libfoo.so");
    assert_eq!(with_extension("tool.old", "exe"), "tool.exe");
    assert_eq!(with_extension("tool.tar.gz", "zip"), "tool.tar.zip");
    assert_eq!(with_extension("tool.old", ""), "tool");
    assert_eq!(with_extension(".hidden", "txt"), ".hidden.txt");
    assert_eq!(with_extension("a..", "x"), "a..x");
    assert_eq!(with_extension("...", "x"), "...x");
    assert_eq!(with_extension("", "x"), "");
    assert_eq!(with_extension(".", "x"), ".");
    assert_eq!(with_extension("..", "x"), "..");
    assert_eq!(with_extension("C:", "x"), "C:.x");
    assert_eq!(with_extension("name", "a/b"), "name.a/b");
}

#[test]
fn declared_fields_are_kept() {
    let o = Options::default();
    let declared = Target {
        mode: Some("700".to_string()),
        type_: Some(TargetType::Libexec),
        strip: Some(false),
        installed_path: Some(p("helper-bin")),
        ..Target::default()
    };
    let excluded = Target { exclude: true, ..Target::default() };
    let m = ManifestInfo {
        package: Some(PackageInfo {
            name: "pkg".to_string(),
            metadata: Some(NativeInstallMetadata {
                install_targets: vec![("helper".to_string(), declared), ("skip".to_string(), excluded)],
            }),
        }),
        bins: vec![Some("helper".to_string()), Some("skip".to_string())],
        lib: Some(LibProduct { name: Some("core".to_string()), crate_types: vec!["cdylib".to_string()] }),
    };
    let mut targets: Vec<(String, Target)> = Vec::new();
    get_auto_targets(&m, &mut targets, &o, &p("/src/pkg"), &linux());
    let find = |n: &str| targets.iter().find(|(k, _)| k == n).map(|(_, t)| t.clone()).unwrap();
    let h = find("helper");
    assert_eq!(h.mode.as_deref(), Some("700"));
    assert_eq!(h.type_, Some(TargetType::Libexec));
    assert_eq!(h.strip, Some(false));
    assert_eq!(h.installed_path, Some(p("helper-bin")));
    assert_eq!(h.target_file, Some(p("target/release/helper")));
    let s = find("skip");
    assert!(s.exclude && s.mode.is_none() && s.type_.is_none() && s.target_file.is_none());
    let c = find("core");
    assert_eq!(c.type_, Some(TargetType::Shared));
    assert_eq!(c.mode.as_deref(), Some("u=rw,g=r,o=r"));
    assert_eq!(c.prefix.as_deref(), Some("lib"));
    assert_eq!(c.strip, None);
    assert_eq!(c.installed_path, Some(p("libcore.so")));
    assert_eq!(c.target_file, Some(p("/src/pkg/target/release/libcore.so")));
}

#[test]
fn program_defaults_from_manifest() {
    let o = Options::default();
    let m = ManifestInfo {
        package: Some(PackageInfo { name: "my-app".to_string(), metadata: None }),
        bins: vec![None],
        lib: Some(LibProduct { name: None, crate_types: vec!["rlib".to_string()] }),
    };
    let mut targets: Vec<(String, Target)> = Vec::new();
    get_auto_targets(&m, &mut targets, &o, &p("/src/my-app"), &linux());
    assert_eq!(targets.len(), 1);
    let (n, t) = &targets[0];
    assert_eq!(n, "my_app");
    assert_eq!(t.type_, Some(TargetType::Bin));
    assert_eq!(t.mode.as_deref(), Some("u=rwx,g=rx,o=rx"));
    assert_eq!(t.strip, Some(true));
    assert_eq!(t.installed_path, Some(p("my_app")));
    assert_eq!(t.target_file, Some(p("target/release/my_app")));
}
