//! The decisions of an installation: what to do for a target, how to call
//! the install program, how to read exit statuses, and the steps of the
//! built-in copy. Whoever drives the installation performs the steps.
use vstd::prelude::*;

use crate::dirs::InstallDirs;
use crate::manifest::{Platform, Target, TargetType};
use crate::options::Options;
use crate::path::{InstallPath, PathView};
use crate::resolve::{convert_to_path, joined, resolved};

verus! {

pub open spec fn opt_view(o: Option<InstallPath>) -> Option<PathView> {
    match o {
        Some(p) => Some(p@),
        None => None,
    }
}

pub open spec fn opt_text(o: Option<String>) -> Option<Seq<char>> {
    match o {
        Some(s) => Some(s@),
        None => None,
    }
}

pub open spec fn paths_view(v: Seq<InstallPath>) -> Seq<PathView> {
    v.map_values(|p: InstallPath| p@)
}

/// The empty relative path, against which an `install_dir` is resolved.
pub open spec fn no_path() -> PathView {
    PathView { rooted: false, parts: Seq::empty() }
}

/// One argument of the install program.
#[derive(Debug, Clone)]
pub enum DelegateArg {
    /// A flag or a value, as written.
    Text(String),
    /// A path.
    Path(InstallPath),
    /// `--strip-program=` followed by the path of the strip program.
    StripProgram(InstallPath),
}

pub enum ArgView {
    Text(Seq<char>),
    Path(PathView),
    StripProgram(PathView),
}

impl View for DelegateArg {
    type V = ArgView;

    open spec fn view(&self) -> ArgView {
        match self {
            DelegateArg::Text(s) => ArgView::Text(s@),
            DelegateArg::Path(p) => ArgView::Path(p@),
            DelegateArg::StripProgram(p) => ArgView::StripProgram(p@),
        }
    }
}

pub open spec fn args_view(v: Seq<DelegateArg>) -> Seq<ArgView> {
    v.map_values(|a: DelegateArg| a@)
}

/// The arguments of the install program: strip through the strip program,
/// create parent directories, be verbose, set the mode, then either a source
/// directory (or `-d` to create an empty one) or `-T` and a source file, and
/// last the destination.
pub open spec fn install_args(
    strip_program: Option<PathView>,
    create_dirs: bool,
    verbose: bool,
    mode: Option<Seq<char>>,
    directory: bool,
    source: Option<PathView>,
    dest: PathView,
) -> Seq<ArgView> {
    (match strip_program {
        Some(p) => seq![ArgView::Text("-s"@), ArgView::StripProgram(p)],
        None => Seq::empty(),
    }) + (if create_dirs {
        seq![ArgView::Text("-D"@)]
    } else {
        Seq::empty()
    }) + (if verbose {
        seq![ArgView::Text("-v"@)]
    } else {
        Seq::empty()
    }) + (match mode {
        Some(m) => seq![ArgView::Text("-m"@), ArgView::Text(m)],
        None => Seq::empty(),
    }) + (match source {
        Some(s) => if directory {
            seq![ArgView::Path(s)]
        } else {
            seq![ArgView::Text("-T"@), ArgView::Path(s)]
        },
        None => seq![ArgView::Text("-d"@)],
    }) + seq![ArgView::Path(dest)]
}

/// An install program and its arguments.
#[derive(Debug, Clone)]
pub struct Delegate {
    pub program: InstallPath,
    pub args: Vec<DelegateArg>,
}

/// How to place one artifact.
#[derive(Debug, Clone)]
pub struct Placement {
    /// The artifact, or `None` for an empty directory.
    pub source: Option<InstallPath>,
    /// Where it goes.
    pub dest: InstallPath,
    /// It is a directory tree.
    pub directory: bool,
    /// Only announce it.
    pub dry_run: bool,
    /// The mode string to apply, if any.
    pub mode: Option<String>,
    /// `X` in the mode grants execute.
    pub exec_class: bool,
    /// The strip program, where this artifact is to be stripped.
    pub strip_program: Option<InstallPath>,
    /// The install program to hand the work to; `None` for the built-in copy.
    pub delegate: Option<Delegate>,
    /// Links to create once it is in place.
    pub aliases: Vec<InstallPath>,
}

/// What to do for one target.
#[derive(Debug, Clone)]
pub enum TargetPlan {
    /// The target has no type.
    Nothing,
    /// The target is excluded.
    Excluded,
    /// A run target without a file to run; this ends the whole run.
    RunWithoutFile,
    /// Run `program`, in `cwd` if given, with the roots in its environment.
    RunStep { program: InstallPath, cwd: Option<InstallPath>, verbose: bool, dry_run: bool },
    /// The target has no installed path; it fails and the others go on.
    NoInstalledPath,
    /// A privileged target that the privilege policy holds back.
    Withheld,
    /// A file target without a file; it fails and the others go on.
    NoSource,
    /// Place the artifact.
    Place(Placement),
}

/// The policy holds privileged targets back: explicitly, or by default
/// under a user-local prefix.
pub open spec fn withheld(privileged: bool, install_privileged: Option<bool>, user_prefix: bool) -> bool {
    privileged && (install_privileged == Some(false) || (install_privileged is None && user_prefix))
}

/// The target's mode followed by the run-wide mode, joined by a comma.
pub open spec fn effective_mode(target_mode: Option<Seq<char>>, run_mode: Option<Seq<char>>) -> Option<Seq<char>> {
    match (target_mode, run_mode) {
        (Some(a), Some(b)) => Some(a + seq![','] + b),
        (Some(a), None) => Some(a),
        (None, Some(b)) => Some(b),
        (None, None) => None,
    }
}

/// The strip program, when one is configured and the target does not refuse
/// stripping (it is stripped unless it says otherwise).
pub open spec fn strip_for(strip: Option<PathView>, preference: Option<bool>) -> Option<PathView> {
    if preference == Some(false) {
        None
    } else {
        strip
    }
}

/// The directory under which the target's installed path is resolved.
pub open spec fn base_dir(target: Target, dirs: InstallDirs, root: PathView) -> PathView {
    match target.install_dir {
        Some(d) => resolved(d@, dirs, no_path()),
        None => root,
    }
}

/// `p` places the artifact of `target`, of type `t`, as the settings say.
pub open spec fn placement_ok(p: Placement, target: Target, dirs: InstallDirs, opts: Options, host: Platform, t: TargetType, installed: InstallPath) -> bool {
    let root = dirs.spec_root(t.spec_root_name(&opts, &host)->0)@;
    let dest = resolved(installed@, dirs, base_dir(target, dirs, root));
    let mode = effective_mode(opt_text(target.mode), opt_text(opts.mode));
    let strip = strip_for(opt_view(opts.strip), target.strip);
    &&& p.dest@ == dest
    &&& opt_view(p.source) == opt_view(target.target_file)
    &&& p.directory == target.directory
    &&& p.dry_run == opts.dry_run
    &&& opt_text(p.mode) == mode
    &&& p.exec_class == (t == TargetType::Bin || t == TargetType::SBin || target.directory)
    &&& opt_view(p.strip_program) == strip
    &&& paths_view(p.aliases@) == match target.installed_aliases {
        Some(v) => paths_view(v@),
        None => Seq::empty(),
    }
    &&& match (opts.install, p.delegate) {
        (None, None) => true,
        (Some(prog), Some(d)) => d.program@ == prog@ && args_view(d.args@) == install_args(
            strip,
            !opts.no_create_dirs,
            opts.verbose,
            mode,
            target.directory,
            opt_view(target.target_file),
            dest,
        ),
        _ => false,
    }
}

/// `r` is what is to be done for `target`: nothing for an excluded or
/// untyped target; for a run target, running its file; for any other, after
/// the checks for an installed path, the privilege policy and a source,
/// placing it.
pub open spec fn plan_ok(r: TargetPlan, target: Target, dirs: InstallDirs, opts: Options, host: Platform) -> bool {
    if target.exclude {
        r is Excluded
    } else {
        match target.type_ {
            None => r is Nothing,
            Some(TargetType::Run) => match (target.target_file, r) {
                (None, TargetPlan::RunWithoutFile) => true,
                (Some(f), TargetPlan::RunStep { program, cwd, verbose, dry_run }) => {
                    &&& program@ == f@
                    &&& opt_view(cwd) == match target.install_dir {
                        Some(d) => Some(resolved(d@, dirs, no_path())),
                        None => None,
                    }
                    &&& verbose == opts.verbose
                    &&& dry_run == opts.dry_run
                },
                _ => false,
            },
            Some(t) => match target.installed_path {
                None => r is NoInstalledPath,
                Some(installed) => if withheld(target.privileged, opts.install_privileged, opts.user_prefix) {
                    r is Withheld
                } else if !target.directory && target.target_file is None {
                    r is NoSource
                } else {
                    match r {
                        TargetPlan::Place(p) => placement_ok(p, target, dirs, opts, host, t, installed),
                        _ => false,
                    }
                },
            },
        }
    }
}

pub(crate) fn dup_opt(o: &Option<InstallPath>) -> (r: Option<InstallPath>)
    ensures
        opt_view(r) == opt_view(*o),
{
    match o {
        Some(p) => Some(p.duplicate()),
        None => None,
    }
}

pub(crate) fn dup_text(o: &Option<String>) -> (r: Option<String>)
    ensures
        opt_text(r) == opt_text(*o),
{
    match o {
        Some(s) => Some(s.clone()),
        None => None,
    }
}

pub(crate) fn dup_paths(v: &Vec<InstallPath>) -> (r: Vec<InstallPath>)
    ensures
        paths_view(r@) == paths_view(v@),
{
    let mut r: Vec<InstallPath> = Vec::new();
    let mut i: usize = 0;
    while i < v.len()
        invariant
            i <= v@.len(),
            paths_view(r@) == paths_view(v@).subrange(0, i as int),
        decreases v@.len() - i,
    {
        let ghost before = r@;
        r.push(v[i].duplicate());
        assert(paths_view(r@) =~= paths_view(before).push(v@[i as int]@));
        assert(paths_view(v@).subrange(0, i + 1) =~= paths_view(v@).subrange(0, i as int).push(
            v@[i as int]@,
        ));
        i = i + 1;
    }
    assert(paths_view(v@).subrange(0, v@.len() as int) =~= paths_view(v@));
    r
}

/// Joins the target's mode and the run-wide mode.
pub fn combine_modes(target_mode: &Option<String>, run_mode: &Option<String>) -> (r: Option<String>)
    ensures
        opt_text(r) == effective_mode(opt_text(*target_mode), opt_text(*run_mode)),
{
    match (target_mode, run_mode) {
        (Some(a), Some(b)) => {
            let mut m = a.clone();
            m.append(",");
            m.append(b.as_str());
            proof {
                reveal_strlit(",");
            }
            assert(m@ =~= a@ + seq![','] + b@);
            Some(m)
        },
        (Some(a), None) => Some(a.clone()),
        (None, Some(b)) => Some(b.clone()),
        (None, None) => None,
    }
}

fn text(s: &str) -> (r: DelegateArg)
    ensures
        r@ == ArgView::Text(s@),
{
    DelegateArg::Text(s.to_string())
}

/// The arguments for the install program.
pub fn delegate_args(
    strip_program: &Option<InstallPath>,
    create_dirs: bool,
    verbose: bool,
    mode: &Option<String>,
    directory: bool,
    source: &Option<InstallPath>,
    dest: &InstallPath,
) -> (r: Vec<DelegateArg>)
    ensures
        args_view(r@) == install_args(
            opt_view(*strip_program),
            create_dirs,
            verbose,
            opt_text(*mode),
            directory,
            opt_view(*source),
            dest@,
        ),
{
    let mut r: Vec<DelegateArg> = Vec::new();
    let ghost mut expect: Seq<ArgView> = Seq::empty();
    match strip_program {
        Some(p) => {
            r.push(text("-s"));
            r.push(DelegateArg::StripProgram(p.duplicate()));
            proof { expect = seq![ArgView::Text("-s"@), ArgView::StripProgram(p@)]; }
        },
        None => {},
    }
    assert(args_view(r@) =~= expect);
    if create_dirs {
        r.push(text("-D"));
    }
    proof {
        expect = expect + if create_dirs { seq![ArgView::Text("-D"@)] } else { Seq::empty() };
    }
    assert(args_view(r@) =~= expect);
    if verbose {
        r.push(text("-v"));
    }
    proof {
        expect = expect + if verbose { seq![ArgView::Text("-v"@)] } else { Seq::empty() };
    }
    assert(args_view(r@) =~= expect);
    match mode {
        Some(m) => {
            r.push(text("-m"));
            r.push(DelegateArg::Text(m.clone()));
            proof { expect = expect + seq![ArgView::Text("-m"@), ArgView::Text(m@)]; }
        },
        None => {
            proof { expect = expect + Seq::empty(); }
        },
    }
    assert(args_view(r@) =~= expect);
    match source {
        Some(s) => {
            if directory {
                r.push(DelegateArg::Path(s.duplicate()));
                proof { expect = expect + seq![ArgView::Path(s@)]; }
            } else {
                r.push(text("-T"));
                r.push(DelegateArg::Path(s.duplicate()));
                proof { expect = expect + seq![ArgView::Text("-T"@), ArgView::Path(s@)]; }
            }
        },
        None => {
            r.push(text("-d"));
            proof { expect = expect + seq![ArgView::Text("-d"@)]; }
        },
    }
    assert(args_view(r@) =~= expect);
    r.push(DelegateArg::Path(dest.duplicate()));
    proof { expect = expect + seq![ArgView::Path(dest@)]; }
    assert(args_view(r@) =~= expect);
    r
}

/// Decides what to do for `target`: see `plan_ok`.
pub fn plan_target(dirs: &InstallDirs, target: &Target, opts: &Options, host: &Platform) -> (r: TargetPlan)
    ensures
        plan_ok(r, *target, *dirs, *opts, *host),
{
    if target.exclude {
        return TargetPlan::Excluded;
    }
    let t = match target.type_ {
        None => {
            return TargetPlan::Nothing;
        },
        Some(t) => t,
    };
    let install_dir = match &target.install_dir {
        Some(d) => Some(convert_to_path(d, dirs, &InstallPath::empty())),
        None => None,
    };
    if t == TargetType::Run {
        return match &target.target_file {
            None => TargetPlan::RunWithoutFile,
            Some(f) => TargetPlan::RunStep {
                program: f.duplicate(),
                cwd: install_dir,
                verbose: opts.verbose,
                dry_run: opts.dry_run,
            },
        };
    }
    let installed = match &target.installed_path {
        None => {
            return TargetPlan::NoInstalledPath;
        },
        Some(p) => p,
    };
    let root = match t.get_install_root(dirs, opts, host) {
        Some(root) => root,
        None => {
            return TargetPlan::Nothing;
        },
    };
    let dest = match &install_dir {
        Some(d) => convert_to_path(installed, dirs, d),
        None => convert_to_path(installed, dirs, root),
    };
    if target.privileged {
        match opts.install_privileged {
            Some(false) => {
                return TargetPlan::Withheld;
            },
            None => {
                if opts.user_prefix {
                    return TargetPlan::Withheld;
                }
            },
            Some(true) => {},
        }
    }
    if !target.directory && target.target_file.is_none() {
        return TargetPlan::NoSource;
    }
    let mode = combine_modes(&target.mode, &opts.mode);
    let strip_program = if target.strip == Some(false) {
        None
    } else {
        dup_opt(&opts.strip)
    };
    let delegate = match &opts.install {
        Some(prog) => Some(
            Delegate {
                program: prog.duplicate(),
                args: delegate_args(
                    &strip_program,
                    !opts.no_create_dirs,
                    opts.verbose,
                    &mode,
                    target.directory,
                    &target.target_file,
                    &dest,
                ),
            },
        ),
        None => None,
    };
    let aliases = match &target.installed_aliases {
        Some(v) => dup_paths(v),
        None => Vec::new(),
    };
    assert(paths_view(Seq::<InstallPath>::empty()) =~= Seq::<PathView>::empty());
    TargetPlan::Place(
        Placement {
            source: dup_opt(&target.target_file),
            dest,
            directory: target.directory,
            dry_run: opts.dry_run,
            mode,
            exec_class: t.is_program() || target.directory,
            strip_program,
            delegate,
            aliases,
        },
    )
}

/// How a run target's process ended, as the run sees it.
#[derive(Debug, Clone, Copy, PartialEq, Eq, Structural)]
pub enum RunOutcome {
    /// Exit code 0 or 20.
    Succeeded,
    /// Exit code 10: the step was skipped; a notice, not an error.
    Skipped,
    /// Any other code, or no code (a signal): the whole run is aborted.
    Failed,
}

pub open spec fn run_outcome_of(code: Option<i32>) -> RunOutcome {
    match code {
        Some(0) | Some(20) => RunOutcome::Succeeded,
        Some(10) => RunOutcome::Skipped,
        _ => RunOutcome::Failed,
    }
}

/// Reads the exit status of a run target: `code` is its exit code, or
/// `None` where it did not exit normally.
pub fn run_outcome(code: Option<i32>) -> (r: RunOutcome)
    ensures
        r == run_outcome_of(code),
{
    match code {
        Some(0) | Some(20) => RunOutcome::Succeeded,
        Some(10) => RunOutcome::Skipped,
        _ => RunOutcome::Failed,
    }
}

/// The exit status of the whole run once a run target has ended so.
pub fn run_exit_status(outcome: RunOutcome) -> (r: Option<i32>)
    ensures
        outcome == RunOutcome::Failed ==> r == Some(1i32),
        outcome != RunOutcome::Failed ==> r is None,
{
    match outcome {
        RunOutcome::Failed => Some(1),
        _ => None,
    }
}

/// The install program placed the artifact: it exited with code 0. Any
/// other code, or a signal, fails this target alone.
pub fn delegate_succeeded(code: Option<i32>) -> (r: bool)
    ensures
        r == (code == Some(0i32)),
{
    match code {
        Some(0) => true,
        _ => false,
    }
}

/// The built-in copy has to place the artifact: unless forced, a destination
/// that exists and is not older than the source is left alone. Times are in
/// any one unit from any one origin.
pub open spec fn needs_copy(force: bool, source_time: Option<i128>, dest_time: Option<i128>) -> bool {
    force || match (source_time, dest_time) {
        (Some(s), Some(d)) => d < s,
        _ => true,
    }
}

pub fn copy_needed(force: bool, source_time: Option<i128>, dest_time: Option<i128>) -> (r: bool)
    ensures
        r == needs_copy(force, source_time, dest_time),
{
    if force {
        return true;
    }
    match (source_time, dest_time) {
        (Some(s), Some(d)) => d < s,
        _ => true,
    }
}

/// Once an install has left the destination no older than the source, a
/// second install without force does nothing.
pub proof fn lemma_install_idempotent(source_time: i128, dest_time: i128)
    requires
        dest_time >= source_time,
    ensures
        !needs_copy(false, Some(source_time), Some(dest_time)),
{
}

/// With force, the copy is made whatever the times are.
pub proof fn lemma_force_copies(source_time: Option<i128>, dest_time: Option<i128>)
    ensures
        needs_copy(true, source_time, dest_time),
{
}

/// One step of the built-in install of one node of a tree.
#[derive(Debug, Clone)]
pub enum NodeStep {
    /// Create the destination directory and its parents.
    CreateDir,
    /// Install each entry of the source directory at the destination
    /// followed by the entry's name.
    Descend,
    /// Copy the source file's bytes to the destination.
    CopyFile,
    /// Apply the mode string to the destination.
    SetMode,
    /// Run this strip program on the destination.
    Strip(InstallPath),
}

pub enum StepView {
    CreateDir,
    Descend,
    CopyFile,
    SetMode,
    Strip(PathView),
}

impl View for NodeStep {
    type V = StepView;

    open spec fn view(&self) -> StepView {
        match self {
            NodeStep::CreateDir => StepView::CreateDir,
            NodeStep::Descend => StepView::Descend,
            NodeStep::CopyFile => StepView::CopyFile,
            NodeStep::SetMode => StepView::SetMode,
            NodeStep::Strip(p) => StepView::Strip(p@),
        }
    }
}

/// What the built-in install does at one node.
#[derive(Debug, Clone)]
pub enum NodePlan {
    /// The destination is up to date.
    UpToDate,
    /// A file node without a source.
    MissingSource,
    /// These steps, in order; the first that fails ends the node.
    Steps(Vec<NodeStep>),
}

/// The steps at a node: a directory is created (unless creation is turned
/// off) and, where it has a source, descended into; a file is copied and,
/// where a strip program is given, stripped; either gets the mode, where
/// there is one, once its content is in place.
pub open spec fn node_steps(directory: bool, has_source: bool, create_dirs: bool, has_mode: bool, strip: Option<PathView>) -> Seq<StepView> {
    if directory {
        (if create_dirs { seq![StepView::CreateDir] } else { Seq::empty() })
            + (if has_source { seq![StepView::Descend] } else { Seq::empty() })
            + (if has_mode { seq![StepView::SetMode] } else { Seq::empty() })
    } else {
        seq![StepView::CopyFile]
            + (if has_mode { seq![StepView::SetMode] } else { Seq::empty() })
            + match strip {
                Some(p) => seq![StepView::Strip(p)],
                None => Seq::empty(),
            }
    }
}

pub open spec fn steps_view(v: Seq<NodeStep>) -> Seq<StepView> {
    v.map_values(|s: NodeStep| s@)
}

/// Plans the built-in install of one node: `directory` says whether the
/// node is a directory, `has_source` whether it has a source on disk, and
/// the times are the modification times of source and destination, where
/// they exist.
pub fn plan_node(
    force: bool,
    source_time: Option<i128>,
    dest_time: Option<i128>,
    directory: bool,
    has_source: bool,
    create_dirs: bool,
    has_mode: bool,
    strip: &Option<InstallPath>,
) -> (r: NodePlan)
    ensures
        !needs_copy(force, source_time, dest_time) ==> r is UpToDate,
        needs_copy(force, source_time, dest_time) && !directory && !has_source ==> r is MissingSource,
        needs_copy(force, source_time, dest_time) && (directory || has_source) ==> match r {
            NodePlan::Steps(v) => steps_view(v@) == node_steps(directory, has_source, create_dirs, has_mode, opt_view(*strip)),
            _ => false,
        },
{
    if !copy_needed(force, source_time, dest_time) {
        return NodePlan::UpToDate;
    }
    let mut v: Vec<NodeStep> = Vec::new();
    let ghost mut expect: Seq<StepView> = Seq::empty();
    if directory {
        if create_dirs {
            v.push(NodeStep::CreateDir);
        }
        if has_source {
            v.push(NodeStep::Descend);
        }
        if has_mode {
            v.push(NodeStep::SetMode);
        }
        proof {
            expect = (if create_dirs { seq![StepView::CreateDir] } else { Seq::empty() })
                + (if has_source { seq![StepView::Descend] } else { Seq::empty() })
                + (if has_mode { seq![StepView::SetMode] } else { Seq::empty() });
        }
    } else {
        if !has_source {
            return NodePlan::MissingSource;
        }
        v.push(NodeStep::CopyFile);
        if has_mode {
            v.push(NodeStep::SetMode);
        }
        match strip {
            Some(p) => v.push(NodeStep::Strip(p.duplicate())),
            None => {},
        }
        proof {
            expect = seq![StepView::CopyFile]
                + (if has_mode { seq![StepView::SetMode] } else { Seq::empty() })
                + match strip {
                    Some(p) => seq![StepView::Strip(p@)],
                    None => Seq::empty(),
                };
        }
    }
    assert(steps_view(v@) =~= expect);
    NodePlan::Steps(v)
}

/// The strip program for a node of the built-in install: directories are
/// never stripped.
pub fn node_strip(directory: bool, strip_program: &Option<InstallPath>) -> (r: Option<InstallPath>)
    ensures
        directory ==> r is None,
        !directory ==> opt_view(r) == opt_view(*strip_program),
{
    if directory {
        None
    } else {
        dup_opt(strip_program)
    }
}

/// The destination of an entry named `name` of a directory installed at
/// `dest`.
pub fn entry_dest(dest: &InstallPath, name: &str) -> (r: InstallPath)
    ensures
        r@ == entry_view(dest@, name@),
{
    dest.child(name)
}

pub open spec fn entry_view(dir: PathView, name: Seq<char>) -> PathView {
    PathView { rooted: dir.rooted, parts: dir.parts.push(name) }
}

/// The path reached from `dir` by descending through the entries named in
/// `rel`, one level at a time.
pub open spec fn descend(dir: PathView, rel: Seq<Seq<char>>) -> PathView
    decreases rel.len(),
{
    if rel.len() == 0 {
        dir
    } else {
        descend(entry_view(dir, rel[0]), rel.drop_first())
    }
}

/// Descending from a directory through the entry names `rel`, one
/// `entry_dest` at a time, reaches that directory followed by `rel`; so an
/// entry at `source` followed by `rel` is installed at `dest` followed by
/// the same names, at every depth.
pub proof fn lemma_tree_mirrored(source: PathView, dest: PathView, rel: Seq<Seq<char>>)
    ensures
        descend(source, rel) == joined(source, rel),
        descend(dest, rel) == joined(dest, rel),
{
    lemma_descend_joins(source, rel);
    lemma_descend_joins(dest, rel);
}

proof fn lemma_descend_joins(dir: PathView, rel: Seq<Seq<char>>)
    ensures
        descend(dir, rel) == joined(dir, rel),
    decreases rel.len(),
{
    if rel.len() == 0 {
        assert(dir.parts + rel =~= dir.parts);
    } else {
        lemma_descend_joins(entry_view(dir, rel[0]), rel.drop_first());
        assert(dir.parts.push(rel[0]) + rel.drop_first() =~= dir.parts + rel);
    }
}

} // verus!
