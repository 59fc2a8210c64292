//! Targets that follow from a cargo package: its programs and its library,
//! with the defaults that each kind of product gets.
use vstd::prelude::*;

use crate::dirs::text_eq;
use crate::install::{dup_opt, dup_paths, dup_text, effective_mode, opt_text, opt_view, paths_view};
use crate::mode::{lemma_program_mode, mode_result, InvalidMode, ALL_BITS};
use crate::manifest::{NativeInstallMetadata, Platform, Target, TargetType};
use crate::options::Options;
use crate::path::{InstallPath, PathView};

verus! {

/// A library product: its name, if given, and its crate types.
#[derive(Debug, Clone)]
pub struct LibProduct {
    pub name: Option<String>,
    pub crate_types: Vec<String>,
}

/// The package section of a cargo manifest.
#[derive(Debug, Clone)]
pub struct PackageInfo {
    pub name: String,
    pub metadata: Option<NativeInstallMetadata>,
}

/// What the installer reads of a cargo manifest.
#[derive(Debug, Clone)]
pub struct ManifestInfo {
    pub package: Option<PackageInfo>,
    /// The names of the program products, where given.
    pub bins: Vec<Option<String>>,
    pub lib: Option<LibProduct>,
}

/// `i` is the position of the last `.` of `s`.
pub open spec fn is_last_dot(s: Seq<char>, i: int) -> bool {
    0 <= i < s.len() && s[i] == '.' && forall|j: int| i < j < s.len() ==> s[j] != '.'
}

/// A file name without its extension: the part before the last `.`, where
/// that `.` is not the first character; else the whole name.
pub open spec fn file_stem(s: Seq<char>) -> Seq<char> {
    if exists|i: int| 1 <= i && is_last_dot(s, i) {
        s.subrange(0, choose|i: int| 1 <= i && is_last_dot(s, i))
    } else {
        s
    }
}

/// A file name with its extension replaced by `ext`: the stem, then `.` and
/// `ext` where `ext` is not empty. The empty name, `.` and `..` name no file
/// and stay as they are.
pub open spec fn extension_set(name: Seq<char>, ext: Seq<char>) -> Seq<char> {
    if name.len() == 0 || name == seq!['.'] || name == seq!['.', '.'] {
        name
    } else if ext.len() == 0 {
        file_stem(name)
    } else {
        file_stem(name) + seq!['.'] + ext
    }
}

/// The file name `name` with its extension replaced by `ext`.
pub fn with_extension(name: &str, ext: &str) -> (r: String)
    ensures
        r@ == extension_set(name@, ext@),
{
    let n = name.unicode_len();
    if n == 0 {
        return name.to_string();
    }
    if n <= 2 && name.get_char(0) == '.' && (n == 1 || name.get_char(1) == '.') {
        assert(n == 1 ==> name@ =~= seq!['.']);
        assert(n == 2 ==> name@ =~= seq!['.', '.']);
        return name.to_string();
    }
    let mut i: usize = n;
    while i > 0 && name.get_char(i - 1) != '.'
        invariant
            i <= n,
            n == name@.len(),
            forall|j: int| i <= j < n ==> name@[j] != '.',
        decreases i,
    {
        i = i - 1;
    }
    let stem_end: usize = if i >= 2 { i - 1 } else { n };
    proof {
        if i >= 2 {
            assert(is_last_dot(name@, i - 1));
            let k = choose|k: int| 1 <= k && is_last_dot(name@, k);
            if k < i - 1 {
                assert(name@[i - 1] == '.');
            } else if k > i - 1 {
                assert(name@[k] == '.');
            }
            assert(k == i - 1);
        } else {
            assert forall|k: int| 1 <= k implies !is_last_dot(name@, k) by {
                if 1 <= k < n && name@[k] == '.' {
                    assert(k >= i);
                }
            }
            assert(name@.subrange(0, n as int) =~= name@);
        }
        assert(!(name@ == seq!['.']));
        assert(!(name@ == seq!['.', '.']));
    }
    let mut r = name.substring_char(0, stem_end).to_string();
    if ext.unicode_len() > 0 {
        r.append(".");
        r.append(ext);
        proof {
            reveal_strlit(".");
        }
    }
    r
}

/// `s` with each `-` turned into `_`.
pub open spec fn underscored(s: Seq<char>) -> Seq<char> {
    s.map_values(|c: char| if c == '-' { '_' } else { c })
}

pub fn crate_name_of(project: &str) -> (r: String)
    ensures
        r@ == underscored(project@),
{
    let n = project.unicode_len();
    let mut r = String::new();
    let mut i: usize = 0;
    while i < n
        invariant
            i <= n,
            n == project@.len(),
            r@ == underscored(project@.subrange(0, i as int)),
        decreases n - i,
    {
        let c = project.get_char(i);
        let ghost before = r@;
        if c == '-' {
            r.append("_");
            proof { reveal_strlit("_"); }
        } else {
            r.append(project.substring_char(i, i + 1));
        }
        assert(r@ =~= underscored(project@.subrange(0, i + 1)));
        i = i + 1;
    }
    assert(project@.subrange(0, n as int) =~= project@);
    r
}

/// The name of a product: its own, or the package's with `-` as `_`.
pub fn product_name(name: &Option<String>, project: &str) -> (r: String)
    ensures
        r@ == match name {
            Some(n) => n@,
            None => underscored(project@),
        },
{
    match name {
        Some(n) => n.clone(),
        None => crate_name_of(project),
    }
}

/// The path `p` with the extension of its last segment replaced by `ext`;
/// an empty extension changes nothing.
pub open spec fn with_ext(p: PathView, ext: Seq<char>) -> PathView {
    if ext.len() == 0 || p.parts.len() == 0 {
        p
    } else {
        PathView { rooted: p.rooted, parts: p.parts.drop_last().push(extension_set(p.parts.last(), ext)) }
    }
}

fn set_file_extension(p: &mut InstallPath, ext: &str)
    ensures
        final(p)@ == with_ext(old(p)@, ext@),
{
    let n = p.parts.len();
    if ext.unicode_len() == 0 || n == 0 {
        return;
    }
    let renamed = with_extension(p.parts[n - 1].as_str(), ext);
    let ghost before = p.parts@;
    p.parts.set(n - 1, renamed);
    assert(crate::path::seg_views(p.parts@) =~= crate::path::seg_views(before).drop_last().push(
        extension_set(before[n - 1]@, ext@),
    ));
}

fn single(name: &str) -> (r: InstallPath)
    ensures
        !r@.rooted,
        r@.parts == seq![name@],
{
    InstallPath::empty().child(name)
}

pub open spec fn profile_name(debug: bool) -> Seq<char> {
    if debug { "debug"@ } else { "release"@ }
}

fn profile(debug: bool) -> (r: &'static str)
    ensures
        r@ == profile_name(debug),
{
    if debug { "debug" } else { "release" }
}

/// Where the programs were built: the output directory, or `target`,
/// followed by the profile.
pub open spec fn bin_build_dir(opts: Options) -> PathView {
    let base = match opts.out_dir {
        Some(d) => d@,
        None => PathView { rooted: false, parts: seq!["target"@] },
    };
    PathView { rooted: base.rooted, parts: base.parts.push(profile_name(opts.debug)) }
}

/// Where the libraries were built: the output directory itself, or
/// `target` and the profile under the manifest's directory.
pub open spec fn lib_build_dir(opts: Options, manifest_dir: PathView) -> PathView {
    match opts.out_dir {
        Some(d) => d@,
        None => PathView { rooted: manifest_dir.rooted, parts: manifest_dir.parts.push("target"@).push(profile_name(opts.debug)) },
    }
}

pub open spec fn aliases_view(a: Option<Vec<InstallPath>>) -> Option<Seq<PathView>> {
    match a {
        Some(v) => Some(paths_view(v@)),
        None => None,
    }
}

/// `after` is `before` with the defaults of a program target named `name`:
/// mode `u=rwx,g=rx,o=rx`, type `SBin` when privileged and `Bin` otherwise,
/// installed path the name, stripped; the host's executable extension on the
/// installed path; and the built program as its file. Every field that
/// `before` sets is kept, but the file, and an excluded target is left as it
/// is.
pub open spec fn bin_defaults(before: Target, after: Target, name: Seq<char>, opts: Options, host: Platform) -> bool {
    if before.exclude {
        same_target(after, before)
    } else {
        &&& opt_text(after.mode) == if before.mode is None {
            Some("u=rwx,g=rx,o=rx"@)
        } else {
            opt_text(before.mode)
        }
        &&& after.type_ == if before.type_ is None {
            Some(if before.privileged { TargetType::SBin } else { TargetType::Bin })
        } else {
            before.type_
        }
        &&& after.strip == if before.strip is None { Some(true) } else { before.strip }
        &&& opt_view(after.installed_path) == Some(with_ext(
            match before.installed_path {
                Some(p) => p@,
                None => PathView { rooted: false, parts: seq![name] },
            },
            host.exe_extension@,
        ))
        &&& opt_view(after.target_file) == Some(with_ext(
            PathView { rooted: bin_build_dir(opts).rooted, parts: bin_build_dir(opts).parts.push(name) },
            host.exe_extension@,
        ))
        &&& after.privileged == before.privileged
        &&& after.directory == before.directory
        &&& opt_view(after.install_dir) == opt_view(before.install_dir)
        &&& opt_text(after.prefix) == opt_text(before.prefix)
        &&& aliases_view(after.installed_aliases) == aliases_view(before.installed_aliases)
        &&& after.exclude == before.exclude
    }
}

/// A program target without a declared mode, given its defaults and placed
/// without a run-wide mode, is placed with the mode `u=rwx,g=rx,o=rx`,
/// which makes its permission bits `0o755` whatever they were.
pub proof fn lemma_program_default_mode(
    before: Target,
    after: Target,
    name: Seq<char>,
    opts: Options,
    host: Platform,
    bits: u32,
    exec: bool,
    umask: u32,
)
    requires
        bin_defaults(before, after, name, opts, host),
        !before.exclude,
        before.mode is None,
        opts.mode is None,
    ensures
        effective_mode(opt_text(after.mode), opt_text(opts.mode)) == Some("u=rwx,g=rx,o=rx"@),
        mode_result(bits, "u=rwx,g=rx,o=rx"@, exec, umask) == Ok::<u32, InvalidMode>((bits & !ALL_BITS) | 0o755),
{
    lemma_program_mode(bits, exec, umask);
}

/// Gives a program target its defaults (see `bin_defaults`).
pub fn apply_bin_defaults(target: &mut Target, name: &str, opts: &Options, host: &Platform)
    ensures
        bin_defaults(*old(target), *final(target), name@, *opts, *host),
{
    if target.exclude {
        return;
    }
    if target.mode.is_none() {
        target.mode = Some("u=rwx,g=rx,o=rx".to_string());
    }
    if target.type_.is_none() {
        target.type_ = Some(if target.privileged { TargetType::SBin } else { TargetType::Bin });
    }
    let mut installed = match &target.installed_path {
        Some(p) => p.duplicate(),
        None => single(name),
    };
    if target.strip.is_none() {
        target.strip = Some(true);
    }
    set_file_extension(&mut installed, host.exe_extension.as_str());
    target.installed_path = Some(installed);
    let mut file = match &opts.out_dir {
        Some(d) => d.duplicate(),
        None => single("target"),
    };
    file = file.child(profile(opts.debug));
    file = file.child(name);
    proof { reveal_strlit("target"); }
    set_file_extension(&mut file, host.exe_extension.as_str());
    target.target_file = Some(file);
}

/// The extension of a library file of crate type `crate_type`: the host's
/// for dynamic libraries, `lib` or `a` for static ones, `rlib` for Rust
/// libraries; `None` for any other crate type.
pub open spec fn lib_extension_of(crate_type: Seq<char>, host: Platform) -> Option<Seq<char>> {
    if crate_type == "dylib"@ || crate_type == "cdylib"@ {
        Some(host.dll_extension@)
    } else if crate_type == "staticlib"@ {
        Some(if host.windows { "lib"@ } else { "a"@ })
    } else if crate_type == "rlib"@ {
        Some("rlib"@)
    } else {
        None
    }
}

pub fn lib_extension(crate_type: &str, host: &Platform) -> (r: Option<String>)
    ensures
        opt_text(r) == lib_extension_of(crate_type@, *host),
{
    if text_eq(crate_type, "dylib") || text_eq(crate_type, "cdylib") {
        Some(host.dll_extension.clone())
    } else if text_eq(crate_type, "staticlib") {
        Some(if host.windows { "lib".to_string() } else { "a".to_string() })
    } else if text_eq(crate_type, "rlib") {
        Some("rlib".to_string())
    } else {
        None
    }
}

/// The type of a library target that the crate type creates: `Library` for
/// a static library, `Shared` for a C dynamic library; other crate types
/// create no target.
pub open spec fn fresh_lib_type_of(crate_type: Seq<char>) -> Option<TargetType> {
    if crate_type == "staticlib"@ {
        Some(TargetType::Library)
    } else if crate_type == "cdylib"@ {
        Some(TargetType::Shared)
    } else {
        None
    }
}

pub fn fresh_lib_type(crate_type: &str) -> (r: Option<TargetType>)
    ensures
        r == fresh_lib_type_of(crate_type@),
{
    if text_eq(crate_type, "staticlib") {
        Some(TargetType::Library)
    } else if text_eq(crate_type, "cdylib") {
        Some(TargetType::Shared)
    } else {
        None
    }
}

/// `after` is `before` with the defaults of a library target named `name`
/// of crate type `crate_type`: mode `u=rw,g=r,o=r`; where `set_strip`,
/// stripped exactly when it is a C dynamic library; the host's library
/// prefix; installed path the prefix and the name with the crate type's
/// extension; and the built library as its file. Every field that `before`
/// sets is kept; a crate type without an extension leaves both paths unset.
pub open spec fn lib_defaults(
    before: Target,
    after: Target,
    name: Seq<char>,
    crate_type: Seq<char>,
    set_strip: bool,
    opts: Options,
    manifest_dir: PathView,
    host: Platform,
) -> bool {
    &&& opt_text(after.mode) == if before.mode is None {
        Some("u=rw,g=r,o=r"@)
    } else {
        opt_text(before.mode)
    }
    &&& after.strip == if before.strip is None && set_strip {
        Some(crate_type == "cdylib"@)
    } else {
        before.strip
    }
    &&& opt_text(after.prefix) == if before.prefix is None {
        Some(host.dll_prefix@)
    } else {
        opt_text(before.prefix)
    }
    &&& opt_view(after.installed_path) == match (before.installed_path, lib_extension_of(crate_type, host)) {
        (None, Some(ext)) => Some(PathView {
            rooted: false,
            parts: seq![extension_set(opt_text(after.prefix)->0 + name, ext)],
        }),
        _ => opt_view(before.installed_path),
    }
    &&& opt_view(after.target_file) == match (before.target_file, lib_extension_of(crate_type, host)) {
        (None, Some(ext)) => Some(PathView {
            rooted: lib_build_dir(opts, manifest_dir).rooted,
            parts: lib_build_dir(opts, manifest_dir).parts.push(extension_set("lib"@ + name, ext)),
        }),
        _ => opt_view(before.target_file),
    }
    &&& after.type_ == before.type_
    &&& after.privileged == before.privileged
    &&& after.directory == before.directory
    &&& opt_view(after.install_dir) == opt_view(before.install_dir)
    &&& aliases_view(after.installed_aliases) == aliases_view(before.installed_aliases)
    &&& after.exclude == before.exclude
}

/// Gives a library target its defaults (see `lib_defaults`).
pub fn apply_lib_defaults(
    target: &mut Target,
    name: &str,
    crate_type: &str,
    set_strip: bool,
    opts: &Options,
    manifest_dir: &InstallPath,
    host: &Platform,
)
    ensures
        lib_defaults(*old(target), *final(target), name@, crate_type@, set_strip, *opts, manifest_dir@, *host),
{
    if target.mode.is_none() {
        target.mode = Some("u=rw,g=r,o=r".to_string());
    }
    if target.strip.is_none() && set_strip {
        target.strip = Some(text_eq(crate_type, "cdylib"));
    }
    if target.prefix.is_none() {
        target.prefix = Some(host.dll_prefix.clone());
    }
    let ext = lib_extension(crate_type, host);
    if let Some(ext) = &ext {
        if target.installed_path.is_none() {
            let mut fname = match &target.prefix {
                Some(p) => p.clone(),
                None => String::new(),
            };
            fname.append(name);
            target.installed_path = Some(single(with_extension(fname.as_str(), ext.as_str()).as_str()));
        }
        if target.target_file.is_none() {
            let dir = match &opts.out_dir {
                Some(d) => d.duplicate(),
                None => manifest_dir.child("target").child(profile(opts.debug)),
            };
            let mut fname = "lib".to_string();
            fname.append(name);
            target.target_file = Some(dir.child(with_extension(fname.as_str(), ext.as_str()).as_str()));
        }
    }
    proof {
        reveal_strlit("target");
        reveal_strlit("lib");
    }
}

/// `a` and `b` describe the same target.
pub open spec fn same_target(a: Target, b: Target) -> bool {
    &&& a.type_ == b.type_
    &&& a.privileged == b.privileged
    &&& a.directory == b.directory
    &&& opt_view(a.install_dir) == opt_view(b.install_dir)
    &&& opt_text(a.mode) == opt_text(b.mode)
    &&& opt_view(a.installed_path) == opt_view(b.installed_path)
    &&& opt_view(a.target_file) == opt_view(b.target_file)
    &&& opt_text(a.prefix) == opt_text(b.prefix)
    &&& aliases_view(a.installed_aliases) == aliases_view(b.installed_aliases)
    &&& a.exclude == b.exclude
    &&& a.strip == b.strip
}

impl Target {
    /// A copy of this target.
    pub fn duplicate(&self) -> (r: Target)
        ensures
            same_target(r, *self),
    {
        Target {
            type_: self.type_,
            privileged: self.privileged,
            directory: self.directory,
            install_dir: dup_opt(&self.install_dir),
            mode: dup_text(&self.mode),
            installed_path: dup_opt(&self.installed_path),
            target_file: dup_opt(&self.target_file),
            prefix: dup_text(&self.prefix),
            installed_aliases: match &self.installed_aliases {
                Some(v) => Some(dup_paths(v)),
                None => None,
            },
            exclude: self.exclude,
            strip: self.strip,
        }
    }
}

/// Each name occurs once.
pub open spec fn names_unique(v: Seq<(String, Target)>) -> bool {
    forall|i: int, j: int| 0 <= i < j < v.len() ==> v[i].0@ != v[j].0@
}

pub open spec fn has_name(v: Seq<(String, Target)>, n: Seq<char>) -> bool {
    exists|i: int| 0 <= i < v.len() && v[i].0@ == n
}

/// The target named `n`.
pub open spec fn entry(v: Seq<(String, Target)>, n: Seq<char>) -> Target {
    v[choose|i: int| 0 <= i < v.len() && v[i].0@ == n].1
}

/// Every name of `a` is a name of `b`.
pub open spec fn names_kept(a: Seq<(String, Target)>, b: Seq<(String, Target)>) -> bool {
    forall|n: Seq<char>| has_name(a, n) ==> has_name(b, n)
}

/// `b` holds the names of `a` and, of those names other than `n`, the same
/// targets.
pub open spec fn others_kept(a: Seq<(String, Target)>, b: Seq<(String, Target)>, n: Seq<char>) -> bool {
    &&& names_kept(a, b)
    &&& forall|m: Seq<char>| m != n && has_name(a, m) ==> #[trigger] entry(b, m) == entry(a, m)
}

/// A target of type `t` with nothing else set.
pub open spec fn fresh_target(t: TargetType) -> Target {
    Target {
        type_: Some(t),
        privileged: false,
        directory: false,
        install_dir: None,
        mode: None,
        installed_path: None,
        target_file: None,
        prefix: None,
        installed_aliases: None,
        exclude: false,
        strip: None,
    }
}

proof fn lemma_entry_at(v: Seq<(String, Target)>, i: int)
    requires
        names_unique(v),
        0 <= i < v.len(),
    ensures
        entry(v, v[i].0@) == v[i].1,
{
    let k = choose|k: int| 0 <= k < v.len() && v[k].0@ == v[i].0@;
    if k < i {
        assert(v[k].0@ != v[i].0@);
    } else if k > i {
        assert(v[i].0@ != v[k].0@);
    }
}

/// Replacing the target at `i`, under the same name.
proof fn lemma_replace(v: Seq<(String, Target)>, i: int, t: Target)
    requires
        names_unique(v),
        0 <= i < v.len(),
    ensures
        names_unique(v.update(i, (v[i].0, t))),
        forall|n: Seq<char>| has_name(v.update(i, (v[i].0, t)), n) == has_name(v, n),
        others_kept(v, v.update(i, (v[i].0, t)), v[i].0@),
        entry(v.update(i, (v[i].0, t)), v[i].0@) == t,
{
    let w = v.update(i, (v[i].0, t));
    assert forall|n: Seq<char>| has_name(w, n) == has_name(v, n) by {
        if has_name(w, n) {
            let j = choose|j: int| 0 <= j < w.len() && w[j].0@ == n;
            assert(v[j].0@ == n);
        }
        if has_name(v, n) {
            let j = choose|j: int| 0 <= j < v.len() && v[j].0@ == n;
            assert(w[j].0@ == n);
        }
    }
    assert forall|m: Seq<char>| m != v[i].0@ && has_name(v, m) implies #[trigger] entry(w, m) == entry(v, m) by {
        let j = choose|j: int| 0 <= j < v.len() && v[j].0@ == m;
        lemma_entry_at(v, j);
        lemma_entry_at(w, j);
    }
    lemma_entry_at(w, i);
}

/// Adding a target under a new name.
proof fn lemma_push(v: Seq<(String, Target)>, k: String, t: Target)
    requires
        names_unique(v),
        !has_name(v, k@),
    ensures
        names_unique(v.push((k, t))),
        forall|n: Seq<char>| has_name(v.push((k, t)), n) == (has_name(v, n) || n == k@),
        others_kept(v, v.push((k, t)), k@),
        entry(v.push((k, t)), k@) == t,
{
    let w = v.push((k, t));
    assert forall|i: int, j: int| 0 <= i < j < w.len() implies w[i].0@ != w[j].0@ by {
        if j == v.len() {
            assert(v[i].0@ != k@);
        }
    }
    assert forall|n: Seq<char>| has_name(w, n) == (has_name(v, n) || n == k@) by {
        if has_name(w, n) {
            let j = choose|j: int| 0 <= j < w.len() && w[j].0@ == n;
            if j < v.len() {
                assert(v[j].0@ == n);
            }
        }
        if has_name(v, n) {
            let j = choose|j: int| 0 <= j < v.len() && v[j].0@ == n;
            assert(w[j].0@ == n);
        }
        if n == k@ {
            assert(w[v.len() as int].0@ == n);
        }
    }
    assert forall|m: Seq<char>| m != k@ && has_name(v, m) implies #[trigger] entry(w, m) == entry(v, m) by {
        let j = choose|j: int| 0 <= j < v.len() && v[j].0@ == m;
        lemma_entry_at(v, j);
        lemma_entry_at(w, j);
    }
    lemma_entry_at(w, v.len() as int);
}

/// The position of the target named `name`.
pub fn find_target(targets: &Vec<(String, Target)>, name: &str) -> (r: Option<usize>)
    ensures
        match r {
            Some(i) => i < targets@.len() && targets@[i as int].0@ == name@,
            None => !has_name(targets@, name@),
        },
{
    let mut i: usize = 0;
    while i < targets.len()
        invariant
            i <= targets@.len(),
            forall|j: int| 0 <= j < i ==> targets@[j].0@ != name@,
        decreases targets@.len() - i,
    {
        if text_eq(targets[i].0.as_str(), name) {
            return Some(i);
        }
        i = i + 1;
    }
    None
}

/// Sets the target named `name` to `t`, adding the name where it is new.
pub fn insert_target(targets: &mut Vec<(String, Target)>, name: &String, t: Target)
    requires
        names_unique(old(targets)@),
    ensures
        names_unique(final(targets)@),
        forall|n: Seq<char>| has_name(final(targets)@, n) == (has_name(old(targets)@, n) || n == name@),
        others_kept(old(targets)@, final(targets)@, name@),
        entry(final(targets)@, name@) == t,
{
    match find_target(targets, name.as_str()) {
        Some(i) => {
            let ghost before = targets@;
            let (k, _) = targets.remove(i);
            targets.insert(i, (k, t));
            assert(targets@ =~= before.update(i as int, (before[i as int].0, t)));
            proof {
                lemma_replace(before, i as int, t);
            }
        },
        None => {
            let ghost before = targets@;
            let k = name.clone();
            targets.push((k, t));
            proof {
                lemma_push(before, k, t);
            }
        },
    }
}

/// The position of the target named `name`, adding one of type `fresh`
/// where there is none and `fresh` is given.
fn entry_index(targets: &mut Vec<(String, Target)>, name: &String, fresh: Option<TargetType>) -> (r: Option<usize>)
    requires
        names_unique(old(targets)@),
    ensures
        names_unique(final(targets)@),
        match r {
            Some(i) => i < final(targets)@.len() && final(targets)@[i as int].0@ == name@,
            None => final(targets)@ == old(targets)@ && fresh is None && !has_name(old(targets)@, name@),
        },
        has_name(old(targets)@, name@) || fresh is Some ==> r is Some,
        forall|n: Seq<char>| has_name(final(targets)@, n) == (has_name(old(targets)@, n) || (n == name@ && fresh is Some)),
        others_kept(old(targets)@, final(targets)@, name@),
        has_name(old(targets)@, name@) ==> final(targets)@ == old(targets)@,
        !has_name(old(targets)@, name@) && fresh is Some ==> entry(final(targets)@, name@) == fresh_target(fresh->0),
{
    match find_target(targets, name.as_str()) {
        Some(i) => Some(i),
        None => match fresh {
            Some(ty) => {
                let ghost before = targets@;
                let mut t = Target::default();
                t.type_ = Some(ty);
                assert(t == fresh_target(ty));
                let k = name.clone();
                targets.push((k, t));
                proof {
                    lemma_push(before, k, t);
                }
                Some(targets.len() - 1)
            },
            None => None,
        },
    }
}

/// Gives the target named `name` the defaults of a program, adding a `Bin`
/// target under that name where there is none.
fn add_bin_target(targets: &mut Vec<(String, Target)>, name: &String, opts: &Options, host: &Platform)
    requires
        names_unique(old(targets)@),
    ensures
        names_unique(final(targets)@),
        forall|n: Seq<char>| has_name(final(targets)@, n) == (has_name(old(targets)@, n) || n == name@),
        others_kept(old(targets)@, final(targets)@, name@),
        bin_defaults(
            if has_name(old(targets)@, name@) { entry(old(targets)@, name@) } else { fresh_target(TargetType::Bin) },
            entry(final(targets)@, name@),
            name@,
            *opts,
            *host,
        ),
{
    let ghost start = targets@;
    let i = entry_index(targets, name, Some(TargetType::Bin)).unwrap();
    let ghost mid = targets@;
    proof {
        lemma_entry_at(mid, i as int);
    }
    let (k, mut t) = targets.remove(i);
    apply_bin_defaults(&mut t, name.as_str(), opts, host);
    targets.insert(i, (k, t));
    assert(targets@ =~= mid.update(i as int, (mid[i as int].0, t)));
    proof {
        lemma_replace(mid, i as int, t);
    }
}

/// Gives the target named `name` the defaults of a library of crate type
/// `crate_type`, adding a target under that name where there is none and
/// the crate type makes an installable library.
fn add_lib_target(
    targets: &mut Vec<(String, Target)>,
    name: &String,
    crate_type: &str,
    set_strip: bool,
    opts: &Options,
    manifest_dir: &InstallPath,
    host: &Platform,
)
    requires
        names_unique(old(targets)@),
    ensures
        names_unique(final(targets)@),
        forall|n: Seq<char>| has_name(final(targets)@, n) == (has_name(old(targets)@, n)
            || (n == name@ && fresh_lib_type_of(crate_type@) is Some)),
        others_kept(old(targets)@, final(targets)@, name@),
        has_name(old(targets)@, name@) || fresh_lib_type_of(crate_type@) is Some ==> lib_defaults(
            if has_name(old(targets)@, name@) {
                entry(old(targets)@, name@)
            } else {
                fresh_target(fresh_lib_type_of(crate_type@)->0)
            },
            entry(final(targets)@, name@),
            name@,
            crate_type@,
            set_strip,
            *opts,
            manifest_dir@,
            *host,
        ),
{
    match entry_index(targets, name, fresh_lib_type(crate_type)) {
        Some(i) => {
            let ghost mid = targets@;
            proof {
                lemma_entry_at(mid, i as int);
            }
            let (k, mut t) = targets.remove(i);
            apply_lib_defaults(&mut t, name.as_str(), crate_type, set_strip, opts, manifest_dir, host);
            targets.insert(i, (k, t));
            assert(targets@ =~= mid.update(i as int, (mid[i as int].0, t)));
            proof {
                lemma_replace(mid, i as int, t);
            }
        },
        None => {},
    }
}

/// The name of the target of a program product: its own, or the package's
/// with `-` as `_`.
pub open spec fn bin_target_name(bin: Option<String>, project: Seq<char>) -> Seq<char> {
    match bin {
        Some(n) => n@,
        None => underscored(project),
    }
}

/// The name of the target of a library product for one of its crate types:
/// the product's name alone where it has one crate type, else followed by
/// `-` and the crate type.
pub open spec fn lib_target_name(lib: LibProduct, project: Seq<char>, crate_type: Seq<char>) -> Seq<char> {
    let base = bin_target_name(lib.name, project);
    if lib.crate_types@.len() == 1 {
        base
    } else {
        base + "-"@ + crate_type
    }
}

pub open spec fn bin_name_at(m: ManifestInfo, project: Seq<char>, i: int) -> Seq<char> {
    bin_target_name(m.bins@[i], project)
}

pub open spec fn lib_name_at(lib: LibProduct, project: Seq<char>, c: int) -> Seq<char> {
    lib_target_name(lib, project, lib.crate_types@[c]@)
}

/// One of the first `b` program products is named `n`.
pub open spec fn bins_upto(m: ManifestInfo, project: Seq<char>, b: int, n: Seq<char>) -> bool {
    exists|j: int| 0 <= j < b && #[trigger] bin_name_at(m, project, j) == n
}

/// One of the first `c` crate types of the library is named `n`; where
/// `fresh_only`, one that makes an installable library.
pub open spec fn libs_upto(lib: LibProduct, project: Seq<char>, c: int, n: Seq<char>, fresh_only: bool) -> bool {
    exists|d: int|
        0 <= d < c && #[trigger] lib_name_at(lib, project, d) == n && (!fresh_only
            || fresh_lib_type_of(lib.crate_types@[d]@) is Some)
}

pub open spec fn bin_named(m: ManifestInfo, project: Seq<char>, n: Seq<char>) -> bool {
    bins_upto(m, project, m.bins@.len() as int, n)
}

pub open spec fn lib_named(m: ManifestInfo, project: Seq<char>, n: Seq<char>, fresh_only: bool) -> bool {
    match m.lib {
        Some(lib) => libs_upto(lib, project, lib.crate_types@.len() as int, n, fresh_only),
        None => false,
    }
}

/// `n` names a target that the metadata declares.
pub open spec fn declared_name(metadata: Option<NativeInstallMetadata>, n: Seq<char>) -> bool {
    match metadata {
        Some(md) => has_name(md.install_targets@, n),
        None => false,
    }
}

/// The target named `n` before the products are looked at: the declared
/// one, else the one that was there.
pub open spec fn start_entry(old: Seq<(String, Target)>, metadata: Option<NativeInstallMetadata>, n: Seq<char>) -> Option<Target> {
    if declared_name(metadata, n) {
        Some(entry(metadata->0.install_targets@, n))
    } else if has_name(old, n) {
        Some(entry(old, n))
    } else {
        None
    }
}

/// The target named `n` in `v`, or a fresh one of type `t`.
pub open spec fn or_fresh(v: Seq<(String, Target)>, n: Seq<char>, t: TargetType) -> Target {
    if has_name(v, n) {
        entry(v, n)
    } else {
        fresh_target(t)
    }
}

/// The program product at `i` is the only product with its name.
pub open spec fn sole_bin(m: ManifestInfo, project: Seq<char>, i: int) -> bool {
    &&& forall|j: int| 0 <= j < m.bins@.len() && j != i ==> #[trigger] bin_name_at(m, project, j) != bin_name_at(m, project, i)
    &&& !lib_named(m, project, bin_name_at(m, project, i), false)
}

/// The crate type at `c` is the only product with its name.
pub open spec fn sole_lib(m: ManifestInfo, lib: LibProduct, project: Seq<char>, c: int) -> bool {
    &&& forall|d: int| 0 <= d < lib.crate_types@.len() && d != c ==> #[trigger] lib_name_at(lib, project, d) != lib_name_at(lib, project, c)
    &&& !bin_named(m, project, lib_name_at(lib, project, c))
}

impl ManifestInfo {
    /// The declared targets have distinct names.
    pub open spec fn well_formed(&self) -> bool {
        self.package matches Some(pkg) ==> (pkg.metadata matches Some(md) ==> md.well_formed())
    }
}

proof fn lemma_bin_defaults_same(x: Target, y: Target, f: Target, name: Seq<char>, opts: Options, host: Platform)
    requires
        same_target(x, y),
        bin_defaults(x, f, name, opts, host),
    ensures
        bin_defaults(y, f, name, opts, host),
{
}

proof fn lemma_lib_defaults_same(
    x: Target,
    y: Target,
    f: Target,
    name: Seq<char>,
    crate_type: Seq<char>,
    set_strip: bool,
    opts: Options,
    manifest_dir: PathView,
    host: Platform,
)
    requires
        same_target(x, y),
        lib_defaults(x, f, name, crate_type, set_strip, opts, manifest_dir, host),
    ensures
        lib_defaults(y, f, name, crate_type, set_strip, opts, manifest_dir, host),
{
}

/// Collects the targets that the manifest declares and those that its
/// products imply: first the declared ones, then one per program product
/// and one per library crate type that makes an installable library, each
/// given the defaults of its kind. A manifest without a package adds
/// nothing. Where several products share a name, the defaults are applied
/// once for each.
pub fn get_auto_targets(
    manifest: &ManifestInfo,
    targets: &mut Vec<(String, Target)>,
    opts: &Options,
    manifest_dir: &InstallPath,
    host: &Platform,
)
    requires
        names_unique(old(targets)@),
        manifest.well_formed(),
    ensures
        names_unique(final(targets)@),
        names_kept(old(targets)@, final(targets)@),
        manifest.package is None ==> final(targets)@ == old(targets)@,
        manifest.package matches Some(pkg) ==> {
            let project = pkg.name@;
            let start = |n: Seq<char>| start_entry(old(targets)@, pkg.metadata, n);
            &&& forall|n: Seq<char>| #[trigger] has_name(final(targets)@, n) == (start(n) is Some
                || bin_named(*manifest, project, n) || lib_named(*manifest, project, n, true))
            &&& forall|n: Seq<char>|
                !bin_named(*manifest, project, n) && !lib_named(*manifest, project, n, false) && start(n) is Some
                    ==> same_target(#[trigger] entry(final(targets)@, n), start(n)->0)
            &&& forall|i: int| 0 <= i < manifest.bins@.len() && sole_bin(*manifest, project, i) ==> bin_defaults(
                match start(bin_name_at(*manifest, project, i)) {
                    Some(t) => t,
                    None => fresh_target(TargetType::Bin),
                },
                entry(final(targets)@, #[trigger] bin_name_at(*manifest, project, i)),
                bin_name_at(*manifest, project, i),
                *opts,
                *host,
            )
            &&& manifest.lib matches Some(lib) ==> forall|c: int|
                0 <= c < lib.crate_types@.len() && sole_lib(*manifest, lib, project, c)
                    && (start(lib_name_at(lib, project, c)) is Some || fresh_lib_type_of(lib.crate_types@[c]@) is Some)
                    ==> lib_defaults(
                    match start(lib_name_at(lib, project, c)) {
                        Some(t) => t,
                        None => fresh_target(fresh_lib_type_of(lib.crate_types@[c]@)->0),
                    },
                    entry(final(targets)@, #[trigger] lib_name_at(lib, project, c)),
                    lib_name_at(lib, project, c),
                    lib.crate_types@[c]@,
                    lib.crate_types@.len() != 1,
                    *opts,
                    manifest_dir@,
                    *host,
                )
        },
{
    let pkg = match &manifest.package {
        Some(p) => p,
        None => {
            return;
        },
    };
    let ghost start = targets@;
    let ghost project = pkg.name@;
    // The declared targets.
    if let Some(md) = &pkg.metadata {
        let mut i: usize = 0;
        while i < md.install_targets.len()
            invariant
                i <= md.install_targets@.len(),
                names_unique(md.install_targets@),
                names_unique(targets@),
                forall|n: Seq<char>| #[trigger] has_name(targets@, n) == (has_name(start, n) || has_name(md.install_targets@.subrange(0, i as int), n)),
                forall|n: Seq<char>| has_name(md.install_targets@.subrange(0, i as int), n)
                    ==> same_target(#[trigger] entry(targets@, n), entry(md.install_targets@, n)),
                forall|n: Seq<char>| !has_name(md.install_targets@.subrange(0, i as int), n) && has_name(start, n)
                    ==> #[trigger] entry(targets@, n) == entry(start, n),
            decreases md.install_targets@.len() - i,
        {
            let ghost before = targets@;
            let ghost mds = md.install_targets@;
            let ghost k = mds[i as int].0@;
            let t = md.install_targets[i].1.duplicate();
            insert_target(targets, &md.install_targets[i].0, t);
            proof {
                lemma_entry_at(mds, i as int);
                let pre = mds.subrange(0, i as int);
                let pre1 = mds.subrange(0, i + 1);
                assert forall|n: Seq<char>| has_name(pre1, n) == (has_name(pre, n) || n == k) by {
                    if has_name(pre1, n) {
                        let j = choose|j: int| 0 <= j < pre1.len() && #[trigger] pre1[j].0@ == n;
                        if j < i {
                            assert(pre[j].0@ == n);
                        }
                    }
                    if has_name(pre, n) {
                        let j = choose|j: int| 0 <= j < pre.len() && #[trigger] pre[j].0@ == n;
                        assert(pre1[j].0@ == n);
                    }
                    if n == k {
                        assert(pre1[i as int].0@ == n);
                    }
                }
                assert(!has_name(pre, k)) by {
                    if has_name(pre, k) {
                        let j = choose|j: int| 0 <= j < pre.len() && #[trigger] pre[j].0@ == k;
                        assert(mds[j].0@ == k);
                    }
                }
                assert forall|n: Seq<char>| has_name(pre1, n)
                    implies same_target(#[trigger] entry(targets@, n), entry(mds, n)) by {
                    if n != k {
                        assert(has_name(before, n));
                    }
                }
                assert forall|n: Seq<char>| !has_name(pre1, n) && has_name(start, n)
                    implies #[trigger] entry(targets@, n) == entry(start, n) by {
                    assert(has_name(before, n));
                }
            }
            i = i + 1;
        }
        assert(md.install_targets@.subrange(0, md.install_targets@.len() as int) =~= md.install_targets@);
    }
    let ghost after_md = targets@;
    assert(forall|n: Seq<char>| #[trigger] has_name(after_md, n) == (start_entry(start, pkg.metadata, n) is Some));
    assert(forall|n: Seq<char>| #[trigger] has_name(after_md, n) ==> same_target(entry(after_md, n), start_entry(start, pkg.metadata, n)->0));
    // The program products.
    let mut b: usize = 0;
    while b < manifest.bins.len()
        invariant
            b <= manifest.bins@.len(),
            names_unique(targets@),
            pkg.name@ == project,
            manifest.package == Some(*pkg),
            forall|n: Seq<char>| #[trigger] has_name(targets@, n) == (has_name(after_md, n) || bins_upto(*manifest, project, b as int, n)),
            forall|n: Seq<char>| !bins_upto(*manifest, project, b as int, n) && has_name(after_md, n)
                ==> #[trigger] entry(targets@, n) == entry(after_md, n),
            forall|i: int| 0 <= i < b && sole_bin(*manifest, project, i) ==> bin_defaults(
                or_fresh(after_md, bin_name_at(*manifest, project, i), TargetType::Bin),
                entry(targets@, #[trigger] bin_name_at(*manifest, project, i)),
                bin_name_at(*manifest, project, i),
                *opts,
                *host,
            ),
        decreases manifest.bins@.len() - b,
    {
        let name = product_name(&manifest.bins[b], pkg.name.as_str());
        let ghost before = targets@;
        let ghost nb = bin_name_at(*manifest, project, b as int);
        assert(name@ == nb);
        add_bin_target(targets, &name, opts, host);
        proof {
            assert forall|n: Seq<char>| bins_upto(*manifest, project, b + 1, n) == (bins_upto(*manifest, project, b as int, n) || n == nb) by {
                if n == nb {
                    assert(bin_name_at(*manifest, project, b as int) == n);
                }
            }
            assert forall|i: int| 0 <= i < b + 1 && sole_bin(*manifest, project, i) implies bin_defaults(
                or_fresh(after_md, bin_name_at(*manifest, project, i), TargetType::Bin),
                entry(targets@, #[trigger] bin_name_at(*manifest, project, i)),
                bin_name_at(*manifest, project, i),
                *opts,
                *host,
            ) by {
                if i < b {
                    assert(bin_name_at(*manifest, project, i) != nb);
                    assert(has_name(before, bin_name_at(*manifest, project, i)));
                } else {
                    if bins_upto(*manifest, project, b as int, nb) {
                        let j = choose|j: int| 0 <= j < b && #[trigger] bin_name_at(*manifest, project, j) == nb;
                        assert(bin_name_at(*manifest, project, j) != bin_name_at(*manifest, project, i));
                    }
                }
            }
            assert forall|n: Seq<char>| !bins_upto(*manifest, project, b + 1, n) && has_name(after_md, n)
                implies #[trigger] entry(targets@, n) == entry(after_md, n) by {
                assert(has_name(before, n));
            }
        }
        b = b + 1;
    }
    let ghost after_bins = targets@;
    // The library product.
    if let Some(lib) = &manifest.lib {
        let ghost set_strip = lib.crate_types@.len() != 1;
        let mut c: usize = 0;
        while c < lib.crate_types.len()
            invariant
                c <= lib.crate_types@.len(),
                set_strip == (lib.crate_types@.len() != 1),
                names_unique(targets@),
                pkg.name@ == project,
                manifest.lib == Some(*lib),
                forall|n: Seq<char>| #[trigger] has_name(targets@, n) == (has_name(after_bins, n) || libs_upto(*lib, project, c as int, n, true)),
                forall|n: Seq<char>| !libs_upto(*lib, project, c as int, n, false) && has_name(after_bins, n)
                    ==> #[trigger] entry(targets@, n) == entry(after_bins, n),
                forall|d: int|
                    0 <= d < c && sole_lib(*manifest, *lib, project, d) && (has_name(after_bins, lib_name_at(*lib, project, d))
                        || fresh_lib_type_of(lib.crate_types@[d]@) is Some) ==> lib_defaults(
                        if has_name(after_bins, lib_name_at(*lib, project, d)) {
                            entry(after_bins, lib_name_at(*lib, project, d))
                        } else {
                            fresh_target(fresh_lib_type_of(lib.crate_types@[d]@)->0)
                        },
                        entry(targets@, #[trigger] lib_name_at(*lib, project, d)),
                        lib_name_at(*lib, project, d),
                        lib.crate_types@[d]@,
                        set_strip,
                        *opts,
                        manifest_dir@,
                        *host,
                    ),
            decreases lib.crate_types@.len() - c,
        {
            let mut name = product_name(&lib.name, pkg.name.as_str());
            if lib.crate_types.len() != 1 {
                name.append("-");
                name.append(lib.crate_types[c].as_str());
                proof {
                    reveal_strlit("-");
                }
            }
            let ghost nc = lib_name_at(*lib, project, c as int);
            assert(name@ == nc);
            let ghost before = targets@;
            add_lib_target(targets, &name, lib.crate_types[c].as_str(), lib.crate_types.len() != 1, opts, manifest_dir, host);
            proof {
                assert forall|n: Seq<char>, f: bool| libs_upto(*lib, project, c + 1, n, f) == (libs_upto(*lib, project, c as int, n, f)
                    || (n == nc && (!f || fresh_lib_type_of(lib.crate_types@[c as int]@) is Some))) by {
                    if n == nc && (!f || fresh_lib_type_of(lib.crate_types@[c as int]@) is Some) {
                        assert(lib_name_at(*lib, project, c as int) == n);
                    }
                }
                assert forall|d: int|
                    0 <= d < c + 1 && sole_lib(*manifest, *lib, project, d) && (has_name(after_bins, lib_name_at(*lib, project, d))
                        || fresh_lib_type_of(lib.crate_types@[d]@) is Some) implies lib_defaults(
                        if has_name(after_bins, lib_name_at(*lib, project, d)) {
                            entry(after_bins, lib_name_at(*lib, project, d))
                        } else {
                            fresh_target(fresh_lib_type_of(lib.crate_types@[d]@)->0)
                        },
                        entry(targets@, #[trigger] lib_name_at(*lib, project, d)),
                        lib_name_at(*lib, project, d),
                        lib.crate_types@[d]@,
                        set_strip,
                        *opts,
                        manifest_dir@,
                        *host,
                    ) by {
                    if d < c {
                        assert(lib_name_at(*lib, project, d) != nc);
                        assert(has_name(before, lib_name_at(*lib, project, d)));
                    } else {
                        if libs_upto(*lib, project, c as int, nc, false) {
                            let j = choose|j: int| 0 <= j < c && #[trigger] lib_name_at(*lib, project, j) == nc && (!false
                                || fresh_lib_type_of(lib.crate_types@[j]@) is Some);
                            assert(lib_name_at(*lib, project, j) != lib_name_at(*lib, project, d));
                        }
                    }
                }
                assert forall|n: Seq<char>| !libs_upto(*lib, project, c + 1, n, false) && has_name(after_bins, n)
                    implies #[trigger] entry(targets@, n) == entry(after_bins, n) by {
                    assert(has_name(before, n));
                }
            }
            c = c + 1;
        }
    }
    proof {
        let fin = targets@;
        let m = *manifest;
        assert forall|n: Seq<char>| !lib_named(m, project, n, false) implies #[trigger] has_name(fin, n) == has_name(after_bins, n)
            && (has_name(after_bins, n) ==> entry(fin, n) == entry(after_bins, n)) by {
            if let Some(lib) = m.lib {
                if has_name(fin, n) && !has_name(after_bins, n) {
                    let d = choose|d: int| 0 <= d < lib.crate_types@.len() && #[trigger] lib_name_at(lib, project, d) == n && (!true
                        || fresh_lib_type_of(lib.crate_types@[d]@) is Some);
                    assert(libs_upto(lib, project, lib.crate_types@.len() as int, n, false));
                }
            }
        }
        assert forall|i: int| 0 <= i < m.bins@.len() && sole_bin(m, project, i) implies bin_defaults(
            match start_entry(start, pkg.metadata, bin_name_at(m, project, i)) {
                Some(t) => t,
                None => fresh_target(TargetType::Bin),
            },
            entry(fin, #[trigger] bin_name_at(m, project, i)),
            bin_name_at(m, project, i),
            *opts,
            *host,
        ) by {
            let n = bin_name_at(m, project, i);
            assert(has_name(after_bins, n));
            assert(entry(fin, n) == entry(after_bins, n));
            if has_name(after_md, n) {
                lemma_bin_defaults_same(entry(after_md, n), start_entry(start, pkg.metadata, n)->0, entry(fin, n), n, *opts, *host);
            }
        }
        if let Some(lib) = m.lib {
            assert forall|c: int|
                0 <= c < lib.crate_types@.len() && sole_lib(m, lib, project, c)
                    && (start_entry(start, pkg.metadata, lib_name_at(lib, project, c)) is Some
                        || fresh_lib_type_of(lib.crate_types@[c]@) is Some) implies lib_defaults(
                    match start_entry(start, pkg.metadata, lib_name_at(lib, project, c)) {
                        Some(t) => t,
                        None => fresh_target(fresh_lib_type_of(lib.crate_types@[c]@)->0),
                    },
                    entry(fin, #[trigger] lib_name_at(lib, project, c)),
                    lib_name_at(lib, project, c),
                    lib.crate_types@[c]@,
                    lib.crate_types@.len() != 1,
                    *opts,
                    manifest_dir@,
                    *host,
                ) by {
                let n = lib_name_at(lib, project, c);
                assert(!bins_upto(m, project, m.bins@.len() as int, n));
                assert(has_name(after_bins, n) == has_name(after_md, n));
                if has_name(after_md, n) {
                    assert(entry(after_bins, n) == entry(after_md, n));
                    lemma_lib_defaults_same(
                        entry(after_md, n),
                        start_entry(start, pkg.metadata, n)->0,
                        entry(fin, n),
                        n,
                        lib.crate_types@[c]@,
                        lib.crate_types@.len() != 1,
                        *opts,
                        manifest_dir@,
                        *host,
                    );
                }
            }
        }
    }
}

} // verus!
