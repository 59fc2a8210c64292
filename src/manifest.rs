//! The records that describe what to install.
use vstd::prelude::*;

use crate::autotargets::names_unique;
use crate::dirs::{text_eq, InstallDirs, RootName};
use crate::options::Options;
use crate::path::InstallPath;

verus! {

/// What kind of artifact a target is, which decides its root directory.
#[derive(Debug, Clone, Copy, PartialEq, Eq, Structural)]
pub enum TargetType {
    Bin,
    SBin,
    Library,
    Shared,
    Libexec,
    Include,
    Sysconfig,
    Data,
    Doc,
    Man,
    Info,
    Run,
}

/// Facts about the host that decide names and defaults.
#[derive(Debug, Clone)]
pub struct Platform {
    /// Extension of executables, empty where there is none.
    pub exe_extension: String,
    /// Extension of dynamic libraries (`so`, `dylib`, `dll`).
    pub dll_extension: String,
    /// File-name prefix of dynamic libraries (`lib`, or empty).
    pub dll_prefix: String,
    /// Whether the host is Windows, where static libraries end in `lib`.
    pub windows: bool,
}

impl Platform {
    /// The host's dynamic libraries are DLLs.
    pub open spec fn has_dlls(&self) -> bool {
        self.dll_extension@ == "dll"@
    }
}

/// The root that a target of type `t` goes to, under the overrides: `no_sbin`
/// sends administrative programs to the program root, `no_libexec` sends
/// helper programs there too, and a shared library goes to the library root
/// or, where `shared_libs` is `Some(false)` or unset on a DLL host, to the
/// program root. `Run` has no root.
pub open spec fn root_for(
    t: TargetType,
    no_sbin: bool,
    no_libexec: bool,
    shared_libs: Option<bool>,
    dll_host: bool,
) -> Option<RootName> {
    match t {
        TargetType::Bin => Some(RootName::Bindir),
        TargetType::SBin => Some(if no_sbin { RootName::Bindir } else { RootName::Sbindir }),
        TargetType::Library => Some(RootName::Libdir),
        TargetType::Shared => Some(
            match shared_libs {
                Some(true) => RootName::Libdir,
                Some(false) => RootName::Bindir,
                None => if dll_host { RootName::Bindir } else { RootName::Libdir },
            },
        ),
        TargetType::Libexec => Some(if no_libexec { RootName::Bindir } else { RootName::Libexecdir }),
        TargetType::Include => Some(RootName::Includedir),
        TargetType::Sysconfig => Some(RootName::Sysconfdir),
        TargetType::Data => Some(RootName::Datadir),
        TargetType::Doc => Some(RootName::Docdir),
        TargetType::Man => Some(RootName::Mandir),
        TargetType::Info => Some(RootName::Infodir),
        TargetType::Run => None,
    }
}

impl TargetType {
    /// The root for this type under the settings of `opts` on `host`.
    pub open spec fn spec_root_name(self, opts: &Options, host: &Platform) -> Option<RootName> {
        root_for(self, opts.no_sbin, opts.no_libexec, opts.shared_targets_are_libraries, host.has_dlls())
    }

    /// The directory that targets of this type are installed to; `None` for
    /// `Run` alone.
    pub fn get_install_root<'a>(&self, dirs: &'a InstallDirs, opts: &Options, host: &Platform) -> (r: Option<&'a InstallPath>)
        ensures
            match (r, self.spec_root_name(opts, host)) {
                (Some(p), Some(n)) => *p == dirs.spec_root(n),
                (None, None) => true,
                _ => false,
            },
            r is None <==> *self == TargetType::Run,
    {
        let name = match self {
            TargetType::Bin => RootName::Bindir,
            TargetType::SBin => if opts.no_sbin { RootName::Bindir } else { RootName::Sbindir },
            TargetType::Library => RootName::Libdir,
            TargetType::Shared => match opts.shared_targets_are_libraries {
                Some(true) => RootName::Libdir,
                Some(false) => RootName::Bindir,
                None => if text_eq(host.dll_extension.as_str(), "dll") {
                    RootName::Bindir
                } else {
                    RootName::Libdir
                },
            },
            TargetType::Libexec => if opts.no_libexec { RootName::Bindir } else { RootName::Libexecdir },
            TargetType::Include => RootName::Includedir,
            TargetType::Sysconfig => RootName::Sysconfdir,
            TargetType::Data => RootName::Datadir,
            TargetType::Doc => RootName::Docdir,
            TargetType::Man => RootName::Mandir,
            TargetType::Info => RootName::Infodir,
            TargetType::Run => {
                return None;
            },
        };
        Some(dirs.root(name))
    }

    /// Programs are of an executable class: `X` grants them execute.
    pub fn is_program(&self) -> (r: bool)
        ensures
            r == (*self == TargetType::Bin || *self == TargetType::SBin),
    {
        match self {
            TargetType::Bin | TargetType::SBin => true,
            _ => false,
        }
    }
}

/// One unit to install.
#[derive(Debug, Clone)]
pub struct Target {
    /// What it is; `None` means that nothing is done for it.
    pub type_: Option<TargetType>,
    /// An administrative program, installed only under the privileged policy.
    pub privileged: bool,
    /// A directory tree rather than a single file.
    pub directory: bool,
    /// A directory (itself a template) that replaces the type's root.
    pub install_dir: Option<InstallPath>,
    /// A mode string for the installed artifact.
    pub mode: Option<String>,
    /// Template of the destination, under the root.
    pub installed_path: Option<InstallPath>,
    /// The artifact on disk.
    pub target_file: Option<InstallPath>,
    /// File-name prefix, as for libraries.
    pub prefix: Option<String>,
    /// Symbolic links to create, pointing at the installed artifact.
    pub installed_aliases: Option<Vec<InstallPath>>,
    /// The target is skipped entirely.
    pub exclude: bool,
    /// Whether to strip it.
    pub strip: Option<bool>,
}

impl Target {
    /// Nothing set.
    pub open spec fn is_blank(&self) -> bool {
        &&& self.type_ is None
        &&& !self.privileged
        &&& !self.directory
        &&& self.install_dir is None
        &&& self.mode is None
        &&& self.installed_path is None
        &&& self.target_file is None
        &&& self.prefix is None
        &&& self.installed_aliases is None
        &&& !self.exclude
        &&& self.strip is None
    }
}

impl Default for Target {
    fn default() -> (r: Target)
        ensures
            r.is_blank(),
    {
        Target {
            type_: None,
            privileged: false,
            directory: false,
            install_dir: None,
            mode: None,
            installed_path: None,
            target_file: None,
            prefix: None,
            installed_aliases: None,
            exclude: false,
            strip: None,
        }
    }
}

/// The install section of a package's metadata: targets by name.
#[derive(Debug, Clone)]
pub struct NativeInstallMetadata {
    pub install_targets: Vec<(String, Target)>,
}

impl NativeInstallMetadata {
    /// Each name is declared once.
    pub open spec fn well_formed(&self) -> bool {
        names_unique(self.install_targets@)
    }
}

/// A user configuration: the installation roots.
#[derive(Debug, Clone)]
pub struct Config {
    pub dirs: InstallDirs,
}

} // verus!
