//! The run-wide settings of an installation.
use vstd::prelude::*;

use crate::path::InstallPath;

verus! {

/// Settings that hold for every target of one run.
#[derive(Debug, Clone)]
pub struct Options {
    /// The install program to delegate to, if any.
    pub install: Option<InstallPath>,
    /// The strip program, if any.
    pub strip: Option<InstallPath>,
    pub prefix: Option<InstallPath>,
    pub exec_prefix: Option<InstallPath>,
    pub bindir: Option<InstallPath>,
    pub sbindir: Option<InstallPath>,
    pub libdir: Option<InstallPath>,
    pub libexecdir: Option<InstallPath>,
    pub datarootdir: Option<InstallPath>,
    pub datadir: Option<InstallPath>,
    pub includedir: Option<InstallPath>,
    pub sysconfdir: Option<InstallPath>,
    pub sharedstatedir: Option<InstallPath>,
    pub localstatedir: Option<InstallPath>,
    pub infodir: Option<InstallPath>,
    pub mandir: Option<InstallPath>,
    pub localedir: Option<InstallPath>,
    pub docdir: Option<InstallPath>,
    pub user_prefix: bool,
    pub dry_run: bool,
    pub manifest_dir: Option<InstallPath>,
    pub mode: Option<String>,
    pub no_create_dirs: bool,
    pub verbose: bool,
    pub force: bool,
    pub install_privileged: Option<bool>,
    pub install_target: Option<String>,
    pub no_libexec: bool,
    pub no_sbin: bool,
    pub build: bool,
    pub no_install: bool,
    pub shared_targets_are_libraries: Option<bool>,
    pub out_dir: Option<InstallPath>,
    pub debug: bool,
    pub config: Option<InstallPath>,
}

impl Options {
    /// No program, no override, every flag off.
    pub open spec fn is_blank(&self) -> bool {
        self.install is None
        && self.strip is None
        && self.prefix is None
        && self.exec_prefix is None
        && self.bindir is None
        && self.sbindir is None
        && self.libdir is None
        && self.libexecdir is None
        && self.datarootdir is None
        && self.datadir is None
        && self.includedir is None
        && self.sysconfdir is None
        && self.sharedstatedir is None
        && self.localstatedir is None
        && self.infodir is None
        && self.mandir is None
        && self.localedir is None
        && self.docdir is None
        && !self.user_prefix
        && !self.dry_run
        && self.manifest_dir is None
        && self.mode is None
        && !self.no_create_dirs
        && !self.verbose
        && !self.force
        && self.install_privileged is None
        && self.install_target is None
        && !self.no_libexec
        && !self.no_sbin
        && !self.build
        && !self.no_install
        && self.shared_targets_are_libraries is None
        && self.out_dir is None
        && !self.debug
        && self.config is None
    }
}

impl Default for Options {
    fn default() -> (r: Options)
        ensures
            r.is_blank(),
    {
        Options {
            install: None,
            strip: None,
            prefix: None,
            exec_prefix: None,
            bindir: None,
            sbindir: None,
            libdir: None,
            libexecdir: None,
            datarootdir: None,
            datadir: None,
            includedir: None,
            sysconfdir: None,
            sharedstatedir: None,
            localstatedir: None,
            infodir: None,
            mandir: None,
            localedir: None,
            docdir: None,
            user_prefix: false,
            dry_run: false,
            manifest_dir: None,
            mode: None,
            no_create_dirs: false,
            verbose: false,
            force: false,
            install_privileged: None,
            install_target: None,
            no_libexec: false,
            no_sbin: false,
            build: false,
            no_install: false,
            shared_targets_are_libraries: None,
            out_dir: None,
            debug: false,
            config: None,
        }
    }
}

} // verus!
