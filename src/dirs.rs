//! The named installation directory roots and their placeholder spellings.
use vstd::prelude::*;

use crate::path::InstallPath;

verus! {

/// The name of one installation directory root.
#[derive(Debug, Clone, Copy, PartialEq, Eq, Structural)]
pub enum RootName {
    Prefix,
    ExecPrefix,
    Bindir,
    Sbindir,
    Libdir,
    Libexecdir,
    Includedir,
    Datarootdir,
    Datadir,
    Mandir,
    Infodir,
    Docdir,
    Localedir,
    Localstatedir,
    Sharedstatedir,
    Sysconfdir,
}

impl RootName {
    /// The root's name as it is written in placeholders and in the
    /// environment.
    pub open spec fn spec_name(self) -> Seq<char> {
        match self {
            RootName::Prefix => "prefix"@,
            RootName::ExecPrefix => "exec_prefix"@,
            RootName::Bindir => "bindir"@,
            RootName::Sbindir => "sbindir"@,
            RootName::Libdir => "libdir"@,
            RootName::Libexecdir => "libexecdir"@,
            RootName::Includedir => "includedir"@,
            RootName::Datarootdir => "datarootdir"@,
            RootName::Datadir => "datadir"@,
            RootName::Mandir => "mandir"@,
            RootName::Infodir => "infodir"@,
            RootName::Docdir => "docdir"@,
            RootName::Localedir => "localedir"@,
            RootName::Localstatedir => "localstatedir"@,
            RootName::Sharedstatedir => "sharedstatedir"@,
            RootName::Sysconfdir => "sysconfdir"@,
        }
    }

    pub fn name(&self) -> (r: &'static str)
        ensures
            r@ == self.spec_name(),
    {
        match self {
            RootName::Prefix => "prefix",
            RootName::ExecPrefix => "exec_prefix",
            RootName::Bindir => "bindir",
            RootName::Sbindir => "sbindir",
            RootName::Libdir => "libdir",
            RootName::Libexecdir => "libexecdir",
            RootName::Includedir => "includedir",
            RootName::Datarootdir => "datarootdir",
            RootName::Datadir => "datadir",
            RootName::Mandir => "mandir",
            RootName::Infodir => "infodir",
            RootName::Docdir => "docdir",
            RootName::Localedir => "localedir",
            RootName::Localstatedir => "localstatedir",
            RootName::Sharedstatedir => "sharedstatedir",
            RootName::Sysconfdir => "sysconfdir",
        }
    }
}

/// The three ways of writing a root's name as a placeholder.
#[derive(Debug, Clone, Copy, PartialEq, Eq, Structural)]
pub enum Spelling {
    /// `<name>`
    Angle,
    /// `@name@`
    At,
    /// `${name}`
    Brace,
}

pub open spec fn spelled(name: Seq<char>, k: Spelling) -> Seq<char> {
    match k {
        Spelling::Angle => seq!['<'] + name + seq!['>'],
        Spelling::At => seq!['@'] + name + seq!['@'],
        Spelling::Brace => seq!['$', '{'] + name + seq!['}'],
    }
}

/// `seg` is one of the spellings of root `r`.
pub open spec fn spells(seg: Seq<char>, r: RootName) -> bool {
    seg == spelled(r.spec_name(), Spelling::Angle) || seg == spelled(r.spec_name(), Spelling::At)
        || seg == spelled(r.spec_name(), Spelling::Brace)
}

/// The set of installation directory roots.
#[derive(Debug, Clone)]
pub struct InstallDirs {
    pub prefix: InstallPath,
    pub exec_prefix: InstallPath,
    pub bindir: InstallPath,
    pub sbindir: InstallPath,
    pub libdir: InstallPath,
    pub libexecdir: InstallPath,
    pub includedir: InstallPath,
    pub datarootdir: InstallPath,
    pub datadir: InstallPath,
    pub mandir: InstallPath,
    pub infodir: InstallPath,
    pub docdir: InstallPath,
    pub localedir: InstallPath,
    pub localstatedir: InstallPath,
    pub sharedstatedir: InstallPath,
    pub sysconfdir: InstallPath,
}

impl InstallDirs {
    pub open spec fn spec_root(&self, r: RootName) -> InstallPath {
        match r {
            RootName::Prefix => self.prefix,
            RootName::ExecPrefix => self.exec_prefix,
            RootName::Bindir => self.bindir,
            RootName::Sbindir => self.sbindir,
            RootName::Libdir => self.libdir,
            RootName::Libexecdir => self.libexecdir,
            RootName::Includedir => self.includedir,
            RootName::Datarootdir => self.datarootdir,
            RootName::Datadir => self.datadir,
            RootName::Mandir => self.mandir,
            RootName::Infodir => self.infodir,
            RootName::Docdir => self.docdir,
            RootName::Localedir => self.localedir,
            RootName::Localstatedir => self.localstatedir,
            RootName::Sharedstatedir => self.sharedstatedir,
            RootName::Sysconfdir => self.sysconfdir,
        }
    }

    /// The directory of root `r`.
    pub fn root(&self, r: RootName) -> (p: &InstallPath)
        ensures
            *p == self.spec_root(r),
    {
        match r {
            RootName::Prefix => &self.prefix,
            RootName::ExecPrefix => &self.exec_prefix,
            RootName::Bindir => &self.bindir,
            RootName::Sbindir => &self.sbindir,
            RootName::Libdir => &self.libdir,
            RootName::Libexecdir => &self.libexecdir,
            RootName::Includedir => &self.includedir,
            RootName::Datarootdir => &self.datarootdir,
            RootName::Datadir => &self.datadir,
            RootName::Mandir => &self.mandir,
            RootName::Infodir => &self.infodir,
            RootName::Docdir => &self.docdir,
            RootName::Localedir => &self.localedir,
            RootName::Localstatedir => &self.localstatedir,
            RootName::Sharedstatedir => &self.sharedstatedir,
            RootName::Sysconfdir => &self.sysconfdir,
        }
    }
}

/// Compares `s[start..end]` with `lit`.
fn text_is(s: &str, start: usize, end: usize, lit: &str) -> (r: bool)
    requires
        start <= end <= s@.len(),
    ensures
        r == (s@.subrange(start as int, end as int) == lit@),
{
    let n = lit.unicode_len();
    if end - start != n {
        return false;
    }
    let mut i: usize = 0;
    while i < n
        invariant
            i <= n,
            n == lit@.len(),
            end - start == n,
            end <= s@.len(),
            forall|j: int| 0 <= j < i ==> s@[start + j] == lit@[j],
        decreases n - i,
    {
        if s.get_char(start + i) != lit.get_char(i) {
            assert(s@.subrange(start as int, end as int)[i as int] != lit@[i as int]);
            return false;
        }
        i = i + 1;
    }
    assert(s@.subrange(start as int, end as int) =~= lit@);
    true
}

/// Compares two strings.
pub(crate) fn text_eq(a: &str, b: &str) -> (r: bool)
    ensures
        r == (a@ == b@),
{
    let n = a.unicode_len();
    let r = text_is(a, 0, n, b);
    assert(a@.subrange(0, n as int) =~= a@);
    r
}

/// The root whose name is `s[start..end]`.
fn root_named(s: &str, start: usize, end: usize) -> (r: Option<RootName>)
    requires
        start <= end <= s@.len(),
    ensures
        match r {
            Some(x) => x.spec_name() == s@.subrange(start as int, end as int),
            None => forall|x: RootName| #[trigger] x.spec_name() != s@.subrange(start as int, end as int),
        },
{
    if text_is(s, start, end, RootName::Prefix.name()) {
        return Some(RootName::Prefix);
    }
    if text_is(s, start, end, RootName::ExecPrefix.name()) {
        return Some(RootName::ExecPrefix);
    }
    if text_is(s, start, end, RootName::Bindir.name()) {
        return Some(RootName::Bindir);
    }
    if text_is(s, start, end, RootName::Sbindir.name()) {
        return Some(RootName::Sbindir);
    }
    if text_is(s, start, end, RootName::Libdir.name()) {
        return Some(RootName::Libdir);
    }
    if text_is(s, start, end, RootName::Libexecdir.name()) {
        return Some(RootName::Libexecdir);
    }
    if text_is(s, start, end, RootName::Includedir.name()) {
        return Some(RootName::Includedir);
    }
    if text_is(s, start, end, RootName::Datarootdir.name()) {
        return Some(RootName::Datarootdir);
    }
    if text_is(s, start, end, RootName::Datadir.name()) {
        return Some(RootName::Datadir);
    }
    if text_is(s, start, end, RootName::Mandir.name()) {
        return Some(RootName::Mandir);
    }
    if text_is(s, start, end, RootName::Infodir.name()) {
        return Some(RootName::Infodir);
    }
    if text_is(s, start, end, RootName::Docdir.name()) {
        return Some(RootName::Docdir);
    }
    if text_is(s, start, end, RootName::Localedir.name()) {
        return Some(RootName::Localedir);
    }
    if text_is(s, start, end, RootName::Localstatedir.name()) {
        return Some(RootName::Localstatedir);
    }
    if text_is(s, start, end, RootName::Sharedstatedir.name()) {
        return Some(RootName::Sharedstatedir);
    }
    if text_is(s, start, end, RootName::Sysconfdir.name()) {
        return Some(RootName::Sysconfdir);
    }
    None
}

/// Different roots have different names.
proof fn lemma_names_distinct(a: RootName, b: RootName)
    requires
        a.spec_name() == b.spec_name(),
    ensures
        a == b,
{
    reveal_strlit("prefix");
    reveal_strlit("exec_prefix");
    reveal_strlit("bindir");
    reveal_strlit("sbindir");
    reveal_strlit("libdir");
    reveal_strlit("libexecdir");
    reveal_strlit("includedir");
    reveal_strlit("datarootdir");
    reveal_strlit("datadir");
    reveal_strlit("mandir");
    reveal_strlit("infodir");
    reveal_strlit("docdir");
    reveal_strlit("localedir");
    reveal_strlit("localstatedir");
    reveal_strlit("sharedstatedir");
    reveal_strlit("sysconfdir");
    // The length and the first character already tell every two names apart.
    let na = a.spec_name();
    let nb = b.spec_name();
    assert(na.len() == nb.len() && na[0] == nb[0]);
}

/// A segment spells at most one root.
pub proof fn lemma_spelling_unique(seg: Seq<char>, a: RootName, b: RootName)
    requires
        spells(seg, a),
        spells(seg, b),
    ensures
        a == b,
{
    let na = a.spec_name();
    let nb = b.spec_name();
    if seg[0] == '$' {
        assert(na =~= seg.subrange(2, seg.len() - 1));
        assert(nb =~= seg.subrange(2, seg.len() - 1));
    } else {
        assert(na =~= seg.subrange(1, seg.len() - 1));
        assert(nb =~= seg.subrange(1, seg.len() - 1));
    }
    lemma_names_distinct(a, b);
}

/// The root that the segment `seg` names as a placeholder, if any.
pub fn placeholder_root(seg: &str) -> (r: Option<RootName>)
    ensures
        match r {
            Some(x) => spells(seg@, x),
            None => forall|x: RootName| !spells(seg@, x),
        },
{
    let n = seg.unicode_len();
    if n < 2 {
        return None;
    }
    let first = seg.get_char(0);
    let last = seg.get_char(n - 1);
    let start: usize = if (first == '<' && last == '>') || (first == '@' && last == '@') {
        1
    } else if n >= 3 && first == '$' && seg.get_char(1) == '{' && last == '}' {
        2
    } else {
        return None;
    };
    let found = root_named(seg, start, n - 1);
    match found {
        Some(x) => {
            let ghost nm = x.spec_name();
            if start == 2 {
                assert(seg@ =~= spelled(nm, Spelling::Brace));
            } else if first == '<' {
                assert(seg@ =~= spelled(nm, Spelling::Angle));
            } else {
                assert(seg@ =~= spelled(nm, Spelling::At));
            }
            Some(x)
        },
        None => {
            assert forall|x: RootName| !spells(seg@, x) by {
                let nm = x.spec_name();
                if seg@ == spelled(nm, Spelling::Angle) || seg@ == spelled(nm, Spelling::At) {
                    assert(nm =~= seg@.subrange(1, n - 1));
                } else if seg@ == spelled(nm, Spelling::Brace) {
                    assert(nm =~= seg@.subrange(2, n - 1));
                }
            }
            None
        },
    }
}

} // verus!
