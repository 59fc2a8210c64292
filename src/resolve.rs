//! Resolution of a path template against the installation roots.
use vstd::prelude::*;

use crate::dirs::{lemma_spelling_unique, placeholder_root, spelled, spells, InstallDirs, RootName, Spelling};
use crate::path::{InstallPath, PathView};

verus! {

/// `base` followed by `tail`.
pub open spec fn joined(base: PathView, tail: Seq<Seq<char>>) -> PathView {
    PathView { rooted: base.rooted, parts: base.parts + tail }
}

/// Where the template `input` leads: a rooted template is kept; a template
/// whose first segment is a placeholder for a root is that root followed by
/// the remaining segments; any other template is placed under `primary`.
pub open spec fn resolved(input: PathView, dirs: InstallDirs, primary: PathView) -> PathView {
    if input.rooted {
        input
    } else if input.parts.len() > 0 && exists|x: RootName| spells(input.parts[0], x) {
        let x = choose|x: RootName| spells(input.parts[0], x);
        joined(dirs.spec_root(x)@, input.parts.drop_first())
    } else {
        joined(primary, input.parts)
    }
}

/// Resolves the template `input` against the roots in `dirs`, with
/// `primary` as the directory for templates that name no root.
pub fn convert_to_path(input: &InstallPath, dirs: &InstallDirs, primary: &InstallPath) -> (r: InstallPath)
    ensures
        r@ == resolved(input@, *dirs, primary@),
{
    if input.rooted {
        return input.duplicate();
    }
    if input.parts.len() > 0 {
        let first = placeholder_root(input.parts[0].as_str());
        if let Some(x) = first {
            proof {
                let y = choose|y: RootName| spells(input@.parts[0], y);
                lemma_spelling_unique(input@.parts[0], x, y);
                assert(input@.parts.subrange(1, input@.parts.len() as int) =~= input@.parts.drop_first());
            }
            return dirs.root(x).with_tail(input, 1);
        }
    }
    let r = primary.with_tail(input, 0);
    assert(input@.parts.subrange(0, input@.parts.len() as int) =~= input@.parts);
    r
}

/// Every root is an absolute path, as after canonicalization.
pub open spec fn roots_absolute(dirs: InstallDirs) -> bool {
    forall|x: RootName| #[trigger] dirs.spec_root(x)@.rooted
}

/// Against absolute roots and an absolute primary directory, every template
/// leads to an absolute path.
pub proof fn lemma_resolved_absolute(input: PathView, dirs: InstallDirs, primary: PathView)
    requires
        roots_absolute(dirs),
        primary.rooted,
    ensures
        resolved(input, dirs, primary).rooted,
{
    if !input.rooted && input.parts.len() > 0 && exists|x: RootName| spells(input.parts[0], x) {
        let x = choose|x: RootName| spells(input.parts[0], x);
        assert(dirs.spec_root(x)@.rooted);
    }
}

/// A rooted template is returned as it is.
pub proof fn lemma_rooted_unchanged(input: PathView, dirs: InstallDirs, primary: PathView)
    requires
        input.rooted,
    ensures
        resolved(input, dirs, primary) == input,
{
}

/// A relative template whose first segment is any spelling of a root's
/// placeholder becomes that root followed by the remaining segments.
pub proof fn lemma_placeholder_replaced(
    x: RootName,
    k: Spelling,
    rest: Seq<Seq<char>>,
    dirs: InstallDirs,
    primary: PathView,
)
    ensures
        resolved(
            PathView { rooted: false, parts: seq![spelled(x.spec_name(), k)] + rest },
            dirs,
            primary,
        ) == joined(dirs.spec_root(x)@, rest),
{
    let parts = seq![spelled(x.spec_name(), k)] + rest;
    assert(parts[0] == spelled(x.spec_name(), k));
    assert(spells(parts[0], x));
    let y = choose|y: RootName| spells(parts[0], y);
    lemma_spelling_unique(parts[0], x, y);
    assert(parts.drop_first() =~= rest);
}

/// A relative template that does not start with a placeholder is placed
/// under `primary`, its segments kept in order; an empty template gives
/// `primary` itself.
pub proof fn lemma_fallback(input: PathView, dirs: InstallDirs, primary: PathView)
    requires
        !input.rooted,
        input.parts.len() == 0 || forall|x: RootName| !spells(input.parts[0], x),
    ensures
        resolved(input, dirs, primary) == joined(primary, input.parts),
        input.parts.len() == 0 ==> resolved(input, dirs, primary) == primary,
{
    if input.parts.len() == 0 {
        assert(primary.parts + input.parts =~= primary.parts);
    }
}

} // verus!
