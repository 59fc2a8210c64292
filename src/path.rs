//! Filesystem paths as sequences of segments.
use vstd::prelude::*;

verus! {

/// A path: whether it starts at the filesystem root, and its segments in
/// order.
#[derive(Debug, Clone, PartialEq, Eq)]
pub struct InstallPath {
    pub rooted: bool,
    pub parts: Vec<String>,
}

/// What a path denotes.
pub struct PathView {
    pub rooted: bool,
    pub parts: Seq<Seq<char>>,
}

pub open spec fn seg_views(v: Seq<String>) -> Seq<Seq<char>> {
    v.map_values(|s: String| s@)
}

impl View for InstallPath {
    type V = PathView;

    open spec fn view(&self) -> PathView {
        PathView { rooted: self.rooted, parts: seg_views(self.parts@) }
    }
}

/// Appends `src[from..]` to `dst`.
fn extend_parts(dst: &mut Vec<String>, src: &Vec<String>, from: usize)
    requires
        from <= src@.len(),
    ensures
        seg_views(final(dst)@) == seg_views(old(dst)@) + seg_views(src@).subrange(
            from as int,
            src@.len() as int,
        ),
{
    let ghost start = seg_views(dst@);
    let mut i: usize = from;
    while i < src.len()
        invariant
            from <= i <= src@.len(),
            seg_views(dst@) == start + seg_views(src@).subrange(from as int, i as int),
        decreases src@.len() - i,
    {
        let ghost before = dst@;
        dst.push(src[i].clone());
        assert(seg_views(dst@) =~= seg_views(before) + seq![src@[i as int]@]);
        assert(seg_views(src@).subrange(from as int, i + 1) =~= seg_views(src@).subrange(
            from as int,
            i as int,
        ) + seq![src@[i as int]@]);
        i = i + 1;
    }
}

impl InstallPath {
    /// An empty relative path.
    pub fn empty() -> (r: InstallPath)
        ensures
            !r@.rooted,
            r@.parts.len() == 0,
    {
        InstallPath { rooted: false, parts: Vec::new() }
    }

    /// A copy of this path.
    pub fn duplicate(&self) -> (r: InstallPath)
        ensures
            r@ == self@,
    {
        let mut parts: Vec<String> = Vec::new();
        extend_parts(&mut parts, &self.parts, 0);
        assert(seg_views(parts@) =~= seg_views(self.parts@));
        InstallPath { rooted: self.rooted, parts }
    }

    /// This path followed by the segments of `tail` from position `from` on.
    pub fn with_tail(&self, tail: &InstallPath, from: usize) -> (r: InstallPath)
        requires
            from <= tail@.parts.len(),
        ensures
            r@.rooted == self@.rooted,
            r@.parts == self@.parts + tail@.parts.subrange(from as int, tail@.parts.len() as int),
    {
        let mut parts: Vec<String> = Vec::new();
        extend_parts(&mut parts, &self.parts, 0);
        extend_parts(&mut parts, &tail.parts, from);
        assert(seg_views(self.parts@).subrange(0, self.parts@.len() as int) =~= seg_views(
            self.parts@,
        ));
        assert(seg_views(Seq::<String>::empty()) =~= Seq::<Seq<char>>::empty());
        InstallPath { rooted: self.rooted, parts }
    }

    /// This path with one more segment, `name`, at its end.
    pub fn child(&self, name: &str) -> (r: InstallPath)
        ensures
            r@.rooted == self@.rooted,
            r@.parts == self@.parts.push(name@),
    {
        let mut r = self.duplicate();
        let ghost before = r.parts@;
        r.parts.push(name.to_string());
        assert(seg_views(r.parts@) =~= seg_views(before).push(name@));
        r
    }
}

} // verus!
