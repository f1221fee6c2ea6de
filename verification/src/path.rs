//! Entry names as safe relative paths.
//!
//! An entry name is text with `/` between its components. `sanitize_path`
//! walks the components from left to right and keeps a stack of the plain
//! ones; what comes out is a `SanitizedPath`, which by construction cannot
//! name anything above the directory it is joined to. The ignore rule says
//! which entries are left out of an extraction: of a path, and of a name as
//! it is written where the name has no safe path. What holds of all this
//! is proved in `path_laws`.

use crate::path_laws::{
    lemma_components_concat, lemma_components_nonempty, lemma_push_contains, lemma_push_holds,
    lemma_walk_rejected_stays,
};
use vstd::prelude::*;
use vstd::std_specs::iter::IteratorSpec;
use vstd::string::StringExecFns;

verus! {

/// `String::push` of the standard library appends one character to the text.
pub assume_specification[ String::push ](s: &mut String, ch: char)
    ensures
        final(s)@ == old(s)@.push(ch),
;

/// The text `.`, the component that names the current directory.
pub open spec fn cur_dir() -> Seq<char> {
    seq!['.']
}

/// The text `..`, the component that names the parent directory.
pub open spec fn parent_dir() -> Seq<char> {
    seq!['.', '.']
}

/// The pieces of `name` between its `/` characters, empty pieces included.
/// A name without `/` is its own single piece.
pub open spec fn components(name: Seq<char>) -> Seq<Seq<char>>
    decreases name.len(),
{
    if name.len() == 0 {
        seq![Seq::<char>::empty()]
    } else {
        let before = components(name.drop_last());
        if name.last() == '/' {
            before.push(Seq::<char>::empty())
        } else {
            before.drop_last().push(before.last().push(name.last()))
        }
    }
}

/// A component that the walk drops without a trace: an empty one (from a
/// leading, trailing or doubled `/`) or `.`.
pub open spec fn is_dropped(c: Seq<char>) -> bool {
    c.len() == 0 || c == cur_dir()
}

/// A component that asks for the parent directory.
pub open spec fn is_parent(c: Seq<char>) -> bool {
    c == parent_dir()
}

/// A component that names a file or directory.
pub open spec fn is_normal(c: Seq<char>) -> bool {
    !is_dropped(c) && !is_parent(c)
}

/// A segment that is safe to join to a directory: an ordinary name, which
/// neither is empty, `.` or `..` nor holds a `/` or a NUL.
pub open spec fn is_plain(c: Seq<char>) -> bool {
    is_normal(c) && !c.contains('/') && !c.contains('\0')
}

/// Every segment is plain.
pub open spec fn is_safe(p: Seq<Seq<char>>) -> bool {
    forall|i: int| 0 <= i < p.len() ==> is_plain(#[trigger] p[i])
}

/// One step of the walk: what the stack `acc` becomes on component `c`, or
/// `None` where the name is rejected.
pub open spec fn walk_step(acc: Option<Seq<Seq<char>>>, c: Seq<char>) -> Option<Seq<Seq<char>>> {
    match acc {
        None => None,
        Some(a) => if is_dropped(c) {
            Some(a)
        } else if is_parent(c) {
            if a.len() == 0 {
                None
            } else {
                Some(a.drop_last())
            }
        } else if c.contains('\0') {
            None
        } else {
            Some(a.push(c))
        },
    }
}

/// The walk over `comps` from the left, starting from the empty stack.
pub open spec fn walk(comps: Seq<Seq<char>>) -> Option<Seq<Seq<char>>>
    decreases comps.len(),
{
    if comps.len() == 0 {
        Some(Seq::<Seq<char>>::empty())
    } else {
        walk_step(walk(comps.drop_last()), comps.last())
    }
}

/// The segments that `name` is sanitized to, or `None` where it is rejected.
pub open spec fn sanitized(name: Seq<char>) -> Option<Seq<Seq<char>>> {
    walk(components(name))
}

/// The segments written as one text, with `/` between them.
pub open spec fn joined(p: Seq<Seq<char>>) -> Seq<char>
    decreases p.len(),
{
    if p.len() == 0 {
        Seq::<char>::empty()
    } else if p.len() == 1 {
        p[0]
    } else {
        joined(p.drop_last()).push('/') + p.last()
    }
}

/// The name of the directory in which macOS keeps its metadata.
pub open spec fn macos_metadata_dir() -> Seq<char> {
    "__MACOSX"@
}

/// Whether `c` is the name of a file that an operating system leaves behind.
pub open spec fn is_litter_name(c: Seq<char>) -> bool {
    c == "Thumbs.db"@ || c == ".DS_Store"@
}

/// Whether a path is left out of an extraction: some segment is the macOS
/// metadata directory, or the last segment is a litter file.
pub open spec fn is_ignored(p: Seq<Seq<char>>) -> bool {
    p.contains(macos_metadata_dir()) || (p.len() > 0 && is_litter_name(p.last()))
}

/// Whether a name, taken as it is written, is of the kind that is left out
/// of an extraction: the ignore rule on its components. This is the rule
/// for a name that has no safe path; a name that has one is judged by its
/// path.
pub open spec fn names_ignored(name: Seq<char>) -> bool {
    is_ignored(components(name))
}

/// Whether an entry with the decoded name `name` is left out of an
/// extraction: by its path where the name has a safe path, and by the name
/// as it is written where it has none.
pub open spec fn left_out(name: Seq<char>) -> bool {
    match sanitized(name) {
        Some(p) => is_ignored(p),
        None => names_ignored(name),
    }
}

/// The texts of a list of strings.
pub open spec fn texts(v: Seq<String>) -> Seq<Seq<char>> {
    Seq::new(v.len(), |i: int| v[i]@)
}

/// A relative path that has been made safe: a list of plain segments, first
/// segment first. The empty list is the directory the path is joined to.
#[derive(Debug, PartialEq, Eq)]
pub struct SanitizedPath {
    segments: Vec<String>,
}

impl View for SanitizedPath {
    type V = Seq<Seq<char>>;

    closed spec fn view(&self) -> Seq<Seq<char>> {
        texts(self.segments@)
    }
}

impl SanitizedPath {
    #[verifier::type_invariant]
    spec fn holds_plain_segments(&self) -> bool {
        is_safe(texts(self.segments@))
    }

    /// The empty path: the directory itself.
    pub fn new() -> (res: SanitizedPath)
        ensures
            res@ == Seq::<Seq<char>>::empty(),
    {
        let segments: Vec<String> = Vec::new();
        SanitizedPath { segments }
    }

    /// The number of segments.
    pub fn len(&self) -> (n: usize)
        ensures
            n == self@.len(),
    {
        self.segments.len()
    }

    /// Whether the path has no segment.
    pub fn is_empty(&self) -> (b: bool)
        ensures
            b == (self@.len() == 0),
    {
        self.segments.len() == 0
    }

    /// The segments, first segment first.
    pub fn segments(&self) -> (res: Vec<String>)
        ensures
            texts(res@) == self@,
            is_safe(self@),
    {
        proof {
            use_type_invariant(self);
        }
        let copy = self.clone();
        copy.segments
    }

    /// The path as one text, with `/` between the segments; the empty path
    /// gives the empty text.
    pub fn display(&self) -> (res: String)
        ensures
            res@ == joined(self@),
    {
        let mut out = String::new();
        let mut i: usize = 0;
        while i < self.segments.len()
            invariant
                i <= self.segments.len(),
                out@ == joined(self@.take(i as int)),
                self@ == texts(self.segments@),
            decreases self.segments.len() - i,
        {
            assert(self@.take(i + 1).drop_last() == self@.take(i as int));
            if i > 0 {
                out.push('/');
            }
            out.append(self.segments[i].as_str());
            i += 1;
        }
        assert(self@.take(i as int) == self@);
        out
    }

    /// The path without its last segment; the empty path is its own parent.
    pub fn parent(&self) -> (res: SanitizedPath)
        ensures
            res@ == if self@.len() == 0 {
                self@
            } else {
                self@.drop_last()
            },
    {
        let mut copy = self.clone();
        proof {
            use_type_invariant(&copy);
        }
        if copy.segments.len() > 0 {
            let ghost before = copy.segments@;
            let mut segments = copy.segments;
            segments.pop();
            assert(texts(segments@) == texts(before).drop_last());
            SanitizedPath { segments }
        } else {
            copy
        }
    }

    /// The first segment as a path of its own; the empty path for the empty
    /// path.
    pub fn top(&self) -> (res: SanitizedPath)
        ensures
            res@ == self@.take(if self@.len() == 0 { 0int } else { 1int }),
    {
        proof {
            use_type_invariant(self);
        }
        let mut segments: Vec<String> = Vec::new();
        if self.segments.len() > 0 {
            segments.push(self.segments[0].clone());
            assert(texts(segments@) == self@.take(1));
        }
        SanitizedPath { segments }
    }

    /// Whether the segments of `base` are the first segments of this path.
    pub fn starts_with(&self, base: &SanitizedPath) -> (b: bool)
        ensures
            b == base@.is_prefix_of(self@),
    {
        if base.segments.len() > self.segments.len() {
            return false;
        }
        let mut i: usize = 0;
        while i < base.segments.len()
            invariant
                i <= base.segments.len() <= self.segments.len(),
                self@ == texts(self.segments@),
                base@ == texts(base.segments@),
                forall|j: int| 0 <= j < i ==> self@[j] == base@[j],
            decreases base.segments.len() - i,
        {
            if self.segments[i] != base.segments[i] {
                assert(self@[i as int] != base@[i as int]);
                return false;
            }
            i += 1;
        }
        true
    }

    /// The path below `base`: what is left of this path once the segments
    /// of `base` are taken from its front. `None` where this path does not
    /// start with `base`.
    pub fn strip_prefix(&self, base: &SanitizedPath) -> (res: Option<SanitizedPath>)
        ensures
            match res {
                Some(rest) => base@.is_prefix_of(self@) && rest@ == self@.skip(base@.len() as int),
                None => !base@.is_prefix_of(self@),
            },
    {
        if !self.starts_with(base) {
            return None;
        }
        proof {
            use_type_invariant(self);
        }
        let start = base.segments.len();
        let mut segments: Vec<String> = Vec::new();
        let mut i: usize = start;
        while i < self.segments.len()
            invariant
                start <= i <= self.segments.len(),
                self@ == texts(self.segments@),
                texts(segments@) == self@.subrange(start as int, i as int),
                is_safe(self@),
            decreases self.segments.len() - i,
        {
            let ghost before = texts(segments@);
            segments.push(self.segments[i].clone());
            assert(texts(segments@) == before.push(self@[i as int]));
            i += 1;
        }
        Some(SanitizedPath { segments })
    }
}

impl Clone for SanitizedPath {
    fn clone(&self) -> (res: Self)
        ensures
            res@ == self@,
    {
        proof {
            use_type_invariant(self);
        }
        let mut segments: Vec<String> = Vec::new();
        let mut i: usize = 0;
        while i < self.segments.len()
            invariant
                i <= self.segments.len(),
                segments@ == self.segments@.take(i as int),
            decreases self.segments.len() - i,
        {
            segments.push(self.segments[i].clone());
            i += 1;
        }
        assert(self.segments@.take(i as int) == self.segments@);
        SanitizedPath { segments }
    }
}

/// Closes the component `cur` of the walk: drops it, pops for it, or pushes it.
/// Returns `false` where the walk rejects the name at this component.
fn close_component(
    segments: &mut Vec<String>,
    cur: String,
    nul: bool,
    dot: &String,
    dotdot: &String,
) -> (ok: bool)
    requires
        nul == cur@.contains('\0'),
        !cur@.contains('/'),
        dot@ == cur_dir(),
        dotdot@ == parent_dir(),
        is_safe(texts(old(segments)@)),
    ensures
        ok ==> walk_step(Some(texts(old(segments)@)), cur@) == Some(texts(final(segments)@)),
        !ok ==> walk_step(Some(texts(old(segments)@)), cur@) is None,
        is_safe(texts(final(segments)@)),
{
    if cur.as_str().is_empty() || cur == *dot {
        true
    } else if cur == *dotdot {
        if segments.len() == 0 {
            false
        } else {
            segments.pop();
            assert(texts(segments@) == texts(old(segments)@).drop_last());
            true
        }
    } else if nul {
        false
    } else {
        segments.push(cur);
        assert(texts(segments@) == texts(old(segments)@).push(cur@));
        true
    }
}

/// Turns an entry name into a safe relative path, or rejects it.
///
/// The components of `name` are walked from left to right over a stack that
/// starts empty. An empty component and `.` are dropped. `..` pops the stack,
/// and rejects the name where the stack is empty: the name would climb above
/// the directory it is joined to. Any other component is pushed, unless it
/// holds a NUL, which rejects the name.
pub fn sanitize_path(name: &str) -> (res: Option<SanitizedPath>)
    ensures
        match res {
            Some(p) => sanitized(name@) == Some(p@) && is_safe(p@),
            None => sanitized(name@) is None,
        },
{
    let dot = ".".to_owned();
    let dotdot = "..".to_owned();
    proof {
        reveal_strlit(".");
        reveal_strlit("..");
    }
    let mut segments: Vec<String> = Vec::new();
    let mut cur = String::new();
    let mut nul = false;
    for c in it: name.chars()
        invariant
            it.seq() == name@,
            dot@ == cur_dir(),
            dotdot@ == parent_dir(),
            walk(components(name@.take(it.index() as int)).drop_last()) == Some(texts(segments@)),
            cur@ == components(name@.take(it.index() as int)).last(),
            nul == cur@.contains('\0'),
            !cur@.contains('/'),
            is_safe(texts(segments@)),
    {
        let ghost i = it.index() as int;
        let ghost seen = name@.take(i);
        let ghost next = name@.take(i + 1);
        proof {
            lemma_components_nonempty(seen);
            assert(next.drop_last() == seen);
        }
        if c == '/' {
            let ok = close_component(&mut segments, cur, nul, &dot, &dotdot);
            assert(components(next).drop_last() == components(seen));
            if !ok {
                proof {
                    // the walk has rejected the components so far, and
                    // those of the whole name begin with them
                    let rest = name@.skip(i + 1);
                    lemma_components_concat(next, rest);
                    lemma_components_nonempty(rest);
                    assert(next + rest == name@);
                    let tail = seq![components(next).last() + components(rest).first()]
                        + components(rest).skip(1);
                    assert(components(name@) == components(seen) + tail);
                    lemma_walk_rejected_stays(components(seen), tail);
                }
                return None;
            }
            cur = String::new();
            nul = false;
        } else {
            if c == '\0' {
                nul = true;
            }
            let ghost old_cur = cur@;
            cur.push(c);
            proof {
                assert(components(next).drop_last() == components(seen).drop_last());
                lemma_push_contains(old_cur, c, '\0');
                lemma_push_contains(old_cur, c, '/');
            }
        }
    }
    proof {
        assert(name@.take(name@.len() as int) == name@);
        lemma_components_nonempty(name@);
    }
    let ok = close_component(&mut segments, cur, nul, &dot, &dotdot);
    if !ok {
        return None;
    }
    Some(SanitizedPath { segments })
}

/// Whether the entry at `path` is left out of an extraction: macOS metadata
/// (a segment `__MACOSX` anywhere in the path) or litter of an operating
/// system (a last segment `Thumbs.db` or `.DS_Store`).
pub fn is_ignored_file(path: &SanitizedPath) -> (b: bool)
    ensures
        b == is_ignored(path@),
{
    let metadata = "__MACOSX".to_owned();
    let thumbs = "Thumbs.db".to_owned();
    let ds_store = ".DS_Store".to_owned();
    let n = path.segments.len();
    let mut i: usize = 0;
    while i < n
        invariant
            i <= n,
            n == path.segments.len(),
            path@ == texts(path.segments@),
            metadata@ == macos_metadata_dir(),
            forall|j: int| 0 <= j < i ==> path@[j] != macos_metadata_dir(),
        decreases n - i,
    {
        if path.segments[i] == metadata {
            assert(path@[i as int] == macos_metadata_dir());
            return true;
        }
        i += 1;
    }
    if n > 0 {
        let last = &path.segments[n - 1];
        *last == thumbs || *last == ds_store
    } else {
        false
    }
}

/// The names that the ignore rule knows.
struct KnownNames {
    metadata: String,
    thumbs: String,
    ds_store: String,
}

impl KnownNames {
    spec fn wf(&self) -> bool {
        &&& self.metadata@ == macos_metadata_dir()
        &&& self.thumbs@ == "Thumbs.db"@
        &&& self.ds_store@ == ".DS_Store"@
    }

    fn new() -> (res: KnownNames)
        ensures
            res.wf(),
    {
        KnownNames {
            metadata: "__MACOSX".to_owned(),
            thumbs: "Thumbs.db".to_owned(),
            ds_store: ".DS_Store".to_owned(),
        }
    }
}

/// Whether the components `comps` hold the metadata directory, and whether
/// the last of them is a litter file.
spec fn ignore_marks(comps: Seq<Seq<char>>) -> (bool, bool) {
    (comps.contains(macos_metadata_dir()), comps.len() > 0 && is_litter_name(comps.last()))
}

/// The marks of the ignore rule after one more component.
fn mark_component(cur: &String, marks: (bool, bool), known: &KnownNames) -> (res: (bool, bool))
    requires
        known.wf(),
    ensures
        forall|comps: Seq<Seq<char>>|
            marks == ignore_marks(comps) ==> res == #[trigger] ignore_marks(comps.push(cur@)),
{
    let found = marks.0 || *cur == known.metadata;
    let litter = *cur == known.thumbs || *cur == known.ds_store;
    proof {
        assert forall|comps: Seq<Seq<char>>| marks == ignore_marks(comps) implies (found, litter)
            == #[trigger] ignore_marks(comps.push(cur@)) by {
            let more = comps.push(cur@);
            assert(more.drop_last() == comps);
            assert(more.last() == cur@);
            lemma_push_holds(comps, cur@, macos_metadata_dir());
        }
    }
    (found, litter)
}

/// Whether a name, taken as it is written, is of the kind that is left out
/// of an extraction: one of its components is `__MACOSX`, or the last of
/// them is `Thumbs.db` or `.DS_Store`.
pub fn is_ignored_name(name: &str) -> (b: bool)
    ensures
        b == names_ignored(name@),
{
    let known = KnownNames::new();
    let mut marks = (false, false);
    let mut cur = String::new();
    proof {
        assert(name@.take(0) == Seq::<char>::empty());
        assert(components(name@.take(0)).drop_last() == Seq::<Seq<char>>::empty());
    }
    for c in it: name.chars()
        invariant
            it.seq() == name@,
            known.wf(),
            marks == ignore_marks(components(name@.take(it.index() as int)).drop_last()),
            cur@ == components(name@.take(it.index() as int)).last(),
    {
        let ghost seen = name@.take(it.index() as int);
        let ghost next = name@.take(it.index() + 1);
        proof {
            lemma_components_nonempty(seen);
            assert(next.drop_last() == seen);
        }
        if c == '/' {
            let ghost closed = components(seen);
            marks = mark_component(&cur, marks, &known);
            proof {
                assert(closed.drop_last().push(cur@) == closed);
                assert(marks == ignore_marks(closed.drop_last().push(cur@)));
                assert(components(next).drop_last() == closed);
            }
            cur = String::new();
        } else {
            cur.push(c);
            assert(components(next).drop_last() == components(seen).drop_last());
        }
    }
    let ghost all = components(name@);
    proof {
        assert(name@.take(name@.len() as int) == name@);
        lemma_components_nonempty(name@);
    }
    let marks = mark_component(&cur, marks, &known);
    proof {
        assert(all.drop_last().push(cur@) == all);
        assert(marks == ignore_marks(all.drop_last().push(cur@)));
    }
    marks.0 || marks.1
}

} // verus!
