//! What holds of splitting, joining and sanitizing names.

use crate::path::{
    components, is_ignored, is_normal, is_parent, is_plain, is_safe, joined, left_out,
    macos_metadata_dir, names_ignored, sanitized, walk,
};
use vstd::prelude::*;

verus! {

/// A name always has at least one component.
pub proof fn lemma_components_nonempty(name: Seq<char>)
    ensures
        components(name).len() >= 1,
    decreases name.len(),
{
    if name.len() > 0 {
        lemma_components_nonempty(name.drop_last());
    }
}

/// What a text holds after one more character.
pub proof fn lemma_push_contains(s: Seq<char>, c: char, x: char)
    ensures
        s.push(c).contains(x) <==> s.contains(x) || x == c,
{
    if s.contains(x) {
        let j = choose|j: int| 0 <= j < s.len() && s[j] == x;
        assert(s.push(c)[j] == x);
    }
    if x == c {
        assert(s.push(c)[s.len() as int] == x);
    }
}

/// What a list of components holds after one more component.
pub proof fn lemma_push_holds(comps: Seq<Seq<char>>, c: Seq<char>, x: Seq<char>)
    ensures
        comps.push(c).contains(x) <==> comps.contains(x) || x == c,
{
    if comps.contains(x) {
        let j = choose|j: int| 0 <= j < comps.len() && comps[j] == x;
        assert(comps.push(c)[j] == x);
    }
    if x == c {
        assert(comps.push(c)[comps.len() as int] == x);
    }
}

/// The components of `a + b`: those of `a` but the last, then the last of `a`
/// run together with the first of `b`, then the rest of `b`.
pub proof fn lemma_components_concat(a: Seq<char>, b: Seq<char>)
    ensures
        components(a + b) == components(a).drop_last().push(
            components(a).last() + components(b).first(),
        ) + components(b).skip(1),
    decreases b.len(),
{
    lemma_components_nonempty(a);
    lemma_components_nonempty(b);
    if b.len() > 0 {
        let b0 = b.drop_last();
        lemma_components_concat(a, b0);
        lemma_components_nonempty(b0);
        lemma_components_nonempty(a + b0);
        assert((a + b).drop_last() == a + b0);
    }
}

/// No component holds a `/`.
pub proof fn lemma_components_slash_free(name: Seq<char>)
    ensures
        forall|i: int|
            0 <= i < components(name).len() ==> !(#[trigger] components(name)[i]).contains('/'),
    decreases name.len(),
{
    if name.len() > 0 {
        let before = components(name.drop_last());
        lemma_components_slash_free(name.drop_last());
        lemma_components_nonempty(name.drop_last());
        if name.last() != '/' {
            lemma_push_contains(before.last(), name.last(), '/');
        }
    }
}

/// A text without `/` is its own single component.
pub proof fn lemma_components_single(text: Seq<char>)
    requires
        !text.contains('/'),
    ensures
        components(text) == seq![text],
    decreases text.len(),
{
    if text.len() == 0 {
        assert(text == Seq::<char>::empty());
    } else {
        let init = text.drop_last();
        lemma_components_single(init);
        assert(init.push(text.last()) == text);
    }
}

/// Splitting loses nothing: the components of a name, written with `/`
/// between them, are the name.
pub proof fn lemma_joined_components(name: Seq<char>)
    ensures
        joined(components(name)) == name,
    decreases name.len(),
{
    if name.len() > 0 {
        let init = name.drop_last();
        let before = components(init);
        lemma_joined_components(init);
        lemma_components_nonempty(init);
        assert(init.push(name.last()) == name);
        if name.last() == '/' {
            assert(before.push(Seq::<char>::empty()).drop_last() == before);
        } else {
            let piece = before.last().push(name.last());
            assert(before.drop_last().push(piece).drop_last() == before.drop_last());
        }
    }
}

/// Joining loses nothing: segments without `/`, written with `/` between
/// them, split into those segments again.
pub proof fn lemma_components_joined(p: Seq<Seq<char>>)
    requires
        p.len() >= 1,
        forall|i: int| 0 <= i < p.len() ==> !(#[trigger] p[i]).contains('/'),
    ensures
        components(joined(p)) == p,
    decreases p.len(),
{
    if p.len() == 1 {
        lemma_components_single(p[0]);
    } else {
        let init = p.drop_last();
        lemma_components_joined(init);
        let a = joined(init).push('/');
        assert(a.drop_last() == joined(init));
        lemma_components_single(p.last());
        lemma_components_concat(a, p.last());
    }
}

/// A walk that has rejected stays rejected, whatever follows.
pub proof fn lemma_walk_rejected_stays(head: Seq<Seq<char>>, tail: Seq<Seq<char>>)
    requires
        walk(head) is None,
    ensures
        walk(head + tail) is None,
    decreases tail.len(),
{
    if tail.len() > 0 {
        lemma_walk_rejected_stays(head, tail.drop_last());
        assert((head + tail).drop_last() == head + tail.drop_last());
    }
}

/// The walk keeps a list of plain segments as it is.
pub proof fn lemma_walk_plain(p: Seq<Seq<char>>)
    requires
        is_safe(p),
    ensures
        walk(p) == Some(p),
    decreases p.len(),
{
    if p.len() > 0 {
        lemma_walk_plain(p.drop_last());
    }
}

/// A safe path, written as text and sanitized again, is the path itself.
pub proof fn lemma_sanitized_joined(p: Seq<Seq<char>>)
    requires
        is_safe(p),
    ensures
        sanitized(joined(p)) == Some(p),
{
    if p.len() == 0 {
        let only = seq![Seq::<char>::empty()];
        assert(walk(only.drop_last()) == Some(Seq::<Seq<char>>::empty()));
    } else {
        lemma_components_joined(p);
        lemma_walk_plain(p);
    }
}

/// How deep below the starting directory the first `k` components lead:
/// the normal ones among them less the parent references among them.
pub open spec fn depth(comps: Seq<Seq<char>>, k: int) -> int
    decreases k,
{
    if k <= 0 {
        0
    } else if is_normal(comps[k - 1]) {
        depth(comps, k - 1) + 1
    } else if is_parent(comps[k - 1]) {
        depth(comps, k - 1) - 1
    } else {
        depth(comps, k - 1)
    }
}

/// Whether the components climb above the starting directory at some point.
pub open spec fn escapes(comps: Seq<Seq<char>>) -> bool {
    exists|k: int| 0 <= k <= comps.len() && #[trigger] depth(comps, k) < 0
}

/// Whether some component that names a file or directory holds a NUL.
pub open spec fn names_nul(comps: Seq<Seq<char>>) -> bool {
    exists|i: int| 0 <= i < comps.len() && is_normal(#[trigger] comps[i]) && comps[i].contains('\0')
}

/// The depth after `k` components depends on those `k` components only.
pub proof fn lemma_depth_prefix(a: Seq<Seq<char>>, b: Seq<Seq<char>>, k: int)
    requires
        0 <= k <= a.len(),
        k <= b.len(),
        forall|i: int| 0 <= i < k ==> a[i] == b[i],
    ensures
        depth(a, k) == depth(b, k),
    decreases k,
{
    if k > 0 {
        lemma_depth_prefix(a, b, k - 1);
    }
}

/// What the walk does, said without the walk. It rejects the components
/// exactly where they climb above the starting directory or name something
/// with a NUL in it. Where it accepts them, every segment that is left is
/// plain, and there are as many segments as the components lead deep.
pub proof fn lemma_walk_within_root(comps: Seq<Seq<char>>)
    requires
        forall|i: int| 0 <= i < comps.len() ==> !(#[trigger] comps[i]).contains('/'),
    ensures
        walk(comps) is None <==> escapes(comps) || names_nul(comps),
        walk(comps) matches Some(p) ==> is_safe(p) && p.len() == depth(comps, comps.len() as int),
    decreases comps.len(),
{
    let n = comps.len() as int;
    if n > 0 {
        let init = comps.drop_last();
        lemma_walk_within_root(init);
        assert forall|k: int| 0 <= k <= n - 1 implies depth(init, k) == #[trigger] depth(
            comps,
            k,
        ) by {
            lemma_depth_prefix(init, comps, k);
        }
        if escapes(init) {
            let k = choose|k: int| 0 <= k <= init.len() && #[trigger] depth(init, k) < 0;
            assert(depth(comps, k) < 0);
        }
        if let Some(a) = walk(init) {
            assert(a.len() == depth(comps, n - 1));
            // no component before the last names a NUL
            assert forall|i: int| 0 <= i < n - 1 implies !(is_normal(#[trigger] comps[i])
                && comps[i].contains('\0')) by {
                assert(comps[i] == init[i]);
            }
            if is_parent(comps.last()) && a.len() == 0 {
                assert(depth(comps, n) < 0);
            }
        }
    }
}

/// Sanitizing never leads outside the directory that the result is joined
/// to. A name is rejected exactly where its components climb above that
/// directory at some point, or name something with a NUL in it. Any other
/// name gives a path made of plain segments alone, none of them `..`, as
/// many as the components lead deep.
pub proof fn lemma_sanitized_within_root(name: Seq<char>)
    ensures
        sanitized(name) is None <==> escapes(components(name)) || names_nul(components(name)),
        sanitized(name) matches Some(p) ==> is_safe(p) && p.len() == depth(
            components(name),
            components(name).len() as int,
        ),
{
    lemma_components_slash_free(name);
    lemma_walk_within_root(components(name));
}

/// The two forms of the ignore rule are one rule: a safe path, written as
/// text, is left out by its components as written exactly where it is left
/// out as a path.
pub proof fn lemma_ignore_rules_agree(p: Seq<Seq<char>>)
    requires
        is_safe(p),
    ensures
        names_ignored(joined(p)) == is_ignored(p),
        left_out(joined(p)) == is_ignored(p),
{
    lemma_sanitized_joined(p);
    if p.len() == 0 {
        reveal_strlit("__MACOSX");
        reveal_strlit("Thumbs.db");
        reveal_strlit(".DS_Store");
        let only = components(joined(p));
        assert(only == seq![Seq::<char>::empty()]);
        assert(only[0].len() == 0);
        assert(!only.contains(macos_metadata_dir())) by {
            if only.contains(macos_metadata_dir()) {
                let j = choose|j: int| 0 <= j < only.len() && only[j] == macos_metadata_dir();
                assert(only[j].len() == 0);
            }
        }
    } else {
        assert forall|i: int| 0 <= i < p.len() implies !(#[trigger] p[i]).contains('/') by {
            assert(is_plain(p[i]));
        }
        lemma_components_joined(p);
    }
}

} // verus!
