//! Device node paths compared as paths, by their components: repeated
//! separators, a trailing separator and `.` components after the start do
//! not make a different node, so `/dev/input//event7`, `/dev/input/./event7`
//! and `/dev/input/event7/` all name `/dev/input/event7`.

use vstd::prelude::*;

verus! {

/// The path separator.
pub const SLASH: u8 = 0x2F;

/// The byte of a `.` component.
pub const DOT: u8 = 0x2E;

/// The runs of bytes between separators, in order, empty runs included
/// (a path with no separator is one run).
pub open spec fn segments(path: Seq<u8>) -> Seq<Seq<u8>>
    decreases path.len(),
{
    if path.len() == 0 {
        seq![Seq::empty()]
    } else {
        let before = segments(path.drop_last());
        if path.last() == SLASH {
            before.push(Seq::empty())
        } else {
            before.update(before.len() - 1, before.last().push(path.last()))
        }
    }
}

/// A run that names a component of its own: not empty (repeated or
/// trailing separators) and not `.`.
pub open spec fn is_named_part(segment: Seq<u8>) -> bool {
    segment.len() > 0 && segment != seq![DOT]
}

/// Whether a path starts at the root.
pub open spec fn is_rooted(path: Seq<u8>) -> bool {
    path.len() > 0 && path[0] == SLASH
}

/// The components of a path: whether it starts at the root, whether it
/// starts with a `.` component (kept only at the start of a relative path),
/// and its other components in order (`..` included).
pub open spec fn path_components(path: Seq<u8>) -> (bool, bool, Seq<Seq<u8>>) {
    (
        is_rooted(path),
        !is_rooted(path) && segments(path)[0] == seq![DOT],
        segments(path).filter(|s: Seq<u8>| is_named_part(s)),
    )
}

/// A path reduced to its components.
pub struct PathKey {
    rooted: bool,
    cur_dir: bool,
    parts: Vec<Vec<u8>>,
}

impl View for PathKey {
    type V = (bool, bool, Seq<Seq<u8>>);

    closed spec fn view(&self) -> (bool, bool, Seq<Seq<u8>>) {
        (self.rooted, self.cur_dir, self.parts@.map_values(|p: Vec<u8>| p@))
    }
}

/// Whether two byte strings are equal.
fn bytes_eq(a: &Vec<u8>, b: &Vec<u8>) -> (same: bool)
    ensures
        same == (a@ == b@),
{
    if a.len() != b.len() {
        return false;
    }
    let mut i: usize = 0;
    while i < a.len()
        invariant
            a.len() == b.len(),
            0 <= i <= a.len(),
            forall|k: int| 0 <= k < i ==> a@[k] == b@[k],
        decreases a.len() - i,
    {
        if a[i] != b[i] {
            return false;
        }
        i = i + 1;
    }
    assert(a@ =~= b@);
    true
}

/// A segment list always holds at least one run.
proof fn lemma_segments_nonempty(path: Seq<u8>)
    ensures
        segments(path).len() >= 1,
    decreases path.len(),
{
    if path.len() > 0 {
        lemma_segments_nonempty(path.drop_last());
    }
}

impl PathKey {
    /// The components of `path`.
    pub fn of(path: &[u8]) -> (key: PathKey)
        ensures
            key@ == path_components(path@),
    {
        let ghost named = |s: Seq<u8>| is_named_part(s);
        let mut parts: Vec<Vec<u8>> = Vec::new();
        let mut cur: Vec<u8> = Vec::new();
        let mut first_is_dot: bool = false;
        let mut done_any: bool = false;
        let ghost mut done: Seq<Seq<u8>> = Seq::empty();
        let mut i: usize = 0;
        proof {
            assert(path@.take(0) =~= Seq::<u8>::empty());
        }
        while i < path.len()
            invariant
                0 <= i <= path.len(),
                named == (|s: Seq<u8>| is_named_part(s)),
                segments(path@.take(i as int)) == done.push(cur@),
                parts@.map_values(|p: Vec<u8>| p@) == done.filter(named),
                done_any == (done.len() > 0),
                done.len() > 0 ==> first_is_dot == (done[0] == seq![DOT]),
            decreases path.len() - i,
        {
            let b = path[i];
            let ghost prefix = path@.take(i as int);
            assert(path@.take(i + 1).drop_last() =~= prefix);
            assert(path@.take(i + 1).last() == b);
            if b == SLASH {
                let is_named = cur.len() > 0 && !(cur.len() == 1 && cur[0] == DOT);
                let is_dot = cur.len() == 1 && cur[0] == DOT;
                assert(is_named == is_named_part(cur@)) by {
                    if cur@.len() == 1 && cur@[0] == DOT {
                        assert(cur@ =~= seq![DOT]);
                    }
                    if cur@ == seq![DOT] {
                        assert(cur@.len() == 1);
                    }
                }
                assert(is_dot == (cur@ == seq![DOT])) by {
                    if cur@.len() == 1 && cur@[0] == DOT {
                        assert(cur@ =~= seq![DOT]);
                    }
                }
                proof {
                    done.lemma_filter_push(cur@, named);
                }
                if !done_any {
                    first_is_dot = is_dot;
                    done_any = true;
                }
                let ghost seg = cur@;
                let mut finished: Vec<u8> = Vec::new();
                std::mem::swap(&mut finished, &mut cur);
                if is_named {
                    parts.push(finished);
                }
                proof {
                    if done.len() > 0 {
                        assert(done.push(seg)[0] == done[0]);
                    }
                    done = done.push(seg);
                }
                assert(parts@.map_values(|p: Vec<u8>| p@) =~= done.filter(named));
                assert(segments(path@.take(i + 1)) =~= done.push(cur@));
            } else {
                cur.push(b);
                assert(segments(path@.take(i + 1)) =~= done.push(cur@));
            }
            i = i + 1;
        }
        assert(path@.take(path.len() as int) =~= path@);
        let rooted = path.len() > 0 && path[0] == SLASH;
        let cur_is_named = cur.len() > 0 && !(cur.len() == 1 && cur[0] == DOT);
        let cur_is_dot = cur.len() == 1 && cur[0] == DOT;
        assert(cur_is_named == is_named_part(cur@)) by {
            if cur@.len() == 1 && cur@[0] == DOT {
                assert(cur@ =~= seq![DOT]);
            }
            if cur@ == seq![DOT] {
                assert(cur@.len() == 1);
            }
        }
        assert(cur_is_dot == (cur@ == seq![DOT])) by {
            if cur@.len() == 1 && cur@[0] == DOT {
                assert(cur@ =~= seq![DOT]);
            }
        }
        proof {
            done.lemma_filter_push(cur@, named);
        }
        let first_dot = if done_any {
            first_is_dot
        } else {
            cur_is_dot
        };
        if cur_is_named {
            parts.push(cur);
        }
        proof {
            assert(segments(path@)[0] == (if done.len() > 0 { done[0] } else { cur@ })) by {
                assert(done.push(cur@)[0] == (if done.len() > 0 { done[0] } else { cur@ }));
            }
        }
        let key = PathKey { rooted, cur_dir: !rooted && first_dot, parts };
        assert(key@.2 =~= path_components(path@).2);
        key
    }

    /// Whether two keys hold the same components.
    pub fn same(&self, other: &PathKey) -> (same: bool)
        ensures
            same == (self@ == other@),
    {
        if self.rooted != other.rooted || self.cur_dir != other.cur_dir {
            return false;
        }
        if self.parts.len() != other.parts.len() {
            assert(self@.2.len() != other@.2.len());
            return false;
        }
        let mut i: usize = 0;
        while i < self.parts.len()
            invariant
                self.parts.len() == other.parts.len(),
                0 <= i <= self.parts.len(),
                forall|k: int| 0 <= k < i ==> self.parts@[k]@ == other.parts@[k]@,
            decreases self.parts.len() - i,
        {
            if !bytes_eq(&self.parts[i], &other.parts[i]) {
                assert(self@.2[i as int] != other@.2[i as int]);
                return false;
            }
            i = i + 1;
        }
        assert forall|k: int| 0 <= k < self@.2.len() implies self@.2[k] == other@.2[k] by {
            assert(self@.2[k] == self.parts@[k]@);
            assert(other@.2[k] == other.parts@[k]@);
        }
        assert(self@.2 =~= other@.2);
        true
    }
}

/// A trailing separator does not change the node a path names, and
/// neither does a repeated one: `a/b/` and `a/b//` name `a/b`.
pub proof fn lemma_trailing_separators_ignored(path: Seq<u8>)
    requires
        path.len() > 0,
    ensures
        path_components(path.push(SLASH)) == path_components(path),
        path_components(path.push(SLASH).push(SLASH)) == path_components(path),
{
    let named = |s: Seq<u8>| is_named_part(s);
    let one = path.push(SLASH);
    let two = one.push(SLASH);
    lemma_segments_nonempty(path);
    lemma_segments_nonempty(one);
    assert(one.drop_last() =~= path);
    assert(two.drop_last() =~= one);
    assert(segments(one) == segments(path).push(Seq::empty()));
    assert(segments(two) == segments(one).push(Seq::empty()));
    segments(path).lemma_filter_push(Seq::empty(), named);
    segments(one).lemma_filter_push(Seq::empty(), named);
    assert(!named(Seq::<u8>::empty()));
    assert(one[0] == path[0]);
    assert(two[0] == path[0]);
    assert(segments(one)[0] == segments(path)[0]);
    assert(segments(two)[0] == segments(path)[0]);
}

/// The runs joined back together with a separator between each two.
pub open spec fn join_runs(runs: Seq<Seq<u8>>) -> Seq<u8>
    decreases runs.len(),
{
    if runs.len() == 0 {
        Seq::empty()
    } else if runs.len() == 1 {
        runs[0]
    } else {
        join_runs(runs.drop_last()) + seq![SLASH] + runs.last()
    }
}

/// Splitting a path at its separators loses nothing: the runs hold no
/// separator, and joined back with one separator between each two they
/// give the path itself, byte for byte.
pub proof fn lemma_segments_split(path: Seq<u8>)
    ensures
        segments(path).len() >= 1,
        join_runs(segments(path)) == path,
        forall|i: int, j: int|
            0 <= i < segments(path).len() && 0 <= j < segments(path)[i].len() ==> #[trigger] segments(path)[i][j]
                != SLASH,
    decreases path.len(),
{
    if path.len() == 0 {
        assert(join_runs(segments(path)) =~= path);
    } else {
        let q = path.drop_last();
        let b = path.last();
        lemma_segments_split(q);
        let before = segments(q);
        if b == SLASH {
            let segs = before.push(Seq::empty());
            assert(segs.drop_last() =~= before);
            assert(join_runs(segs) =~= path);
        } else {
            let n = before.len();
            let segs = before.update(n - 1, before.last().push(b));
            if n == 1 {
                assert(join_runs(segs) =~= path);
            } else {
                assert(segs.drop_last() =~= before.drop_last());
                assert(segs.last() == before.last().push(b));
                assert(join_runs(before) == join_runs(before.drop_last()) + seq![SLASH] + before.last());
                assert(join_runs(segs) == join_runs(before.drop_last()) + seq![SLASH] + before.last().push(b));
                assert(q.push(b) =~= path);
                assert(join_runs(segs) =~= path);
            }
            assert forall|i: int, j: int|
                0 <= i < segs.len() && 0 <= j < segs[i].len() implies #[trigger] segs[i][j] != SLASH by {
                if i == n - 1 && j == before.last().len() {
                    assert(segs[i][j] == b);
                } else if i == n - 1 {
                    assert(segs[i][j] == before[i][j]);
                }
            }
        }
    }
}

/// Appending a separator and a run without separators adds exactly that
/// run as the last segment.
proof fn lemma_segments_append_run(prefix: Seq<u8>, run: Seq<u8>)
    requires
        forall|j: int| 0 <= j < run.len() ==> run[j] != SLASH,
    ensures
        segments(prefix + seq![SLASH] + run) == segments(prefix).push(run),
    decreases run.len(),
{
    if run.len() == 0 {
        let path = prefix + seq![SLASH] + run;
        assert(path.drop_last() =~= prefix);
        assert(path.last() == SLASH);
        assert(run =~= Seq::<u8>::empty());
        assert(segments(path) == segments(path.drop_last()).push(Seq::empty()));
    } else {
        let shorter = run.drop_last();
        lemma_segments_append_run(prefix, shorter);
        let path = prefix + seq![SLASH] + run;
        assert(path.drop_last() =~= prefix + seq![SLASH] + shorter);
        assert(path.last() == run.last());
        assert(shorter.push(run.last()) =~= run);
        assert(segments(path) =~= segments(prefix).push(run));
    }
}

/// Keeping the named runs of runs that are all named keeps them all.
proof fn lemma_filter_all_named(runs: Seq<Seq<u8>>)
    requires
        forall|i: int| 0 <= i < runs.len() ==> is_named_part(#[trigger] runs[i]),
    ensures
        runs.filter(|s: Seq<u8>| is_named_part(s)) == runs,
    decreases runs.len(),
{
    if runs.len() > 0 {
        let prefix = runs.drop_last();
        assert(forall|i: int| 0 <= i < prefix.len() ==> prefix[i] == runs[i]);
        lemma_filter_all_named(prefix);
        prefix.lemma_filter_push(runs.last(), |s: Seq<u8>| is_named_part(s));
        assert(prefix.push(runs.last()) =~= runs);
    }
}

/// A path spelled the plain way, `/` followed by non-empty names other than
/// `.` (with no separator inside) joined by single separators, has exactly
/// those names as its components, in order. So two such paths name the
/// same node only when they are the same names: `/dev/input/event1` and
/// `/dev/input/event11` are different nodes.
pub proof fn lemma_plain_rooted_path_components(names: Seq<Seq<u8>>)
    requires
        names.len() >= 1,
        forall|i: int| 0 <= i < names.len() ==> (#[trigger] names[i]).len() > 0 && names[i] != seq![DOT],
        forall|i: int, j: int| 0 <= i < names.len() && 0 <= j < names[i].len() ==> #[trigger] names[i][j] != SLASH,
    ensures
        path_components(seq![SLASH] + join_runs(names)) == (true, false, names),
    decreases names.len(),
{
    let path = seq![SLASH] + join_runs(names);
    let last = names.last();
    let prefix = names.drop_last();
    assert(forall|j: int| 0 <= j < last.len() ==> last[j] == names[names.len() - 1][j]);
    if names.len() == 1 {
        assert(path =~= Seq::<u8>::empty() + seq![SLASH] + last);
        lemma_segments_append_run(Seq::empty(), last);
        assert(segments(Seq::<u8>::empty()) =~= seq![Seq::<u8>::empty()]);
        assert(segments(path) =~= seq![Seq::<u8>::empty(), last]);
    } else {
        assert(forall|i: int| 0 <= i < prefix.len() ==> prefix[i] == names[i]);
        assert forall|i: int, j: int| 0 <= i < prefix.len() && 0 <= j < prefix[i].len() implies #[trigger] prefix[i][j] != SLASH by {
            assert(prefix[i] == names[i]);
        }
        lemma_plain_rooted_path_components(prefix);
        let shorter = seq![SLASH] + join_runs(prefix);
        assert(path =~= shorter + seq![SLASH] + last);
        lemma_segments_append_run(shorter, last);
        lemma_segments_split(shorter);
        lemma_segments_nonempty(shorter);
        assert(shorter[0] == SLASH);
        // The root's empty first run, then the names.
        assert(segments(shorter).filter(|s: Seq<u8>| is_named_part(s)) == prefix);
        segments(shorter).lemma_filter_push(last, |s: Seq<u8>| is_named_part(s));
        assert(segments(path)[0] == segments(shorter)[0]);
    }
    assert(path[0] == SLASH);
    lemma_segments_nonempty(path);
    let segs = segments(path);
    assert(is_rooted(path));
    // The filter keeps exactly the names.
    if names.len() == 1 {
        let named = |s: Seq<u8>| is_named_part(s);
        assert(segs =~= seq![Seq::<u8>::empty()] + seq![last]);
        seq![last].lemma_filter_prepend(Seq::<u8>::empty(), named);
        assert(!named(Seq::<u8>::empty()));
        lemma_filter_all_named(seq![last]);
        assert(seq![last] =~= names);
    } else {
        assert(segs.filter(|s: Seq<u8>| is_named_part(s)) =~= prefix.push(last));
        assert(prefix.push(last) =~= names);
    }
}

/// Two plain rooted paths (see `lemma_plain_rooted_path_components`) with
/// different names name different nodes.
pub proof fn lemma_plain_rooted_paths_distinct(a: Seq<Seq<u8>>, b: Seq<Seq<u8>>)
    requires
        a.len() >= 1,
        b.len() >= 1,
        forall|i: int| 0 <= i < a.len() ==> (#[trigger] a[i]).len() > 0 && a[i] != seq![DOT],
        forall|i: int| 0 <= i < b.len() ==> (#[trigger] b[i]).len() > 0 && b[i] != seq![DOT],
        forall|i: int, j: int| 0 <= i < a.len() && 0 <= j < a[i].len() ==> #[trigger] a[i][j] != SLASH,
        forall|i: int, j: int| 0 <= i < b.len() && 0 <= j < b[i].len() ==> #[trigger] b[i][j] != SLASH,
        a != b,
    ensures
        path_components(seq![SLASH] + join_runs(a)) != path_components(seq![SLASH] + join_runs(b)),
{
    lemma_plain_rooted_path_components(a);
    lemma_plain_rooted_path_components(b);
}

} // verus!
