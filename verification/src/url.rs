//! Request paths of the Kubernetes API, reduced to their shape.
//!
//! A path such as `/api/v1/namespaces/web/pods/front` names one object; as a
//! metric label it would make one time series per object. `template_path`
//! replaces the parts that name a namespace or an object by placeholders.

use crate::text::chars_of;
use vstd::prelude::*;

verus! {

/// Length of the longest prefix of `s` that holds no slash.
pub open spec fn run_len(s: Seq<char>) -> nat
    decreases s.len(),
{
    if s.len() == 0 || s[0] == '/' {
        0
    } else {
        1 + run_len(s.skip(1))
    }
}

/// `run_len` counts exactly the characters before the first slash.
pub proof fn lemma_run_len(s: Seq<char>, n: int)
    requires
        0 <= n <= s.len(),
        forall|k: int| 0 <= k < n ==> s[k] != '/',
        n == s.len() || s[n] == '/',
    ensures
        run_len(s) == n,
    decreases n,
{
    if n > 0 {
        lemma_run_len(s.skip(1), n - 1);
    }
}

/// `run_len` never runs past the end, and is positive on a string that
/// starts with something else than a slash.
pub proof fn lemma_run_len_bounds(s: Seq<char>)
    ensures
        run_len(s) <= s.len(),
        s.len() > 0 && s[0] != '/' ==> run_len(s) >= 1,
    decreases s.len(),
{
    if s.len() > 0 && s[0] != '/' {
        lemma_run_len_bounds(s.skip(1));
    }
}

/// The non-empty pieces of `s` between slashes, in order.
pub open spec fn split_segments(s: Seq<char>) -> Seq<Seq<char>>
    decreases s.len(),
    via split_segments_decreases
{
    if s.len() == 0 {
        Seq::empty()
    } else if s[0] == '/' {
        split_segments(s.skip(1))
    } else {
        seq![s.take(run_len(s) as int)] + split_segments(s.skip(run_len(s) as int))
    }
}

#[via_fn]
proof fn split_segments_decreases(s: Seq<char>) {
    lemma_run_len_bounds(s);
}

/// `s` without the copies of `p` that it starts with, one after the other.
/// An empty `p` takes nothing away.
pub open spec fn strip_leading(s: Seq<char>, p: Seq<char>) -> Seq<char>
    decreases s.len(),
{
    if p.len() > 0 && p.is_prefix_of(s) {
        strip_leading(s.skip(p.len() as int), p)
    } else {
        s
    }
}

/// `s` without the slashes that it ends with.
pub open spec fn strip_trailing_slashes(s: Seq<char>) -> Seq<char>
    decreases s.len(),
{
    if s.len() > 0 && s.last() == '/' {
        strip_trailing_slashes(s.drop_last())
    } else {
        s
    }
}

/// The path made of `segments`, each preceded by a slash.
pub open spec fn rooted_path(segments: Seq<Seq<char>>) -> Seq<char>
    decreases segments.len(),
{
    if segments.len() == 0 {
        Seq::empty()
    } else {
        rooted_path(segments.drop_last()) + seq!['/'] + segments.last()
    }
}

/// Number of leading segments that name the API group and version:
/// `api/<version>` for the core group, `apis/<group>/<version>` for a named
/// one. Any other first segment is no API path.
pub open spec fn group_width(first: Seq<char>) -> Option<int> {
    if first == "api"@ {
        Some(2)
    } else if first == "apis"@ {
        Some(3)
    } else {
        None
    }
}

/// A trailing segment that names a subresource, not an object.
pub open spec fn is_subresource(segment: Seq<char>) -> bool {
    segment == "finalize"@ || segment == "status"@
}

/// `segments` with the namespace and the object name replaced by
/// placeholders. `index` is the number of group and version segments in
/// front; what follows is `<resource>`, `<resource>/<name>`,
/// `<resource>/<name>/<subresource>` or
/// `namespaces/<namespace>/<resource>[/<name>[/...]]`.
pub open spec fn fill_placeholders(segments: Seq<Seq<char>>, index: int) -> Seq<Seq<char>> {
    let rest = segments.len() - index;
    if rest <= 1 {
        segments
    } else if rest == 2 {
        segments.update(index + 1, "{name}"@)
    } else if rest == 3 {
        if is_subresource(segments[index + 2]) {
            segments.update(index + 1, "{name}"@)
        } else {
            segments.update(index + 1, "{namespace}"@)
        }
    } else {
        let scoped = segments.update(index + 1, "{namespace}"@);
        if is_subresource(segments[index + 3]) {
            scoped
        } else {
            scoped.update(index + 3, "{name}"@)
        }
    }
}

/// What `template_path` returns, on the characters of its arguments.
///
/// Where `base` is a prefix of `path`, every leading copy of it is set aside
/// and comes back, without trailing slashes, in front of the result. A path
/// of at most two segments is returned as it is. A path that does not start
/// with `api` or `apis` becomes `/{prefix}`.
pub open spec fn template_path_spec(path: Seq<char>, base: Option<Seq<char>>) -> Seq<char> {
    let based = base is Some && base->0.is_prefix_of(path);
    let kept = if based {
        base->0
    } else {
        Seq::empty()
    };
    let tail = if based {
        strip_leading(path, base->0)
    } else {
        path
    };
    let segments = split_segments(tail);
    if segments.len() <= 2 {
        path
    } else {
        match group_width(segments[0]) {
            None => "/{prefix}"@,
            Some(index) => strip_trailing_slashes(kept) + rooted_path(
                fill_placeholders(segments, index),
            ),
        }
    }
}

/// The pieces of `chars` that `bounds` delimits.
pub open spec fn pieces(chars: Seq<char>, bounds: Seq<(usize, usize)>) -> Seq<Seq<char>> {
    Seq::new(bounds.len(), |k: int| chars.subrange(bounds[k].0 as int, bounds[k].1 as int))
}

/// Tells whether `word` stands in `chars` at position `at`.
fn starts_at(chars: &Vec<char>, at: usize, word: &Vec<char>) -> (found: bool)
    requires
        at <= chars.len(),
    ensures
        found == word@.is_prefix_of(chars@.skip(at as int)),
{
    if word.len() > chars.len() - at {
        return false;
    }
    let mut k: usize = 0;
    while k < word.len()
        invariant
            at <= chars.len(),
            word.len() <= chars.len() - at,
            k <= word.len(),
            forall|j: int| 0 <= j < k ==> word@[j] == chars@[at + j],
        decreases word.len() - k,
    {
        if word[k] != chars[at + k] {
            return false;
        }
        k += 1;
    }
    true
}

/// Tells whether the piece of `chars` from `lo` to `hi` reads `word`.
fn piece_is(chars: &Vec<char>, lo: usize, hi: usize, word: &str) -> (same: bool)
    requires
        lo <= hi <= chars.len(),
    ensures
        same == (chars@.subrange(lo as int, hi as int) == word@),
{
    let letters = chars_of(word);
    if letters.len() != hi - lo {
        return false;
    }
    let found = starts_at(chars, lo, &letters);
    proof {
        let piece = chars@.subrange(lo as int, hi as int);
        if found {
            assert(piece =~= word@);
        }
    }
    found
}

/// Where the segments of `chars` after position `from` begin and end.
fn segment_bounds(chars: &Vec<char>, from: usize) -> (bounds: Vec<(usize, usize)>)
    requires
        from <= chars.len(),
    ensures
        pieces(chars@, bounds@) == split_segments(chars@.skip(from as int)),
        forall|k: int|
            0 <= k < bounds.len() ==> from <= (#[trigger] bounds[k]).0 < bounds[k].1
                <= chars.len(),
{
    let mut bounds: Vec<(usize, usize)> = Vec::new();
    let mut i: usize = from;
    while i < chars.len()
        invariant
            from <= i <= chars.len(),
            pieces(chars@, bounds@) + split_segments(chars@.skip(i as int)) == split_segments(
                chars@.skip(from as int),
            ),
            forall|k: int|
                0 <= k < bounds.len() ==> from <= (#[trigger] bounds[k]).0 < bounds[k].1
                    <= chars.len(),
        decreases chars.len() - i,
    {
        let ghost before = chars@.skip(i as int);
        if chars[i] == '/' {
            i += 1;
            assert(before.skip(1) =~= chars@.skip(i as int));
        } else {
            let start = i;
            while i < chars.len() && chars[i] != '/'
                invariant
                    start <= i <= chars.len(),
                    forall|k: int| start <= k < i ==> chars@[k] != '/',
                decreases chars.len() - i,
            {
                i += 1;
            }
            proof {
                lemma_run_len(before, i - start);
                assert(before.take(i - start) =~= chars@.subrange(start as int, i as int));
                assert(before.skip(i - start) =~= chars@.skip(i as int));
            }
            bounds.push((start, i));
        }
    }
    bounds
}

/// Position in `chars` behind the copies of `word` that it starts with.
fn leading_copies_end(chars: &Vec<char>, word: &Vec<char>) -> (end: usize)
    ensures
        end <= chars.len(),
        chars@.skip(end as int) == strip_leading(chars@, word@),
{
    let mut end: usize = 0;
    assert(chars@.skip(0) =~= chars@);
    if word.len() == 0 {
        return end;
    }
    while starts_at(chars, end, word)
        invariant
            end <= chars.len(),
            word.len() > 0,
            strip_leading(chars@.skip(end as int), word@) == strip_leading(chars@, word@),
        decreases chars.len() - end,
    {
        assert(chars@.skip(end as int).skip(word@.len() as int) =~= chars@.skip(
            end + word@.len(),
        ));
        end += word.len();
    }
    end
}

/// Length of `chars` without the slashes that it ends with.
fn trimmed_len(chars: &Vec<char>) -> (end: usize)
    ensures
        end <= chars.len(),
        chars@.take(end as int) == strip_trailing_slashes(chars@),
{
    let mut end: usize = chars.len();
    assert(chars@.take(end as int) =~= chars@);
    while end > 0 && chars[end - 1] == '/'
        invariant
            end <= chars.len(),
            strip_trailing_slashes(chars@.take(end as int)) == strip_trailing_slashes(chars@),
        decreases end,
    {
        assert(chars@.take(end as int).drop_last() =~= chars@.take(end - 1));
        end -= 1;
    }
    end
}

/// One more segment behind a rooted path.
proof fn lemma_rooted_path_step(segments: Seq<Seq<char>>, k: int)
    requires
        0 <= k < segments.len(),
    ensures
        rooted_path(segments.take(k + 1)) == rooted_path(segments.take(k)) + seq!['/']
            + segments[k],
{
    assert(segments.take(k + 1).drop_last() =~= segments.take(k));
}

/// Replaces the namespace and the object name in a request path of the
/// Kubernetes API by `{namespace}` and `{name}`.
///
/// The path is cut into segments at its slashes. With a `base_path` that the
/// path starts with, the segments are those behind it, and the base path
/// stays in front of the result.
pub fn template_path(path: &str, base_path: Option<&str>) -> (out: String)
    ensures
        out@ == template_path_spec(
            path@,
            match base_path {
                Some(base) => Some(base@),
                None => None,
            },
        ),
{
    let chars = chars_of(path);
    let mut from: usize = 0;
    let mut kept: &str = "";
    let mut kept_len: usize = 0;
    if let Some(base) = base_path {
        let base_chars = chars_of(base);
        if starts_at(&chars, 0, &base_chars) {
            from = leading_copies_end(&chars, &base_chars);
            kept = base;
            kept_len = trimmed_len(&base_chars);
        }
    }
    let ghost spec_base = match base_path {
        Some(base) => Some(base@),
        None => None,
    };
    let ghost based = spec_base is Some && spec_base->0.is_prefix_of(path@);
    let ghost tail = if based {
        strip_leading(path@, spec_base->0)
    } else {
        path@
    };
    assert(chars@.skip(from as int) == tail);
    let bounds = segment_bounds(&chars, from);
    let ghost segments = split_segments(tail);
    let count = bounds.len();
    if count <= 2 {
        return path.to_owned();
    }
    let first = bounds[0];
    let index: usize = if piece_is(&chars, first.0, first.1, "api") {
        2
    } else if piece_is(&chars, first.0, first.1, "apis") {
        3
    } else {
        return "/{prefix}".to_owned();
    };
    // Positions of the segments that give way to a placeholder; `count` for none.
    let mut namespace_at: usize = count;
    let mut name_at: usize = count;
    let rest = count - index;
    if rest == 2 {
        name_at = index + 1;
    } else if rest == 3 {
        let last = bounds[index + 2];
        if piece_is(&chars, last.0, last.1, "finalize") || piece_is(
            &chars,
            last.0,
            last.1,
            "status",
        ) {
            name_at = index + 1;
        } else {
            namespace_at = index + 1;
        }
    } else if rest >= 4 {
        namespace_at = index + 1;
        let named = bounds[index + 3];
        if !(piece_is(&chars, named.0, named.1, "finalize") || piece_is(
            &chars,
            named.0,
            named.1,
            "status",
        )) {
            name_at = index + 3;
        }
    }
    let ghost filled = fill_placeholders(segments, index as int);
    let mut out = String::new();
    out.append(kept.substring_char(0, kept_len));
    let mut k: usize = 0;
    while k < count
        invariant
            k <= count == bounds.len(),
            chars@ == path@,
            filled.len() == count,
            out@ == kept@.take(kept_len as int) + rooted_path(filled.take(k as int)),
            forall|j: int|
                0 <= j < count ==> from <= (#[trigger] bounds[j]).0 < bounds[j].1 <= chars.len(),
            forall|j: int|
                0 <= j < count ==> #[trigger] filled[j] == if j == name_at {
                    "{name}"@
                } else if j == namespace_at {
                    "{namespace}"@
                } else {
                    pieces(chars@, bounds@)[j]
                },
        decreases count - k,
    {
        out.append("/");
        if k == name_at {
            out.append("{name}");
        } else if k == namespace_at {
            out.append("{namespace}");
        } else {
            let (lo, hi) = bounds[k];
            out.append(path.substring_char(lo, hi));
        }
        proof {
            reveal_strlit("/");
            lemma_rooted_path_step(filled, k as int);
        }
        k += 1;
    }
    assert(filled.take(count as int) =~= filled);
    out
}

} // verus!
