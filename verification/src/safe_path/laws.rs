//! What holds of every path: laws of splitting, trimming and normalizing,
//! each proved from the definitions.

use crate::safe_path::{
    accepts, is_confined, is_legal_segment, is_parent, is_plain_name, is_reserved, is_skipped,
    is_space, join, lemma_split_at_slash, lemma_split_nonempty, normalized, resolve, split,
    step, trim_end, trim_start, trimmed,
};
use vstd::prelude::*;

verus! {

/// How many levels below the directory one starts in one stands after
/// following `parts`, where `..` goes one level up and `.` stays.
pub open spec fn depth_after(parts: Seq<Seq<char>>) -> int
    decreases parts.len(),
{
    if parts.len() == 0 {
        0
    } else {
        let before = depth_after(parts.drop_last());
        if is_parent(parts.last()) {
            before - 1
        } else if is_skipped(parts.last()) {
            before
        } else {
            before + 1
        }
    }
}

/// The components that legal segments lead to are plain names.
pub proof fn lemma_resolve_is_confined(segs: Seq<Seq<char>>)
    requires
        forall|k: int| 0 <= k < segs.len() ==> is_legal_segment(trimmed(#[trigger] segs[k])),
    ensures
        is_confined(resolve(segs)),
    decreases segs.len(),
{
    if segs.len() > 0 {
        let front = segs.drop_last();
        assert forall|k: int| 0 <= k < front.len() implies is_legal_segment(
            trimmed(#[trigger] front[k]),
        ) by {
            assert(front[k] == segs[k]);
        }
        lemma_resolve_is_confined(front);
        assert(is_legal_segment(trimmed(segs[segs.len() - 1])));
        lemma_trim_is_idempotent(segs.last());
    }
}

/// Every accepted path normalizes to plain names only: no component is
/// empty, `.` or `..`, and none holds a slash or a backslash.
pub proof fn lemma_normalized_is_confined(path: Seq<char>)
    requires
        accepts(path),
    ensures
        is_confined(normalized(path)),
{
    lemma_resolve_is_confined(split(path));
}

/// Following plain names never climbs: after the first `k` components one
/// stands exactly `k` levels below the directory one started in, so never
/// above it.
pub proof fn lemma_confined_descends(parts: Seq<Seq<char>>, k: int)
    requires
        is_confined(parts),
        0 <= k <= parts.len(),
    ensures
        depth_after(parts.take(k)) == k,
    decreases k,
{
    if k > 0 {
        lemma_confined_descends(parts, k - 1);
        assert(parts.take(k).drop_last() =~= parts.take(k - 1));
        assert(parts.take(k).last() == parts[k - 1]);
        assert(is_plain_name(parts[k - 1]));
    }
}

/// Each character of `s` that is no slash stands in one of the pieces of
/// `s`.
pub proof fn lemma_split_keeps_chars(s: Seq<char>, i: int) -> (k: int)
    requires
        0 <= i < s.len(),
        s[i] != '/',
    ensures
        0 <= k < split(s).len(),
        split(s)[k].contains(s[i]),
    decreases s.len(),
{
    let before = split(s.drop_last());
    lemma_split_nonempty(s.drop_last());
    if i == s.len() - 1 {
        let piece = before.last().push(s.last());
        assert(piece[piece.len() - 1] == s[i]);
        before.len() - 1
    } else {
        let k = lemma_split_keeps_chars(s.drop_last(), i);
        let j = choose|j: int| 0 <= j < before[k].len() && before[k][j] == s[i];
        if s.last() != '/' && k == before.len() - 1 {
            assert(before.last().push(s.last())[j] == s[i]);
        }
        k
    }
}

/// Trimming takes away white space only.
pub proof fn lemma_trim_keeps_chars(s: Seq<char>, c: char)
    requires
        s.contains(c),
        !is_space(c),
    ensures
        trimmed(s).contains(c),
{
    lemma_trim_start_keeps_chars(s, c);
    lemma_trim_end_keeps_chars(trim_start(s), c);
}

proof fn lemma_trim_start_keeps_chars(s: Seq<char>, c: char)
    requires
        s.contains(c),
        !is_space(c),
    ensures
        trim_start(s).contains(c),
    decreases s.len(),
{
    if s.len() > 0 && is_space(s[0]) {
        let j = choose|j: int| 0 <= j < s.len() && s[j] == c;
        assert(s.drop_first()[j - 1] == c);
        lemma_trim_start_keeps_chars(s.drop_first(), c);
    }
}

proof fn lemma_trim_end_keeps_chars(s: Seq<char>, c: char)
    requires
        s.contains(c),
        !is_space(c),
    ensures
        trim_end(s).contains(c),
    decreases s.len(),
{
    if s.len() > 0 && is_space(s.last()) {
        let j = choose|j: int| 0 <= j < s.len() && s[j] == c;
        assert(s.drop_last()[j] == c);
        lemma_trim_end_keeps_chars(s.drop_last(), c);
    }
}

/// A path that holds a reserved character other than the slash, anywhere,
/// is not accepted.
pub proof fn lemma_reserved_is_rejected(path: Seq<char>, i: int)
    requires
        0 <= i < path.len(),
        is_reserved(path[i]),
        path[i] != '/',
    ensures
        !accepts(path),
{
    let k = lemma_split_keeps_chars(path, i);
    let seg = split(path)[k];
    lemma_trim_keeps_chars(seg, path[i]);
    let t = trimmed(seg);
    let j = choose|j: int| 0 <= j < t.len() && t[j] == path[i];
    assert(is_reserved(t[j]));
    assert(!is_legal_segment(t));
}

/// The pieces of a text, joined by slashes again, are the text, and no
/// piece holds a slash: the split is the only way to cut the text at each of
/// its slashes.
pub proof fn lemma_split_joins_back(s: Seq<char>)
    ensures
        join(split(s)) == s,
        forall|k: int, j: int|
            0 <= k < split(s).len() && 0 <= j < split(s)[k].len() ==> split(s)[k][j] != '/',
    decreases s.len(),
{
    if s.len() == 0 {
        assert(split(s)[0] =~= s);
    } else {
        let before = split(s.drop_last());
        lemma_split_joins_back(s.drop_last());
        lemma_split_nonempty(s.drop_last());
        let c = s.last();
        if c == '/' {
            let pieces = before.push(Seq::<char>::empty());
            assert(pieces.drop_last() =~= before);
            assert(join(pieces) =~= s.drop_last().push(c));
            assert(s.drop_last().push(c) =~= s);
        } else {
            let grown = before.last().push(c);
            let pieces = before.drop_last().push(grown);
            if before.len() == 1 {
                assert(before[0] == s.drop_last());
                assert(join(pieces) =~= s.drop_last().push(c));
            } else {
                assert(pieces.drop_last() =~= before.drop_last());
                assert(join(pieces) =~= join(before).push(c));
            }
            assert(s.drop_last().push(c) =~= s);
        }
    }
}

/// Where a text starts once the white space at its start is left out.
proof fn lemma_trim_start_is_a_tail(s: Seq<char>) -> (a: int)
    ensures
        0 <= a <= s.len(),
        trim_start(s) == s.skip(a),
        forall|i: int| 0 <= i < a ==> is_space(s[i]),
        a < s.len() ==> !is_space(s[a]),
    decreases s.len(),
{
    if s.len() > 0 && is_space(s[0]) {
        let inner = lemma_trim_start_is_a_tail(s.drop_first());
        assert(s.drop_first().skip(inner) =~= s.skip(inner + 1));
        assert forall|i: int| 0 <= i < inner + 1 implies is_space(s[i]) by {
            if i > 0 {
                assert(s[i] == s.drop_first()[i - 1]);
            }
        }
        inner + 1
    } else {
        assert(s.skip(0) =~= s);
        0
    }
}

/// Where a text ends once the white space at its end is left out.
proof fn lemma_trim_end_is_a_head(s: Seq<char>) -> (b: int)
    ensures
        0 <= b <= s.len(),
        trim_end(s) == s.take(b),
        forall|i: int| b <= i < s.len() ==> is_space(s[i]),
        b > 0 ==> !is_space(s[b - 1]),
    decreases s.len(),
{
    if s.len() > 0 && is_space(s.last()) {
        let inner = lemma_trim_end_is_a_head(s.drop_last());
        assert(s.drop_last().take(inner) =~= s.take(inner));
        assert forall|i: int| inner <= i < s.len() implies is_space(s[i]) by {
            if i < s.len() - 1 {
                assert(s[i] == s.drop_last()[i]);
            }
        }
        inner
    } else {
        assert(s.take(s.len() as int) =~= s);
        s.len() as int
    }
}

/// A trimmed text is the middle of the text it comes from: what is left out
/// before and behind it is white space, and it neither starts nor ends with
/// white space.
pub proof fn lemma_trimmed_is_the_middle(s: Seq<char>) -> (r: (int, int))
    ensures
        0 <= r.0 <= r.1 <= s.len(),
        trimmed(s) == s.subrange(r.0, r.1),
        forall|i: int| 0 <= i < r.0 ==> is_space(s[i]),
        forall|i: int| r.1 <= i < s.len() ==> is_space(s[i]),
        r.0 < r.1 ==> !is_space(s[r.0]) && !is_space(s[r.1 - 1]),
{
    let a = lemma_trim_start_is_a_tail(s);
    let tail = s.skip(a);
    let b = lemma_trim_end_is_a_head(tail);
    assert(tail.take(b) =~= s.subrange(a, a + b));
    assert forall|i: int| a + b <= i < s.len() implies is_space(s[i]) by {
        assert(s[i] == tail[i - a]);
    }
    if b > 0 {
        assert(tail[b - 1] == s[a + b - 1]);
        assert(tail[0] == s[a]);
    }
    (a, a + b)
}

/// Trimming what is trimmed changes nothing.
pub proof fn lemma_trim_is_idempotent(s: Seq<char>)
    ensures
        trimmed(trimmed(s)) == trimmed(s),
{
    let (a, b) = lemma_trimmed_is_the_middle(s);
    let t = trimmed(s);
    if t.len() > 0 {
        assert(t[0] == s[a]);
        assert(t.last() == s[b - 1]);
    }
}

/// A text without slashes is its own single piece.
pub proof fn lemma_split_of_slash_free(s: Seq<char>)
    requires
        forall|j: int| 0 <= j < s.len() ==> s[j] != '/',
    ensures
        split(s) == seq![s],
    decreases s.len(),
{
    if s.len() == 0 {
        assert(s =~= Seq::<char>::empty());
    } else {
        lemma_split_of_slash_free(s.drop_last());
        let before = split(s.drop_last());
        assert(before.drop_last().push(before.last().push(s.last())) =~= seq![
            s.drop_last().push(s.last()),
        ]);
        assert(s.drop_last().push(s.last()) =~= s);
    }
}

/// Splitting undoes joining, where no part holds a slash.
pub proof fn lemma_split_undoes_join(parts: Seq<Seq<char>>)
    requires
        parts.len() >= 1,
        forall|k: int, j: int| 0 <= k < parts.len() && 0 <= j < parts[k].len() ==> parts[k][j] != '/',
    ensures
        split(join(parts)) == parts,
    decreases parts.len(),
{
    if parts.len() == 1 {
        lemma_split_of_slash_free(parts[0]);
        assert(seq![parts[0]] =~= parts);
    } else {
        let front = parts.drop_last();
        assert forall|k: int, j: int| 0 <= k < front.len() && 0 <= j < front[k].len() implies front[k][j] != '/' by {
            assert(front[k] == parts[k]);
        }
        lemma_split_undoes_join(front);
        lemma_split_of_slash_free(parts.last());
        lemma_split_at_slash(join(front), parts.last());
        assert(front + seq![parts.last()] =~= parts);
    }
}

/// Plain names resolve to themselves.
pub proof fn lemma_resolve_keeps_plain_names(parts: Seq<Seq<char>>)
    requires
        is_confined(parts),
    ensures
        resolve(parts) == parts,
    decreases parts.len(),
{
    if parts.len() == 0 {
        assert(resolve(parts) =~= parts);
    } else {
        let front = parts.drop_last();
        assert forall|k: int| 0 <= k < front.len() implies is_plain_name(#[trigger] front[k]) by {
            assert(front[k] == parts[k]);
        }
        lemma_resolve_keeps_plain_names(front);
        assert(is_plain_name(parts[parts.len() - 1]));
        assert(front.push(parts.last()) =~= parts);
    }
}

/// The normal form is a fixed point: a confined path, written out with
/// slashes and normalized again, comes back as it was, and none of its
/// segments is turned down.
pub proof fn lemma_normal_form_is_fixed(parts: Seq<Seq<char>>)
    requires
        is_confined(parts),
    ensures
        normalized(join(parts)) == parts,
        forall|k: int|
            0 <= k < split(join(parts)).len() ==> is_legal_segment(
                trimmed(#[trigger] split(join(parts))[k]),
            ),
{
    if parts.len() == 0 {
        let only = Seq::<char>::empty();
        let segs = seq![only];
        assert(split(join(parts)) == segs);
        assert(trimmed(only) == only);
        assert(segs.drop_last() =~= Seq::<Seq<char>>::empty());
        assert(resolve(segs.drop_last()) == Seq::<Seq<char>>::empty());
        assert(resolve(segs) == step(resolve(segs.drop_last()), trimmed(segs.last())));
        assert(parts =~= Seq::<Seq<char>>::empty());
    } else {
        assert forall|k: int, j: int| 0 <= k < parts.len() && 0 <= j < parts[k].len() implies parts[k][j] != '/' by {
            assert(is_plain_name(parts[k]));
            assert(!is_reserved(parts[k][j]));
        }
        lemma_split_undoes_join(parts);
        lemma_resolve_keeps_plain_names(parts);
        assert forall|k: int| 0 <= k < parts.len() implies is_legal_segment(
            trimmed(#[trigger] parts[k]),
        ) by {
            assert(is_plain_name(parts[k]));
        }
    }
}

} // verus!
