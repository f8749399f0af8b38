//! Turning a slash-separated path sent by a client into a path that cannot
//! leave the directory it is joined to.

use vstd::prelude::*;
use vstd::string::*;

pub mod laws;

verus! {

/// The longest path, in bytes, that is looked at.
pub const LENGTH_LIMIT: usize = 2048;

/// The characters that no segment may hold.
pub open spec fn is_reserved(c: char) -> bool {
    c == '\\' || c == '/' || c == ':' || c == '*' || c == '?' || c == '"' || c == '<' || c == '>'
        || c == '|'
}

/// The characters with the Unicode property `White_Space`.
pub open spec fn is_space(c: char) -> bool {
    let u = c as u32;
    (0x09 <= u <= 0x0d) || u == 0x20 || u == 0x85 || u == 0xa0 || u == 0x1680 || (0x2000 <= u
        <= 0x200a) || u == 0x2028 || u == 0x2029 || u == 0x202f || u == 0x205f || u == 0x3000
}

/// Whether `c` is one of the reserved characters.
pub fn is_reserved_char(c: char) -> (r: bool)
    ensures
        r == is_reserved(c),
{
    c == '\\' || c == '/' || c == ':' || c == '*' || c == '?' || c == '"' || c == '<' || c == '>'
        || c == '|'
}

/// Whether `c` is white space.
pub fn is_whitespace(c: char) -> (r: bool)
    ensures
        r == is_space(c),
{
    let u: u32 = c as u32;
    (0x09 <= u && u <= 0x0d) || u == 0x20 || u == 0x85 || u == 0xa0 || u == 0x1680 || (0x2000 <= u
        && u <= 0x200a) || u == 0x2028 || u == 0x2029 || u == 0x202f || u == 0x205f || u == 0x3000
}

/// The characters of `s`, in order.
pub fn chars_of(s: &str) -> (v: Vec<char>)
    ensures
        v@ == s@,
{
    let mut v: Vec<char> = Vec::new();
    for c in it: s.chars()
        invariant
            v@ == it.seq().take(it.index() as int),
    {
        v.push(c);
    }
    v
}

/// `s` without the white space at its start.
pub open spec fn trim_start(s: Seq<char>) -> Seq<char>
    decreases s.len(),
{
    if s.len() > 0 && is_space(s[0]) {
        trim_start(s.drop_first())
    } else {
        s
    }
}

/// `s` without the white space at its end.
pub open spec fn trim_end(s: Seq<char>) -> Seq<char>
    decreases s.len(),
{
    if s.len() > 0 && is_space(s.last()) {
        trim_end(s.drop_last())
    } else {
        s
    }
}

/// `s` without the white space at either end.
pub open spec fn trimmed(s: Seq<char>) -> Seq<char> {
    trim_end(trim_start(s))
}

/// The pieces of `s` between its slashes: one more piece than there are
/// slashes, each free of slashes, empty ones included.
pub open spec fn split(s: Seq<char>) -> Seq<Seq<char>>
    decreases s.len(),
{
    if s.len() == 0 {
        seq![Seq::<char>::empty()]
    } else {
        let before = split(s.drop_last());
        if s.last() == '/' {
            before.push(Seq::<char>::empty())
        } else {
            before.drop_last().push(before.last().push(s.last()))
        }
    }
}

/// A segment made of three or more dots and nothing else.
pub open spec fn is_deformed(seg: Seq<char>) -> bool {
    seg.len() >= 3 && forall|j: int| 0 <= j < seg.len() ==> seg[j] == '.'
}

/// A segment without reserved characters.
pub open spec fn is_clean(seg: Seq<char>) -> bool {
    forall|j: int| 0 <= j < seg.len() ==> !is_reserved(#[trigger] seg[j])
}

/// A segment that is accepted.
pub open spec fn is_legal_segment(seg: Seq<char>) -> bool {
    is_clean(seg) && !is_deformed(seg)
}

/// The segment `..`.
pub open spec fn is_parent(seg: Seq<char>) -> bool {
    seg =~= seq!['.', '.']
}

/// The segments that leave the path as it is: the empty one and `.`.
pub open spec fn is_skipped(seg: Seq<char>) -> bool {
    seg.len() == 0 || seg =~= seq!['.']
}

/// What one trimmed segment does to the components gathered so far. `..`
/// at the top is dropped: there is nothing above the top to go to.
pub open spec fn step(acc: Seq<Seq<char>>, seg: Seq<char>) -> Seq<Seq<char>> {
    if is_parent(seg) {
        if acc.len() > 0 {
            acc.drop_last()
        } else {
            acc
        }
    } else if is_skipped(seg) {
        acc
    } else {
        acc.push(seg)
    }
}

/// The components that the raw segments `segs` lead to, each trimmed first.
pub open spec fn resolve(segs: Seq<Seq<char>>) -> Seq<Seq<char>>
    decreases segs.len(),
{
    if segs.len() == 0 {
        Seq::<Seq<char>>::empty()
    } else {
        step(resolve(segs.drop_last()), trimmed(segs.last()))
    }
}

/// The length of `path` in bytes, as UTF-8.
pub open spec fn byte_len(path: Seq<char>) -> nat {
    vstd::utf8::encode_utf8(path).len()
}

/// Whether `path` is accepted: it is short enough and each of its segments,
/// once trimmed, is legal.
pub open spec fn accepts(path: Seq<char>) -> bool {
    &&& byte_len(path) <= LENGTH_LIMIT
    &&& forall|k: int| 0 <= k < split(path).len() ==> is_legal_segment(trimmed(#[trigger] split(path)[k]))
}

/// The components of an accepted `path`.
pub open spec fn normalized(path: Seq<char>) -> Seq<Seq<char>> {
    resolve(split(path))
}

/// A component that names an entry of the directory it is looked up in: not
/// empty, not `.` or `..`, legal, and without white space at its ends.
pub open spec fn is_plain_name(seg: Seq<char>) -> bool {
    !is_skipped(seg) && !is_parent(seg) && is_legal_segment(seg) && trimmed(seg) == seg
}

/// Components that all are plain names. Joined to a directory one after the
/// other, each goes one level down: the result lies below that directory.
pub open spec fn is_confined(parts: Seq<Seq<char>>) -> bool {
    forall|k: int| 0 <= k < parts.len() ==> is_plain_name(#[trigger] parts[k])
}

/// The components of `parts` with a slash between each two.
pub open spec fn join(parts: Seq<Seq<char>>) -> Seq<char>
    decreases parts.len(),
{
    if parts.len() == 0 {
        Seq::<char>::empty()
    } else if parts.len() == 1 {
        parts[0]
    } else {
        join(parts.drop_last()) + seq!['/'] + parts.last()
    }
}

/// The directory that served files live in.
pub open spec fn root_dir() -> Seq<char> {
    seq!['f', 'i', 'l', 'e', 's']
}

/// Why a path was turned down.
#[derive(Debug, PartialEq, Eq)]
pub enum PathError {
    /// The path has more than `LENGTH_LIMIT` bytes.
    TooLong { len: usize },
    /// A segment holds the reserved character `ch` at `position`, counted in
    /// characters of the trimmed segment.
    IllegalCharacter { ch: char, position: usize, segment: String },
    /// A segment is made of three or more dots.
    IllegalSegment { segment: String },
}

impl PathError {
    /// Whether this error is the one that the segment `seg` calls for: its
    /// first reserved character or, if it has none, that it is deformed.
    pub open spec fn reports(self, seg: Seq<char>) -> bool {
        match self {
            PathError::TooLong { .. } => false,
            PathError::IllegalCharacter { ch, position, segment } => {
                &&& segment@ == seg
                &&& position < seg.len()
                &&& seg[position as int] == ch
                &&& is_reserved(ch)
                &&& is_clean(seg.take(position as int))
            },
            PathError::IllegalSegment { segment } => {
                &&& segment@ == seg
                &&& is_clean(seg)
                &&& is_deformed(seg)
            },
        }
    }
}

/// The views of the strings of `v`.
pub open spec fn names(v: Seq<String>) -> Seq<Seq<char>> {
    v.map_values(|s: String| s@)
}

/// A path made of plain names, to be joined to a directory. Its view is the
/// sequence of its components, outermost first. Only the functions of this
/// file make one, and each makes a confined one.
#[derive(Debug, PartialEq, Eq)]
pub struct SafePath {
    segments: Vec<String>,
}

impl View for SafePath {
    type V = Seq<Seq<char>>;

    closed spec fn view(&self) -> Seq<Seq<char>> {
        names(self.segments@)
    }
}

/// `k` is the first segment of `segs` that is not legal once trimmed.
pub open spec fn is_first_illegal(segs: Seq<Seq<char>>, k: int) -> bool {
    &&& 0 <= k < segs.len()
    &&& !is_legal_segment(trimmed(segs[k]))
    &&& forall|j: int| 0 <= j < k ==> is_legal_segment(trimmed(#[trigger] segs[j]))
}

/// Whether `e` is the error that `path` calls for: its length where it is
/// too long, else what is wrong with its first segment that is not legal.
pub open spec fn is_rejection_of(e: PathError, path: Seq<char>) -> bool {
    if byte_len(path) > LENGTH_LIMIT {
        e matches PathError::TooLong { len } && len == byte_len(path)
    } else {
        exists|k: int| is_first_illegal(split(path), k) && e.reports(trimmed(split(path)[k]))
    }
}

/// What is wrong with a segment.
enum Defect {
    Reserved { position: usize },
    Deformed,
}

/// Looks for the first reserved character between `from` and `to`, then for
/// a run of dots.
fn find_defect(chars: &Vec<char>, from: usize, to: usize) -> (r: Option<Defect>)
    requires
        from <= to <= chars.len(),
    ensures
        match r {
            None => is_legal_segment(chars@.subrange(from as int, to as int)),
            Some(Defect::Reserved { position }) => {
                &&& from <= position < to
                &&& is_reserved(chars@[position as int])
                &&& is_clean(chars@.subrange(from as int, position as int))
            },
            Some(Defect::Deformed) => {
                &&& is_clean(chars@.subrange(from as int, to as int))
                &&& is_deformed(chars@.subrange(from as int, to as int))
            },
        },
{
    let ghost seg = chars@.subrange(from as int, to as int);
    let mut i: usize = from;
    while i < to
        invariant
            from <= i <= to <= chars.len(),
            is_clean(chars@.subrange(from as int, i as int)),
        decreases to - i,
    {
        if is_reserved_char(chars[i]) {
            return Some(Defect::Reserved { position: i });
        }
        proof {
            let old_part = chars@.subrange(from as int, i as int);
            let new_part = chars@.subrange(from as int, i + 1);
            assert forall|j: int| 0 <= j < new_part.len() implies !is_reserved(
                #[trigger] new_part[j],
            ) by {
                if j < old_part.len() {
                    assert(new_part[j] == old_part[j]);
                }
            }
        }
        i += 1;
    }
    if to - from < 3 {
        return None;
    }
    let mut j: usize = from;
    while j < to
        invariant
            from <= j <= to <= chars.len(),
            seg == chars@.subrange(from as int, to as int),
            is_clean(seg),
            forall|k: int| 0 <= k < j - from ==> seg[k] == '.',
        decreases to - j,
    {
        if chars[j] != '.' {
            assert(seg[j - from] != '.');
            return None;
        }
        j += 1;
    }
    Some(Defect::Deformed)
}

/// Where `chars[from..to]` starts and ends once the white space at its two
/// ends is left out.
fn trim_bounds(chars: &Vec<char>, from: usize, to: usize) -> (r: (usize, usize))
    requires
        from <= to <= chars.len(),
    ensures
        from <= r.0 <= r.1 <= to,
        chars@.subrange(r.0 as int, r.1 as int) == trimmed(chars@.subrange(from as int, to as int)),
{
    let mut a: usize = from;
    while a < to && is_whitespace(chars[a])
        invariant
            from <= a <= to <= chars.len(),
            trim_start(chars@.subrange(from as int, to as int)) == trim_start(
                chars@.subrange(a as int, to as int),
            ),
        decreases to - a,
    {
        proof {
            let cur = chars@.subrange(a as int, to as int);
            assert(cur.drop_first() =~= chars@.subrange(a + 1, to as int));
        }
        a += 1;
    }
    let mut b: usize = to;
    while b > a && is_whitespace(chars[b - 1])
        invariant
            a <= b <= to <= chars.len(),
            trim_end(chars@.subrange(a as int, to as int)) == trim_end(
                chars@.subrange(a as int, b as int),
            ),
        decreases b - a,
    {
        proof {
            let cur = chars@.subrange(a as int, b as int);
            assert(cur.drop_last() =~= chars@.subrange(a as int, b - 1));
        }
        b -= 1;
    }
    (a, b)
}

/// Checks one segment, taken as it is: `Ok` if it holds no reserved
/// character and is not made of three or more dots.
pub fn ensure_legal_segment(segment: &str) -> (r: Result<(), PathError>)
    ensures
        match r {
            Ok(_) => is_legal_segment(segment@),
            Err(e) => e.reports(segment@),
        },
{
    let chars = chars_of(segment);
    proof {
        assert(chars@.subrange(0, chars@.len() as int) =~= segment@);
    }
    match find_defect(&chars, 0, chars.len()) {
        None => Ok(()),
        Some(Defect::Reserved { position }) => {
            proof {
                assert(chars@.subrange(0, position as int) =~= segment@.take(position as int));
            }
            Err(
                PathError::IllegalCharacter {
                    ch: chars[position],
                    position,
                    segment: segment.to_owned(),
                },
            )
        },
        Some(Defect::Deformed) => Err(PathError::IllegalSegment { segment: segment.to_owned() }),
    }
}

/// A split has at least one piece.
pub proof fn lemma_split_nonempty(s: Seq<char>)
    ensures
        split(s).len() >= 1,
    decreases s.len(),
{
    if s.len() > 0 {
        lemma_split_nonempty(s.drop_last());
    }
}

/// Splitting `a`, a slash and `b` gives the pieces of `a`, then those of `b`.
pub proof fn lemma_split_at_slash(a: Seq<char>, b: Seq<char>)
    ensures
        split(a + seq!['/'] + b) == split(a) + split(b),
    decreases b.len(),
{
    let s = a + seq!['/'] + b;
    if b.len() == 0 {
        assert(s.drop_last() =~= a);
        assert(split(a).push(Seq::<char>::empty()) =~= split(a) + split(b));
    } else {
        let shorter = a + seq!['/'] + b.drop_last();
        assert(s.drop_last() =~= shorter);
        lemma_split_at_slash(a, b.drop_last());
        lemma_split_nonempty(b.drop_last());
        let tail = split(b.drop_last());
        let before = split(a) + tail;
        if b.last() == '/' {
            assert(before.push(Seq::<char>::empty()) =~= split(a) + tail.push(
                Seq::<char>::empty(),
            ));
        } else {
            assert(before.drop_last() =~= split(a) + tail.drop_last());
            assert(before.last() == tail.last());
            assert(before.drop_last().push(before.last().push(b.last())) =~= split(a)
                + tail.drop_last().push(tail.last().push(b.last())));
        }
    }
}

/// Trims and checks `chars[from..to]` and lets it act on the components in
/// `out`.
fn apply_segment(
    path: &str,
    chars: &Vec<char>,
    from: usize,
    to: usize,
    out: &mut Vec<String>,
) -> (r: Result<(), PathError>)
    requires
        chars@ == path@,
        from <= to <= chars.len(),
        is_confined(names(old(out)@)),
    ensures
        match r {
            Ok(_) => {
                &&& is_legal_segment(trimmed(chars@.subrange(from as int, to as int)))
                &&& names(final(out)@) == step(
                    names(old(out)@),
                    trimmed(chars@.subrange(from as int, to as int)),
                )
                &&& is_confined(names(final(out)@))
            },
            Err(e) => {
                &&& !is_legal_segment(trimmed(chars@.subrange(from as int, to as int)))
                &&& e.reports(trimmed(chars@.subrange(from as int, to as int)))
            },
        },
{
    let (a, b) = trim_bounds(chars, from, to);
    let ghost seg = chars@.subrange(a as int, b as int);
    let piece = path.substring_char(a, b);
    match find_defect(chars, a, b) {
        Some(Defect::Reserved { position }) => {
            proof {
                assert(seg.take(position - a) =~= chars@.subrange(a as int, position as int));
                assert(seg[position - a] == chars@[position as int]);
            }
            return Err(
                PathError::IllegalCharacter {
                    ch: chars[position],
                    position: position - a,
                    segment: piece.to_owned(),
                },
            );
        },
        Some(Defect::Deformed) => {
            return Err(PathError::IllegalSegment { segment: piece.to_owned() });
        },
        None => {},
    }
    let len = b - a;
    if len == 2 && chars[a] == '.' && chars[a + 1] == '.' {
        assert(is_parent(seg));
        if out.len() > 0 {
            out.pop();
            assert(names(out@) =~= names(old(out)@).drop_last());
        }
    } else if len == 0 || (len == 1 && chars[a] == '.') {
        assert(is_skipped(seg));
    } else {
        assert(!is_parent(seg)) by {
            if is_parent(seg) {
                assert(seg.len() == 2 && seg[0] == '.' && seg[1] == '.');
            }
        }
        assert(!is_skipped(seg)) by {
            if seg =~= seq!['.'] {
                assert(seg.len() == 1 && seg[0] == '.');
            }
        }
        out.push(piece.to_owned());
        proof {
            laws::lemma_trim_is_idempotent(chars@.subrange(from as int, to as int));
            assert(names(out@) =~= names(old(out)@).push(seg));
        }
    }
    Ok(())
}

/// Normalizes a path sent by a client.
///
/// The path is split at its slashes and each segment is trimmed. A segment
/// with a reserved character, or made of three or more dots, has the whole
/// path turned down, as has a path of more than `LENGTH_LIMIT` bytes. Of the
/// others, `..` takes the last component away, if there is one; `.` and the
/// empty segment do nothing; any other segment becomes the next component.
/// The first segment that is not legal decides the error.
pub fn normalize_web_path(path: &str) -> (r: Result<SafePath, PathError>)
    ensures
        r is Ok <==> accepts(path@),
        match r {
            Ok(p) => p@ == normalized(path@) && is_confined(p@),
            Err(e) => is_rejection_of(e, path@),
        },
{
    let byte_count = path.as_bytes().len();
    if byte_count > LENGTH_LIMIT {
        return Err(PathError::TooLong { len: byte_count });
    }
    let chars = chars_of(path);
    let n = chars.len();
    let mut out: Vec<String> = Vec::new();
    let ghost mut done: Seq<Seq<char>> = Seq::empty();
    let mut start: usize = 0;
    let mut i: usize = 0;
    proof {
        assert(names(out@) =~= resolve(done));
        assert(chars@.take(0) =~= Seq::<char>::empty());
        assert(done.push(chars@.subrange(0, 0)) =~= seq![Seq::<char>::empty()]);
    }
    while i < n
        invariant
            chars@ == path@,
            byte_len(path@) <= LENGTH_LIMIT,
            n == chars.len(),
            start <= i <= n,
            split(chars@.take(i as int)) == done.push(chars@.subrange(start as int, i as int)),
            forall|j: int| 0 <= j < done.len() ==> is_legal_segment(trimmed(#[trigger] done[j])),
            names(out@) == resolve(done),
            is_confined(names(out@)),
        decreases n - i,
    {
        let ghost cur = chars@.subrange(start as int, i as int);
        proof {
            assert(chars@.take(i + 1).drop_last() =~= chars@.take(i as int));
        }
        if chars[i] == '/' {
            proof {
                assert(chars@ =~= chars@.take(i as int) + seq!['/'] + chars@.skip(i + 1));
                lemma_split_at_slash(chars@.take(i as int), chars@.skip(i + 1));
            }
            match apply_segment(path, &chars, start, i, &mut out) {
                Err(e) => {
                    proof {
                        let k = done.len() as int;
                        let segs = split(path@);
                        assert(segs[k] == cur);
                        assert forall|j: int| 0 <= j < k implies is_legal_segment(
                            trimmed(#[trigger] segs[j]),
                        ) by {
                            assert(segs[j] == done[j]);
                        }
                        assert(is_first_illegal(segs, k));
                    }
                    return Err(e);
                },
                Ok(_) => {},
            }
            proof {
                assert(done.push(cur).drop_last() =~= done);
                done = done.push(cur);
                assert(chars@.subrange(i + 1, i + 1) =~= Seq::<char>::empty());
            }
            start = i + 1;
        } else {
            proof {
                let before = done.push(cur);
                assert(before.drop_last() =~= done);
                assert(cur.push(chars@[i as int]) =~= chars@.subrange(start as int, i + 1));
            }
        }
        i += 1;
    }
    let ghost cur = chars@.subrange(start as int, n as int);
    proof {
        assert(chars@.take(n as int) =~= chars@);
    }
    match apply_segment(path, &chars, start, n, &mut out) {
        Err(e) => {
            proof {
                let k = done.len() as int;
                let segs = split(path@);
                assert(segs[k] == cur);
                assert forall|j: int| 0 <= j < k implies is_legal_segment(
                    trimmed(#[trigger] segs[j]),
                ) by {
                    assert(segs[j] == done[j]);
                }
                assert(is_first_illegal(segs, k));
            }
            Err(e)
        },
        Ok(_) => {
            proof {
                let segs = split(path@);
                assert(segs.drop_last() =~= done);
                assert forall|j: int| 0 <= j < segs.len() implies is_legal_segment(
                    trimmed(#[trigger] segs[j]),
                ) by {
                    if j < done.len() {
                        assert(segs[j] == done[j]);
                    }
                }
            }
            Ok(SafePath { segments: out })
        },
    }
}

/// Normalizes `path` and puts the served directory in front of it.
pub fn normalize_web_path_as_file(path: &str) -> (r: Result<SafePath, PathError>)
    ensures
        r is Ok <==> accepts(path@),
        match r {
            Ok(p) => p@ == seq![root_dir()] + normalized(path@) && is_confined(p@),
            Err(e) => is_rejection_of(e, path@),
        },
{
    match normalize_web_path(path) {
        Err(e) => Err(e),
        Ok(inner) => {
            let mut rest = inner.segments;
            let mut segments: Vec<String> = Vec::new();
            let root = "files";
            proof {
                reveal_strlit("files");
                assert(root@ =~= root_dir());
            }
            segments.push(root.to_owned());
            let ghost body = rest@;
            segments.append(&mut rest);
            proof {
                assert(names(segments@) =~= seq![root_dir()] + names(body));
                assert(is_plain_name(root_dir())) by {
                    assert(root_dir().len() == 5);
                    assert(root_dir()[0] == 'f');
                }
            }
            Ok(SafePath { segments })
        },
    }
}

impl SafePath {
    #[verifier::type_invariant]
    spec fn inv(self) -> bool {
        is_confined(self@)
    }

    /// The path without components: the directory it is joined to.
    pub fn new() -> (p: SafePath)
        ensures
            p@ == Seq::<Seq<char>>::empty(),
    {
        let segments: Vec<String> = Vec::new();
        assert(names(segments@) =~= Seq::<Seq<char>>::empty());
        SafePath { segments }
    }

    /// The number of components.
    pub fn depth(&self) -> (n: usize)
        ensures
            n == self@.len(),
    {
        self.segments.len()
    }

    /// The components, outermost first. Each is a plain name.
    pub fn segments(&self) -> (list: &Vec<String>)
        ensures
            names(list@) == self@,
            is_confined(self@),
    {
        proof {
            use_type_invariant(self);
        }
        &self.segments
    }

    /// The path as text, its components joined by slashes.
    pub fn joined(&self) -> (text: String)
        ensures
            text@ == join(self@),
            is_confined(self@),
    {
        proof {
            use_type_invariant(self);
        }
        let mut text = String::new();
        let n = self.segments.len();
        let mut i: usize = 0;
        while i < n
            invariant
                n == self.segments.len(),
                i <= n,
                text@ == join(self@.take(i as int)),
            decreases n - i,
        {
            proof {
                reveal_strlit("/");
                assert(self@.take(i + 1).drop_last() =~= self@.take(i as int));
                assert(self@.take(i + 1).last() == self.segments@[i as int]@);
            }
            if i > 0 {
                text.append("/");
                assert("/"@ =~= seq!['/']);
            }
            text.append(self.segments[i].as_str());
            proof {
                if i == 0 {
                    assert(text@ =~= self.segments@[0]@);
                }
            }
            i += 1;
        }
        proof {
            assert(self@.take(n as int) =~= self@);
        }
        text
    }
}

} // verus!
