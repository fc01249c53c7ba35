//! Flattening a source path into a relative path under a backup root.
//!
//! A source path is read as a volume prefix (a drive letter, a network share,
//! or a verbatim or device prefix), followed by separators and segments. The
//! drive letter becomes one segment, the share two (host, then share), and
//! verbatim or device prefixes none. The segments follow in order; empty and
//! `.` segments are dropped and `..` removes the segment before it, so the
//! result never climbs out of the backup root. Both `/` and `\` separate.
use vstd::prelude::*;
use crate::entry::{is_sep, is_separator};
use crate::text::{chars_equal, chars_of, push_all, slice_chars, string_of};

verus! {

/// An ASCII letter, as drive letters are.
pub open spec fn is_letter(c: char) -> bool {
    ('a' <= c && c <= 'z') || ('A' <= c && c <= 'Z')
}

/// Index of the first separator at or after `i`, or the length when none is.
pub open spec fn next_sep(p: Seq<char>, i: int) -> int
    decreases p.len() - i,
{
    if i < 0 || i >= p.len() {
        p.len() as int
    } else if is_sep(p[i]) {
        i
    } else {
        next_sep(p, i + 1)
    }
}

/// A `host` and `share` pair starting at `start`, each non-empty, and the
/// index just past the share.
pub open spec fn share_at(p: Seq<char>, start: int) -> Option<(Seq<Seq<char>>, int)> {
    let h = next_sep(p, start);
    let s = next_sep(p, h + 1);
    if start < h && h < p.len() && h + 1 < s {
        Some((seq![p.subrange(start, h), p.subrange(h + 1, s)], s))
    } else {
        None
    }
}

/// Two separators and then `mark` and a separator: `\\?\` or `\\.\`.
pub open spec fn marked_head(p: Seq<char>, mark: char) -> bool {
    p.len() >= 4 && is_sep(p[0]) && is_sep(p[1]) && p[2] == mark && is_sep(p[3])
}

/// `UNC` and a separator right after a verbatim head.
pub open spec fn verbatim_share_head(p: Seq<char>) -> bool {
    p.len() >= 8 && p[4] == 'U' && p[5] == 'N' && p[6] == 'C' && is_sep(p[7])
}

/// A drive letter and a colon right after a verbatim head, ending there or
/// followed by a separator.
pub open spec fn verbatim_drive_head(p: Seq<char>) -> bool {
    p.len() >= 6 && is_letter(p[4]) && p[5] == ':' && (p.len() == 6 || is_sep(p[6]))
}

/// The segments that the volume prefix of `p` contributes, and how many
/// characters the prefix spans.
pub open spec fn volume(p: Seq<char>) -> (Seq<Seq<char>>, int) {
    if marked_head(p, '?') {
        if verbatim_share_head(p) && share_at(p, 8) is Some {
            share_at(p, 8)->0
        } else if verbatim_drive_head(p) {
            (seq![seq![p[4]]], 6)
        } else {
            (seq![], next_sep(p, 4))
        }
    } else if marked_head(p, '.') {
        (seq![], next_sep(p, 4))
    } else if p.len() >= 2 && is_sep(p[0]) && is_sep(p[1]) && share_at(p, 2) is Some {
        share_at(p, 2)->0
    } else if p.len() >= 2 && is_letter(p[0]) && p[1] == ':' {
        (seq![seq![p[0]]], 2)
    } else {
        (seq![], 0)
    }
}

/// Closes the segment `cur` onto `segs`: an empty or `.` segment adds
/// nothing, `..` drops the last segment, any other is appended.
pub open spec fn settle(segs: Seq<Seq<char>>, cur: Seq<char>) -> Seq<Seq<char>> {
    if cur.len() == 0 || cur == seq!['.'] {
        segs
    } else if cur == seq!['.', '.'] {
        if segs.len() > 0 {
            segs.drop_last()
        } else {
            segs
        }
    } else {
        segs.push(cur)
    }
}

/// The segments closed so far while reading `s` left to right, and the one
/// still open.
pub open spec fn scan(s: Seq<char>) -> (Seq<Seq<char>>, Seq<char>)
    decreases s.len(),
{
    if s.len() == 0 {
        (seq![], seq![])
    } else {
        let (segs, cur) = scan(s.drop_last());
        if is_sep(s.last()) {
            (settle(segs, cur), seq![])
        } else {
            (segs, cur.push(s.last()))
        }
    }
}

/// The segments of `s`, split at separators.
pub open spec fn segments(s: Seq<char>) -> Seq<Seq<char>> {
    settle(scan(s).0, scan(s).1)
}

/// The segments joined by `/`.
pub open spec fn join(segs: Seq<Seq<char>>) -> Seq<char>
    decreases segs.len(),
{
    if segs.len() == 0 {
        seq![]
    } else if segs.len() == 1 {
        segs[0]
    } else {
        join(segs.drop_last()) + seq!['/'] + segs.last()
    }
}

/// All segments of the flattened form of `p`: the volume's, then the rest.
pub open spec fn flat_segments(p: Seq<char>) -> Seq<Seq<char>> {
    volume(p).0 + segments(p.skip(volume(p).1))
}

/// The relative path that stands for `p` under any backup root.
pub open spec fn relative_path(p: Seq<char>) -> Seq<char> {
    join(flat_segments(p))
}

/// `rel` joined onto `root`, with one separator between them.
pub open spec fn under_root(root: Seq<char>, rel: Seq<char>) -> Seq<char> {
    if rel.len() == 0 {
        root
    } else if root.len() == 0 {
        rel
    } else if is_sep(root.last()) {
        root + rel
    } else {
        root + seq!['/'] + rel
    }
}

/// Where the source path `p` lands under the backup root `root`.
pub open spec fn backup_path(p: Seq<char>, root: Seq<char>) -> Seq<char> {
    under_root(root, relative_path(p))
}

/// Index of the first separator at or after `i`.
fn next_separator(p: &Vec<char>, i: usize) -> (r: usize)
    ensures
        r == next_sep(p@, i as int),
        r <= p.len(),
{
    if i >= p.len() {
        return p.len();
    }
    let mut j: usize = i;
    while j < p.len() && !is_separator(p[j])
        invariant
            i <= j <= p.len(),
            next_sep(p@, i as int) == next_sep(p@, j as int),
        decreases p.len() - j,
    {
        j = j + 1;
    }
    j
}

/// Tests a character for being an ASCII letter.
fn is_ascii_letter(c: char) -> (r: bool)
    ensures
        r == is_letter(c),
{
    ('a' <= c && c <= 'z') || ('A' <= c && c <= 'Z')
}

/// The host and share starting at `start`, as `share_at` gives them.
fn read_share(p: &Vec<char>, start: usize) -> (r: Option<(Vec<Vec<char>>, usize)>)
    requires
        start <= p.len(),
    ensures
        r is Some <==> share_at(p@, start as int) is Some,
        r matches Some((segs, end)) ==> share_at(p@, start as int) == Some(
            (segs.deep_view(), end as int),
        ) && end <= p.len(),
{
    let h = next_separator(p, start);
    if h >= p.len() {
        return None;
    }
    let s = next_separator(p, h + 1);
    if start < h && h + 1 < s {
        let host = slice_chars(p, start, h);
        let share = slice_chars(p, h + 1, s);
        let mut segs: Vec<Vec<char>> = Vec::new();
        segs.push(host);
        segs.push(share);
        assert(segs.deep_view()[0] =~= p@.subrange(start as int, h as int));
        assert(segs.deep_view()[1] =~= p@.subrange(h + 1, s as int));
        assert(segs.deep_view() =~= seq![p@.subrange(start as int, h as int), p@.subrange(h + 1, s as int)]);
        Some((segs, s))
    } else {
        None
    }
}

/// A single-character segment.
fn letter_segment(c: char) -> (r: Vec<Vec<char>>)
    ensures
        r.deep_view() == seq![seq![c]],
{
    let mut one: Vec<char> = Vec::new();
    one.push(c);
    let mut r: Vec<Vec<char>> = Vec::new();
    r.push(one);
    assert(r.deep_view()[0] =~= seq![c]);
    assert(r.deep_view() =~= seq![seq![c]]);
    r
}

/// The segments of the volume prefix of `p`, and its length.
fn read_volume(p: &Vec<char>) -> (r: (Vec<Vec<char>>, usize))
    ensures
        r.0.deep_view() == volume(p@).0,
        r.1 == volume(p@).1,
        r.1 <= p.len(),
{
    let n = p.len();
    let marked = n >= 4 && is_separator(p[0]) && is_separator(p[1]) && is_separator(p[3]);
    if marked && p[2] == '?' {
        if n >= 8 && p[4] == 'U' && p[5] == 'N' && p[6] == 'C' && is_separator(p[7]) {
            if let Some(found) = read_share(p, 8) {
                return found;
            }
        }
        if n >= 6 && is_ascii_letter(p[4]) && p[5] == ':' && (n == 6 || is_separator(p[6])) {
            return (letter_segment(p[4]), 6);
        }
        let e = next_separator(p, 4);
        let none: Vec<Vec<char>> = Vec::new();
        assert(none.deep_view() =~= Seq::<Seq<char>>::empty());
        (none, e)
    } else if marked && p[2] == '.' {
        let e = next_separator(p, 4);
        let none: Vec<Vec<char>> = Vec::new();
        assert(none.deep_view() =~= Seq::<Seq<char>>::empty());
        (none, e)
    } else {
        if n >= 2 && is_separator(p[0]) && is_separator(p[1]) {
            if let Some(found) = read_share(p, 2) {
                return found;
            }
        }
        if n >= 2 && is_ascii_letter(p[0]) && p[1] == ':' {
            return (letter_segment(p[0]), 2);
        }
        let none: Vec<Vec<char>> = Vec::new();
        assert(none.deep_view() =~= Seq::<Seq<char>>::empty());
        (none, 0)
    }
}

/// Where the relative part begins in `under_root(root, rel)` when `rel` is
/// not empty.
pub open spec fn root_offset(root: Seq<char>) -> int {
    if root.len() == 0 {
        0
    } else if is_sep(root.last()) {
        root.len() as int
    } else {
        root.len() + 1int
    }
}

/// Joining a leading segment: it comes first, then `/` and the rest.
pub proof fn lemma_join_front(x: Seq<char>, t: Seq<Seq<char>>)
    ensures
        join(seq![x] + t) == x + (if t.len() == 0 {
            Seq::<char>::empty()
        } else {
            seq!['/'] + join(t)
        }),
    decreases t.len(),
{
    if t.len() == 0 {
        assert(seq![x] + t =~= seq![x]);
        assert(x + Seq::<char>::empty() =~= x);
    } else if t.len() == 1 {
        assert((seq![x] + t).drop_last() =~= seq![x]);
        assert((seq![x] + t).last() == t[0]);
        assert(join(seq![x]) == x);
        assert(join(t) == t[0]);
        assert(x + seq!['/'] + t[0] =~= x + (seq!['/'] + t[0]));
    } else {
        lemma_join_front(x, t.drop_last());
        assert((seq![x] + t).drop_last() =~= seq![x] + t.drop_last());
        assert((seq![x] + t).last() == t.last());
        assert(x + seq!['/'] + join(t.drop_last()) + seq!['/'] + t.last() =~= x + (seq!['/'] + (
        join(t.drop_last()) + seq!['/'] + t.last())));
    }
}

/// Two source paths that differ only in their drive letter land at backup
/// paths of equal length that differ in one character only, the drive
/// letter, which stands right after the backup root; so files of distinct
/// drives never meet.
pub proof fn lemma_drive_letter_alone_differs(a: char, b: char, rest: Seq<char>, root: Seq<char>)
    requires
        is_letter(a),
        is_letter(b),
    ensures
        backup_path(seq![a, ':'] + rest, root).len() == backup_path(seq![b, ':'] + rest, root).len(),
        backup_path(seq![a, ':'] + rest, root)[root_offset(root)] == a,
        backup_path(seq![b, ':'] + rest, root)[root_offset(root)] == b,
        backup_path(seq![a, ':'] + rest, root) == backup_path(seq![b, ':'] + rest, root).update(
            root_offset(root),
            a,
        ),
        a != b ==> backup_path(seq![a, ':'] + rest, root) != backup_path(seq![b, ':'] + rest, root),
{
    let pa = seq![a, ':'] + rest;
    let pb = seq![b, ':'] + rest;
    assert(pa.skip(2) =~= rest);
    assert(pb.skip(2) =~= rest);
    assert(volume(pa) == (seq![seq![a]], 2int));
    assert(volume(pb) == (seq![seq![b]], 2int));
    let t = segments(rest);
    let suffix = if t.len() == 0 {
        Seq::<char>::empty()
    } else {
        seq!['/'] + join(t)
    };
    lemma_join_front(seq![a], t);
    lemma_join_front(seq![b], t);
    assert(relative_path(pa) == seq![a] + suffix);
    assert(relative_path(pb) == seq![b] + suffix);
    let fa = backup_path(pa, root);
    let fb = backup_path(pb, root);
    let k = root_offset(root);
    if root.len() == 0 {
        assert(fa =~= seq![a] + suffix);
        assert(fb =~= seq![b] + suffix);
    } else if is_sep(root.last()) {
        assert(fa =~= root + (seq![a] + suffix));
        assert(fb =~= root + (seq![b] + suffix));
    } else {
        assert(fa =~= root + seq!['/'] + (seq![a] + suffix));
        assert(fb =~= root + seq!['/'] + (seq![b] + suffix));
    }
    assert(fa =~= fb.update(k, a));
    if a != b {
        assert(fa[k] != fb[k]);
    }
}

/// Closes `cur` onto `segs`, as `settle` does.
fn settle_segment(segs: &mut Vec<Vec<char>>, cur: Vec<char>)
    ensures
        final(segs).deep_view() == settle(old(segs).deep_view(), cur@),
{
    let ghost before = segs.deep_view();
    let dot: Vec<char> = vec!['.'];
    let dots: Vec<char> = vec!['.', '.'];
    assert(dot@ =~= seq!['.']);
    assert(dots@ =~= seq!['.', '.']);
    if cur.len() == 0 || chars_equal(&cur, &dot) {
    } else if chars_equal(&cur, &dots) {
        if segs.len() > 0 {
            segs.pop();
            assert(segs.deep_view() =~= before.drop_last());
        }
    } else {
        let ghost c = cur@;
        segs.push(cur);
        assert(segs.deep_view()[before.len() as int] == c);
        assert(segs.deep_view() =~= before.push(c));
    }
}

/// The segments of `p` from `start` on.
fn read_segments(p: &Vec<char>, start: usize) -> (r: Vec<Vec<char>>)
    requires
        start <= p.len(),
    ensures
        r.deep_view() == segments(p@.skip(start as int)),
{
    let ghost s = p@.skip(start as int);
    let mut segs: Vec<Vec<char>> = Vec::new();
    let mut cur: Vec<char> = Vec::new();
    let mut i: usize = start;
    assert(s.take(0) =~= Seq::<char>::empty());
    assert(segs.deep_view() =~= Seq::<Seq<char>>::empty());
    while i < p.len()
        invariant
            start <= i <= p.len(),
            s == p@.skip(start as int),
            segs.deep_view() == scan(s.take(i - start)).0,
            cur@ == scan(s.take(i - start)).1,
        decreases p.len() - i,
    {
        let ghost t = s.take(i + 1 - start);
        assert(t.drop_last() =~= s.take(i - start));
        assert(t.last() == p@[i as int]);
        if is_separator(p[i]) {
            let closed = cur;
            cur = Vec::new();
            settle_segment(&mut segs, closed);
            assert(cur@ =~= Seq::<char>::empty());
        } else {
            cur.push(p[i]);
        }
        i = i + 1;
    }
    assert(s.take(p.len() - start) =~= s);
    settle_segment(&mut segs, cur);
    segs
}

/// The segments joined by `/`.
fn join_segments(segs: &Vec<Vec<char>>) -> (r: Vec<char>)
    ensures
        r@ == join(segs.deep_view()),
{
    let ghost d = segs.deep_view();
    let mut out: Vec<char> = Vec::new();
    let mut k: usize = 0;
    assert(d.take(0) =~= Seq::<Seq<char>>::empty());
    while k < segs.len()
        invariant
            k <= segs.len(),
            d == segs.deep_view(),
            out@ == join(d.take(k as int)),
        decreases segs.len() - k,
    {
        let ghost t = d.take(k + 1);
        assert(t.drop_last() =~= d.take(k as int));
        assert(t.last() == segs[k as int]@);
        if k > 0 {
            out.push('/');
        }
        push_all(&mut out, &segs[k]);
        proof {
            if k == 0 {
                assert(out@ =~= t[0]);
            } else {
                assert(out@ =~= join(d.take(k as int)) + seq!['/'] + t.last());
            }
        }
        k = k + 1;
    }
    assert(d.take(segs.len() as int) =~= d);
    out
}

/// The backup path of `source_file_path` under `backup_dir_path`.
///
/// A drive letter becomes the first segment and a network share the first
/// two, so that files from distinct volumes never meet under one root:
/// `C:/Users/bob/Documents/test.txt` under `C:/Users/bob/Backup` lands at
/// `C:/Users/bob/Backup/C/Users/bob/Documents/test.txt`.
pub fn create_backup_file_path(source_file_path: &str, backup_dir_path: &str) -> (r: String)
    ensures
        r@ == backup_path(source_file_path@, backup_dir_path@),
{
    let p = chars_of(source_file_path);
    let root = chars_of(backup_dir_path);
    let (mut all, consumed) = read_volume(&p);
    let mut rest = read_segments(&p, consumed);
    let ghost head = all.deep_view();
    let ghost tail = rest.deep_view();
    all.append(&mut rest);
    assert(all.deep_view() =~= head + tail);
    let rel = join_segments(&all);
    let mut out = root.clone();
    if rel.len() > 0 && root.len() > 0 && !is_separator(root[root.len() - 1]) {
        out.push('/');
    }
    push_all(&mut out, &rel);
    proof {
        assert(root@.len() > 0 ==> root@.last() == root@[root.len() - 1]);
        if rel@.len() == 0 {
            assert(out@ =~= root@);
        }
        if root@.len() == 0 {
            assert(out@ =~= rel@);
        }
    }
    string_of(&out)
}

} // verus!
