//! Paths are held as UTF-8 strings with `/` as separator. This module gives
//! them the meaning that `std::path` gives paths on Unix.
use vstd::prelude::*;
use vstd::string::*;

verus! {

/// Whether a path is absolute: it starts at the root `/`.
pub open spec fn is_absolute(p: Seq<char>) -> bool {
    p.len() > 0 && p[0] == '/'
}

/// `base.join(p)`: an absolute `p` replaces `base`; otherwise `p` is appended,
/// with one `/` in between unless `base` is empty or already ends in `/`.
pub open spec fn path_join(base: Seq<char>, p: Seq<char>) -> Seq<char> {
    if is_absolute(p) {
        p
    } else if base.len() == 0 || base.last() == '/' {
        base + p
    } else {
        base + seq!['/'] + p
    }
}

fn slash() -> (s: &'static str)
    ensures
        s@ == seq!['/'],
{
    proof {
        reveal_strlit("/");
    }
    "/"
}

/// Joins `p` onto `base` as `Path::join` does.
pub fn join(base: &str, p: &str) -> (r: String)
    ensures
        r@ == path_join(base@, p@),
{
    let p_len = p.unicode_len();
    if p_len > 0 && p.get_char(0) == '/' {
        return p.to_owned();
    }
    let b_len = base.unicode_len();
    let mut r = base.to_owned();
    if b_len > 0 && base.get_char(b_len - 1) != '/' {
        r.append(slash());
    }
    r.append(p);
    r
}

/// The pieces of `p` between `/` separators: `n` separators give `n + 1`
/// pieces, some of them empty.
pub open spec fn split_pieces(p: Seq<char>) -> Seq<Seq<char>>
    decreases p.len(),
{
    if p.len() == 0 {
        seq![Seq::empty()]
    } else {
        let rest = split_pieces(p.drop_last());
        if p.last() == '/' {
            rest.push(Seq::empty())
        } else {
            rest.update(rest.len() - 1, rest.last().push(p.last()))
        }
    }
}

/// Every path has at least one piece.
pub proof fn lemma_split_pieces_nonempty(p: Seq<char>)
    ensures
        split_pieces(p).len() >= 1,
    decreases p.len(),
{
    if p.len() > 0 {
        lemma_split_pieces_nonempty(p.drop_last());
    }
}

/// A path without separators is a single piece.
pub proof fn lemma_single_piece(p: Seq<char>)
    requires
        forall|i: int| 0 <= i < p.len() ==> p[i] != '/',
    ensures
        split_pieces(p) == seq![p],
    decreases p.len(),
{
    if p.len() > 0 {
        lemma_single_piece(p.drop_last());
        assert(p.drop_last().push(p.last()) =~= p);
        assert(split_pieces(p) =~= seq![p]);
    } else {
        assert(p =~= Seq::<char>::empty());
    }
}

/// Splitting a concatenation: the last piece of `a` and the first of `b`
/// run together.
pub proof fn lemma_split_concat(a: Seq<char>, b: Seq<char>)
    ensures
        split_pieces(a + b) == split_pieces(a).drop_last().push(
            split_pieces(a).last() + split_pieces(b)[0],
        ) + split_pieces(b).skip(1),
    decreases b.len(),
{
    lemma_split_pieces_nonempty(a);
    lemma_split_pieces_nonempty(b);
    if b.len() == 0 {
        assert(a + b =~= a);
        assert(split_pieces(b) =~= seq![Seq::<char>::empty()]);
        assert(split_pieces(a).last() + Seq::<char>::empty() =~= split_pieces(a).last());
        assert(split_pieces(a).drop_last().push(split_pieces(a).last()) =~= split_pieces(a));
        assert(split_pieces(b).skip(1) =~= Seq::<Seq<char>>::empty());
        assert(split_pieces(a).drop_last().push(split_pieces(a).last()) + Seq::<Seq<char>>::empty()
            =~= split_pieces(a));
    } else {
        let b0 = b.drop_last();
        let c = b.last();
        lemma_split_concat(a, b0);
        lemma_split_pieces_nonempty(b0);
        assert((a + b).drop_last() =~= a + b0);
        assert((a + b).last() == c);
        let sa = split_pieces(a);
        let sb0 = split_pieces(b0);
        let head = sa.drop_last().push(sa.last() + sb0[0]);
        if c == '/' {
            assert(split_pieces(b) == sb0.push(Seq::<char>::empty()));
            if sb0.len() == 1 {
                assert(split_pieces(b)[0] == sb0[0]);
                assert(sb0.skip(1) =~= Seq::<Seq<char>>::empty());
                assert(split_pieces(b).skip(1) =~= seq![Seq::<char>::empty()]);
            } else {
                assert(split_pieces(b)[0] == sb0[0]);
                assert(split_pieces(b).skip(1) =~= sb0.skip(1).push(Seq::<char>::empty()));
            }
            assert(split_pieces(a + b) =~= (head + sb0.skip(1)).push(Seq::<char>::empty()));
            assert(split_pieces(a + b) =~= head + split_pieces(b).skip(1));
        } else {
            assert(split_pieces(b) == sb0.update(sb0.len() - 1, sb0.last().push(c)));
            let sab0 = split_pieces(a + b0);
            assert(split_pieces(a + b) == sab0.update(sab0.len() - 1, sab0.last().push(c)));
            if sb0.len() == 1 {
                assert(sb0.skip(1) =~= Seq::<Seq<char>>::empty());
                assert(split_pieces(b)[0] == sb0[0].push(c));
                assert(split_pieces(b).skip(1) =~= Seq::<Seq<char>>::empty());
                assert(sab0 =~= head);
                assert((sa.last() + sb0[0]).push(c) =~= sa.last() + sb0[0].push(c));
                assert(split_pieces(a + b) =~= sa.drop_last().push(sa.last() + split_pieces(b)[0])
                    + split_pieces(b).skip(1));
            } else {
                assert(split_pieces(b)[0] == sb0[0]);
                assert(split_pieces(b).skip(1) =~= sb0.skip(1).update(
                    sb0.len() - 2,
                    sb0.last().push(c),
                ));
                assert(split_pieces(a + b) =~= head + split_pieces(b).skip(1));
            }
        }
    }
}

/// Whether a piece names a component: `.` and empty pieces name none.
pub open spec fn is_named_piece(piece: Seq<char>) -> bool {
    piece.len() > 0 && piece != seq!['.']
}

/// The pieces that name components, in order.
pub open spec fn named_pieces(pieces: Seq<Seq<char>>) -> Seq<Seq<char>>
    decreases pieces.len(),
{
    if pieces.len() == 0 {
        Seq::empty()
    } else {
        let rest = named_pieces(pieces.drop_last());
        if is_named_piece(pieces.last()) {
            rest.push(pieces.last())
        } else {
            rest
        }
    }
}

/// Keeping the named pieces of a concatenation keeps those of each part.
pub proof fn lemma_named_concat(x: Seq<Seq<char>>, y: Seq<Seq<char>>)
    ensures
        named_pieces(x + y) == named_pieces(x) + named_pieces(y),
    decreases y.len(),
{
    if y.len() == 0 {
        assert(x + y =~= x);
        assert(named_pieces(x) + named_pieces(y) =~= named_pieces(x));
    } else {
        lemma_named_concat(x, y.drop_last());
        assert((x + y).drop_last() =~= x + y.drop_last());
        assert((x + y).last() == y.last());
        if is_named_piece(y.last()) {
            assert(named_pieces(x) + named_pieces(y) =~= (named_pieces(x) + named_pieces(y.drop_last())).push(
                y.last(),
            ));
        }
    }
}

/// The components of `p`, as `Path::components` yields them on Unix: the
/// root (written `/`) of an absolute path, or a leading `.` of a relative
/// one, then every piece that is neither empty nor `.`.
pub open spec fn path_components(p: Seq<char>) -> Seq<Seq<char>> {
    let pieces = split_pieces(p);
    if is_absolute(p) {
        seq![seq!['/']] + named_pieces(pieces.skip(1))
    } else if pieces[0] == seq!['.'] {
        seq![seq!['.']] + named_pieces(pieces.skip(1))
    } else {
        named_pieces(pieces)
    }
}

/// Whether two paths are equal as `Path`s are: component by component.
pub open spec fn same_path(a: Seq<char>, b: Seq<char>) -> bool {
    path_components(a) == path_components(b)
}

/// Joining a relative path onto a nonempty base keeps the base's
/// components and adds the named pieces of the relative path after them:
/// the joined path lies below the base.
pub proof fn lemma_join_components(base: Seq<char>, r: Seq<char>)
    requires
        base.len() > 0,
        !is_absolute(r),
    ensures
        path_components(path_join(base, r)) == path_components(base) + named_pieces(split_pieces(r)),
{
    let j = path_join(base, r);
    let sb = split_pieces(base);
    let sr = split_pieces(r);
    lemma_split_pieces_nonempty(base);
    lemma_split_pieces_nonempty(r);
    // The pieces of the joined path: the base's, then the relative path's.
    let pj = if base.last() == '/' { sb.drop_last() + sr } else { sb + sr };
    if base.last() == '/' {
        assert(j == base + r);
        lemma_split_concat(base, r);
        assert(base.drop_last().push('/') =~= base);
        assert(sb.last() =~= Seq::<char>::empty());
        assert(sb.last() + sr[0] =~= sr[0]);
        assert(sr =~= seq![sr[0]] + sr.skip(1));
        assert(split_pieces(j) =~= pj);
    } else {
        let a = base + seq!['/'];
        assert(j == a + r);
        assert(a.drop_last() =~= base);
        assert(split_pieces(a) == sb.push(Seq::<char>::empty()));
        lemma_split_concat(a, r);
        assert(split_pieces(a).drop_last() =~= sb);
        assert(Seq::<char>::empty() + sr[0] =~= sr[0]);
        assert(sr =~= seq![sr[0]] + sr.skip(1));
        assert(split_pieces(j) =~= pj);
    }
    assert(is_absolute(j) == is_absolute(base));
    assert(j[0] == base[0]);
    // A dropped last piece of the base is empty, so it names no component.
    let kept = if base.last() == '/' { sb.drop_last() } else { sb };
    assert(named_pieces(kept.skip(1)) == named_pieces(sb.skip(1))) by {
        if base.last() == '/' && sb.len() >= 2 {
            assert(sb.skip(1) =~= sb.drop_last().skip(1).push(sb.last()));
            assert(sb.last() =~= Seq::<char>::empty());
            assert(sb.skip(1).drop_last() =~= sb.drop_last().skip(1));
        }
        if base.last() == '/' && sb.len() < 2 {
            assert(false) by {
                assert(base.drop_last().push('/') =~= base);
                lemma_split_pieces_nonempty(base.drop_last());
            }
        }
    }
    assert(named_pieces(kept) == named_pieces(sb)) by {
        if base.last() == '/' {
            assert(sb =~= sb.drop_last().push(sb.last()));
            assert(sb.last() =~= Seq::<char>::empty());
        }
    }
    assert(kept.len() >= 1) by {
        if base.last() == '/' {
            assert(base.drop_last().push('/') =~= base);
            lemma_split_pieces_nonempty(base.drop_last());
        }
    }
    assert(pj =~= kept + sr);
    assert(pj[0] == kept[0]);
    assert(kept[0] == sb[0]);
    assert(pj.skip(1) =~= kept.skip(1) + sr);
    lemma_named_concat(kept.skip(1), sr);
    lemma_named_concat(kept, sr);
}

/// The pieces of `p` between `/` separators.
fn pieces_of(p: &str) -> (v: Vec<String>)
    ensures
        v.deep_view() == split_pieces(p@),
{
    let n = p.unicode_len();
    let mut done: Vec<String> = Vec::new();
    let mut start: usize = 0;
    let mut i: usize = 0;
    assert(p@.take(0) =~= Seq::<char>::empty());
    assert(split_pieces(p@.take(0)) =~= done.deep_view().push(p@.subrange(0, 0)));
    while i < n
        invariant
            n == p@.len(),
            start <= i <= n,
            split_pieces(p@.take(i as int)) =~= done.deep_view().push(p@.subrange(start as int, i as int)),
        decreases n - i,
    {
        let c = p.get_char(i);
        assert(p@.take(i + 1).drop_last() =~= p@.take(i as int));
        assert(p@.take(i + 1).last() == c);
        if c == '/' {
            let piece = p.substring_char(start, i).to_owned();
            done.push(piece);
            start = i + 1;
            assert(p@.subrange(start as int, i + 1) =~= Seq::<char>::empty());
        } else {
            assert(p@.subrange(start as int, i as int).push(c) =~= p@.subrange(start as int, i + 1));
        }
        i = i + 1;
    }
    let last = p.substring_char(start, n).to_owned();
    done.push(last);
    assert(p@.take(n as int) =~= p@);
    done
}

/// Keeps the pieces that name components.
fn named_pieces_of(pieces: &Vec<String>, from: usize) -> (v: Vec<String>)
    requires
        from <= pieces.len(),
    ensures
        v.deep_view() == named_pieces(pieces.deep_view().skip(from as int)),
{
    let mut v: Vec<String> = Vec::new();
    let mut i: usize = from;
    assert(pieces.deep_view().skip(from as int).take(0) =~= Seq::<Seq<char>>::empty());
    while i < pieces.len()
        invariant
            from <= i <= pieces.len(),
            v.deep_view() == named_pieces(pieces.deep_view().skip(from as int).take(i - from)),
        decreases pieces.len() - i,
    {
        let ghost s = pieces.deep_view().skip(from as int);
        assert(s.take(i - from + 1).drop_last() =~= s.take(i - from));
        assert(s.take(i - from + 1).last() == pieces[i as int]@);
        let piece = &pieces[i];
        let len = piece.as_str().unicode_len();
        let is_dot = len == 1 && piece.as_str().get_char(0) == '.';
        if len > 0 && !is_dot {
            assert(is_named_piece(piece@)) by {
                if piece@ == seq!['.'] {
                    assert(piece@[0] == '.');
                }
            }
            v.push(piece.clone());
            assert(v.deep_view() =~= named_pieces(s.take(i - from)).push(piece@));
        } else {
            assert(!is_named_piece(piece@)) by {
                if is_dot {
                    assert(piece@ =~= seq!['.']);
                }
            }
        }
        i = i + 1;
    }
    assert(pieces.deep_view().skip(from as int).take(pieces.len() - from) =~= pieces.deep_view().skip(
        from as int,
    ));
    v
}

/// The components of `p`, as `Path::components` yields them on Unix.
pub fn components(p: &str) -> (v: Vec<String>)
    ensures
        v.deep_view() == path_components(p@),
{
    let pieces = pieces_of(p);
    proof {
        lemma_split_pieces_nonempty(p@);
    }
    let n = p.unicode_len();
    if n > 0 && p.get_char(0) == '/' {
        let mut v: Vec<String> = Vec::new();
        v.push(slash().to_owned());
        let mut rest = named_pieces_of(&pieces, 1);
        v.append(&mut rest);
        assert(v.deep_view() =~= seq![seq!['/']] + named_pieces(pieces.deep_view().skip(1)));
        v
    } else {
        let first = &pieces[0];
        if first.as_str().unicode_len() == 1 && first.as_str().get_char(0) == '.' {
            assert(first@ =~= seq!['.']);
            let mut v: Vec<String> = Vec::new();
            v.push(first.clone());
            let mut rest = named_pieces_of(&pieces, 1);
            v.append(&mut rest);
            assert(v.deep_view() =~= seq![seq!['.']] + named_pieces(pieces.deep_view().skip(1)));
            v
        } else {
            assert(pieces[0]@ != seq!['.']) by {
                if pieces[0]@ == seq!['.'] {
                    assert(first@.len() == 1 && first@[0] == '.');
                }
            }
            let v = named_pieces_of(&pieces, 0);
            assert(pieces.deep_view().skip(0) =~= pieces.deep_view());
            v
        }
    }
}

/// Whether two component lists are equal.
pub fn same_components(a: &Vec<String>, b: &Vec<String>) -> (r: bool)
    ensures
        r == (a.deep_view() == b.deep_view()),
{
    if a.len() != b.len() {
        assert(a.deep_view().len() != b.deep_view().len());
        return false;
    }
    let mut i: usize = 0;
    while i < a.len()
        invariant
            a.len() == b.len(),
            i <= a.len(),
            forall|j: int| 0 <= j < i ==> a[j]@ == b[j]@,
        decreases a.len() - i,
    {
        if a[i] != b[i] {
            assert(a.deep_view()[i as int] != b.deep_view()[i as int]);
            return false;
        }
        i = i + 1;
    }
    assert(a.deep_view() =~= b.deep_view());
    true
}

/// `p` without the trailing separators and trailing `/.` pieces that
/// `Path::file_name` looks past.
pub open spec fn trim_trailing(p: Seq<char>) -> Seq<char>
    decreases p.len(),
{
    if p.len() > 0 && p.last() == '/' {
        trim_trailing(p.drop_last())
    } else if p.len() >= 2 && p.last() == '.' && p[p.len() - 2] == '/' {
        trim_trailing(p.drop_last().drop_last())
    } else {
        p
    }
}

/// Where the last piece of `t` starts: just after its last separator.
pub open spec fn name_start(t: Seq<char>) -> int
    decreases t.len(),
{
    if t.len() == 0 {
        0
    } else if t.last() == '/' {
        t.len() as int
    } else {
        name_start(t.drop_last())
    }
}

/// The index of the last `.` in `n`, or -1.
pub open spec fn last_dot(n: Seq<char>) -> int
    decreases n.len(),
{
    if n.len() == 0 {
        -1
    } else if n.last() == '.' {
        n.len() - 1
    } else {
        last_dot(n.drop_last())
    }
}

/// The length of the stem of a file name: the name before its last `.`,
/// the whole name where it has no `.` or only a leading one.
pub open spec fn stem_len(name: Seq<char>) -> int {
    if last_dot(name) > 0 {
        last_dot(name)
    } else {
        name.len() as int
    }
}

/// `p` with its extension set to `ext` as `PathBuf::set_extension` does:
/// the path is cut right after the stem of its file name and `.ext` is
/// appended (nothing for an empty `ext`); a path without a file name (empty,
/// the root, or ending in `.` or `..`) is left as it is.
pub open spec fn with_extension(p: Seq<char>, ext: Seq<char>) -> Seq<char> {
    let t = trim_trailing(p);
    let start = name_start(t);
    let name = t.subrange(start, t.len() as int);
    if name.len() == 0 || name == seq!['.'] || name == seq!['.', '.'] {
        p
    } else {
        p.take(start + stem_len(name)) + if ext.len() > 0 {
            seq!['.'] + ext
        } else {
            Seq::empty()
        }
    }
}

proof fn lemma_name_start_bounds(t: Seq<char>)
    ensures
        0 <= name_start(t) <= t.len(),
        forall|i: int| name_start(t) <= i < t.len() ==> t[i] != '/',
        name_start(t) > 0 ==> t[name_start(t) - 1] == '/',
    decreases t.len(),
{
    if t.len() > 0 && t.last() != '/' {
        lemma_name_start_bounds(t.drop_last());
        assert forall|i: int| name_start(t) <= i < t.len() implies t[i] != '/' by {
            if i < t.len() - 1 {
                assert(t[i] == t.drop_last()[i]);
            }
        }
    }
}

proof fn lemma_last_dot_bounds(n: Seq<char>)
    ensures
        -1 <= last_dot(n) < n.len(),
    decreases n.len(),
{
    if n.len() > 0 && n.last() != '.' {
        lemma_last_dot_bounds(n.drop_last());
    }
}

proof fn lemma_trim_prefix(p: Seq<char>)
    ensures
        trim_trailing(p).len() <= p.len(),
        trim_trailing(p) == p.take(trim_trailing(p).len() as int),
    decreases p.len(),
{
    if p.len() > 0 && p.last() == '/' {
        lemma_trim_prefix(p.drop_last());
        assert(p.drop_last().take(trim_trailing(p).len() as int) =~= p.take(trim_trailing(p).len() as int));
    } else if p.len() >= 2 && p.last() == '.' && p[p.len() - 2] == '/' {
        lemma_trim_prefix(p.drop_last().drop_last());
        assert(p.drop_last().drop_last().take(trim_trailing(p).len() as int) =~= p.take(
            trim_trailing(p).len() as int,
        ));
    } else {
        assert(p.take(p.len() as int) =~= p);
    }
}

proof fn lemma_name_start_at(t: Seq<char>, i: int)
    requires
        0 <= i <= t.len(),
        forall|j: int| i <= j < t.len() ==> t[j] != '/',
        i == 0 || t[i - 1] == '/',
    ensures
        name_start(t) == i,
    decreases t.len(),
{
    if t.len() > i {
        assert(t.last() == t[t.len() - 1]);
        lemma_name_start_at(t.drop_last(), i);
    } else if i > 0 {
        assert(t.last() == t[i - 1]);
    }
}

proof fn lemma_last_dot_at(n: Seq<char>, i: int)
    requires
        0 <= i < n.len(),
        n[i] == '.',
        forall|j: int| i < j < n.len() ==> n[j] != '.',
    ensures
        last_dot(n) == i,
    decreases n.len(),
{
    if n.len() - 1 > i {
        assert(n.last() == n[n.len() - 1]);
        lemma_last_dot_at(n.drop_last(), i);
    }
}

/// Setting an extension leaves the directory part of a path as it is:
/// the result starts with everything before the file name.
pub proof fn lemma_extension_keeps_directory(p: Seq<char>, ext: Seq<char>)
    ensures
        ({
            let start = name_start(trim_trailing(p));
            &&& start <= with_extension(p, ext).len()
            &&& with_extension(p, ext).take(start) == p.take(start)
        }),
{
    let t = trim_trailing(p);
    lemma_trim_prefix(p);
    lemma_name_start_bounds(t);
    let start = name_start(t);
    let name = t.subrange(start, t.len() as int);
    if !(name.len() == 0 || name == seq!['.'] || name == seq!['.', '.']) {
        let k = start + stem_len(name);
        lemma_last_dot_bounds(name);
        assert(k <= t.len());
        let q = with_extension(p, ext);
        assert(q.take(start) =~= p.take(start));
    }
}

/// Setting the same extension twice gives what setting it once gives,
/// for an extension without separators or dots (such as `pdf`).
pub proof fn lemma_extension_idempotent(p: Seq<char>, ext: Seq<char>)
    requires
        ext.len() > 0,
        forall|i: int| 0 <= i < ext.len() ==> ext[i] != '/' && ext[i] != '.',
    ensures
        with_extension(with_extension(p, ext), ext) == with_extension(p, ext),
{
    let t = trim_trailing(p);
    lemma_trim_prefix(p);
    lemma_name_start_bounds(t);
    let start = name_start(t);
    let name = t.subrange(start, t.len() as int);
    if !(name.len() == 0 || name == seq!['.'] || name == seq!['.', '.']) {
        lemma_last_dot_bounds(name);
        let stem = stem_len(name);
        let k = start + stem;
        assert(1 <= stem <= name.len());
        let dot_ext = seq!['.'] + ext;
        let q = p.take(k) + dot_ext;
        assert(with_extension(p, ext) == q);
        // The result ends with the extension, so nothing is trimmed from it.
        assert(q.last() == ext.last());
        assert(q.len() >= 2);
        assert(q[q.len() - 1] == ext[ext.len() - 1]);
        assert(trim_trailing(q) == q);
        // Its file name starts where the input's did.
        assert forall|j: int| start <= j < q.len() implies q[j] != '/' by {
            if j < k {
                assert(q[j] == p[j]);
                assert(p[j] == t[j]);
            } else if j > k {
                assert(q[j] == ext[j - k - 1]);
            }
        }
        if start > 0 {
            assert(q[start - 1] == p[start - 1]);
            assert(p[start - 1] == t[start - 1]);
        }
        lemma_name_start_at(q, start);
        // Its last dot is the one before the extension.
        let name2 = q.subrange(start, q.len() as int);
        assert(name2[stem] == '.');
        assert forall|j: int| stem < j < name2.len() implies name2[j] != '.' by {
            assert(name2[j] == ext[j - stem - 1]);
        }
        lemma_last_dot_at(name2, stem);
        assert(stem_len(name2) == stem);
        assert(name2.len() >= 3);
        assert(name2 != seq!['.']);
        assert(name2 != seq!['.', '.']);
        assert(q.take(start + stem) =~= p.take(k));
        assert(with_extension(q, ext) =~= q);
    }
}

proof fn lemma_last_dot_at_most_zero(n: Seq<char>)
    requires
        forall|j: int| 0 < j < n.len() ==> n[j] != '.',
    ensures
        last_dot(n) <= 0,
    decreases n.len(),
{
    if n.len() > 1 {
        assert(n.last() == n[n.len() - 1]);
        assert forall|j: int| 0 < j < n.drop_last().len() implies n.drop_last()[j] != '.' by {
            assert(n.drop_last()[j] == n[j]);
        }
        lemma_last_dot_at_most_zero(n.drop_last());
    } else if n.len() == 1 {
        assert(last_dot(n.drop_last()) == -1);
    }
}

/// The parts of `p` that setting an extension looks at: the path without
/// trailing separators, where its file name starts, and the file name.
pub open spec fn file_name_parts(p: Seq<char>) -> (Seq<char>, int, Seq<char>) {
    let t = trim_trailing(p);
    let start = name_start(t);
    (t, start, t.subrange(start, t.len() as int))
}

/// Setting an extension keeps the whole stem: for a file name whose last
/// dot is at position `d > 0`, the result is the path up to that dot, then
/// `.ext` (nothing for an empty `ext`), however long the stem.
pub proof fn lemma_extension_keeps_stem(p: Seq<char>, ext: Seq<char>, d: int)
    requires
        ({
            let (t, start, name) = file_name_parts(p);
            &&& name != seq!['.', '.']
            &&& 0 < d < name.len()
            &&& name[d] == '.'
            &&& forall|j: int| d < j < name.len() ==> name[j] != '.'
        }),
    ensures
        ({
            let (t, start, name) = file_name_parts(p);
            with_extension(p, ext) == p.take(start + d) + if ext.len() > 0 {
                seq!['.'] + ext
            } else {
                Seq::empty()
            }
        }),
{
    let (t, start, name) = file_name_parts(p);
    lemma_trim_prefix(p);
    lemma_name_start_bounds(t);
    lemma_last_dot_at(name, d);
    assert(name != seq!['.']) by {
        assert(name.len() >= 2);
    }
}

/// For a file `stem.old` (or `stem.`) in a directory `dir` (empty, or
/// ending in `/`), where neither the stem nor the old extension holds a
/// separator or a dot, setting extension `ext` gives `dir` + `stem.ext`.
pub proof fn lemma_extension_replaces_last(dir: Seq<char>, stem: Seq<char>, old_ext: Seq<char>, ext: Seq<char>)
    requires
        dir.len() == 0 || dir.last() == '/',
        stem.len() > 0,
        ext.len() > 0,
        forall|i: int| 0 <= i < stem.len() ==> stem[i] != '/' && stem[i] != '.',
        forall|i: int| 0 <= i < old_ext.len() ==> old_ext[i] != '/' && old_ext[i] != '.',
    ensures
        with_extension(dir + stem + seq!['.'] + old_ext, ext) == dir + stem + seq!['.'] + ext,
{
    let p = dir + stem + seq!['.'] + old_ext;
    let start = dir.len() as int;
    assert(p.len() >= 2);
    if old_ext.len() > 0 {
        assert(p.last() == old_ext.last());
    } else {
        assert(p.last() == '.');
        assert(p[p.len() - 2] == stem.last());
    }
    assert(trim_trailing(p) == p);
    assert forall|j: int| start <= j < p.len() implies p[j] != '/' by {
        if j < start + stem.len() {
            assert(p[j] == stem[j - start]);
        } else if j > start + stem.len() {
            assert(p[j] == old_ext[j - start - stem.len() - 1]);
        }
    }
    if start > 0 {
        assert(p[start - 1] == dir.last());
    }
    lemma_name_start_at(p, start);
    let name = p.subrange(start, p.len() as int);
    let d = stem.len() as int;
    assert(name[d] == '.');
    assert forall|j: int| d < j < name.len() implies name[j] != '.' by {
        assert(name[j] == old_ext[j - d - 1]);
    }
    lemma_last_dot_at(name, d);
    assert(name.len() >= 2);
    assert(name != seq!['.']);
    assert(name != seq!['.', '.']) by {
        if name == seq!['.', '.'] {
            assert(name[0] == stem[0]);
        }
    }
    assert(p.take(start + d) =~= dir + stem);
    assert(with_extension(p, ext) =~= dir + stem + seq!['.'] + ext);
}

/// A file `name` without any dot in a directory `dir` (empty, or ending in
/// `/`) gets `.ext` appended.
pub proof fn lemma_extension_appends(dir: Seq<char>, name: Seq<char>, ext: Seq<char>)
    requires
        dir.len() == 0 || dir.last() == '/',
        name.len() > 0,
        ext.len() > 0,
        forall|i: int| 0 <= i < name.len() ==> name[i] != '/' && name[i] != '.',
    ensures
        with_extension(dir + name, ext) == dir + name + seq!['.'] + ext,
{
    let p = dir + name;
    let start = dir.len() as int;
    assert(p.last() == name.last());
    assert(trim_trailing(p) == p);
    assert forall|j: int| start <= j < p.len() implies p[j] != '/' by {
        assert(p[j] == name[j - start]);
    }
    if start > 0 {
        assert(p[start - 1] == dir.last());
    }
    lemma_name_start_at(p, start);
    let n = p.subrange(start, p.len() as int);
    assert(n =~= name);
    lemma_last_dot_at_most_zero(n);
    assert(n != seq!['.']) by {
        if n == seq!['.'] {
            assert(name[0] == '.');
        }
    }
    assert(n != seq!['.', '.']) by {
        if n == seq!['.', '.'] {
            assert(name[0] == '.');
        }
    }
    assert(p.take(start + n.len()) =~= p);
    assert(with_extension(p, ext) =~= dir + name + seq!['.'] + ext);
}

/// A file name without a dot past its first character keeps its whole
/// name and gets `.ext` appended.
pub proof fn lemma_extension_of_dotless_name(p: Seq<char>, ext: Seq<char>)
    requires
        ({
            let (t, start, name) = file_name_parts(p);
            &&& name.len() > 0
            &&& name != seq!['.']
            &&& forall|j: int| 0 < j < name.len() ==> name[j] != '.'
        }),
    ensures
        with_extension(p, ext) == trim_trailing(p) + if ext.len() > 0 {
            seq!['.'] + ext
        } else {
            Seq::empty()
        },
{
    let (t, start, name) = file_name_parts(p);
    lemma_trim_prefix(p);
    lemma_name_start_bounds(t);
    lemma_last_dot_at_most_zero(name);
    assert(name != seq!['.', '.']) by {
        if name == seq!['.', '.'] {
            assert(name[1] == '.');
        }
    }
    assert(p.take(start + name.len()) =~= t);
}

/// The end of `p` once trailing separators and `/.` pieces are cut off.
fn trimmed_end(p: &str) -> (end: usize)
    ensures
        end <= p@.len(),
        trim_trailing(p@) == p@.take(end as int),
{
    let n = p.unicode_len();
    let mut end: usize = n;
    assert(p@.take(n as int) =~= p@);
    while end > 0 && (p.get_char(end - 1) == '/' || (end >= 2 && p.get_char(end - 1) == '.'
        && p.get_char(end - 2) == '/'))
        invariant
            n == p@.len(),
            end <= n,
            trim_trailing(p@) == trim_trailing(p@.take(end as int)),
        decreases end,
    {
        let ghost t = p@.take(end as int);
        if p.get_char(end - 1) == '/' {
            assert(t.drop_last() =~= p@.take(end - 1));
            end = end - 1;
        } else {
            assert(t.drop_last().drop_last() =~= p@.take(end - 2));
            end = end - 2;
        }
    }
    end
}

/// Where the last piece of `p[..end]` starts.
fn piece_start(p: &str, end: usize) -> (start: usize)
    requires
        end <= p@.len(),
    ensures
        start == name_start(p@.take(end as int)),
        start <= end,
{
    let ghost t = p@.take(end as int);
    let mut start: usize = end;
    assert(t.take(end as int) =~= t);
    while start > 0 && p.get_char(start - 1) != '/'
        invariant
            end <= p@.len(),
            start <= end,
            t == p@.take(end as int),
            name_start(t) == name_start(t.take(start as int)),
        decreases start,
    {
        assert(t.take(start as int).drop_last() =~= t.take(start - 1));
        start = start - 1;
    }
    proof {
        if start == 0 {
            assert(t.take(0) =~= Seq::<char>::empty());
        } else {
            assert(t.take(start as int).last() == '/');
        }
    }
    start
}

/// The stem length of the file name `p[start..end]`.
fn stem_length(p: &str, start: usize, end: usize) -> (stem: usize)
    requires
        start <= end <= p@.len(),
    ensures
        stem == stem_len(p@.subrange(start as int, end as int)),
        stem <= end - start,
{
    let ghost name = p@.subrange(start as int, end as int);
    let len = end - start;
    let mut j: usize = end;
    assert(name.take(len as int) =~= name);
    while j > start && p.get_char(j - 1) != '.'
        invariant
            start <= j <= end,
            end <= p@.len(),
            len == end - start,
            name == p@.subrange(start as int, end as int),
            last_dot(name) == last_dot(name.take(j - start)),
        decreases j,
    {
        assert(name.take(j - start).drop_last() =~= name.take(j - start - 1));
        j = j - 1;
    }
    proof {
        if j == start {
            assert(name.take(0) =~= Seq::<char>::empty());
        } else {
            assert(name.take(j - start).last() == '.');
        }
        lemma_last_dot_bounds(name);
    }
    if j - start > 1 {
        j - 1 - start
    } else {
        len
    }
}

/// Sets the extension of `p` to `ext`, as `PathBuf::set_extension` does.
pub fn set_extension(p: &str, ext: &str) -> (r: String)
    ensures
        r@ == with_extension(p@, ext@),
{
    let end = trimmed_end(p);
    let ghost t = p@.take(end as int);
    let start = piece_start(p, end);
    proof {
        lemma_name_start_bounds(t);
    }
    let ghost name = t.subrange(start as int, end as int);
    assert(name =~= p@.subrange(start as int, end as int));
    let len = end - start;
    if len == 0 {
        return p.to_owned();
    }
    if len == 1 && p.get_char(start) == '.' {
        assert(name =~= seq!['.']);
        return p.to_owned();
    }
    if len == 2 && p.get_char(start) == '.' && p.get_char(start + 1) == '.' {
        assert(name =~= seq!['.', '.']);
        return p.to_owned();
    }
    assert(name != seq!['.']) by {
        if name == seq!['.'] {
            assert(name[0] == p@[start as int]);
        }
    }
    assert(name != seq!['.', '.']) by {
        if name == seq!['.', '.'] {
            assert(name[0] == p@[start as int] && name[1] == p@[start + 1]);
        }
    }
    let stem = stem_length(p, start, end);
    let mut r = p.substring_char(0, start + stem).to_owned();
    assert(p@.subrange(0, start + stem) =~= p@.take(start + stem));
    if ext.unicode_len() > 0 {
        proof {
            reveal_strlit(".");
        }
        r.append(".");
        r.append(ext);
        assert(r@ =~= p@.take(start + stem) + (seq!['.'] + ext@));
    } else {
        assert(r@ =~= p@.take(start + stem) + Seq::<char>::empty());
    }
    r
}

} // verus!
