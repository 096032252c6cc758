//! Paths as text with `/` between components: joining, the parent, the
//! components, and the relative path from one file to another.

use vstd::prelude::*;
use crate::text::chars_of;
use crate::text::join;
use crate::text::same_text;
use crate::text::split;
use crate::text::split_at_char;
use crate::text::texts;

verus! {

/// Whether `p` starts at the root.
pub open spec fn is_absolute(p: Seq<char>) -> bool {
    p.len() > 0 && p[0] == '/'
}

/// `base` extended by `seg`: an absolute `seg` replaces `base`; otherwise
/// `seg` follows `base`, after a `/` where `base` is not empty and does not
/// end in one.
pub open spec fn path_join(base: Seq<char>, seg: Seq<char>) -> Seq<char> {
    if is_absolute(seg) {
        seg
    } else if base.len() == 0 || base.last() == '/' {
        base + seg
    } else {
        base + seq!['/'] + seg
    }
}

/// Whether `p` starts at the root.
pub fn absolute(p: &str) -> (r: bool)
    ensures
        r == is_absolute(p@),
{
    let cs = chars_of(p);
    cs.len() > 0 && cs[0] == '/'
}

/// Extends `base` by `seg`.
pub fn join_path(base: &str, seg: &str) -> (out: String)
    ensures
        out@ == path_join(base@, seg@),
{
    let b = chars_of(base);
    if absolute(seg) {
        return seg.to_owned();
    }
    let mut out = base.to_owned();
    if b.len() > 0 && b[b.len() - 1] != '/' {
        out.push('/');
    }
    out.append(seg);
    assert(out@ =~= path_join(base@, seg@));
    out
}

/// Whether the piece at `index` of a path cut at `/` is a component: empty
/// pieces are none, and `.` is one only where the path begins with it.
pub open spec fn is_component(piece: Seq<char>, index: int) -> bool {
    piece.len() > 0 && (piece != seq!['.'] || index == 0)
}

/// The components among the first `n` of `pieces`.
pub open spec fn kept_pieces(pieces: Seq<Seq<char>>, n: int) -> Seq<Seq<char>>
    decreases n,
{
    if n <= 0 {
        Seq::empty()
    } else if is_component(pieces[n - 1], n - 1) {
        kept_pieces(pieces, n - 1).push(pieces[n - 1])
    } else {
        kept_pieces(pieces, n - 1)
    }
}

/// The names that `p` is made of, in order, without the root.
pub open spec fn path_names(p: Seq<char>) -> Seq<Seq<char>> {
    kept_pieces(split(p, '/'), split(p, '/').len() as int)
}

/// The components of `p`: the root `/` first where `p` is absolute, then
/// its names.
pub open spec fn path_components(p: Seq<char>) -> Seq<Seq<char>> {
    if is_absolute(p) {
        seq![seq!['/']] + path_names(p)
    } else {
        path_names(p)
    }
}

/// The path that `comps` are the components of.
pub open spec fn path_of(comps: Seq<Seq<char>>) -> Seq<char> {
    if comps.len() > 0 && comps[0] == seq!['/'] {
        seq!['/'] + join(comps.drop_first(), '/')
    } else {
        join(comps, '/')
    }
}

/// The components of `p`.
pub fn components_of(p: &str) -> (out: Vec<String>)
    ensures
        texts(out@) == path_components(p@),
{
    let pieces = split_at_char(p, '/');
    let mut out: Vec<String> = Vec::new();
    let ghost all = split(p@, '/');
    let ghost lead: Seq<Seq<char>> = if is_absolute(p@) {
        seq![seq!['/']]
    } else {
        Seq::empty()
    };
    if absolute(p) {
        let mut root = String::new();
        root.push('/');
        assert(root@ =~= seq!['/']);
        out.push(root);
    }
    assert(texts(out@) =~= lead + kept_pieces(all, 0));
    let mut i: usize = 0;
    while i < pieces.len()
        invariant
            i <= pieces.len(),
            texts(pieces@) == all,
            texts(out@) == lead + kept_pieces(all, i as int),
        decreases pieces.len() - i,
    {
        let piece = &pieces[i];
        assert(piece@ == all[i as int]);
        let cs = chars_of(piece.as_str());
        let dot = cs.len() == 1 && cs[0] == '.';
        assert(dot == (piece@ == seq!['.'])) by {
            if dot {
                assert(piece@ =~= seq!['.']);
            }
        }
        let ghost before = texts(out@);
        if cs.len() > 0 && (!dot || i == 0) {
            out.push(piece.clone());
            assert(texts(out@) =~= before.push(piece@));
        }
        i += 1;
    }
    assert(texts(pieces@).len() == pieces@.len());
    out
}

/// The text that `parts` give when written with `/` between neighbours.
pub fn join_names(parts: &Vec<String>) -> (out: String)
    ensures
        out@ == join(texts(parts@), '/'),
{
    let mut out = String::new();
    let mut i: usize = 0;
    let ghost all = texts(parts@);
    assert(all.take(0) =~= Seq::<Seq<char>>::empty());
    while i < parts.len()
        invariant
            i <= parts.len(),
            all == texts(parts@),
            out@ == join(all.take(i as int), '/'),
        decreases parts.len() - i,
    {
        let ghost before = out@;
        if i > 0 {
            out.push('/');
        }
        out.append(parts[i].as_str());
        proof {
            assert(all.take(i + 1).drop_last() =~= all.take(i as int));
            assert(all.take(i + 1).last() == parts@[i as int]@);
            if i == 0 {
                assert(before =~= Seq::<char>::empty());
                assert(out@ =~= parts@[0]@);
            }
        }
        i += 1;
    }
    assert(all.take(parts.len() as int) =~= all);
    out
}

/// The path above `p`: `p` without its last name. A path without a name,
/// the root or the empty path, has none.
pub open spec fn path_parent(p: Seq<char>) -> Option<Seq<char>> {
    if path_names(p).len() == 0 {
        None
    } else {
        Some(path_of(path_components(p).drop_last()))
    }
}

/// The path above `p`, if there is one.
pub fn parent_path(p: &str) -> (r: Option<String>)
    ensures
        match r {
            Some(up) => path_parent(p@) == Some(up@),
            None => path_parent(p@) is None,
        },
{
    let mut comps = components_of(p);
    let rooted = absolute(p);
    let names: usize = if rooted {
        comps.len() - 1
    } else {
        comps.len()
    };
    if names == 0 {
        return None;
    }
    let ghost full = texts(comps@);
    comps.pop();
    assert(texts(comps@) =~= full.drop_last());
    let ghost rest = texts(comps@);
    if rooted {
        comps.remove(0);
        assert(texts(comps@) =~= rest.drop_first());
        let mut out = String::new();
        out.push('/');
        let tail = join_names(&comps);
        out.append(tail.as_str());
        assert(out@ =~= path_of(rest));
        Some(out)
    } else {
        proof {
            lemma_names_are_not_root(p@);
        }
        Some(join_names(&comps))
    }
}

/// No name of a path is the root: a name holds no `/`.
pub proof fn lemma_names_are_not_root(p: Seq<char>)
    ensures
        forall|i: int| 0 <= i < path_names(p).len() ==> #[trigger] path_names(p)[i] != seq!['/'],
{
    let pieces = split(p, '/');
    crate::text::lemma_split_pieces(p, '/');
    lemma_kept_are_pieces(pieces, pieces.len() as int);
    assert forall|i: int| 0 <= i < path_names(p).len() implies #[trigger] path_names(p)[i]
        != seq!['/'] by {
        let name = path_names(p)[i];
        let j = choose|j: int| 0 <= j < pieces.len() && pieces[j] == name;
        if name == seq!['/'] {
            assert(pieces[j][0] == '/');
        }
    }
}

proof fn lemma_kept_are_pieces(pieces: Seq<Seq<char>>, n: int)
    requires
        0 <= n <= pieces.len(),
    ensures
        forall|i: int|
            0 <= i < kept_pieces(pieces, n).len() ==> exists|j: int|
                0 <= j < n && pieces[j] == #[trigger] kept_pieces(pieces, n)[i],
    decreases n,
{
    if n > 0 {
        lemma_kept_are_pieces(pieces, n - 1);
        let before = kept_pieces(pieces, n - 1);
        assert forall|i: int| 0 <= i < kept_pieces(pieces, n).len() implies exists|j: int|
            0 <= j < n && pieces[j] == #[trigger] kept_pieces(pieces, n)[i] by {
            if i < before.len() {
                let j = choose|j: int| 0 <= j < n - 1 && pieces[j] == before[i];
                assert(pieces[j] == kept_pieces(pieces, n)[i]);
            } else {
                assert(pieces[n - 1] == kept_pieces(pieces, n)[i]);
            }
        }
    }
}

/// How many components `a` and `b` begin with in common.
pub open spec fn common_prefix_len(a: Seq<Seq<char>>, b: Seq<Seq<char>>) -> nat
    decreases a.len(),
{
    if a.len() > 0 && b.len() > 0 && a[0] == b[0] {
        1 + common_prefix_len(a.drop_first(), b.drop_first())
    } else {
        0
    }
}

proof fn lemma_common_prefix(a: Seq<Seq<char>>, b: Seq<Seq<char>>, k: int)
    requires
        0 <= k <= a.len(),
        k <= b.len(),
        forall|i: int| 0 <= i < k ==> a[i] == b[i],
        k == a.len() || k == b.len() || a[k] != b[k],
    ensures
        common_prefix_len(a, b) == k,
    decreases k,
{
    if k > 0 {
        let a1 = a.drop_first();
        let b1 = b.drop_first();
        assert forall|i: int| 0 <= i < k - 1 implies a1[i] == b1[i] by {
            assert(a1[i] == a[i + 1]);
            assert(b1[i] == b[i + 1]);
        }
        if k < a.len() && k < b.len() {
            assert(a1[k - 1] == a[k]);
            assert(b1[k - 1] == b[k]);
        }
        lemma_common_prefix(a1, b1, k - 1);
    }
}

/// The components of the way from the file `dst` to `src`: one `..` for each
/// directory of `dst` below what the two have in common, then what is left
/// of `src`.
pub open spec fn relative_parts(src: Seq<Seq<char>>, dst: Seq<Seq<char>>) -> Seq<Seq<char>> {
    let k = common_prefix_len(src, dst) as int;
    let ups = if dst.len() > k + 1 {
        dst.len() - k - 1
    } else {
        0
    };
    Seq::new(ups as nat, |i: int| seq!['.', '.']) + src.skip(k)
}

/// The path that leads to `src` from the directory that holds `dst`.
pub open spec fn relative_path(src: Seq<char>, dst: Seq<char>) -> Seq<char> {
    join(relative_parts(path_components(src), path_components(dst)), '/')
}

/// The name that stands for the directory above.
pub open spec fn parent_name() -> Seq<char> {
    seq!['.', '.']
}

/// Where following `rel` from the directory `dir` leads, component by
/// component: `..` goes up by one, any other name goes down into it.
pub open spec fn walk(dir: Seq<Seq<char>>, rel: Seq<Seq<char>>) -> Seq<Seq<char>>
    decreases rel.len(),
{
    if rel.len() == 0 {
        dir
    } else if rel[0] == parent_name() {
        walk(dir.drop_last(), rel.drop_first())
    } else {
        walk(dir.push(rel[0]), rel.drop_first())
    }
}

proof fn lemma_common_prefix_agrees(a: Seq<Seq<char>>, b: Seq<Seq<char>>)
    ensures
        common_prefix_len(a, b) <= a.len(),
        common_prefix_len(a, b) <= b.len(),
        a.take(common_prefix_len(a, b) as int) == b.take(common_prefix_len(a, b) as int),
    decreases a.len(),
{
    let k = common_prefix_len(a, b) as int;
    if a.len() > 0 && b.len() > 0 && a[0] == b[0] {
        lemma_common_prefix_agrees(a.drop_first(), b.drop_first());
        assert(a.take(k) =~= seq![a[0]] + a.drop_first().take(k - 1));
        assert(b.take(k) =~= seq![b[0]] + b.drop_first().take(k - 1));
    } else {
        assert(a.take(0) =~= b.take(0));
    }
}

proof fn lemma_walk_down(dir: Seq<Seq<char>>, names: Seq<Seq<char>>)
    requires
        forall|i: int| 0 <= i < names.len() ==> #[trigger] names[i] != parent_name(),
    ensures
        walk(dir, names) == dir + names,
    decreases names.len(),
{
    if names.len() == 0 {
        assert(dir + names =~= dir);
    } else {
        let rest = names.drop_first();
        assert forall|i: int| 0 <= i < rest.len() implies #[trigger] rest[i] != parent_name() by {
            assert(rest[i] == names[i + 1]);
        }
        lemma_walk_down(dir.push(names[0]), rest);
        assert(dir.push(names[0]) + rest =~= dir + names);
    }
}

proof fn lemma_walk_up(dir: Seq<Seq<char>>, ups: nat, names: Seq<Seq<char>>)
    requires
        ups <= dir.len(),
        forall|i: int| 0 <= i < names.len() ==> #[trigger] names[i] != parent_name(),
    ensures
        walk(dir, Seq::new(ups, |i: int| parent_name()) + names) == dir.take(dir.len() - ups)
            + names,
    decreases ups,
{
    let rel = Seq::new(ups, |i: int| parent_name()) + names;
    if ups == 0 {
        assert(rel =~= names);
        lemma_walk_down(dir, names);
        assert(dir.take(dir.len() as int) =~= dir);
    } else {
        assert(rel[0] == parent_name());
        assert(rel.drop_first() =~= Seq::new((ups - 1) as nat, |i: int| parent_name()) + names);
        lemma_walk_up(dir.drop_last(), (ups - 1) as nat, names);
        assert(dir.drop_last().take(dir.drop_last().len() - (ups - 1)) =~= dir.take(
            dir.len() - ups,
        ));
    }
}

/// A link made by the relative path leads to its target. Following the
/// components of the way from `dst` to `src`, from the directory that holds
/// `dst`, ends at `src`, where `dst` is not `src` itself nor a directory
/// above it and `src` has no `..` below what the two have in common.
pub proof fn lemma_relative_path_leads_back(src: Seq<Seq<char>>, dst: Seq<Seq<char>>)
    requires
        common_prefix_len(src, dst) < dst.len(),
        forall|i: int|
            common_prefix_len(src, dst) <= i < src.len() ==> #[trigger] src[i] != parent_name(),
    ensures
        walk(dst.drop_last(), relative_parts(src, dst)) == src,
{
    let k = common_prefix_len(src, dst) as int;
    lemma_common_prefix_agrees(src, dst);
    let dir = dst.drop_last();
    let ups = (dst.len() - k - 1) as nat;
    let names = src.skip(k);
    assert forall|i: int| 0 <= i < names.len() implies #[trigger] names[i] != parent_name() by {
        assert(names[i] == src[i + k]);
    }
    assert(relative_parts(src, dst) =~= Seq::new(ups, |i: int| parent_name()) + names);
    lemma_walk_up(dir, ups, names);
    assert(dir.take(dir.len() - ups) =~= dst.take(k));
    assert(src.take(k) + src.skip(k) =~= src);
}

/// The path that leads to `src` from the directory that holds the file
/// `dst`, for two paths that are both absolute or both relative.
pub fn make_relative(src: &str, dst: &str) -> (out: String)
    requires
        is_absolute(src@) == is_absolute(dst@),
    ensures
        out@ == relative_path(src@, dst@),
{
    let a = components_of(src);
    let b = components_of(dst);
    let ghost sa = texts(a@);
    let ghost sb = texts(b@);
    let mut k: usize = 0;
    while k < a.len() && k < b.len() && same_text(a[k].as_str(), b[k].as_str())
        invariant
            k <= a.len(),
            k <= b.len(),
            sa == texts(a@),
            sb == texts(b@),
            forall|i: int| 0 <= i < k ==> sa[i] == sb[i],
        decreases a.len() - k,
    {
        k += 1;
    }
    proof {
        if k < a.len() && k < b.len() {
            assert(sa[k as int] == a@[k as int]@);
            assert(sb[k as int] == b@[k as int]@);
        }
        lemma_common_prefix(sa, sb, k as int);
    }
    let mut parts: Vec<String> = Vec::new();
    let ups: usize = if b.len() - k > 1 {
        b.len() - k - 1
    } else {
        0
    };
    let mut u: usize = 0;
    while u < ups
        invariant
            u <= ups,
            texts(parts@) == Seq::new(u as nat, |i: int| seq!['.', '.']),
        decreases ups - u,
    {
        let mut up = String::new();
        up.push('.');
        up.push('.');
        assert(up@ =~= seq!['.', '.']);
        let ghost before = texts(parts@);
        parts.push(up);
        assert(texts(parts@) =~= before.push(seq!['.', '.']));
        assert(texts(parts@) =~= Seq::new((u + 1) as nat, |i: int| seq!['.', '.']));
        u += 1;
    }
    let ghost dots = texts(parts@);
    let mut j: usize = k;
    assert(texts(parts@) =~= dots + sa.subrange(k as int, j as int));
    while j < a.len()
        invariant
            k <= j <= a.len(),
            sa == texts(a@),
            texts(parts@) == dots + sa.subrange(k as int, j as int),
        decreases a.len() - j,
    {
        let ghost before = texts(parts@);
        parts.push(a[j].clone());
        assert(texts(parts@) =~= before.push(sa[j as int]));
        assert(texts(parts@) =~= dots + sa.subrange(k as int, j + 1));
        j += 1;
    }
    assert(sa.subrange(k as int, a.len() as int) =~= sa.skip(k as int));
    join_names(&parts)
}

/// The path that a link at `dst` names to reach `src`, where the two are
/// both absolute or both relative; nothing otherwise.
pub fn link_target(src: &str, dst: &str) -> (r: Option<String>)
    ensures
        match r {
            Some(target) => is_absolute(src@) == is_absolute(dst@) && target@ == relative_path(
                src@,
                dst@,
            ),
            None => is_absolute(src@) != is_absolute(dst@),
        },
{
    if absolute(src) == absolute(dst) {
        Some(make_relative(src, dst))
    } else {
        None
    }
}

} // verus!
