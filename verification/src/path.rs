//! Paths as text, with the meaning that `std::path` gives them on Unix:
//! joining (`Path::join`) and component-wise prefixes (`Path::starts_with`).

use vstd::prelude::*;

use crate::text::{char_index, lemma_char_index, lemma_char_index_at, push_str, views, copy_range, chars_eq, chars_of};

verus! {

/// `base` joined with `part` as `Path::join` does on Unix: an absolute
/// `part` replaces `base`; otherwise a `/` is put between them unless
/// `base` is empty or already ends with one.
pub open spec fn join(base: Seq<char>, part: Seq<char>) -> Seq<char> {
    if part.len() > 0 && part[0] == '/' {
        part
    } else if base.len() > 0 && base.last() != '/' {
        base + seq!['/'] + part
    } else {
        base + part
    }
}

/// `base` joined with `part`.
pub fn join_path(base: &str, part: &str) -> (p: String)
    ensures
        p@ == join(base@, part@),
{
    let b = chars_of(base);
    let q = chars_of(part);
    let mut p = String::new();
    if q.len() > 0 && q[0] == '/' {
        push_str(&mut p, part);
        proof {
            assert(Seq::<char>::empty() + part@ =~= part@);
        }
        return p;
    }
    push_str(&mut p, base);
    if b.len() > 0 && b[b.len() - 1] != '/' {
        p.push('/');
    }
    push_str(&mut p, part);
    proof {
        assert(Seq::<char>::empty() + base@ =~= base@);
    }
    p
}

/// Whether a piece between slashes is a normal component: not empty and
/// not `.`.
pub open spec fn kept(piece: Seq<char>) -> bool {
    piece.len() > 0 && piece != seq!['.']
}

/// The components of `s` after its root: the pieces between slashes,
/// without empty pieces and `.` pieces (`..` stays, as the parent).
pub open spec fn normal_parts(s: Seq<char>) -> Seq<Seq<char>>
    decreases s.len(),
{
    if s.len() == 0 {
        seq![]
    } else {
        let k = char_index(s, '/');
        proof {
            lemma_char_index(s, '/');
        }
        let piece = s.take(k as int);
        let rest = if k < s.len() {
            normal_parts(s.skip(k + 1int))
        } else {
            seq![]
        };
        if kept(piece) {
            seq![piece] + rest
        } else {
            rest
        }
    }
}

/// The leading component: the root `/` of an absolute path, or `.` for a
/// path that is `.` or starts with `./`.
pub open spec fn lead(s: Seq<char>) -> Seq<Seq<char>> {
    if s.len() > 0 && s[0] == '/' {
        seq![seq!['/']]
    } else if s == seq!['.'] || (s.len() >= 2 && s[0] == '.' && s[1] == '/') {
        seq![seq!['.']]
    } else {
        seq![]
    }
}

/// The components of a path, as `Path::components` yields them on Unix.
pub open spec fn components(s: Seq<char>) -> Seq<Seq<char>> {
    lead(s) + normal_parts(s)
}

/// Whether `path` begins with all the components of `base`
/// (`Path::starts_with`).
pub open spec fn within(path: Seq<char>, base: Seq<char>) -> bool {
    components(base).is_prefix_of(components(path))
}

/// A plain file name: one normal component.
pub open spec fn is_plain_name(part: Seq<char>) -> bool {
    kept(part) && !part.contains('/')
}

/// `char_index` of a concatenation.
pub proof fn lemma_char_index_concat(a: Seq<char>, b: Seq<char>, c: char)
    ensures
        char_index(a, c) < a.len() ==> char_index(a + b, c) == char_index(a, c),
        char_index(a, c) == a.len() ==> char_index(a + b, c) == a.len() + char_index(b, c),
{
    lemma_char_index(a, c);
    lemma_char_index(b, c);
    let ab = a + b;
    if char_index(a, c) < a.len() {
        let k = char_index(a, c) as int;
        assert forall|j: int| 0 <= j < k implies ab[j] != c by {
            assert(ab[j] == a[j]);
        }
        assert(ab[k] == a[k]);
        lemma_char_index_at(ab, c, k);
    } else {
        let k: int = (a.len() + char_index(b, c)) as int;
        assert forall|j: int| 0 <= j < k implies ab[j] != c by {
            if j < a.len() {
                assert(ab[j] == a[j]);
            } else {
                assert(ab[j] == b[j - a.len()]);
            }
        }
        if k < ab.len() {
            assert(ab[k] == b[char_index(b, c) as int]);
        }
        lemma_char_index_at(ab, c, k);
    }
}

/// Appending a plain name to a path that is empty or ends with a slash adds
/// that name as its last component.
pub proof fn lemma_normal_parts_append(a: Seq<char>, part: Seq<char>)
    requires
        is_plain_name(part),
        a.len() == 0 || a.last() == '/',
    ensures
        normal_parts(a + part) == normal_parts(a) + seq![part],
    decreases a.len(),
{
    lemma_char_index(part, '/');
    if char_index(part, '/') < part.len() {
        assert(part.contains('/'));
    }
    if a.len() == 0 {
        assert(a + part =~= part);
        assert(part.take(part.len() as int) =~= part);
        assert(normal_parts(part) == seq![part]);
        assert(normal_parts(a) + seq![part] =~= seq![part]);
    } else {
        let ap = a + part;
        lemma_char_index(a, '/');
        assert(a[a.len() - 1] == '/');
        if char_index(a, '/') == a.len() {
            assert(false);
        }
        lemma_char_index_concat(a, part, '/');
        let k = char_index(a, '/') as int;
        assert(ap.take(k) =~= a.take(k));
        let a2 = a.skip(k + 1);
        assert(ap.skip(k + 1) =~= a2 + part);
        if a2.len() > 0 {
            assert(a2.last() == a.last());
        }
        lemma_normal_parts_append(a2, part);
        if kept(a.take(k)) {
            assert(normal_parts(ap) == seq![a.take(k)] + normal_parts(a2 + part));
            assert(normal_parts(a) == seq![a.take(k)] + normal_parts(a2));
            assert(normal_parts(ap) =~= normal_parts(a) + seq![part]);
        } else {
            assert(normal_parts(ap) == normal_parts(a2 + part));
            assert(normal_parts(a) == normal_parts(a2));
        }
    }
}

/// A trailing slash adds no component.
pub proof fn lemma_normal_parts_slash(b: Seq<char>)
    ensures
        normal_parts(b + seq!['/']) == normal_parts(b),
    decreases b.len(),
{
    let s = seq!['/'];
    let bs = b + s;
    let empty = Seq::<char>::empty();
    lemma_char_index(b, '/');
    lemma_char_index_concat(b, s, '/');
    lemma_char_index_at(s, '/', 0);
    assert(normal_parts(empty) == Seq::<Seq<char>>::empty());
    if b.len() == 0 {
        assert(bs =~= s);
        assert(s.take(0) =~= empty);
        assert(s.skip(1) =~= empty);
        assert(!kept(s.take(0)));
        assert(normal_parts(s) == normal_parts(s.skip(1)));
    } else {
        let k = char_index(b, '/') as int;
        if k < b.len() {
            assert(char_index(bs, '/') == k);
            assert(bs.take(k) =~= b.take(k));
            assert(bs.skip(k + 1) =~= b.skip(k + 1) + s);
            lemma_normal_parts_slash(b.skip(k + 1));
            let piece = b.take(k);
            if kept(piece) {
                assert(normal_parts(bs) == seq![piece] + normal_parts(bs.skip(k + 1)));
                assert(normal_parts(b) == seq![piece] + normal_parts(b.skip(k + 1)));
            } else {
                assert(normal_parts(bs) == normal_parts(bs.skip(k + 1)));
                assert(normal_parts(b) == normal_parts(b.skip(k + 1)));
            }
        } else {
            assert(char_index(bs, '/') == b.len());
            assert(bs.take(k) =~= b);
            assert(b.take(k) =~= b);
            assert(bs.skip(k + 1) =~= empty);
            if kept(b) {
                assert(normal_parts(bs) == seq![b] + normal_parts(bs.skip(k + 1)));
                assert(normal_parts(b) == seq![b] + Seq::<Seq<char>>::empty());
                assert(normal_parts(bs) =~= normal_parts(b));
            } else {
                assert(normal_parts(bs) == normal_parts(bs.skip(k + 1)));
                assert(normal_parts(b) == Seq::<Seq<char>>::empty());
            }
        }
    }
}

/// Joining a plain name onto a path adds exactly that name as its last
/// component.
pub proof fn lemma_components_join(base: Seq<char>, part: Seq<char>)
    requires
        is_plain_name(part),
    ensures
        components(join(base, part)) == components(base) + seq![part],
{
    let j = join(base, part);
    assert(part[0] != '/') by {
        assert(part.contains(part[0]) ==> part[0] != '/');
        assert(part.contains(part[0]));
    }
    if base.len() == 0 {
        assert(j =~= part);
        lemma_normal_parts_append(base, part);
        assert(base + part =~= part);
        if part.len() >= 2 && part[1] == '/' {
            assert(part.contains(part[1]));
        }
        assert(lead(part) =~= Seq::<Seq<char>>::empty());
        assert(components(base) =~= Seq::<Seq<char>>::empty());
        assert(components(j) =~= components(base) + seq![part]);
    } else if base.last() != '/' {
        let bs = base + seq!['/'];
        assert(j =~= bs + part);
        lemma_normal_parts_append(bs, part);
        lemma_normal_parts_slash(base);
        assert(j[0] == base[0]);
        if base.len() >= 2 {
            assert(j[1] == base[1]);
        } else {
            assert(j[1] == '/');
            if base[0] == '.' {
                assert(base =~= seq!['.']);
            }
        }
        assert(lead(j) == lead(base));
        assert(components(j) =~= components(base) + seq![part]);
    } else {
        assert(j =~= base + part);
        lemma_normal_parts_append(base, part);
        assert(j[0] == base[0]);
        if base.len() >= 2 {
            assert(j[1] == base[1]);
        }
        assert(lead(j) == lead(base));
        assert(components(j) =~= components(base) + seq![part]);
    }
}

/// Law: a path followed by a slash and a plain name lies within the path,
/// whatever the path ends with.
pub proof fn lemma_slash_name_within(dir: Seq<char>, part: Seq<char>)
    requires
        is_plain_name(part),
    ensures
        within(dir + seq!['/'] + part, dir),
{
    let ds = dir + seq!['/'];
    let j = ds + part;
    assert(dir + seq!['/'] + part =~= j);
    let cd = components(dir);
    if dir.len() == 0 {
        assert(cd =~= Seq::<Seq<char>>::empty());
        assert(cd =~= components(j).subrange(0, 0));
    } else {
        lemma_normal_parts_append(ds, part);
        lemma_normal_parts_slash(dir);
        assert(j[0] == dir[0]);
        if dir.len() >= 2 {
            assert(j[1] == dir[1]);
        } else {
            assert(j[1] == '/');
            if dir[0] == '.' {
                assert(dir =~= seq!['.']);
            }
        }
        assert(lead(j) == lead(dir));
        assert(components(j) =~= cd + seq![part]);
        assert(cd =~= components(j).subrange(0, cd.len() as int));
    }
}

/// Law: a path joined with a plain name lies within the path.
pub proof fn lemma_join_within(base: Seq<char>, part: Seq<char>)
    requires
        is_plain_name(part),
    ensures
        within(join(base, part), base),
{
    lemma_components_join(base, part);
    let cb = components(base);
    assert(cb =~= (cb + seq![part]).subrange(0, cb.len() as int));
}

/// Law: joining two different plain names onto the same path gives two
/// paths neither of which lies within the other.
pub proof fn lemma_join_disjoint(base: Seq<char>, a: Seq<char>, b: Seq<char>)
    requires
        is_plain_name(a),
        is_plain_name(b),
        a != b,
    ensures
        !within(join(base, a), join(base, b)),
        !within(join(base, b), join(base, a)),
{
    lemma_components_join(base, a);
    lemma_components_join(base, b);
    let cb = components(base);
    let ca = cb + seq![a];
    let cbb = cb + seq![b];
    if ca.is_prefix_of(cbb) {
        assert(ca.len() == cbb.len());
        assert(cbb.subrange(0, ca.len() as int) =~= cbb);
        assert(ca[cb.len() as int] == cbb[cb.len() as int]);
    }
    if cbb.is_prefix_of(ca) {
        assert(ca.subrange(0, cbb.len() as int) =~= ca);
        assert(ca[cb.len() as int] == cbb[cb.len() as int]);
    }
}

/// The normal components of `s`.
fn normal_parts_of(s: &[char]) -> (out: Vec<Vec<char>>)
    ensures
        views(out@) == normal_parts(s@),
{
    let n = s.len();
    let mut out: Vec<Vec<char>> = Vec::new();
    let mut i: usize = 0;
    proof {
        assert(s@.skip(0) =~= s@);
        assert(views(out@) + normal_parts(s@) =~= normal_parts(s@));
    }
    while i < n
        invariant
            n == s@.len(),
            0 <= i <= n,
            normal_parts(s@) == views(out@) + normal_parts(s@.skip(i as int)),
        decreases n - i,
    {
        let mut j: usize = i;
        while j < n && s[j] != '/'
            invariant
                n == s@.len(),
                i <= j <= n,
                forall|k: int| i <= k < j ==> s@[k] != '/',
            decreases n - j,
        {
            j = j + 1;
        }
        let ghost t = s@.skip(i as int);
        proof {
            assert forall|k: int| 0 <= k < j - i implies t[k] != '/' by {
                assert(t[k] == s@[k + i]);
            }
            if j < n {
                assert(t[j - i] == s@[j as int]);
            }
            lemma_char_index_at(t, '/', j - i);
            assert(t.take(j - i) =~= s@.subrange(i as int, j as int));
        }
        let piece = copy_range(s, i, j);
        let keep = piece.len() > 0 && !(piece.len() == 1 && piece[0] == '.');
        proof {
            if piece@.len() == 1 && piece@[0] == '.' {
                assert(piece@ =~= seq!['.']);
            }
            assert(keep == kept(piece@));
        }
        let ghost before = out@;
        let next = if j < n {
            j + 1
        } else {
            n
        };
        proof {
            if j < n {
                assert(t.skip(j - i + 1) =~= s@.skip(j + 1));
            } else {
                assert(s@.skip(n as int) =~= Seq::<char>::empty());
            }
        }
        if keep {
            out.push(piece);
            proof {
                assert(views(out@) =~= views(before) + seq![piece@]);
                assert(views(out@) + normal_parts(s@.skip(next as int)) =~= views(before) + (
                seq![piece@] + normal_parts(s@.skip(next as int))));
            }
        }
        i = next;
    }
    proof {
        assert(s@.skip(n as int) =~= Seq::<char>::empty());
        assert(views(out@) + Seq::<Seq<char>>::empty() =~= views(out@));
    }
    out
}

/// The components of `s`.
pub fn components_of(s: &[char]) -> (out: Vec<Vec<char>>)
    ensures
        views(out@) == components(s@),
{
    let mut out: Vec<Vec<char>> = Vec::new();
    let n = s.len();
    if n > 0 && s[0] == '/' {
        let mut root = Vec::new();
        root.push('/');
        out.push(root);
        proof {
            assert(root@ =~= seq!['/']);
        }
    } else if (n == 1 && s[0] == '.') || (n >= 2 && s[0] == '.' && s[1] == '/') {
        let mut cur = Vec::new();
        cur.push('.');
        out.push(cur);
        proof {
            assert(cur@ =~= seq!['.']);
            if n == 1 {
                assert(s@ =~= seq!['.']);
            }
        }
    }
    proof {
        if !(n == 1 && s@[0] == '.') {
            if s@ == seq!['.'] {
                assert(s@.len() == 1);
            }
        }
        assert(views(out@) =~= lead(s@));
    }
    let rest = normal_parts_of(s);
    let ghost before = out@;
    let mut i: usize = 0;
    while i < rest.len()
        invariant
            0 <= i <= rest@.len(),
            views(rest@) == normal_parts(s@),
            views(out@) == lead(s@) + views(rest@).take(i as int),
        decreases rest@.len() - i,
    {
        let piece = copy_range(rest[i].as_slice(), 0, rest[i].len());
        let ghost prev = out@;
        out.push(piece);
        proof {
            assert(piece@ =~= rest@[i as int]@);
            assert(views(rest@)[i as int] == rest@[i as int]@);
            assert(views(out@) =~= views(prev) + seq![piece@]);
            assert(views(rest@).take(i + 1) =~= views(rest@).take(i as int) + seq![piece@]);
        }
        i = i + 1;
    }
    proof {
        assert(views(rest@).take(rest@.len() as int) =~= views(rest@));
    }
    out
}

/// Whether `path` lies within `base`, component by component.
pub fn path_starts_with(path: &str, base: &str) -> (b: bool)
    ensures
        b == within(path@, base@),
{
    let pc = components_of(chars_of(path).as_slice());
    let bc = components_of(chars_of(base).as_slice());
    let ghost cp = components(path@);
    let ghost cb = components(base@);
    proof {
        assert(views(pc@).len() == pc@.len());
        assert(views(bc@).len() == bc@.len());
    }
    if bc.len() > pc.len() {
        return false;
    }
    let mut i: usize = 0;
    while i < bc.len()
        invariant
            views(pc@) == cp,
            views(bc@) == cb,
            cp == components(path@),
            cb == components(base@),
            bc@.len() <= pc@.len(),
            0 <= i <= bc@.len(),
            forall|k: int| 0 <= k < i ==> cb[k] == cp[k],
        decreases bc@.len() - i,
    {
        proof {
            assert(views(pc@)[i as int] == pc@[i as int]@);
            assert(views(bc@)[i as int] == bc@[i as int]@);
        }
        if !chars_eq(bc[i].as_slice(), pc[i].as_slice()) {
            proof {
                assert(cb[i as int] != cp[i as int]);
                if cb == cp.subrange(0, cb.len() as int) {
                    assert(cb[i as int] == cp.subrange(0, cb.len() as int)[i as int]);
                }

            }
            return false;
        }
        i = i + 1;
    }
    proof {
        assert(cb =~= cp.subrange(0, cb.len() as int));
    }
    true
}

} // verus!
