//! Path manipulation: normalization, joining and splitting of `/`-separated paths.
use vstd::prelude::*;
use vstd::string::*;
use crate::text::{push_char, chars_of};

verus! {

// ---------------------------------------------------------------------------
// Mathematical model of paths (sequences of characters)
// ---------------------------------------------------------------------------

/// The pieces of `s` between `/` characters, exactly as `str::split('/')` yields them
/// (so a string with `n` slashes has `n + 1` pieces, some possibly empty).
pub open spec fn split_segments(s: Seq<char>) -> Seq<Seq<char>>
    decreases s.len(),
{
    if s.len() == 0 {
        seq![Seq::<char>::empty()]
    } else {
        let pre = split_segments(s.drop_last());
        if s.last() == '/' {
            pre.push(Seq::<char>::empty())
        } else {
            pre.update(pre.len() - 1, pre.last().push(s.last()))
        }
    }
}

pub open spec fn is_dot(c: Seq<char>) -> bool {
    c.len() == 1 && c[0] == '.'
}

pub open spec fn is_dotdot(c: Seq<char>) -> bool {
    c.len() == 2 && c[0] == '.' && c[1] == '.'
}

/// One step of normalization: how the stack of kept components reacts to the next piece.
pub open spec fn norm_step(stack: Seq<Seq<char>>, comp: Seq<char>, absolute: bool) -> Seq<Seq<char>> {
    if comp.len() == 0 || is_dot(comp) {
        stack
    } else if is_dotdot(comp) {
        if stack.len() > 0 && !is_dotdot(stack.last()) {
            stack.drop_last()
        } else if !absolute {
            stack.push(comp)
        } else {
            stack
        }
    } else {
        stack.push(comp)
    }
}

/// Components kept after resolving every piece of `segs` from left to right.
pub open spec fn norm_fold(segs: Seq<Seq<char>>, absolute: bool) -> Seq<Seq<char>>
    decreases segs.len(),
{
    if segs.len() == 0 {
        Seq::empty()
    } else {
        norm_step(norm_fold(segs.drop_last(), absolute), segs.last(), absolute)
    }
}

/// `"/c1/c2/.../cn"`
pub open spec fn join_abs(stack: Seq<Seq<char>>) -> Seq<char>
    decreases stack.len(),
{
    if stack.len() == 0 {
        Seq::empty()
    } else {
        join_abs(stack.drop_last()).push('/') + stack.last()
    }
}

/// `"c1/c2/.../cn"`
pub open spec fn join_rel(stack: Seq<Seq<char>>) -> Seq<char>
    decreases stack.len(),
{
    if stack.len() == 0 {
        Seq::empty()
    } else if stack.len() == 1 {
        stack[0]
    } else {
        join_rel(stack.drop_last()).push('/') + stack.last()
    }
}

pub open spec fn starts_with_slash(s: Seq<char>) -> bool {
    s.len() > 0 && s[0] == '/'
}

pub open spec fn ends_with_slash(s: Seq<char>) -> bool {
    s.len() > 0 && s.last() == '/'
}

/// The normal form of a path: `.`, `..` and repeated slashes resolved.
pub open spec fn normalize_spec(s: Seq<char>) -> Seq<char> {
    let absolute = starts_with_slash(s);
    let stack = norm_fold(split_segments(s), absolute);
    if absolute {
        if stack.len() == 0 {
            seq!['/']
        } else {
            join_abs(stack)
        }
    } else {
        if stack.len() == 0 {
            seq!['.']
        } else {
            join_rel(stack)
        }
    }
}

/// A piece with no `/` in it.
pub open spec fn no_slash(c: Seq<char>) -> bool {
    !c.contains('/')
}

/// The components that normalization keeps: non-empty, without `/`, never `.`;
/// `..` only at the front, and never in an absolute path.
pub open spec fn clean_stack(st: Seq<Seq<char>>, absolute: bool) -> bool {
    &&& forall|i: int|
        0 <= i < st.len() ==> {
            &&& (#[trigger] st[i]).len() > 0
            &&& !is_dot(st[i])
            &&& no_slash(st[i])
            &&& (absolute ==> !is_dotdot(st[i]))
        }
    &&& forall|i: int, j: int| 0 <= i < j < st.len() && is_dotdot(#[trigger] st[j]) ==> is_dotdot(#[trigger] st[i])
}

/// No piece of a split contains `/`.
proof fn lemma_split_no_slash(s: Seq<char>)
    ensures
        forall|i: int| 0 <= i < split_segments(s).len() ==> no_slash(#[trigger] split_segments(s)[i]),
        split_segments(s).len() >= 1,
    decreases s.len(),
{
    if s.len() > 0 {
        let pre = split_segments(s.drop_last());
        lemma_split_no_slash(s.drop_last());
        if s.last() != '/' {
            let l = pre.last().push(s.last());
            assert forall|k: int| 0 <= k < l.len() implies l[k] != '/' by {
                if k < pre.last().len() {
                    assert(pre.last()[k] == l[k]);
                    assert(no_slash(pre[pre.len() - 1]));
                }
            }
            assert(no_slash(l));
        }
    }
}

/// Normalization keeps a clean stack.
proof fn lemma_fold_clean(segs: Seq<Seq<char>>, absolute: bool)
    requires
        forall|i: int| 0 <= i < segs.len() ==> no_slash(#[trigger] segs[i]),
    ensures
        clean_stack(norm_fold(segs, absolute), absolute),
    decreases segs.len(),
{
    if segs.len() > 0 {
        let d = segs.drop_last();
        assert forall|i: int| 0 <= i < d.len() implies no_slash(#[trigger] d[i]) by {
            assert(d[i] == segs[i]);
        }
        lemma_fold_clean(d, absolute);
        assert(no_slash(segs[segs.len() - 1]));
    }
}

/// A piece with no `/` splits into itself.
proof fn lemma_split_plain(b: Seq<char>)
    requires
        no_slash(b),
    ensures
        split_segments(b) == seq![b],
    decreases b.len(),
{
    if b.len() > 0 {
        let d = b.drop_last();
        assert(no_slash(d)) by {
            assert forall|k: int| 0 <= k < d.len() implies d[k] != '/' by {
                assert(b[k] == d[k]);
            }
        }
        lemma_split_plain(d);
        assert(b[b.len() - 1] == b.last());
        assert(d.push(b.last()) =~= b);
        assert(seq![d].update(0, d.push(b.last())) =~= seq![b]);
    } else {
        assert(b =~= Seq::<char>::empty());
    }
}

/// Splitting `a/b`, where `b` has no `/`, splits `a` and adds `b`.
proof fn lemma_split_append(a: Seq<char>, b: Seq<char>)
    requires
        no_slash(b),
    ensures
        split_segments(a.push('/') + b) == split_segments(a).push(b),
    decreases b.len(),
{
    let s = a.push('/') + b;
    if b.len() == 0 {
        assert(s =~= a.push('/'));
        assert(s.drop_last() =~= a);
        assert(b =~= Seq::<char>::empty());
    } else {
        let d = b.drop_last();
        assert(no_slash(d)) by {
            assert forall|k: int| 0 <= k < d.len() implies d[k] != '/' by {
                assert(b[k] == d[k]);
            }
        }
        lemma_split_append(a, d);
        assert(s.drop_last() =~= a.push('/') + d);
        assert(b[b.len() - 1] == b.last());
        assert(s.last() == b.last());
        lemma_split_no_slash(a);
        assert(d.push(b.last()) =~= b);
        assert(split_segments(a).push(d).update(split_segments(a).len() as int, d.push(b.last())) =~= split_segments(a).push(b));
    }
}

/// A clean stack joined as an absolute path splits back into an empty piece and the stack.
proof fn lemma_split_join_abs(st: Seq<Seq<char>>)
    requires
        forall|i: int| 0 <= i < st.len() ==> no_slash(#[trigger] st[i]),
    ensures
        split_segments(join_abs(st)) == seq![Seq::<char>::empty()] + st,
    decreases st.len(),
{
    if st.len() == 0 {
        assert(split_segments(Seq::<char>::empty()) == seq![Seq::<char>::empty()]);
        assert(seq![Seq::<char>::empty()] + st =~= seq![Seq::<char>::empty()]);
    } else {
        let d = st.drop_last();
        assert forall|i: int| 0 <= i < d.len() implies no_slash(#[trigger] d[i]) by {
            assert(d[i] == st[i]);
        }
        lemma_split_join_abs(d);
        assert(no_slash(st[st.len() - 1]));
        lemma_split_append(join_abs(d), st.last());
        assert((seq![Seq::<char>::empty()] + d).push(st.last()) =~= seq![Seq::<char>::empty()] + st);
    }
}

/// A non-empty clean stack joined as a relative path splits back into the stack.
proof fn lemma_split_join_rel(st: Seq<Seq<char>>)
    requires
        st.len() >= 1,
        forall|i: int| 0 <= i < st.len() ==> no_slash(#[trigger] st[i]),
    ensures
        split_segments(join_rel(st)) == st,
    decreases st.len(),
{
    if st.len() == 1 {
        assert(no_slash(st[0]));
        lemma_split_plain(st[0]);
        assert(seq![st[0]] =~= st);
    } else {
        let d = st.drop_last();
        assert forall|i: int| 0 <= i < d.len() implies no_slash(#[trigger] d[i]) by {
            assert(d[i] == st[i]);
        }
        lemma_split_join_rel(d);
        assert(no_slash(st[st.len() - 1]));
        lemma_split_append(join_rel(d), st.last());
        assert(d.push(st.last()) =~= st);
    }
}

/// Folding a clean stack, after the empty piece of a leading `/`, gives it back.
proof fn lemma_fold_abs_clean(st: Seq<Seq<char>>)
    requires
        clean_stack(st, true),
    ensures
        norm_fold(seq![Seq::<char>::empty()] + st, true) == st,
    decreases st.len(),
{
    let segs = seq![Seq::<char>::empty()] + st;
    if st.len() == 0 {
        assert(segs.drop_last() =~= Seq::<Seq<char>>::empty());
        assert(norm_fold(Seq::<Seq<char>>::empty(), true) == Seq::<Seq<char>>::empty());
        assert(segs.last() == Seq::<char>::empty());
        assert(norm_fold(segs, true) == norm_step(Seq::<Seq<char>>::empty(), Seq::<char>::empty(), true));
    } else {
        let d = st.drop_last();
        assert(clean_stack(d, true)) by {
            assert forall|i: int| 0 <= i < d.len() implies (#[trigger] d[i]).len() > 0 && !is_dot(d[i]) && no_slash(d[i]) && !is_dotdot(d[i]) by {
                assert(d[i] == st[i]);
            }
        }
        lemma_fold_abs_clean(d);
        assert(segs.drop_last() =~= seq![Seq::<char>::empty()] + d);
        assert(segs.last() == st[st.len() - 1]);
        assert(norm_fold(segs.drop_last(), true) == d);
        assert(d.push(st.last()) =~= st);
        assert(norm_fold(segs, true) == norm_step(d, st.last(), true));
    }
}

/// Folding a clean relative stack gives it back.
proof fn lemma_fold_rel_clean(st: Seq<Seq<char>>)
    requires
        clean_stack(st, false),
    ensures
        norm_fold(st, false) == st,
    decreases st.len(),
{
    if st.len() > 0 {
        let d = st.drop_last();
        assert(clean_stack(d, false)) by {
            assert forall|i: int| 0 <= i < d.len() implies (#[trigger] d[i]).len() > 0 && !is_dot(d[i]) && no_slash(d[i]) by {
                assert(d[i] == st[i]);
            }
            assert forall|i: int, j: int| 0 <= i < j < d.len() && is_dotdot(#[trigger] d[j]) implies is_dotdot(#[trigger] d[i]) by {
                assert(d[i] == st[i] && d[j] == st[j]);
            }
        }
        lemma_fold_rel_clean(d);
        let l = st[st.len() - 1];
        assert(l.len() > 0 && !is_dot(l));
        if is_dotdot(l) && d.len() > 0 {
            assert(d.last() == st[d.len() - 1]);
            assert(is_dotdot(st[d.len() - 1]));
        }
        assert(d.push(st.last()) =~= st);
    }
}

/// An absolute join starts with `/`.
proof fn lemma_join_abs_first(st: Seq<Seq<char>>)
    requires
        st.len() >= 1,
    ensures
        join_abs(st).len() >= 1,
        join_abs(st)[0] == '/',
    decreases st.len(),
{
    let d = st.drop_last();
    if st.len() > 1 {
        lemma_join_abs_first(d);
    } else {
        assert(join_abs(d) =~= Seq::<char>::empty());
    }
    assert((join_abs(d).push('/') + st.last())[0] == join_abs(d).push('/')[0]);
}

/// A relative join starts with the first character of its first component.
proof fn lemma_join_rel_first(st: Seq<Seq<char>>)
    requires
        st.len() >= 1,
        st[0].len() >= 1,
    ensures
        join_rel(st).len() >= 1,
        join_rel(st)[0] == st[0][0],
    decreases st.len(),
{
    if st.len() > 1 {
        let d = st.drop_last();
        assert(d[0] == st[0]);
        lemma_join_rel_first(d);
        assert((join_rel(d).push('/') + st.last())[0] == join_rel(d).push('/')[0]);
    }
}

/// Normalizing twice gives what normalizing once gives.
pub proof fn law_normalize_idempotent(p: Seq<char>)
    ensures
        normalize_spec(normalize_spec(p)) == normalize_spec(p),
{
    let absolute = starts_with_slash(p);
    let segs = split_segments(p);
    lemma_split_no_slash(p);
    lemma_fold_clean(segs, absolute);
    let st = norm_fold(segs, absolute);
    let q = normalize_spec(p);
    if absolute {
        if st.len() == 0 {
            assert(q == seq!['/']);
            assert(q.drop_last() =~= Seq::<char>::empty());
            assert(split_segments(Seq::<char>::empty()) == seq![Seq::<char>::empty()]);
            assert(q.last() == '/');
            assert(split_segments(q) == split_segments(q.drop_last()).push(Seq::<char>::empty()));
            assert(split_segments(q) =~= seq![Seq::<char>::empty(), Seq::<char>::empty()]);
            assert(norm_fold(split_segments(q), true).len() == 0) by {
                let e = Seq::<char>::empty();
                let z = Seq::<Seq<char>>::empty();
                assert(norm_fold(z, true) == z);
                assert(seq![e].drop_last() =~= z);
                assert(norm_fold(seq![e], true) == norm_step(norm_fold(z, true), e, true));
                assert(seq![e, e].drop_last() =~= seq![e]);
                assert(norm_fold(seq![e, e], true) == norm_step(norm_fold(seq![e], true), e, true));
            }
        } else {
            lemma_join_abs_first(st);
            lemma_split_join_abs(st);
            lemma_fold_abs_clean(st);
        }
    } else {
        if st.len() == 0 {
            assert(q == seq!['.']);
            assert(q.drop_last() =~= Seq::<char>::empty());
            assert(split_segments(Seq::<char>::empty()) == seq![Seq::<char>::empty()]);
            assert(q.last() == '.');
            assert(Seq::<char>::empty().push('.') =~= seq!['.']);
            assert(split_segments(q) =~= seq![seq!['.']]);
            assert(norm_fold(split_segments(q), false).len() == 0) by {
                let z = Seq::<Seq<char>>::empty();
                assert(norm_fold(z, false) == z);
                assert(seq![seq!['.']].drop_last() =~= z);
                assert(is_dot(seq!['.']));
                assert(norm_fold(seq![seq!['.']], false) == norm_step(norm_fold(z, false), seq!['.'], false));
            }
        } else {
            assert(st[0].len() > 0 && no_slash(st[0]));
            lemma_join_rel_first(st);
            assert(st[0].contains(st[0][0]));
            lemma_split_join_rel(st);
            lemma_fold_rel_clean(st);
        }
    }
}

/// Splitting `a/b` splits `a` and `b` and puts the pieces one after the other.
proof fn lemma_split_concat(a: Seq<char>, b: Seq<char>)
    ensures
        split_segments(a.push('/') + b) == split_segments(a) + split_segments(b),
    decreases b.len(),
{
    let s = a.push('/') + b;
    if b.len() == 0 {
        assert(s =~= a.push('/'));
        assert(s.drop_last() =~= a);
        assert(split_segments(b) == seq![Seq::<char>::empty()]);
        assert(split_segments(a).push(Seq::<char>::empty()) =~= split_segments(a) + seq![Seq::<char>::empty()]);
    } else {
        let d = b.drop_last();
        lemma_split_concat(a, d);
        lemma_split_no_slash(d);
        assert(s.drop_last() =~= a.push('/') + d);
        assert(s.last() == b.last());
        let sa = split_segments(a);
        let sd = split_segments(d);
        if b.last() == '/' {
            assert((sa + sd).push(Seq::<char>::empty()) =~= sa + sd.push(Seq::<char>::empty()));
        } else {
            assert((sa + sd).update((sa + sd).len() - 1, (sa + sd).last().push(b.last()))
                =~= sa + sd.update(sd.len() - 1, sd.last().push(b.last())));
        }
    }
}

/// An empty piece changes nothing in normalization, wherever it stands.
proof fn lemma_fold_skip_empty(x: Seq<Seq<char>>, y: Seq<Seq<char>>, absolute: bool)
    ensures
        norm_fold(x.push(Seq::<char>::empty()) + y, absolute) == norm_fold(x + y, absolute),
    decreases y.len(),
{
    if y.len() == 0 {
        assert(x.push(Seq::<char>::empty()) + y =~= x.push(Seq::<char>::empty()));
        assert(x.push(Seq::<char>::empty()).drop_last() =~= x);
        assert(x + y =~= x);
    } else {
        let d = y.drop_last();
        lemma_fold_skip_empty(x, d, absolute);
        assert((x.push(Seq::<char>::empty()) + y).drop_last() =~= x.push(Seq::<char>::empty()) + d);
        assert((x + y).drop_last() =~= x + d);
        assert((x.push(Seq::<char>::empty()) + y).last() == y.last());
        assert((x + y).last() == y.last());
    }
}

/// Joining onto a base that ends with `/` is joining onto it with one more `/`:
/// `join_path` resolves `path` against `base` as `base/path`, unless `path` is
/// absolute or `base` is empty or `.`.
pub proof fn law_join_path(base: Seq<char>, path: Seq<char>)
    ensures
        normalize_spec(join_input(base, path)) == if starts_with_slash(path) || base.len() == 0 || base == seq!['.'] {
            normalize_spec(path)
        } else {
            normalize_spec(base.push('/') + path)
        },
{
    if !starts_with_slash(path) && base.len() > 0 && base != seq!['.'] && ends_with_slash(base) {
        let bd = base.drop_last();
        assert(bd.push('/') =~= base);
        lemma_split_concat(bd, path);
        lemma_split_concat(base, path);
        assert(split_segments(base) == split_segments(bd).push(Seq::<char>::empty()));
        assert(base + path =~= bd.push('/') + path);
        let absolute = starts_with_slash(base + path);
        assert(absolute == starts_with_slash(base.push('/') + path)) by {
            assert((base + path)[0] == base[0]);
            assert((base.push('/') + path)[0] == base[0]);
        }
        lemma_fold_skip_empty(split_segments(bd), split_segments(path), absolute);
    }
}

/// The path that `join_path` resolves before normalizing it.
pub open spec fn join_input(base: Seq<char>, path: Seq<char>) -> Seq<char> {
    if starts_with_slash(path) {
        path
    } else if base.len() == 0 || base == seq!['.'] {
        path
    } else if ends_with_slash(base) {
        base + path
    } else {
        base.push('/') + path
    }
}

/// Index of the last occurrence of `c` in `s`, or -1.
pub open spec fn last_index_of(s: Seq<char>, c: char) -> int
    decreases s.len(),
{
    if s.len() == 0 {
        -1
    } else if s.last() == c {
        s.len() - 1
    } else {
        last_index_of(s.drop_last(), c)
    }
}

/// `s` without its trailing slashes.
pub open spec fn trim_trailing_slashes(s: Seq<char>) -> Seq<char>
    decreases s.len(),
{
    if s.len() > 0 && s.last() == '/' {
        trim_trailing_slashes(s.drop_last())
    } else {
        s
    }
}

/// Parent directory of a normalized path.
pub open spec fn parent_spec(path: Seq<char>) -> Option<Seq<char>> {
    let n = normalize_spec(path);
    if n == seq!['/'] {
        None
    } else {
        let pos = last_index_of(n, '/');
        if pos == 0 {
            Some(seq!['/'])
        } else if pos > 0 {
            Some(n.subrange(0, pos))
        } else {
            Some(seq!['.'])
        }
    }
}

/// Final component of a path (trailing slashes ignored).
pub open spec fn filename_spec(path: Seq<char>) -> Option<Seq<char>> {
    let t = trim_trailing_slashes(path);
    if t.len() == 0 {
        None
    } else {
        let pos = last_index_of(t, '/');
        if pos >= 0 {
            Some(t.subrange(pos + 1, t.len() as int))
        } else {
            Some(t)
        }
    }
}

/// Parent and name of a normalized path.
pub open spec fn split_spec(path: Seq<char>) -> (Seq<char>, Seq<char>) {
    let n = normalize_spec(path);
    if n == seq!['/'] {
        (seq!['/'], Seq::empty())
    } else {
        let pos = last_index_of(n, '/');
        if pos == 0 {
            (seq!['/'], n.subrange(1, n.len() as int))
        } else if pos > 0 {
            (n.subrange(0, pos), n.subrange(pos + 1, n.len() as int))
        } else {
            (seq!['.'], n)
        }
    }
}

/// A relative join begins with its first component.
proof fn lemma_join_rel_prefix(st: Seq<Seq<char>>)
    requires
        st.len() >= 1,
    ensures
        join_rel(st).len() >= st[0].len(),
        forall|i: int| 0 <= i < st[0].len() ==> join_rel(st)[i] == st[0][i],
    decreases st.len(),
{
    if st.len() > 1 {
        let d = st.drop_last();
        assert(d[0] == st[0]);
        lemma_join_rel_prefix(d);
        let x = join_rel(d);
        assert forall|i: int| 0 <= i < st[0].len() implies join_rel(st)[i] == st[0][i] by {
            assert((x.push('/') + st.last())[i] == x[i]);
        }
    }
}

/// The normal form of a path, other than `/`, does not end with `/`; and it does not
/// begin with `./`.
proof fn lemma_normal_form_ends(p: Seq<char>)
    ensures
        normalize_spec(p).len() >= 1,
        normalize_spec(p) != seq!['/'] ==> normalize_spec(p).last() != '/',
        !(normalize_spec(p).len() >= 2 && normalize_spec(p)[0] == '.' && normalize_spec(p)[1] == '/'),
{
    let absolute = starts_with_slash(p);
    let segs = split_segments(p);
    lemma_split_no_slash(p);
    lemma_fold_clean(segs, absolute);
    let st = norm_fold(segs, absolute);
    let q = normalize_spec(p);
    if st.len() > 0 {
        let l = st[st.len() - 1];
        assert(l.len() > 0 && no_slash(l));
        assert(l[l.len() - 1] != '/');
        if absolute {
            lemma_join_abs_first(st);
            assert(q =~= join_abs(st.drop_last()).push('/') + l);
            assert(q.last() == l.last());
            assert(q != seq!['/']) by {
                if q == seq!['/'] {
                    assert(q.len() == 1);
                }
            }
        } else {
            lemma_join_rel_prefix(st);
            assert(st[0].len() > 0 && no_slash(st[0]) && !is_dot(st[0]));
            if st.len() > 1 {
                assert(q =~= join_rel(st.drop_last()).push('/') + l);
            }
            assert(q.last() == l.last());
            if st[0].len() >= 2 {
                assert(q[1] == st[0][1]);
                assert(st[0][1] != '/');
            } else {
                assert(q[0] == st[0][0]);
            }
        }
    }
}

/// What `split` gives back: for `/`, `/` and nothing; otherwise a parent equal to
/// what `parent` gives and a non-empty name without `/`, which `join_path` puts
/// back together into the normal form of the path.
pub proof fn law_split(p: Seq<char>)
    ensures
        normalize_spec(p) == seq!['/'] ==> split_spec(p) == (seq!['/'], Seq::<char>::empty()),
        normalize_spec(p) != seq!['/'] ==> {
            &&& split_spec(p).1.len() > 0
            &&& no_slash(split_spec(p).1)
            &&& parent_spec(p) == Some(split_spec(p).0)
            &&& normalize_spec(join_input(split_spec(p).0, split_spec(p).1)) == normalize_spec(p)
        },
{
    let q = normalize_spec(p);
    if q != seq!['/'] {
        lemma_normal_form_ends(p);
        lemma_last_index_bounds(q, '/');
        law_normalize_idempotent(p);
        let pos = last_index_of(q, '/');
        let (d, n) = split_spec(p);
        assert(pos < q.len() - 1);
        assert(n.len() > 0);
        assert forall|k: int| 0 <= k < n.len() implies n[k] != '/' by {
            if pos >= 0 {
                assert(n[k] == q[pos + 1 + k]);
            } else {
                assert(n[k] == q[k]);
            }
        }
        law_join_path(d, n);
        if pos == 0 {
            assert(ends_with_slash(d));
            assert(join_input(d, n) =~= q);
        } else if pos > 0 {
            assert(d != seq!['.']) by {
                if d == seq!['.'] {
                    assert(d.len() == 1);
                    assert(pos == 1);
                    assert(q[0] == d[0]);
                    assert(d[0] == '.');
                    assert(q[1] == '/');
                }
            }
            assert(d.push('/') + n =~= q);
        } else {
            assert(join_input(d, n) == n);
        }
    }
}

pub open spec fn is_kept_component(c: Seq<char>) -> bool {
    c.len() > 0 && !is_dot(c)
}

/// The pieces of `segs` that are neither empty nor `.`.
pub open spec fn kept_components(segs: Seq<Seq<char>>) -> Seq<Seq<char>>
    decreases segs.len(),
{
    if segs.len() == 0 {
        Seq::empty()
    } else {
        let r = kept_components(segs.drop_last());
        if is_kept_component(segs.last()) {
            r.push(segs.last())
        } else {
            r
        }
    }
}

pub open spec fn components_spec(path: Seq<char>) -> Seq<Seq<char>> {
    kept_components(split_segments(path))
}

// ---------------------------------------------------------------------------
// Lemmas
// ---------------------------------------------------------------------------

/// The components that normalizing `p` keeps, in order.
pub open spec fn path_stack(p: Seq<char>) -> Seq<Seq<char>> {
    norm_fold(split_segments(p), starts_with_slash(p))
}

/// Non-empty pieces other than `.` are all kept, after a leading empty piece too.
proof fn lemma_kept_clean(st: Seq<Seq<char>>)
    requires
        forall|i: int| 0 <= i < st.len() ==> (#[trigger] st[i]).len() > 0 && !is_dot(st[i]),
    ensures
        kept_components(st) == st,
        kept_components(seq![Seq::<char>::empty()] + st) == st,
    decreases st.len(),
{
    if st.len() == 0 {
        assert(kept_components(Seq::<Seq<char>>::empty()) == Seq::<Seq<char>>::empty());
        let e = seq![Seq::<char>::empty()];
        assert(e + st =~= e);
        assert(e.drop_last() =~= Seq::<Seq<char>>::empty());
    } else {
        let d = st.drop_last();
        assert forall|i: int| 0 <= i < d.len() implies (#[trigger] d[i]).len() > 0 && !is_dot(d[i]) by {
            assert(d[i] == st[i]);
        }
        lemma_kept_clean(d);
        assert(st[st.len() - 1].len() > 0 && !is_dot(st[st.len() - 1]));
        assert(d.push(st.last()) =~= st);
        let e = seq![Seq::<char>::empty()];
        assert((e + st).drop_last() =~= e + d);
        assert((e + st).last() == st.last());
    }
}

/// The components of a normal form are the components normalization kept; the
/// normal form is `/` only when nothing was kept of an absolute path.
pub proof fn lemma_components_of_normal(p: Seq<char>)
    ensures
        normalize_spec(p) == seq!['/'] ==> path_stack(p).len() == 0,
        normalize_spec(p) != seq!['/'] ==> components_spec(normalize_spec(p)) == path_stack(p),
{
    let absolute = starts_with_slash(p);
    lemma_split_no_slash(p);
    lemma_fold_clean(split_segments(p), absolute);
    let st = path_stack(p);
    let q = normalize_spec(p);
    assert forall|i: int| 0 <= i < st.len() implies (#[trigger] st[i]).len() > 0 && !is_dot(st[i]) && no_slash(st[i]) by {}
    lemma_kept_clean(st);
    if st.len() == 0 {
        if !absolute {
            assert(q == seq!['.']);
            assert(q.drop_last() =~= Seq::<char>::empty());
            assert(split_segments(Seq::<char>::empty()) == seq![Seq::<char>::empty()]);
            assert(Seq::<char>::empty().push('.') =~= seq!['.']);
            assert(split_segments(q) =~= seq![seq!['.']]);
            let z = Seq::<Seq<char>>::empty();
            assert(seq![seq!['.']].drop_last() =~= z);
            assert(is_dot(seq!['.']));
            assert(kept_components(z) == z);
            assert(q != seq!['/']) by {
                assert(q[0] == '.');
            }
        }
    } else {
        if absolute {
            lemma_join_abs_first(st);
            lemma_split_join_abs(st);
            assert(q != seq!['/']) by {
                let l = st[st.len() - 1];
                assert(q =~= join_abs(st.drop_last()).push('/') + l);
                assert(q.len() >= 2);
            }
        } else {
            lemma_join_rel_first(st);
            lemma_split_join_rel(st);
            assert(st[0].contains(st[0][0]));
            assert(q != seq!['/']) by {
                assert(q[0] == st[0][0]);
            }
        }
    }
}

/// The shape of a normal form: never empty; absolute exactly when the path is;
/// `/` or else not ending with `/`; and its components are non-empty, never `.`,
/// and `..` only at the front of a relative path.
pub proof fn law_normal_form_shape(p: Seq<char>)
    ensures
        normalize_spec(p).len() >= 1,
        starts_with_slash(normalize_spec(p)) == starts_with_slash(p),
        normalize_spec(p) != seq!['/'] ==> normalize_spec(p).last() != '/',
        normalize_spec(p) != seq!['/'] ==> clean_stack(components_spec(normalize_spec(p)), starts_with_slash(p)),
{
    lemma_normal_form_ends(p);
    lemma_components_of_normal(p);
    let absolute = starts_with_slash(p);
    lemma_split_no_slash(p);
    lemma_fold_clean(split_segments(p), absolute);
    let st = path_stack(p);
    let q = normalize_spec(p);
    if st.len() > 0 {
        if absolute {
            lemma_join_abs_first(st);
        } else {
            lemma_join_rel_first(st);
            assert(st[0].len() > 0 && no_slash(st[0]));
            assert(st[0].contains(st[0][0]));
        }
    } else if !absolute {
        assert(q == seq!['.']);
    }
}

/// Joining a plain name (no `/`, not `.` or `..`) onto a path adds that name to
/// the components the path keeps.
pub proof fn lemma_join_stack(d: Seq<char>, n: Seq<char>)
    requires
        n.len() > 0,
        no_slash(n),
        !is_dot(n),
        !is_dotdot(n),
    ensures
        path_stack(join_input(d, n)) == path_stack(d).push(n),
{
    let j = join_input(d, n);
    lemma_split_plain(n);
    assert(!starts_with_slash(n)) by {
        assert(n[0] != '/');
    }
    if d.len() == 0 || d == seq!['.'] {
        let z = Seq::<Seq<char>>::empty();
        assert(seq![n].drop_last() =~= z);
        if d.len() == 0 {
            assert(d =~= Seq::<char>::empty());
            let e = seq![Seq::<char>::empty()];
            assert(split_segments(d) == e);
            assert(e.drop_last() =~= z);
        } else {
            assert(d.drop_last() =~= Seq::<char>::empty());
            assert(split_segments(Seq::<char>::empty()) == seq![Seq::<char>::empty()]);
            assert(Seq::<char>::empty().push('.') =~= seq!['.']);
            assert(split_segments(d) =~= seq![seq!['.']]);
            assert(seq![seq!['.']].drop_last() =~= z);
            assert(is_dot(seq!['.']));
        }
        assert(z.push(n) =~= seq![n]);
    } else {
        let absolute = starts_with_slash(d);
        if ends_with_slash(d) {
            let bd = d.drop_last();
            assert(bd.push('/') =~= d);
            lemma_split_concat(bd, n);
            assert(j =~= bd.push('/') + n);
            assert(split_segments(d) == split_segments(bd).push(Seq::<char>::empty()));
            assert(split_segments(d).drop_last() =~= split_segments(bd));
            assert(split_segments(bd) + seq![n] =~= split_segments(bd).push(n));
            assert(split_segments(bd).push(n).drop_last() =~= split_segments(bd));
        } else {
            lemma_split_concat(d, n);
            assert(split_segments(d) + seq![n] =~= split_segments(d).push(n));
            assert(split_segments(d).push(n).drop_last() =~= split_segments(d));
        }
        assert(starts_with_slash(j) == absolute) by {
            assert(j[0] == d[0]);
        }
    }
}

pub proof fn lemma_split_segments_nonempty(s: Seq<char>)
    ensures
        split_segments(s).len() >= 1,
    decreases s.len(),
{
    if s.len() > 0 {
        lemma_split_segments_nonempty(s.drop_last());
    }
}

proof fn lemma_last_index_bounds(s: Seq<char>, c: char)
    ensures
        -1 <= last_index_of(s, c) < s.len(),
        last_index_of(s, c) >= 0 ==> s[last_index_of(s, c)] == c,
        forall|j: int| last_index_of(s, c) < j < s.len() ==> s[j] != c,
    decreases s.len(),
{
    if s.len() > 0 && s.last() != c {
        lemma_last_index_bounds(s.drop_last(), c);
        assert forall|j: int| last_index_of(s, c) < j < s.len() implies s[j] != c by {
            if j < s.len() - 1 {
                assert(s[j] == s.drop_last()[j]);
            }
        }
    }
}

proof fn lemma_trim_is_prefix(s: Seq<char>)
    ensures
        trim_trailing_slashes(s).len() <= s.len(),
        trim_trailing_slashes(s) =~= s.subrange(0, trim_trailing_slashes(s).len() as int),
        trim_trailing_slashes(s).len() > 0 ==> trim_trailing_slashes(s).last() != '/',
        forall|j: int| trim_trailing_slashes(s).len() <= j < s.len() ==> s[j] == '/',
    decreases s.len(),
{
    if s.len() > 0 && s.last() == '/' {
        lemma_trim_is_prefix(s.drop_last());
        let t = trim_trailing_slashes(s);
        assert forall|j: int| t.len() <= j < s.len() implies s[j] == '/' by {
            if j < s.len() - 1 {
                assert(s[j] == s.drop_last()[j]);
            }
        }
        assert(t =~= s.subrange(0, t.len() as int)) by {
            assert(t =~= s.drop_last().subrange(0, t.len() as int));
        }
    }
}

/// The file name of a path is its last component: `None` exactly when the path is
/// nothing but slashes (or empty); otherwise a non-empty name without `/`, which
/// stands in the path right after a `/` (or at its start) and is followed only by
/// slashes, for relative and absolute paths alike.
pub proof fn law_filename(p: Seq<char>)
    ensures
        filename_spec(p) is None <==> (forall|i: int| 0 <= i < p.len() ==> p[i] == '/'),
        filename_spec(p) matches Some(n) ==> {
            &&& n.len() > 0
            &&& !n.contains('/')
            &&& exists|j: int, e: int|
                #![trigger p.subrange(j, e)]
                0 <= j < e <= p.len() && n == p.subrange(j, e) && (j == 0 || p[j - 1] == '/')
                    && (forall|i: int| e <= i < p.len() ==> p[i] == '/')
        },
{
    lemma_trim_is_prefix(p);
    let t = trim_trailing_slashes(p);
    if t.len() == 0 {
        assert forall|i: int| 0 <= i < p.len() implies p[i] == '/' by {}
    } else {
        assert(p[t.len() - 1] == t.last());
        lemma_last_index_bounds(t, '/');
        let pos = last_index_of(t, '/');
        let n = filename_spec(p)->0;
        let e = t.len() as int;
        let j = pos + 1;
        assert(n =~= p.subrange(j, e));
        assert(n.len() > 0);
        assert(!n.contains('/')) by {
            if n.contains('/') {
                let k = choose|k: int| 0 <= k < n.len() && n[k] == '/';
                assert(t[j + k] == '/');
            }
        }
        if j > 0 {
            assert(p[j - 1] == t[pos]);
        }
        assert(p.subrange(j, e) == n);
    }
}

/// Keeping components distributes over putting piece lists one after the other.
proof fn lemma_kept_concat(x: Seq<Seq<char>>, y: Seq<Seq<char>>)
    ensures
        kept_components(x + y) == kept_components(x) + kept_components(y),
    decreases y.len(),
{
    if y.len() == 0 {
        assert(x + y =~= x);
        assert(kept_components(x) + Seq::<Seq<char>>::empty() =~= kept_components(x));
    } else {
        lemma_kept_concat(x, y.drop_last());
        assert((x + y).drop_last() =~= x + y.drop_last());
        assert((x + y).last() == y.last());
        if is_kept_component(y.last()) {
            assert((kept_components(x) + kept_components(y.drop_last())).push(y.last())
                =~= kept_components(x) + kept_components(y.drop_last()).push(y.last()));
        }
    }
}

/// The components of a path are its non-empty pieces between slashes other than
/// `.`, in order: a piece without `/` is one component (none when it is empty or
/// `.`), the components of `a/b` are those of `a` then those of `b`, and no
/// component is empty, `.`, or holds a `/`.
pub proof fn law_components(a: Seq<char>, b: Seq<char>)
    ensures
        no_slash(b) ==> components_spec(b) == (if b.len() > 0 && !is_dot(b) { seq![b] } else { Seq::<Seq<char>>::empty() }),
        components_spec(a.push('/') + b) == components_spec(a) + components_spec(b),
        forall|i: int| 0 <= i < components_spec(a).len() ==> {
            &&& (#[trigger] components_spec(a)[i]).len() > 0
            &&& !is_dot(components_spec(a)[i])
            &&& no_slash(components_spec(a)[i])
        },
{
    if no_slash(b) {
        lemma_split_plain(b);
        let z = Seq::<Seq<char>>::empty();
        assert(seq![b].drop_last() =~= z);
        assert(kept_components(z) == z);
        if b.len() > 0 && !is_dot(b) {
            assert(z.push(b) =~= seq![b]);
        }
    }
    lemma_split_concat(a, b);
    lemma_kept_concat(split_segments(a), split_segments(b));
    lemma_kept_pieces(split_segments(a));
    lemma_split_no_slash(a);
}

/// What `kept_components` keeps is a non-empty piece other than `.`, taken from the pieces.
proof fn lemma_kept_pieces(x: Seq<Seq<char>>)
    ensures
        forall|i: int| 0 <= i < kept_components(x).len() ==> {
            &&& (#[trigger] kept_components(x)[i]).len() > 0
            &&& !is_dot(kept_components(x)[i])
            &&& x.contains(kept_components(x)[i])
        },
    decreases x.len(),
{
    if x.len() > 0 {
        let d = x.drop_last();
        lemma_kept_pieces(d);
        assert forall|i: int| 0 <= i < kept_components(x).len() implies {
            &&& (#[trigger] kept_components(x)[i]).len() > 0
            &&& !is_dot(kept_components(x)[i])
            &&& x.contains(kept_components(x)[i])
        } by {
            if i < kept_components(d).len() {
                assert(kept_components(x)[i] == kept_components(d)[i]);
                let j = choose|j: int| 0 <= j < d.len() && d[j] == kept_components(d)[i];
                assert(x[j] == d[j]);
            } else {
                assert(kept_components(x)[i] == x.last());
                assert(x[x.len() - 1] == x.last());
            }
        }
    }
}

// ---------------------------------------------------------------------------
// Executable helpers on character vectors
// ---------------------------------------------------------------------------

/// A string holding exactly the characters of `v`.
fn string_of(v: &Vec<char>) -> (s: String)
    ensures
        s@ == v@,
{
    let mut s = String::new();
    let mut i: usize = 0;
    while i < v.len()
        invariant
            i <= v.len(),
            s@ == v@.subrange(0, i as int),
        decreases v.len() - i,
    {
        push_char(&mut s, v[i]);
        i = i + 1;
        assert(s@ =~= v@.subrange(0, i as int));
    }
    assert(s@ =~= v@);
    s
}

fn vec_is_dot(c: &Vec<char>) -> (b: bool)
    ensures
        b == is_dot(c@),
{
    c.len() == 1 && c[0] == '.'
}

fn vec_is_dotdot(c: &Vec<char>) -> (b: bool)
    ensures
        b == is_dotdot(c@),
{
    c.len() == 2 && c[0] == '.' && c[1] == '.'
}

spec fn views(v: Seq<Vec<char>>) -> Seq<Seq<char>> {
    v.map_values(|x: Vec<char>| x@)
}

/// Apply one normalization step to the executable stack.
fn apply_step(stack: &mut Vec<Vec<char>>, comp: Vec<char>, absolute: bool)
    ensures
        views(final(stack)@) == norm_step(views(old(stack)@), comp@, absolute),
{
    let ghost old_views = views(stack@);
    if comp.len() == 0 || vec_is_dot(&comp) {
    } else if vec_is_dotdot(&comp) {
        let n = stack.len();
        if n > 0 && !vec_is_dotdot(&stack[n - 1]) {
            stack.pop();
            assert(views(stack@) =~= old_views.drop_last());
        } else if !absolute {
            stack.push(comp);
            assert(views(stack@) =~= old_views.push(comp@));
        }
    } else {
        stack.push(comp);
        assert(views(stack@) =~= old_views.push(comp@));
    }
}

/// Normalized form of the path whose characters are `p`.
#[verifier::rlimit(40)]
fn normalize_chars(p: &Vec<char>) -> (r: Vec<char>)
    ensures
        r@ == normalize_spec(p@),
{
    let absolute = p.len() > 0 && p[0] == '/';
    let mut stack: Vec<Vec<char>> = Vec::new();
    let mut cur: Vec<char> = Vec::new();
    let ghost mut done: Seq<Seq<char>> = Seq::empty();
    let mut i: usize = 0;
    assert(split_segments(p@.subrange(0, 0)) =~= done.push(cur@));
    assert(views(stack@) =~= Seq::<Seq<char>>::empty());
    while i < p.len()
        invariant
            i <= p.len(),
            absolute == starts_with_slash(p@),
            split_segments(p@.subrange(0, i as int)) == done.push(cur@),
            views(stack@) == norm_fold(done, absolute),
        decreases p.len() - i,
    {
        let c = p[i];
        let ghost pre = p@.subrange(0, i as int);
        assert(p@.subrange(0, i + 1).drop_last() =~= pre);
        assert(p@.subrange(0, i + 1).last() == c);
        if c == '/' {
            let piece = cur;
            cur = Vec::new();
            proof {
                assert(norm_fold(done.push(piece@), absolute) == norm_step(norm_fold(done, absolute), piece@, absolute)) by {
                    assert(done.push(piece@).drop_last() =~= done);
                }
                done = done.push(piece@);
            }
            apply_step(&mut stack, piece, absolute);
            assert(split_segments(p@.subrange(0, i + 1)) =~= done.push(cur@));
        } else {
            cur.push(c);
            assert(split_segments(p@.subrange(0, i + 1)) =~= done.push(cur@));
        }
        i = i + 1;
    }
    assert(p@.subrange(0, p.len() as int) =~= p@);
    proof {
        assert(norm_fold(done.push(cur@), absolute) == norm_step(norm_fold(done, absolute), cur@, absolute)) by {
            assert(done.push(cur@).drop_last() =~= done);
        }
    }
    apply_step(&mut stack, cur, absolute);
    let ghost st = views(stack@);
    assert(st == norm_fold(split_segments(p@), absolute));
    let mut out: Vec<char> = Vec::new();
    if absolute {
        if stack.len() == 0 {
            out.push('/');
            assert(out@ =~= seq!['/']);
        } else {
            let mut k: usize = 0;
            while k < stack.len()
                invariant
                    k <= stack.len(),
                    st == views(stack@),
                    out@ == join_abs(st.subrange(0, k as int)),
                decreases stack.len() - k,
            {
                out.push('/');
                let comp = &stack[k];
                let ghost before = out@;
                let mut j: usize = 0;
                while j < comp.len()
                    invariant
                        j <= comp.len(),
                        out@ == before + comp@.subrange(0, j as int),
                    decreases comp.len() - j,
                {
                    out.push(comp[j]);
                    j = j + 1;
                    assert(out@ =~= before + comp@.subrange(0, j as int));
                }
                assert(comp@.subrange(0, comp.len() as int) =~= comp@);
                assert(st.subrange(0, k + 1).drop_last() =~= st.subrange(0, k as int));
                assert(st[k as int] == comp@);
                k = k + 1;
            }
            assert(st.subrange(0, stack.len() as int) =~= st);
        }
    } else {
        if stack.len() == 0 {
            out.push('.');
            assert(out@ =~= seq!['.']);
        } else {
            let mut k: usize = 0;
            while k < stack.len()
                invariant
                    k <= stack.len(),
                    st == views(stack@),
                    out@ == join_rel(st.subrange(0, k as int)),
                decreases stack.len() - k,
            {
                if k > 0 {
                    out.push('/');
                }
                let comp = &stack[k];
                let ghost before = out@;
                let mut j: usize = 0;
                while j < comp.len()
                    invariant
                        j <= comp.len(),
                        out@ == before + comp@.subrange(0, j as int),
                    decreases comp.len() - j,
                {
                    out.push(comp[j]);
                    j = j + 1;
                    assert(out@ =~= before + comp@.subrange(0, j as int));
                }
                assert(comp@.subrange(0, comp.len() as int) =~= comp@);
                assert(st.subrange(0, k + 1).drop_last() =~= st.subrange(0, k as int));
                assert(st[k as int] == comp@);
                if k == 0 {
                    assert(out@ =~= comp@);
                }
                k = k + 1;
            }
            assert(st.subrange(0, stack.len() as int) =~= st);
        }
    }
    out
}

fn last_slash(v: &Vec<char>) -> (r: Option<usize>)
    ensures
        match r {
            Some(p) => p == last_index_of(v@, '/'),
            None => last_index_of(v@, '/') == -1,
        },
{
    proof {
        lemma_last_index_bounds(v@, '/');
    }
    let mut i: usize = v.len();
    assert(v@.subrange(0, i as int) =~= v@);
    while i > 0
        invariant
            i <= v.len(),
            last_index_of(v@, '/') == last_index_of(v@.subrange(0, i as int), '/'),
        decreases i,
    {
        assert(v@.subrange(0, i as int).drop_last() =~= v@.subrange(0, i - 1));
        if v[i - 1] == '/' {
            return Some(i - 1);
        }
        i = i - 1;
    }
    None
}

fn sub_vec(v: &Vec<char>, from: usize, to: usize) -> (r: Vec<char>)
    requires
        from <= to <= v.len(),
    ensures
        r@ == v@.subrange(from as int, to as int),
{
    let mut r: Vec<char> = Vec::new();
    let mut i = from;
    while i < to
        invariant
            from <= i <= to <= v.len(),
            r@ == v@.subrange(from as int, i as int),
        decreases to - i,
    {
        r.push(v[i]);
        i = i + 1;
        assert(r@ =~= v@.subrange(from as int, i as int));
    }
    r
}

fn is_root(v: &Vec<char>) -> (b: bool)
    ensures
        b == (v@ == seq!['/']),
{
    if v.len() == 1 && v[0] == '/' {
        assert(v@ =~= seq!['/']);
        true
    } else {
        false
    }
}

// ---------------------------------------------------------------------------
// Public API
// ---------------------------------------------------------------------------

/// Normalize a path by resolving `.`, `..`, and redundant slashes.
pub fn normalize_path(path: &str) -> (r: String)
    ensures
        r@ == normalize_spec(path@),
{
    let p = chars_of(path);
    let n = normalize_chars(&p);
    string_of(&n)
}

/// Join two paths: an absolute `path` wins; otherwise it is resolved under `base`.
pub fn join_path(base: &str, path: &str) -> (r: String)
    ensures
        r@ == normalize_spec(join_input(base@, path@)),
{
    let b = chars_of(base);
    let p = chars_of(path);
    if p.len() > 0 && p[0] == '/' {
        let n = normalize_chars(&p);
        return string_of(&n);
    }
    let base_is_dot = b.len() == 1 && b[0] == '.';
    if base_is_dot {
        assert(b@ =~= seq!['.']);
    }
    if b.len() == 0 || base_is_dot {
        let n = normalize_chars(&p);
        return string_of(&n);
    }
    let mut combined = b.clone();
    if !(b.len() > 0 && b[b.len() - 1] == '/') {
        combined.push('/');
    }
    let ghost mid = combined@;
    let mut i: usize = 0;
    while i < p.len()
        invariant
            i <= p.len(),
            combined@ == mid + p@.subrange(0, i as int),
        decreases p.len() - i,
    {
        combined.push(p[i]);
        i = i + 1;
        assert(combined@ =~= mid + p@.subrange(0, i as int));
    }
    assert(p@.subrange(0, p.len() as int) =~= p@);
    let n = normalize_chars(&combined);
    string_of(&n)
}

/// Get the parent directory of a path (`None` for the root).
pub fn parent(path: &str) -> (r: Option<String>)
    ensures
        match r {
            Some(s) => parent_spec(path@) == Some(s@),
            None => parent_spec(path@) is None,
        },
{
    let p = chars_of(path);
    let n = normalize_chars(&p);
    if is_root(&n) {
        return None;
    }
    proof {
        lemma_last_index_bounds(n@, '/');
    }
    match last_slash(&n) {
        Some(pos) => {
            if pos == 0 {
                let mut v: Vec<char> = Vec::new();
                v.push('/');
                assert(v@ =~= seq!['/']);
                Some(string_of(&v))
            } else {
                let v = sub_vec(&n, 0, pos);
                Some(string_of(&v))
            }
        },
        None => {
            let mut v: Vec<char> = Vec::new();
            v.push('.');
            assert(v@ =~= seq!['.']);
            Some(string_of(&v))
        },
    }
}

/// Get the filename component of a path (trailing slashes ignored).
pub fn filename(path: &str) -> (r: Option<&str>)
    ensures
        match r {
            Some(s) => filename_spec(path@) == Some(s@),
            None => filename_spec(path@) is None,
        },
{
    let p = chars_of(path);
    proof {
        lemma_trim_is_prefix(p@);
    }
    let mut end: usize = p.len();
    assert(p@.subrange(0, end as int) =~= p@);
    while end > 0 && p[end - 1] == '/'
        invariant
            end <= p.len(),
            trim_trailing_slashes(p@) == trim_trailing_slashes(p@.subrange(0, end as int)),
        decreases end,
    {
        assert(p@.subrange(0, end as int).drop_last() =~= p@.subrange(0, end - 1));
        end = end - 1;
    }
    let ghost t = p@.subrange(0, end as int);
    assert(trim_trailing_slashes(t) == t);
    if end == 0 {
        return None;
    }
    let trimmed = sub_vec(&p, 0, end);
    match last_slash(&trimmed) {
        Some(pos) => {
            proof {
                lemma_last_index_bounds(t, '/');
            }
            let r = path.substring_char(pos + 1, end);
            assert(r@ =~= t.subrange(pos + 1, t.len() as int));
            Some(r)
        },
        None => {
            let r = path.substring_char(0, end);
            Some(r)
        },
    }
}

/// Split a path into its (normalized) parent and its final name.
pub fn split(path: &str) -> (r: (String, String))
    ensures
        (r.0@, r.1@) == split_spec(path@),
{
    let p = chars_of(path);
    let n = normalize_chars(&p);
    if is_root(&n) {
        let mut v: Vec<char> = Vec::new();
        v.push('/');
        assert(v@ =~= seq!['/']);
        return (string_of(&v), String::new());
    }
    proof {
        lemma_last_index_bounds(n@, '/');
    }
    match last_slash(&n) {
        Some(pos) => {
            let parent = if pos == 0 {
                let mut v: Vec<char> = Vec::new();
                v.push('/');
                assert(v@ =~= seq!['/']);
                string_of(&v)
            } else {
                let v = sub_vec(&n, 0, pos);
                string_of(&v)
            };
            let name = sub_vec(&n, pos + 1, n.len());
            (parent, string_of(&name))
        },
        None => {
            let mut v: Vec<char> = Vec::new();
            v.push('.');
            assert(v@ =~= seq!['.']);
            (string_of(&v), string_of(&n))
        },
    }
}

/// Check if a path is absolute.
pub fn is_absolute(path: &str) -> (b: bool)
    ensures
        b == starts_with_slash(path@),
{
    if path.unicode_len() == 0 {
        false
    } else {
        path.get_char(0) == '/'
    }
}

/// Get the path components that are neither empty nor `.`, in order.
pub fn components(path: &str) -> (r: Vec<&str>)
    ensures
        r@.map_values(|x: &str| x@) == components_spec(path@),
{
    let p = chars_of(path);
    let mut out: Vec<&str> = Vec::new();
    let mut start: usize = 0;
    let ghost mut done: Seq<Seq<char>> = Seq::empty();
    let mut i: usize = 0;
    assert(p@.subrange(0, 0) =~= Seq::<char>::empty());
    assert(split_segments(p@.subrange(0, 0)) =~= done.push(p@.subrange(0, 0)));
    while i < p.len()
        invariant
            start <= i <= p.len(),
            p@ == path@,
            split_segments(p@.subrange(0, i as int)) == done.push(p@.subrange(start as int, i as int)),
            out@.map_values(|x: &str| x@) == kept_components(done),
        decreases p.len() - i,
    {
        let ghost pre = p@.subrange(0, i as int);
        assert(p@.subrange(0, i + 1).drop_last() =~= pre);
        assert(p@.subrange(0, i + 1).last() == p@[i as int]);
        if p[i] == '/' {
            let ghost piece = p@.subrange(start as int, i as int);
            let len = i - start;
            let keep = len > 0 && !(len == 1 && p[start] == '.');
            proof {
                assert(done.push(piece).drop_last() =~= done);
            }
            if keep {
                let s = path.substring_char(start, i);
                let ghost before = out@;
                out.push(s);
                assert(out@.map_values(|x: &str| x@) =~= before.map_values(|x: &str| x@).push(piece));
            }
            proof {
                done = done.push(piece);
            }
            start = i + 1;
            assert(p@.subrange(start as int, i + 1) =~= Seq::<char>::empty());
            assert(split_segments(p@.subrange(0, i + 1)) == split_segments(pre).push(Seq::<char>::empty()));
            assert(split_segments(p@.subrange(0, i + 1)) =~= done.push(p@.subrange(start as int, i + 1)));
        } else {
            let ghost seg = p@.subrange(start as int, i as int);
            assert(p@.subrange(start as int, i + 1) =~= seg.push(p@[i as int]));
            assert(split_segments(pre) == done.push(seg));
            assert(split_segments(p@.subrange(0, i + 1)) == split_segments(pre).update(done.len() as int, seg.push(p@[i as int])));
            assert(split_segments(p@.subrange(0, i + 1)) =~= done.push(p@.subrange(start as int, i + 1)));
        }
        i = i + 1;
    }
    assert(p@.subrange(0, p.len() as int) =~= p@);
    let ghost piece = p@.subrange(start as int, p.len() as int);
    proof {
        assert(done.push(piece).drop_last() =~= done);
    }
    let len = p.len() - start;
    if len > 0 && !(len == 1 && p[start] == '.') {
        let s = path.substring_char(start, p.len());
        let ghost before = out@;
        out.push(s);
        assert(out@.map_values(|x: &str| x@) =~= before.map_values(|x: &str| x@).push(piece));
    }
    out
}

} // verus!
