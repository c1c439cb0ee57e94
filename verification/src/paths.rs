//! Unix paths held as strings: their components, file names, extensions,
//! joining, prefix stripping and ordering, as `std::path` defines them.
//!
//! Components are character sequences; the root directory is the
//! component `/` and a leading current directory is the component `.`,
//! neither of which a normal component can be.

use vstd::prelude::*;
use crate::text::{chars_of, string_of};

verus! {

/// The parts of `s` between `/` separators (empty parts included).
pub open spec fn split_slash(s: Seq<char>) -> Seq<Seq<char>>
    decreases s.len(),
{
    if s.len() == 0 {
        seq![Seq::<char>::empty()]
    } else {
        let r = split_slash(s.drop_last());
        if s.last() == '/' {
            r.push(Seq::<char>::empty())
        } else {
            r.update(r.len() - 1, r.last().push(s.last()))
        }
    }
}

/// The views of a sequence of character vectors.
pub open spec fn views(v: Seq<Vec<char>>) -> Seq<Seq<char>> {
    v.map_values(|x: Vec<char>| x@)
}

/// Whether a part between separators is a component of its own: it is
/// neither empty nor `.`.
pub open spec fn is_kept_segment(x: Seq<char>) -> bool {
    x.len() > 0 && x != seq!['.']
}

/// `is_kept_segment` as a predicate value.
pub open spec fn kept_segment() -> spec_fn(Seq<char>) -> bool {
    |x: Seq<char>| is_kept_segment(x)
}

/// The root directory component.
pub open spec fn root_component() -> Seq<char> {
    seq!['/']
}

/// The current directory component.
pub open spec fn cur_component() -> Seq<char> {
    seq!['.']
}

/// The parent directory component.
pub open spec fn parent_component() -> Seq<char> {
    seq!['.', '.']
}

/// The components of the path `p`, as `Path::components` yields them.
pub open spec fn path_components(p: Seq<char>) -> Seq<Seq<char>> {
    let head: Seq<Seq<char>> = if p.len() > 0 && p[0] == '/' {
        seq![root_component()]
    } else if split_slash(p)[0] == cur_component() {
        seq![cur_component()]
    } else {
        Seq::empty()
    };
    head + split_slash(p).filter(kept_segment())
}

/// Whether `c` is a normal component: not the root, `.` or `..`.
pub open spec fn is_normal_component(c: Seq<char>) -> bool {
    c != root_component() && c != cur_component() && c != parent_component()
}

/// The file name of `p`: its last component where that is a normal one.
pub open spec fn file_name_spec(p: Seq<char>) -> Option<Seq<char>> {
    let c = path_components(p);
    if c.len() > 0 && is_normal_component(c.last()) {
        Some(c.last())
    } else {
        None
    }
}

/// The index of the last `.` in `s`.
pub open spec fn last_dot(s: Seq<char>) -> Option<int>
    decreases s.len(),
{
    if s.len() == 0 {
        None
    } else if s.last() == '.' {
        Some(s.len() - 1)
    } else {
        last_dot(s.drop_last())
    }
}

/// The extension of `p`: what follows the last `.` of its file name, where
/// that dot is not the first character of the name.
pub open spec fn extension_spec(p: Seq<char>) -> Option<Seq<char>> {
    match file_name_spec(p) {
        Some(name) => match last_dot(name) {
            Some(i) => if i > 0 {
                Some(name.subrange(i + 1, name.len() as int))
            } else {
                None
            },
            None => None,
        },
        None => None,
    }
}

/// The stem of `p`: its file name up to the last `.`, where that dot is
/// not the first character of the name; otherwise the whole name.
pub open spec fn file_stem_spec(p: Seq<char>) -> Option<Seq<char>> {
    match file_name_spec(p) {
        Some(name) => match last_dot(name) {
            Some(i) => if i > 0 {
                Some(name.subrange(0, i))
            } else {
                Some(name)
            },
            None => Some(name),
        },
        None => None,
    }
}

/// `base` joined with `rel` as `Path::join` does: an absolute `rel`
/// replaces `base`; otherwise a `/` is put between them where `base` is
/// not empty and does not end in one.
pub open spec fn join_spec(base: Seq<char>, rel: Seq<char>) -> Seq<char> {
    if rel.len() > 0 && rel[0] == '/' {
        rel
    } else if base.len() == 0 || base.last() == '/' {
        base + rel
    } else {
        base + seq!['/'] + rel
    }
}

/// Components written one after the other with `/` between them.
pub open spec fn join_components(c: Seq<Seq<char>>) -> Seq<char>
    decreases c.len(),
{
    if c.len() == 0 {
        Seq::empty()
    } else if c.len() == 1 {
        c[0]
    } else {
        join_components(c.drop_last()) + seq!['/'] + c.last()
    }
}

/// The components of `p` that follow those of `base`, where the components
/// of `base` begin those of `p` (`Path::strip_prefix`).
pub open spec fn strip_prefix_spec(p: Seq<char>, base: Seq<char>) -> Option<Seq<Seq<char>>> {
    let pc = path_components(p);
    let bc = path_components(base);
    if bc.len() <= pc.len() && pc.subrange(0, bc.len() as int) == bc {
        Some(pc.subrange(bc.len() as int, pc.len() as int))
    } else {
        None
    }
}

proof fn lemma_split_slash_len(s: Seq<char>)
    ensures
        split_slash(s).len() >= 1,
    decreases s.len(),
{
    if s.len() > 0 {
        lemma_split_slash_len(s.drop_last());
    }
}

proof fn lemma_split_no_slash(s: Seq<char>)
    requires
        !s.contains('/'),
    ensures
        split_slash(s) == seq![s],
    decreases s.len(),
{
    if s.len() > 0 {
        assert(!s.drop_last().contains('/')) by {
            if s.drop_last().contains('/') {
                let i = choose|i: int| 0 <= i < s.drop_last().len() && s.drop_last()[i] == '/';
                assert(s[i] == '/');
            }
        }
        lemma_split_no_slash(s.drop_last());
        assert(s[s.len() - 1] != '/');
        assert(s.drop_last().push(s.last()) =~= s);
        assert(split_slash(s) =~= seq![s]);
    } else {
        assert(s =~= Seq::<char>::empty());
    }
}

proof fn lemma_split_concat(a: Seq<char>, b: Seq<char>)
    ensures
        split_slash(a + seq!['/'] + b) == split_slash(a) + split_slash(b),
    decreases b.len(),
{
    let x = a + seq!['/'] + b;
    if b.len() == 0 {
        assert(x.drop_last() =~= a);
        assert(split_slash(a) + split_slash(b) =~= split_slash(a).push(Seq::<char>::empty()));
    } else {
        assert(x.drop_last() =~= a + seq!['/'] + b.drop_last());
        lemma_split_concat(a, b.drop_last());
        lemma_split_slash_len(b.drop_last());
        lemma_split_slash_len(a);
        let r = split_slash(a) + split_slash(b.drop_last());
        if b.last() == '/' {
            assert(split_slash(x) == r.push(Seq::<char>::empty()));
            assert(r.push(Seq::<char>::empty()) =~= split_slash(a) + split_slash(b.drop_last()).push(Seq::<char>::empty()));
        } else {
            let rb = split_slash(b.drop_last());
            assert(split_slash(x) == r.update(r.len() - 1, r.last().push(b.last())));
            assert(r.update(r.len() - 1, r.last().push(b.last())) =~= split_slash(a) + rb.update(
                rb.len() - 1,
                rb.last().push(b.last()),
            ));
        }
    }
}

/// Whether no item of `c` holds a `/`.
pub open spec fn slash_free(c: Seq<Seq<char>>) -> bool {
    forall|i: int| 0 <= i < c.len() ==> !(#[trigger] c[i]).contains('/')
}

proof fn lemma_split_join(c: Seq<Seq<char>>)
    requires
        c.len() >= 1,
        slash_free(c),
    ensures
        split_slash(join_components(c)) == c,
    decreases c.len(),
{
    if c.len() == 1 {
        assert(!c[0].contains('/'));
        lemma_split_no_slash(c[0]);
        assert(seq![c[0]] =~= c);
    } else {
        let d = c.drop_last();
        assert(slash_free(d)) by {
            assert forall|i: int| 0 <= i < d.len() implies !(#[trigger] d[i]).contains('/') by {
                assert(d[i] == c[i]);
            }
        }
        lemma_split_join(d);
        assert(!c[c.len() - 1].contains('/'));
        lemma_split_no_slash(c.last());
        lemma_split_concat(join_components(d), c.last());
        assert(d + seq![c.last()] =~= c);
    }
}

proof fn lemma_kept_filter_id(c: Seq<Seq<char>>)
    requires
        forall|i: int| 0 <= i < c.len() ==> is_kept_segment(#[trigger] c[i]),
    ensures
        c.filter(kept_segment()) == c,
    decreases c.len(),
{
    reveal(Seq::filter);
    if c.len() > 0 {
        let d = c.drop_last();
        assert forall|i: int| 0 <= i < d.len() implies is_kept_segment(#[trigger] d[i]) by {
            assert(d[i] == c[i]);
        }
        lemma_kept_filter_id(d);
        assert(is_kept_segment(c[c.len() - 1]));
        assert(d.push(c.last()) =~= c);
    }
}

proof fn lemma_filter_kept_props(s: Seq<char>)
    ensures
        forall|i: int| 0 <= i < split_slash(s).filter(kept_segment()).len() ==> {
            &&& is_kept_segment(#[trigger] split_slash(s).filter(kept_segment())[i])
            &&& !split_slash(s).filter(kept_segment())[i].contains('/')
        },
{
    lemma_split_slash_free(s);
    let f = split_slash(s).filter(kept_segment());
    assert forall|i: int| 0 <= i < f.len() implies {
        &&& is_kept_segment(#[trigger] f[i])
        &&& !f[i].contains('/')
    } by {
        split_slash(s).lemma_filter_pred(kept_segment(), i);
        assert(f.contains(f[i]));
        split_slash(s).lemma_filter_contains_rev(kept_segment(), f[i]);
        let j = choose|j: int| 0 <= j < split_slash(s).len() && split_slash(s)[j] == f[i];
        assert(!split_slash(s)[j].contains('/'));
    }
}

proof fn lemma_split_slash_free(s: Seq<char>)
    ensures
        slash_free(split_slash(s)),
    decreases s.len(),
{
    if s.len() > 0 {
        lemma_split_slash_free(s.drop_last());
        lemma_split_slash_len(s.drop_last());
        let r = split_slash(s.drop_last());
        if s.last() != '/' {
            let l = r.last().push(s.last());
            assert(!l.contains('/')) by {
                if l.contains('/') {
                    let k = choose|k: int| 0 <= k < l.len() && l[k] == '/';
                    if k < l.len() - 1 {
                        assert(r.last()[k] == '/');
                        assert(r[r.len() - 1].contains('/'));
                    }
                }
            }
            assert forall|i: int| 0 <= i < split_slash(s).len() implies !(#[trigger] split_slash(s)[i]).contains('/') by {
                if i < r.len() - 1 {
                    assert(split_slash(s)[i] == r[i]);
                }
            }
        } else {
            assert forall|i: int| 0 <= i < split_slash(s).len() implies !(#[trigger] split_slash(s)[i]).contains('/') by {
                if i < r.len() {
                    assert(split_slash(s)[i] == r[i]);
                } else {
                    assert(split_slash(s)[i] == Seq::<char>::empty());
                }
            }
        }
    }
}

/// The leading component of `p` that is no normal one: the root, a
/// leading `.`, or none.
pub open spec fn head_of(p: Seq<char>) -> Seq<Seq<char>> {
    if p.len() > 0 && p[0] == '/' {
        seq![root_component()]
    } else if split_slash(p)[0] == cur_component() {
        seq![cur_component()]
    } else {
        Seq::empty()
    }
}

proof fn lemma_components_parts(p: Seq<char>)
    ensures
        path_components(p) == head_of(p) + split_slash(p).filter(kept_segment()),
{
}

proof fn lemma_join_concat(a: Seq<Seq<char>>, b: Seq<Seq<char>>)
    requires
        a.len() >= 1,
        b.len() >= 1,
    ensures
        join_components(a + b) == join_components(a) + seq!['/'] + join_components(b),
    decreases b.len(),
{
    let c = a + b;
    if b.len() == 1 {
        assert(c.drop_last() =~= a);
        assert(c.last() == b[0]);
    } else {
        assert(c.drop_last() =~= a + b.drop_last());
        lemma_join_concat(a, b.drop_last());
        assert(c.last() == b.last());
    }
}

proof fn lemma_join_starts(c: Seq<Seq<char>>)
    requires
        c.len() >= 1,
        c[0].len() >= 1,
    ensures
        join_components(c).len() >= 1,
        join_components(c)[0] == c[0][0],
{
    if c.len() > 1 {
        lemma_join_concat(seq![c[0]], c.subrange(1, c.len() as int));
        assert(seq![c[0]] + c.subrange(1, c.len() as int) =~= c);
    }
}

proof fn lemma_filter_single(x: Seq<char>)
    ensures
        seq![x].filter(kept_segment()) == (if is_kept_segment(x) {
            seq![x]
        } else {
            Seq::<Seq<char>>::empty()
        }),
{
    reveal(Seq::filter);
    assert(seq![x].drop_last() =~= Seq::<Seq<char>>::empty());
    assert(Seq::<Seq<char>>::empty().filter(kept_segment()) =~= Seq::<Seq<char>>::empty());
    if is_kept_segment(x) {
        assert(Seq::<Seq<char>>::empty().push(x) =~= seq![x]);
    }
}

proof fn lemma_split_root()
    ensures
        split_slash(root_component()) == seq![Seq::<char>::empty(), Seq::<char>::empty()],
{
    let s = root_component();
    assert(s.drop_last() =~= Seq::<char>::empty());
    assert(split_slash(s.drop_last()) == seq![Seq::<char>::empty()]);
    assert(s.last() == '/');
    assert(seq![Seq::<char>::empty()].push(Seq::<char>::empty()) =~= seq![Seq::<char>::empty(), Seq::<char>::empty()]);
}

proof fn lemma_split_first(s: Seq<char>)
    requires
        s.len() > 0,
        s[0] != '/',
    ensures
        split_slash(s)[0].len() > 0,
        split_slash(s)[0][0] == s[0],
    decreases s.len(),
{
    lemma_split_slash_len(s.drop_last());
    if s.len() > 1 {
        lemma_split_first(s.drop_last());
        let r = split_slash(s.drop_last());
        if s.last() != '/' && r.len() == 1 {
            assert(split_slash(s)[0] == r[0].push(s.last()));
        }
    } else {
        assert(s.drop_last() =~= Seq::<char>::empty());
        assert(split_slash(s)[0] == Seq::<char>::empty().push(s[0]));
    }
}

/// The components of `k`, where `k` joins the components `c` of a path
/// that all sit below its head: `head` followed by `c`.
proof fn lemma_components_of_join(c: Seq<Seq<char>>)
    requires
        c.len() >= 1,
        slash_free(c),
        forall|i: int| 0 <= i < c.len() ==> is_kept_segment(#[trigger] c[i]),
    ensures
        path_components(join_components(c)) == c,
        join_components(c).len() >= 1,
        join_components(c)[0] != '/',
        split_slash(join_components(c)) == c,
{
    let k = join_components(c);
    lemma_split_join(c);
    lemma_kept_filter_id(c);
    lemma_join_starts(c);
    assert(is_kept_segment(c[0]));
    assert(!c[0].contains('/'));
    assert(c[0][0] != '/') by {
        if c[0][0] == '/' {
            assert(c[0].contains('/'));
        }
    }
    assert(c[0] != cur_component());
    assert(head_of(k) =~= Seq::<Seq<char>>::empty());
    lemma_components_parts(k);
    assert(path_components(k) =~= c);
}

proof fn lemma_join_own_components(p: Seq<char>)
    ensures
        path_components(join_components(path_components(p))) == path_components(p),
{
    let pc = path_components(p);
    let k = join_components(pc);
    let hp = head_of(p);
    let sp = split_slash(p).filter(kept_segment());
    lemma_components_parts(p);
    lemma_filter_kept_props(p);
    lemma_split_slash_len(p);
    assert(slash_free(sp));
    lemma_filter_single(Seq::<char>::empty());
    if hp.len() == 0 {
        assert(pc =~= sp);
        if sp.len() == 0 {
            assert(k =~= Seq::<char>::empty());
            assert(split_slash(k) =~= seq![Seq::<char>::empty()]);
            lemma_components_parts(k);
            assert(path_components(k) =~= pc);
        } else {
            lemma_components_of_join(sp);
        }
    } else {
        let h = hp[0];
        if sp.len() == 0 {
            assert(pc =~= seq![h]);
            assert(k == h);
            lemma_components_parts(k);
            if h == root_component() {
                lemma_split_root();
                lemma_filter_single(Seq::<char>::empty());
                assert(split_slash(k) =~= seq![Seq::<char>::empty()] + seq![Seq::<char>::empty()]);
                assert(split_slash(k).filter(kept_segment()) =~= Seq::<Seq<char>>::empty()) by {
                    Seq::filter_distributes_over_add(seq![Seq::<char>::empty()], seq![Seq::<char>::empty()], kept_segment());
                }
            } else {
                assert(h == cur_component());
                assert(!k.contains('/'));
                lemma_split_no_slash(k);
                lemma_filter_single(cur_component());
            }
            assert(path_components(k) =~= pc);
        } else {
            lemma_join_starts_head(h, sp);
        }
    }
}

proof fn lemma_join_starts_head(h: Seq<char>, sp: Seq<Seq<char>>)
    requires
        h == root_component() || h == cur_component(),
        sp.len() >= 1,
        slash_free(sp),
        forall|i: int| 0 <= i < sp.len() ==> is_kept_segment(#[trigger] sp[i]),
    ensures
        path_components(join_components(seq![h] + sp)) == seq![h] + sp,
{
    let k = join_components(seq![h] + sp);
    lemma_join_concat(seq![h], sp);
    assert(join_components(seq![h]) == h);
    lemma_components_of_join(sp);
    let js = join_components(sp);
    assert(k == h + seq!['/'] + js);
    lemma_split_concat(h, js);
    lemma_components_parts(k);
    lemma_kept_filter_id(sp);
    if h == root_component() {
        lemma_split_root();
        lemma_filter_single(Seq::<char>::empty());
        assert(split_slash(k) =~= seq![Seq::<char>::empty()] + (seq![Seq::<char>::empty()] + sp));
        Seq::filter_distributes_over_add(seq![Seq::<char>::empty()], seq![Seq::<char>::empty()] + sp, kept_segment());
        Seq::filter_distributes_over_add(seq![Seq::<char>::empty()], sp, kept_segment());
        assert(k[0] == '/');
    } else {
        assert(!h.contains('/'));
        lemma_split_no_slash(h);
        lemma_filter_single(cur_component());
        Seq::filter_distributes_over_add(seq![h], sp, kept_segment());
        assert(k[0] == '.');
        assert(split_slash(k)[0] == h);
    }
    assert(path_components(k) =~= seq![h] + sp);
}

proof fn lemma_base_nonempty_components(base: Seq<char>)
    requires
        base.len() > 0,
    ensures
        path_components(base).len() >= 1,
{
    lemma_components_parts(base);
    lemma_split_slash_len(base);
    if base[0] != '/' {
        lemma_split_first(base);
        if split_slash(base)[0] != cur_component() {
            split_slash(base).lemma_filter_contains(kept_segment(), 0);
        }
    }
}

proof fn lemma_join_onto_base(base: Seq<char>, rest: Seq<Seq<char>>)
    requires
        base.len() > 0,
        slash_free(rest),
        forall|i: int| 0 <= i < rest.len() ==> is_kept_segment(#[trigger] rest[i]),
    ensures
        path_components(join_spec(base, join_components(rest))) == path_components(base) + rest,
{
    let k = join_components(rest);
    let q = join_spec(base, k);
    lemma_components_parts(base);
    lemma_split_slash_len(base);
    lemma_filter_single(Seq::<char>::empty());
    assert(split_slash(Seq::<char>::empty()) =~= seq![Seq::<char>::empty()]);
    if rest.len() == 0 {
        assert(k =~= Seq::<char>::empty());
        if base.last() == '/' {
            assert(q =~= base);
        } else {
            assert(q =~= base + seq!['/'] + Seq::<char>::empty());
            lemma_split_concat(base, Seq::<char>::empty());
            Seq::filter_distributes_over_add(split_slash(base), seq![Seq::<char>::empty()], kept_segment());
            lemma_components_parts(q);
            assert(q[0] == base[0]);
            assert(split_slash(q)[0] == split_slash(base)[0]);
        }
        assert(path_components(q) =~= path_components(base) + rest);
    } else {
        lemma_components_of_join(rest);
        lemma_kept_filter_id(rest);
        lemma_components_parts(q);
        if base.last() == '/' {
            let b1 = base.drop_last();
            assert(base =~= b1 + seq!['/'] + Seq::<char>::empty());
            assert(q =~= b1 + seq!['/'] + k);
            lemma_split_concat(b1, k);
            lemma_split_concat(b1, Seq::<char>::empty());
            lemma_split_slash_len(b1);
            Seq::filter_distributes_over_add(split_slash(b1), rest, kept_segment());
            Seq::filter_distributes_over_add(split_slash(b1), seq![Seq::<char>::empty()], kept_segment());
            assert(q[0] == base[0]);
            assert(split_slash(q)[0] == split_slash(base)[0]);
        } else {
            assert(q =~= base + seq!['/'] + k);
            lemma_split_concat(base, k);
            Seq::filter_distributes_over_add(split_slash(base), rest, kept_segment());
            assert(q[0] == base[0]);
            assert(split_slash(q)[0] == split_slash(base)[0]);
        }
        assert(path_components(q) =~= path_components(base) + rest);
    }
}

/// Joining the parts that a path has beyond a base back onto the base
/// gives the same path: where `strip_prefix_spec(p, base)` is `Some(rest)`,
/// `join_spec(base, join_components(rest))` has the components of `p`.
pub proof fn lemma_strip_then_join(p: Seq<char>, base: Seq<char>)
    requires
        strip_prefix_spec(p, base) is Some,
    ensures
        same_path(join_spec(base, join_components(strip_prefix_spec(p, base)->0)), p),
{
    let pc = path_components(p);
    let bc = path_components(base);
    let rest = strip_prefix_spec(p, base)->0;
    assert(pc =~= bc + rest) by {
        assert(pc.subrange(0, bc.len() as int) == bc);
    }
    if base.len() == 0 {
        lemma_components_parts(base);
        lemma_filter_single(Seq::<char>::empty());
        assert(split_slash(base) =~= seq![Seq::<char>::empty()]);
        assert(bc =~= Seq::<Seq<char>>::empty());
        assert(rest =~= pc);
        assert(join_spec(base, join_components(rest)) =~= join_components(pc));
        lemma_join_own_components(p);
    } else {
        lemma_base_nonempty_components(base);
        lemma_components_parts(p);
        lemma_filter_kept_props(p);
        let hp = head_of(p);
        let sp = split_slash(p).filter(kept_segment());
        assert(hp.len() <= 1);
        assert(forall|i: int| 0 <= i < rest.len() ==> #[trigger] rest[i] == sp[i + bc.len() - hp.len()]);
        assert(slash_free(rest));
        assert(forall|i: int| 0 <= i < rest.len() ==> is_kept_segment(#[trigger] rest[i]));
        lemma_join_onto_base(base, rest);
    }
}

/// A copy of a character vector.
pub fn copy_chars(v: &Vec<char>) -> (r: Vec<char>)
    ensures
        r@ == v@,
{
    let mut r: Vec<char> = Vec::new();
    let mut i: usize = 0;
    while i < v.len()
        invariant
            i <= v.len(),
            r@ == v@.subrange(0, i as int),
        decreases v.len() - i,
    {
        r.push(v[i]);
        i = i + 1;
        assert(r@ =~= v@.subrange(0, i as int));
    }
    assert(r@ =~= v@);
    r
}

fn split_slash_exec(s: &Vec<char>) -> (r: Vec<Vec<char>>)
    ensures
        views(r@) == split_slash(s@),
{
    let mut parts: Vec<Vec<char>> = Vec::new();
    let mut cur: Vec<char> = Vec::new();
    let mut i: usize = 0;
    assert(s@.subrange(0, 0) =~= Seq::<char>::empty());
    assert(views(parts@).push(cur@) =~= split_slash(s@.subrange(0, 0)));
    while i < s.len()
        invariant
            i <= s.len(),
            views(parts@).push(cur@) == split_slash(s@.subrange(0, i as int)),
        decreases s.len() - i,
    {
        let ghost before = s@.subrange(0, i as int);
        let ghost after = s@.subrange(0, i + 1);
        assert(after.drop_last() =~= before);
        assert(after.last() == s@[i as int]);
        proof {
            lemma_split_slash_len(before);
        }
        if s[i] == '/' {
            let done = cur;
            parts.push(done);
            cur = Vec::new();
            assert(views(parts@).push(cur@) =~= split_slash(after));
        } else {
            cur.push(s[i]);
            assert(views(parts@).push(cur@) =~= split_slash(after));
        }
        i = i + 1;
    }
    assert(s@.subrange(0, s@.len() as int) =~= s@);
    parts.push(cur);
    assert(views(parts@) =~= split_slash(s@));
    parts
}

fn is_kept(x: &Vec<char>) -> (r: bool)
    ensures
        r == is_kept_segment(x@),
{
    if x.len() == 0 {
        return false;
    }
    if x.len() == 1 && x[0] == '.' {
        assert(x@ =~= seq!['.']);
        return false;
    }
    assert(x@ != seq!['.']) by {
        if x@ == seq!['.'] {
            assert(x@.len() == 1 && x@[0] == '.');
        }
    }
    true
}

/// The components of the path `p`.
pub fn components(p: &Vec<char>) -> (r: Vec<Vec<char>>)
    ensures
        views(r@) == path_components(p@),
{
    broadcast use Seq::lemma_filter_push;

    let parts = split_slash_exec(p);
    proof {
        lemma_split_slash_len(p@);
    }
    let mut r: Vec<Vec<char>> = Vec::new();
    if p.len() > 0 && p[0] == '/' {
        let mut c: Vec<char> = Vec::new();
        c.push('/');
        r.push(c);
        assert(views(r@) =~= seq![root_component()]);
    } else if parts[0].len() == 1 && parts[0][0] == '.' {
        let mut c: Vec<char> = Vec::new();
        c.push('.');
        r.push(c);
        assert(parts@[0]@ =~= cur_component());
        assert(views(r@) =~= seq![cur_component()]);
    } else {
        assert(views(parts@)[0] != cur_component()) by {
            if views(parts@)[0] == cur_component() {
                assert(parts@[0]@.len() == 1 && parts@[0]@[0] == '.');
            }
        }
        assert(views(r@) =~= Seq::<Seq<char>>::empty());
    }
    let ghost head = views(r@);
    let mut j: usize = 0;
    assert(views(parts@).subrange(0, 0) =~= Seq::<Seq<char>>::empty());
    assert(head =~= head + views(parts@).subrange(0, 0).filter(kept_segment())) by {
        reveal(Seq::filter);
    }
    while j < parts.len()
        invariant
            j <= parts.len(),
            views(r@) == head + views(parts@).subrange(0, j as int).filter(kept_segment()),
        decreases parts.len() - j,
    {
        let ghost pre = views(parts@).subrange(0, j as int);
        assert(views(parts@).subrange(0, j + 1) =~= pre.push(parts@[j as int]@));
        proof {
            pre.lemma_filter_push(parts@[j as int]@, kept_segment());
        }
        if is_kept(&parts[j]) {
            let c = copy_chars(&parts[j]);
            let ghost old_r = views(r@);
            assert(kept_segment()(parts@[j as int]@));
            assert(pre.push(parts@[j as int]@).filter(kept_segment()) == pre.filter(kept_segment()).push(parts@[j as int]@));
            r.push(c);
            assert(views(r@) =~= old_r.push(parts@[j as int]@));
            assert(views(r@) =~= head + views(parts@).subrange(0, j + 1).filter(kept_segment()));
        } else {
            assert(views(r@) =~= head + views(parts@).subrange(0, j + 1).filter(kept_segment()));
        }
        j = j + 1;
    }
    assert(views(parts@).subrange(0, parts@.len() as int) =~= views(parts@));
    r
}

} // verus!

verus! {

/// The view of an optional string.
pub open spec fn opt_view(r: Option<String>) -> Option<Seq<char>> {
    match r {
        Some(s) => Some(s@),
        None => None,
    }
}

/// The characters of `v` from index `a` up to `b`.
pub fn sub_chars(v: &Vec<char>, a: usize, b: usize) -> (r: Vec<char>)
    requires
        a <= b <= v.len(),
    ensures
        r@ == v@.subrange(a as int, b as int),
{
    let mut r: Vec<char> = Vec::new();
    let mut i: usize = a;
    while i < b
        invariant
            a <= i <= b <= v.len(),
            r@ == v@.subrange(a as int, i as int),
        decreases b - i,
    {
        r.push(v[i]);
        i = i + 1;
        assert(r@ =~= v@.subrange(a as int, i as int));
    }
    r
}

fn is_normal(c: &Vec<char>) -> (r: bool)
    ensures
        r == is_normal_component(c@),
{
    if c.len() == 1 && (c[0] == '/' || c[0] == '.') {
        assert(c@ == root_component() || c@ == cur_component()) by {
            if c[0] == '/' {
                assert(c@ =~= root_component());
            } else {
                assert(c@ =~= cur_component());
            }
        }
        return false;
    }
    if c.len() == 2 && c[0] == '.' && c[1] == '.' {
        assert(c@ =~= parent_component());
        return false;
    }
    assert(c@ != root_component() && c@ != cur_component() && c@ != parent_component()) by {
        if c@ == root_component() {
            assert(c@.len() == 1 && c@[0] == '/');
        }
        if c@ == cur_component() {
            assert(c@.len() == 1 && c@[0] == '.');
        }
        if c@ == parent_component() {
            assert(c@.len() == 2 && c@[0] == '.' && c@[1] == '.');
        }
    }
    true
}

/// The file name of a path given as characters.
pub fn file_name_chars(p: &Vec<char>) -> (r: Option<Vec<char>>)
    ensures
        match r {
            Some(n) => file_name_spec(p@) == Some(n@),
            None => file_name_spec(p@) is None,
        },
{
    let mut comps = components(p);
    let n = comps.len();
    if n == 0 {
        return None;
    }
    let last = comps.pop().unwrap();
    assert(last@ == path_components(p@).last());
    if is_normal(&last) {
        Some(last)
    } else {
        None
    }
}

/// The file name of `p` (`Path::file_name`).
pub fn file_name(p: &str) -> (r: Option<String>)
    ensures
        opt_view(r) == file_name_spec(p@),
{
    let v = chars_of(p);
    match file_name_chars(&v) {
        Some(n) => Some(string_of(&n)),
        None => None,
    }
}

/// The index of the last `.` in `s`.
pub fn find_last_dot(s: &Vec<char>) -> (r: Option<usize>)
    ensures
        match last_dot(s@) {
            Some(i) => r matches Some(j) && j == i,
            None => r is None,
        },
        r matches Some(i) ==> i < s.len(),
{
    let mut j: usize = s.len();
    assert(s@.subrange(0, j as int) =~= s@);
    while j > 0
        invariant
            j <= s.len(),
            last_dot(s@) == last_dot(s@.subrange(0, j as int)),
        decreases j,
    {
        let ghost pre = s@.subrange(0, j as int);
        assert(pre.last() == s@[j - 1]);
        if s[j - 1] == '.' {
            return Some(j - 1);
        }
        assert(pre.drop_last() =~= s@.subrange(0, j - 1));
        j = j - 1;
    }
    None
}

/// The extension of `p` (`Path::extension`).
pub fn extension(p: &str) -> (r: Option<String>)
    ensures
        opt_view(r) == extension_spec(p@),
{
    let v = chars_of(p);
    match file_name_chars(&v) {
        Some(name) => match find_last_dot(&name) {
            Some(i) => {
                if i > 0 {
                    let e = sub_chars(&name, i + 1, name.len());
                    Some(string_of(&e))
                } else {
                    None
                }
            },
            None => None,
        },
        None => None,
    }
}

/// The stem of `p` (`Path::file_stem`).
pub fn file_stem(p: &str) -> (r: Option<String>)
    ensures
        opt_view(r) == file_stem_spec(p@),
{
    let v = chars_of(p);
    match file_name_chars(&v) {
        Some(name) => match find_last_dot(&name) {
            Some(i) => {
                if i > 0 {
                    let e = sub_chars(&name, 0, i);
                    Some(string_of(&e))
                } else {
                    Some(string_of(&name))
                }
            },
            None => Some(string_of(&name)),
        },
        None => None,
    }
}

/// `base` joined with `rel` (`Path::join`).
pub fn join(base: &str, rel: &str) -> (r: String)
    ensures
        r@ == join_spec(base@, rel@),
{
    let b = chars_of(base);
    let q = chars_of(rel);
    if q.len() > 0 && q[0] == '/' {
        return string_of(&q);
    }
    let mut out = b;
    if !(out.len() == 0 || out[out.len() - 1] == '/') {
        out.push('/');
    }
    let mut i: usize = 0;
    let ghost start = out@;
    while i < q.len()
        invariant
            i <= q.len(),
            out@ == start + q@.subrange(0, i as int),
        decreases q.len() - i,
    {
        out.push(q[i]);
        i = i + 1;
        assert(out@ =~= start + q@.subrange(0, i as int));
    }
    assert(q@.subrange(0, q@.len() as int) =~= q@);
    assert(out@ =~= join_spec(base@, rel@));
    string_of(&out)
}

/// Components written one after the other with `/` between them.
pub fn join_components_exec(c: &Vec<Vec<char>>) -> (r: Vec<char>)
    ensures
        r@ == join_components(views(c@)),
{
    let mut out: Vec<char> = Vec::new();
    if c.len() == 0 {
        return out;
    }
    out = copy_chars(&c[0]);
    let mut k: usize = 1;
    assert(views(c@).subrange(0, 1).drop_last() =~= Seq::<Seq<char>>::empty());
    while k < c.len()
        invariant
            1 <= k <= c.len(),
            out@ == join_components(views(c@).subrange(0, k as int)),
        decreases c.len() - k,
    {
        out.push('/');
        let mut i: usize = 0;
        let ghost start = out@;
        while i < c[k].len()
            invariant
                k < c.len(),
                i <= c@[k as int]@.len(),
                out@ == start + c@[k as int]@.subrange(0, i as int),
            decreases c@[k as int]@.len() - i,
        {
            out.push(c[k][i]);
            i = i + 1;
            assert(out@ =~= start + c@[k as int]@.subrange(0, i as int));
        }
        assert(c@[k as int]@.subrange(0, i as int) =~= c@[k as int]@);
        let ghost next = views(c@).subrange(0, k + 1);
        assert(next.drop_last() =~= views(c@).subrange(0, k as int));
        assert(next.last() == c@[k as int]@);
        k = k + 1;
    }
    assert(views(c@).subrange(0, c@.len() as int) =~= views(c@));
    out
}

/// The components of `p` that follow those of `base`, where those of
/// `base` begin those of `p`.
pub fn strip_prefix_components(p: &Vec<char>, base: &Vec<char>) -> (r: Option<Vec<Vec<char>>>)
    ensures
        match strip_prefix_spec(p@, base@) {
            Some(rest) => r matches Some(v) && views(v@) == rest,
            None => r is None,
        },
{
    let pc = components(p);
    let bc = components(base);
    if bc.len() > pc.len() {
        return None;
    }
    let mut i: usize = 0;
    while i < bc.len()
        invariant
            bc.len() <= pc.len(),
            i <= bc.len(),
            views(pc@) == path_components(p@),
            views(bc@) == path_components(base@),
            forall|j: int| 0 <= j < i ==> views(pc@)[j] == views(bc@)[j],
        decreases bc.len() - i,
    {
        if !crate::text::chars_eq(&pc[i], &bc[i]) {
            assert(views(pc@)[i as int] == pc@[i as int]@);
            assert(views(bc@)[i as int] == bc@[i as int]@);
            assert(views(pc@).subrange(0, bc.len() as int)[i as int] != views(bc@)[i as int]);
            assert(views(pc@).subrange(0, bc.len() as int) != views(bc@));
            return None;
        }
        i = i + 1;
    }
    assert(views(pc@).subrange(0, bc.len() as int) =~= views(bc@));
    let mut rest: Vec<Vec<char>> = Vec::new();
    let mut k: usize = bc.len();
    while k < pc.len()
        invariant
            bc.len() <= k <= pc.len(),
            views(rest@) == views(pc@).subrange(bc.len() as int, k as int),
        decreases pc.len() - k,
    {
        let c = copy_chars(&pc[k]);
        let ghost old_rest = views(rest@);
        rest.push(c);
        assert(views(rest@) =~= old_rest.push(views(pc@)[k as int]));
        k = k + 1;
        assert(views(rest@) =~= views(pc@).subrange(bc.len() as int, k as int));
    }
    Some(rest)
}

} // verus!

verus! {

/// Whether two paths are equal as `Path`s: they have the same components.
pub open spec fn same_path(a: Seq<char>, b: Seq<char>) -> bool {
    path_components(a) == path_components(b)
}

/// Whether `a` and `b` are the same path (`Path`'s `==`).
pub fn path_eq(a: &str, b: &str) -> (r: bool)
    ensures
        r == same_path(a@, b@),
{
    let ca = components(&chars_of(a));
    let cb = components(&chars_of(b));
    if ca.len() != cb.len() {
        assert(views(ca@).len() != views(cb@).len());
        return false;
    }
    let mut i: usize = 0;
    while i < ca.len()
        invariant
            ca.len() == cb.len(),
            i <= ca.len(),
            views(ca@) == path_components(a@),
            views(cb@) == path_components(b@),
            forall|j: int| 0 <= j < i ==> views(ca@)[j] == views(cb@)[j],
        decreases ca.len() - i,
    {
        assert(views(ca@)[i as int] == ca@[i as int]@);
        assert(views(cb@)[i as int] == cb@[i as int]@);
        if !crate::text::chars_eq(&ca[i], &cb[i]) {
            return false;
        }
        i = i + 1;
    }
    assert(views(ca@) =~= views(cb@));
    true
}

/// How a path is shown: its file name, or the whole path where it has none.
pub open spec fn display_name_spec(p: Seq<char>) -> Seq<char> {
    match file_name_spec(p) {
        Some(n) => n,
        None => p,
    }
}

/// How a path is shown: its file name, or the whole path where it has none.
pub fn display_name(p: &str) -> (r: String)
    ensures
        r@ == display_name_spec(p@),
{
    match file_name(p) {
        Some(n) => n,
        None => String::from_str(p),
    }
}

} // verus!
