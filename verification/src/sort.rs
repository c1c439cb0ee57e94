//! Stable sorting by a total preorder, and the orders that the library
//! sorts by: strings by their characters and paths by their components.

use vstd::prelude::*;
use vstd::relations::sorted_by;
use crate::paths::{
    components, cur_component, parent_component, path_components, root_component, views,
};

verus! {

/// Whether `le` is total and transitive.
pub open spec fn total_preorder<T>(le: spec_fn(T, T) -> bool) -> bool {
    &&& forall|a: T, b: T| #[trigger] le(a, b) || le(b, a)
    &&& forall|a: T, b: T, c: T| #[trigger] le(a, b) && #[trigger] le(b, c) ==> le(a, c)
}

/// The elements that `le` ranks equal to `x`.
pub open spec fn same_rank<T>(le: spec_fn(T, T) -> bool, x: T) -> spec_fn(T) -> bool {
    |y: T| le(x, y) && le(y, x)
}

/// Whether `out` is `inp` sorted by `le`, with elements of equal rank in
/// their original order: `out` is sorted, and for every rank the elements
/// of that rank come in the same order in both.
pub open spec fn stable_sort_of<T>(out: Seq<T>, inp: Seq<T>, le: spec_fn(T, T) -> bool) -> bool {
    &&& sorted_by(out, le)
    &&& out.to_multiset() == inp.to_multiset()
    &&& forall|x: T| #[trigger] out.filter(same_rank(le, x)) == inp.filter(same_rank(le, x))
}

/// Sorts `v` by `le` (which computes `leq`), keeping elements of equal rank
/// in their original order.
pub fn stable_sort<T, F: Fn(&T, &T) -> bool>(
    v: Vec<T>,
    le: F,
    Ghost(leq): Ghost<spec_fn(T, T) -> bool>,
) -> (r: Vec<T>)
    requires
        total_preorder(leq),
        forall|a: &T, b: &T| #[trigger] le.requires((a, b)),
        forall|a: &T, b: &T, res: bool| le.ensures((a, b), res) ==> res == leq(*a, *b),
    ensures
        stable_sort_of(r@, v@, leq),
{
    broadcast use vstd::seq_lib::group_seq_properties;
    broadcast use vstd::seq_lib::group_to_multiset_ensures;
    broadcast use Seq::filter_distributes_over_add;
    broadcast use Seq::lemma_filter_push;

    let ghost orig = v@;
    let mut input = v;
    let mut out: Vec<T> = Vec::new();
    let n = input.len();
    let mut i: usize = 0;
    proof {
        assert(orig.subrange(0, 0) =~= Seq::<T>::empty());
        assert forall|x: T| #[trigger] out@.filter(same_rank(leq, x)) == orig.subrange(0, 0).filter(same_rank(leq, x)) by {
            reveal(Seq::filter);
        }
    }
    while i < n
        invariant
            total_preorder(leq),
            forall|a: &T, b: &T| #[trigger] le.requires((a, b)),
            forall|a: &T, b: &T, res: bool| le.ensures((a, b), res) ==> res == leq(*a, *b),
            n == orig.len(),
            i <= n,
            input@ == orig.subrange(i as int, n as int),
            stable_sort_of(out@, orig.subrange(0, i as int), leq),
        decreases n - i,
    {
        let x = input.remove(0);
        assert(x == orig[i as int]);
        let mut p: usize = out.len();
        while p > 0 && !le(&out[p - 1], &x)
            invariant
                forall|a: &T, b: &T| #[trigger] le.requires((a, b)),
                forall|a: &T, b: &T, res: bool| le.ensures((a, b), res) ==> res == leq(*a, *b),
                p <= out.len(),
                forall|k: int| p <= k < out.len() ==> !leq(#[trigger] out@[k], x),
            decreases p,
        {
            p = p - 1;
        }
        let ghost before = out@;
        let ghost lo = before.subrange(0, p as int);
        let ghost hi = before.subrange(p as int, before.len() as int);
        assert(p > 0 ==> leq(before[p - 1], x));
        out.insert(p, x);
        proof {
            assert(before =~= lo + hi);
            assert(out@ =~= lo + seq![x] + hi);
            assert(orig.subrange(0, i + 1) =~= orig.subrange(0, i as int).push(x));
            vstd::seq_lib::to_multiset_insert(before, p as int, x);
            vstd::seq_lib::to_multiset_build(orig.subrange(0, i as int), x);
            assert(out@.to_multiset() == orig.subrange(0, i + 1).to_multiset());
            // sortedness
            assert forall|a: int, b: int| 0 <= a < b < out@.len() implies #[trigger] leq(out@[a], out@[b]) by {
                if a < p && b == p {
                    if a < p - 1 {
                        assert(leq(before[a], before[p - 1]));
                    }
                } else if a == p && b > p {
                    assert(!leq(before[b - 1], x));
                    assert(leq(x, before[b - 1]));
                } else if a < p && b > p {
                    assert(leq(before[a], before[b - 1]));
                } else if a > p {
                    assert(leq(before[a - 1], before[b - 1]));
                } else {
                    assert(leq(before[a], before[b]));
                }
            }
            // stability
            assert forall|y: T| #[trigger] out@.filter(same_rank(leq, y)) == orig.subrange(0, i + 1).filter(same_rank(leq, y)) by {
                let pr = same_rank(leq, y);
                orig.subrange(0, i as int).lemma_filter_push(x, pr);
                Seq::<T>::empty().lemma_filter_push(x, pr);
                assert(orig.subrange(0, i as int).push(x).filter(pr) == (if pr(x) {
                    orig.subrange(0, i as int).filter(pr).push(x)
                } else {
                    orig.subrange(0, i as int).filter(pr)
                }));
                assert(out@.filter(pr) == lo.filter(pr) + seq![x].filter(pr) + hi.filter(pr));
                assert(before.filter(pr) == lo.filter(pr) + hi.filter(pr));
                assert(seq![x] =~= Seq::<T>::empty().push(x));
                assert(Seq::<T>::empty().filter(pr) =~= Seq::<T>::empty()) by {
                    reveal(Seq::filter);
                }
                if pr(x) {
                    assert forall|k: int| 0 <= k < hi.len() implies !pr(#[trigger] hi[k]) by {
                        assert(!leq(before[p + k], x));
                        if pr(hi[k]) {
                            assert(leq(hi[k], y) && leq(y, x));
                        }
                    }
                    assert(hi.filter(pr) =~= Seq::<T>::empty()) by {
                        hi.lemma_all_neg_filter_empty(pr);
                    }
                    assert(seq![x].filter(pr) =~= seq![x]);
                } else {
                    assert(seq![x].filter(pr) =~= Seq::<T>::empty());
                }
            }
        }
        i = i + 1;
    }
    assert(orig.subrange(0, n as int) =~= orig);
    out
}

} // verus!

verus! {

/// The order of strings (`str::cmp`): character by character, a proper
/// prefix first.
pub open spec fn chars_le(a: Seq<char>, b: Seq<char>) -> bool
    decreases a.len(),
{
    if a.len() == 0 {
        true
    } else if b.len() == 0 {
        false
    } else if a[0] != b[0] {
        a[0] < b[0]
    } else {
        chars_le(a.drop_first(), b.drop_first())
    }
}

pub proof fn lemma_chars_le_total(a: Seq<char>, b: Seq<char>)
    ensures
        chars_le(a, b) || chars_le(b, a),
    decreases a.len(),
{
    if a.len() > 0 && b.len() > 0 && a[0] == b[0] {
        lemma_chars_le_total(a.drop_first(), b.drop_first());
    }
}

pub proof fn lemma_chars_le_trans(a: Seq<char>, b: Seq<char>, c: Seq<char>)
    requires
        chars_le(a, b),
        chars_le(b, c),
    ensures
        chars_le(a, c),
    decreases a.len(),
{
    if a.len() > 0 && b.len() > 0 && c.len() > 0 && a[0] == b[0] && b[0] == c[0] {
        lemma_chars_le_trans(a.drop_first(), b.drop_first(), c.drop_first());
    }
}

pub proof fn lemma_chars_le_antisym(a: Seq<char>, b: Seq<char>)
    requires
        chars_le(a, b),
        chars_le(b, a),
    ensures
        a == b,
    decreases a.len(),
{
    if a.len() > 0 && b.len() > 0 {
        lemma_chars_le_antisym(a.drop_first(), b.drop_first());
        assert(a =~= seq![a[0]] + a.drop_first());
        assert(b =~= seq![b[0]] + b.drop_first());
    }
}

/// The order of strings by their characters, as a predicate on strings.
pub open spec fn string_le() -> spec_fn(String, String) -> bool {
    |a: String, b: String| chars_le(a@, b@)
}

pub proof fn lemma_string_le_total_preorder()
    ensures
        total_preorder(string_le()),
{
    assert forall|a: String, b: String| #[trigger] string_le()(a, b) || string_le()(b, a) by {
        lemma_chars_le_total(a@, b@);
    }
    assert forall|a: String, b: String, c: String|
        #[trigger] string_le()(a, b) && #[trigger] string_le()(b, c) implies string_le()(a, c) by {
        lemma_chars_le_trans(a@, b@, c@);
    }
}

/// Whether `a` comes no later than `b` in the order of strings.
pub fn chars_le_exec(a: &Vec<char>, b: &Vec<char>) -> (r: bool)
    ensures
        r == chars_le(a@, b@),
{
    let mut i: usize = 0;
    assert(a@.subrange(0, a@.len() as int) =~= a@);
    assert(b@.subrange(0, b@.len() as int) =~= b@);
    while i < a.len() && i < b.len() && a[i] == b[i]
        invariant
            i <= a.len(),
            i <= b.len(),
            chars_le(a@, b@) == chars_le(
                a@.subrange(i as int, a@.len() as int),
                b@.subrange(i as int, b@.len() as int),
            ),
        decreases a.len() - i,
    {
        let ghost sa = a@.subrange(i as int, a@.len() as int);
        let ghost sb = b@.subrange(i as int, b@.len() as int);
        assert(sa.drop_first() =~= a@.subrange(i + 1, a@.len() as int));
        assert(sb.drop_first() =~= b@.subrange(i + 1, b@.len() as int));
        i = i + 1;
    }
    if i == a.len() {
        true
    } else if i == b.len() {
        false
    } else {
        a[i] < b[i]
    }
}

/// Whether string `a` comes no later than string `b`.
pub fn string_le_exec(a: &String, b: &String) -> (r: bool)
    ensures
        r == string_le()(*a, *b),
{
    let x = crate::text::chars_of(a.as_str());
    let y = crate::text::chars_of(b.as_str());
    chars_le_exec(&x, &y)
}

/// Rank of a component in the order of path components: root, current
/// directory, parent directory, then normal components.
pub open spec fn component_rank(c: Seq<char>) -> int {
    if c == root_component() {
        0
    } else if c == cur_component() {
        1
    } else if c == parent_component() {
        2
    } else {
        3
    }
}

/// The order of path components (`std::path::Component`'s `Ord`).
pub open spec fn component_le(a: Seq<char>, b: Seq<char>) -> bool {
    if component_rank(a) != component_rank(b) {
        component_rank(a) < component_rank(b)
    } else {
        component_rank(a) < 3 || chars_le(a, b)
    }
}

/// The order of component sequences: component by component, a proper
/// prefix first.
pub open spec fn components_le(a: Seq<Seq<char>>, b: Seq<Seq<char>>) -> bool
    decreases a.len(),
{
    if a.len() == 0 {
        true
    } else if b.len() == 0 {
        false
    } else if a[0] != b[0] {
        component_le(a[0], b[0])
    } else {
        components_le(a.drop_first(), b.drop_first())
    }
}

/// The order of paths (`Path`'s `Ord`): by their components.
pub open spec fn path_le(a: Seq<char>, b: Seq<char>) -> bool {
    components_le(path_components(a), path_components(b))
}

proof fn lemma_component_le_props(a: Seq<char>, b: Seq<char>, c: Seq<char>)
    ensures
        component_le(a, b) || component_le(b, a),
        component_le(a, b) && component_le(b, c) ==> component_le(a, c),
        component_le(a, b) && component_le(b, a) ==> a == b,
{
    lemma_chars_le_total(a, b);
    if component_le(a, b) && component_le(b, c) && component_rank(a) == 3 && component_rank(b) == 3
        && component_rank(c) == 3 {
        lemma_chars_le_trans(a, b, c);
    }
    if component_le(a, b) && component_le(b, a) && component_rank(a) == 3 && component_rank(b) == 3 {
        lemma_chars_le_antisym(a, b);
    }
}

proof fn lemma_components_le_total(a: Seq<Seq<char>>, b: Seq<Seq<char>>)
    ensures
        components_le(a, b) || components_le(b, a),
    decreases a.len(),
{
    if a.len() > 0 && b.len() > 0 {
        lemma_component_le_props(a[0], b[0], b[0]);
        if a[0] == b[0] {
            lemma_components_le_total(a.drop_first(), b.drop_first());
        }
    }
}

proof fn lemma_components_le_trans(a: Seq<Seq<char>>, b: Seq<Seq<char>>, c: Seq<Seq<char>>)
    requires
        components_le(a, b),
        components_le(b, c),
    ensures
        components_le(a, c),
    decreases a.len(),
{
    if a.len() > 0 && b.len() > 0 && c.len() > 0 {
        lemma_component_le_props(a[0], b[0], c[0]);
        lemma_component_le_props(b[0], c[0], a[0]);
        lemma_component_le_props(c[0], a[0], b[0]);
        if a[0] == b[0] && b[0] == c[0] {
            lemma_components_le_trans(a.drop_first(), b.drop_first(), c.drop_first());
        }
    }
}

/// The order of paths, as a predicate on strings.
pub open spec fn path_order() -> spec_fn(String, String) -> bool {
    |a: String, b: String| path_le(a@, b@)
}

pub proof fn lemma_path_order_total_preorder()
    ensures
        total_preorder(path_order()),
{
    assert forall|a: String, b: String| #[trigger] path_order()(a, b) || path_order()(b, a) by {
        lemma_components_le_total(path_components(a@), path_components(b@));
    }
    assert forall|a: String, b: String, c: String|
        #[trigger] path_order()(a, b) && #[trigger] path_order()(b, c) implies path_order()(a, c) by {
        lemma_components_le_trans(path_components(a@), path_components(b@), path_components(c@));
    }
}

fn component_rank_exec(c: &Vec<char>) -> (r: u8)
    ensures
        r == component_rank(c@),
{
    if c.len() == 1 && c[0] == '/' {
        assert(c@ =~= root_component());
        0
    } else if c.len() == 1 && c[0] == '.' {
        assert(c@ =~= cur_component());
        assert(c@ != root_component());
        1
    } else if c.len() == 2 && c[0] == '.' && c[1] == '.' {
        assert(c@ =~= parent_component());
        2
    } else {
        assert(c@ != root_component() && c@ != cur_component() && c@ != parent_component()) by {
            if c@ == root_component() {
                assert(c@.len() == 1 && c@[0] == '/');
            }
            if c@ == cur_component() {
                assert(c@.len() == 1 && c@[0] == '.');
            }
            if c@ == parent_component() {
                assert(c@.len() == 2 && c@[0] == '.' && c@[1] == '.');
            }
        }
        3
    }
}

/// Whether path `a` comes no later than path `b` (`Path`'s `Ord`).
pub fn path_le_exec(a: &String, b: &String) -> (r: bool)
    ensures
        r == path_order()(*a, *b),
{
    let ca = components(&crate::text::chars_of(a.as_str()));
    let cb = components(&crate::text::chars_of(b.as_str()));
    let ghost sa = views(ca@);
    let ghost sb = views(cb@);
    let mut i: usize = 0;
    assert(sa.subrange(0, sa.len() as int) =~= sa);
    assert(sb.subrange(0, sb.len() as int) =~= sb);
    while i < ca.len() && i < cb.len()
        invariant
            sa == views(ca@),
            sb == views(cb@),
            sa == path_components(a@),
            sb == path_components(b@),
            i <= ca.len(),
            i <= cb.len(),
            components_le(sa, sb) == components_le(
                sa.subrange(i as int, sa.len() as int),
                sb.subrange(i as int, sb.len() as int),
            ),
        decreases ca.len() - i,
    {
        let ghost ta = sa.subrange(i as int, sa.len() as int);
        let ghost tb = sb.subrange(i as int, sb.len() as int);
        assert(ta[0] == ca@[i as int]@);
        assert(tb[0] == cb@[i as int]@);
        if !crate::text::chars_eq(&ca[i], &cb[i]) {
            let ra = component_rank_exec(&ca[i]);
            let rb = component_rank_exec(&cb[i]);
            if ra != rb {
                return ra < rb;
            }
            if ra < 3 {
                return true;
            }
            return chars_le_exec(&ca[i], &cb[i]);
        }
        assert(ta.drop_first() =~= sa.subrange(i + 1, sa.len() as int));
        assert(tb.drop_first() =~= sb.subrange(i + 1, sb.len() as int));
        i = i + 1;
    }
    i == ca.len()
}

} // verus!

verus! {

/// `v` sorted by path order (`Vec<PathBuf>::sort`), equal paths keeping
/// their order.
pub fn sort_paths(v: Vec<String>) -> (r: Vec<String>)
    ensures
        stable_sort_of(r@, v@, path_order()),
{
    proof {
        lemma_path_order_total_preorder();
    }
    stable_sort(v, path_le_exec, Ghost(path_order()))
}

} // verus!
