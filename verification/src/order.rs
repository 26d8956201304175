//! Lexicographic order on character sequences (the order of `String`'s `Ord`, since UTF-8
//! preserves code point order) and sorted, duplicate-free name lists.
use vstd::prelude::*;

verus! {

/// `a` sorts strictly before `b`.
pub open spec fn lex_lt(a: Seq<char>, b: Seq<char>) -> bool
    decreases a.len(),
{
    if a.len() == 0 {
        b.len() > 0
    } else if b.len() == 0 {
        false
    } else if a[0] != b[0] {
        a[0] < b[0]
    } else {
        lex_lt(a.drop_first(), b.drop_first())
    }
}

pub proof fn lemma_lex_irreflexive(a: Seq<char>)
    ensures
        !lex_lt(a, a),
    decreases a.len(),
{
    if a.len() > 0 {
        lemma_lex_irreflexive(a.drop_first());
    }
}

pub proof fn lemma_lex_transitive(a: Seq<char>, b: Seq<char>, c: Seq<char>)
    requires
        lex_lt(a, b),
        lex_lt(b, c),
    ensures
        lex_lt(a, c),
    decreases a.len(),
{
    if a.len() > 0 && b.len() > 0 && c.len() > 0 && a[0] == b[0] && b[0] == c[0] {
        lemma_lex_transitive(a.drop_first(), b.drop_first(), c.drop_first());
    }
}

pub proof fn lemma_lex_total(a: Seq<char>, b: Seq<char>)
    requires
        a != b,
    ensures
        lex_lt(a, b) || lex_lt(b, a),
    decreases a.len(),
{
    if a.len() > 0 && b.len() > 0 && a[0] == b[0] {
        assert(a =~= seq![a[0]] + a.drop_first());
        assert(b =~= seq![b[0]] + b.drop_first());
        assert(a.drop_first() != b.drop_first());
        lemma_lex_total(a.drop_first(), b.drop_first());
    } else if a.len() == 0 && b.len() == 0 {
        assert(a =~= b);
    }
}

/// Executable lexicographic comparison.
pub fn chars_lt(a: &Vec<char>, b: &Vec<char>) -> (r: bool)
    ensures
        r == lex_lt(a@, b@),
{
    let mut i: usize = 0;
    assert(a@.skip(0) =~= a@);
    assert(b@.skip(0) =~= b@);
    while i < a.len() && i < b.len() && a[i] == b[i]
        invariant
            0 <= i <= a.len(),
            i <= b.len(),
            lex_lt(a@, b@) == lex_lt(a@.skip(i as int), b@.skip(i as int)),
        decreases a.len() - i,
    {
        proof {
            let sa = a@.skip(i as int);
            let sb = b@.skip(i as int);
            assert(sa.drop_first() =~= a@.skip(i + 1));
            assert(sb.drop_first() =~= b@.skip(i + 1));
        }
        i += 1;
    }
    if i == a.len() {
        i < b.len()
    } else if i == b.len() {
        false
    } else {
        a[i] < b[i]
    }
}

/// The names of a list, as character sequences.
pub open spec fn views(v: Seq<String>) -> Seq<Seq<char>> {
    v.map_values(|s: String| s@)
}

/// Strictly increasing, hence free of duplicates.
pub open spec fn strictly_sorted(s: Seq<Seq<char>>) -> bool {
    forall|i: int, j: int| 0 <= i < j < s.len() ==> lex_lt(#[trigger] s[i], #[trigger] s[j])
}

/// Inserts `name` into a strictly sorted list unless it is already there.
pub fn insert_sorted(list: &mut Vec<String>, name: String)
    requires
        strictly_sorted(views(old(list)@)),
    ensures
        strictly_sorted(views(final(list)@)),
        views(final(list)@).to_set() == views(old(list)@).to_set().insert(name@),
{
    let ghost old_views = views(list@);
    let key = crate::text::chars_of(name.as_str());
    let mut i: usize = 0;
    let mut go = true;
    while go && i < list.len()
        invariant
            0 <= i <= list.len(),
            !go ==> i < list.len() && !lex_lt(old_views[i as int], name@),
            list@ == old(list)@,
            old_views == views(list@),
            key@ == name@,
            strictly_sorted(old_views),
            forall|j: int| 0 <= j < i ==> lex_lt(#[trigger] old_views[j], name@),
        decreases list.len() - i + if go { 1int } else { 0int },
    {
        let item = crate::text::chars_of(list[i].as_str());
        assert(old_views[i as int] == list@[i as int]@);
        if chars_lt(&item, &key) {
            i += 1;
        } else {
            go = false;
        }
    }
    if i < list.len() {
        let item = crate::text::chars_of(list[i].as_str());
        assert(old_views[i as int] == list@[i as int]@);
        if crate::text::chars_equal(&item, &key) {
            assert(views(list@).to_set() =~= old_views.to_set().insert(name@)) by {
                assert(old_views.to_set().contains(name@)) by {
                    assert(old_views[i as int] == name@);
                }
            }
            return;
        }
        proof {
            if !lex_lt(old_views[i as int], name@) {
                lemma_lex_total(old_views[i as int], name@);
            }
        }
    }
    let ghost pos = i as int;
    proof {
        assert forall|j: int| pos <= j < old_views.len() implies lex_lt(name@, #[trigger] old_views[j]) by {
            if j > pos {
                lemma_lex_transitive(name@, old_views[pos], old_views[j]);
            }
        }
    }
    list.insert(i, name);
    proof {
        let nv = views(list@);
        assert(nv =~= old_views.insert(pos, name@));
        assert forall|a: int, b: int| 0 <= a < b < nv.len() implies lex_lt(
            #[trigger] nv[a],
            #[trigger] nv[b],
        ) by {
            if a < pos && b < pos {
                assert(nv[a] == old_views[a] && nv[b] == old_views[b]);
            } else if a < pos && b == pos {
            } else if a < pos {
                assert(nv[a] == old_views[a] && nv[b] == old_views[b - 1]);
                lemma_lex_transitive(old_views[a], name@, old_views[b - 1]);
            } else if a == pos {
                assert(nv[b] == old_views[b - 1]);
            } else {
                assert(nv[a] == old_views[a - 1] && nv[b] == old_views[b - 1]);
            }
        }
        assert(nv.to_set() =~= old_views.to_set().insert(name@)) by {
            assert forall|x: Seq<char>| nv.to_set().contains(x) implies old_views.to_set().insert(
                name@,
            ).contains(x) by {
                let k = choose|k: int| 0 <= k < nv.len() && nv[k] == x;
                if k < pos {
                    assert(old_views[k] == x);
                } else if k > pos {
                    assert(old_views[k - 1] == x);
                }
            }
            assert forall|x: Seq<char>| old_views.to_set().insert(name@).contains(x) implies nv.to_set().contains(x) by {
                if x == name@ {
                    assert(nv[pos] == x);
                } else {
                    let k = choose|k: int| 0 <= k < old_views.len() && old_views[k] == x;
                    if k < pos {
                        assert(nv[k] == x);
                    } else {
                        assert(nv[k + 1] == x);
                    }
                }
            }
        }
    }
}

} // verus!
