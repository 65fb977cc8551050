use vstd::prelude::*;
use vstd::string::StrSliceExecFns;

verus! {

/// Lexicographic order on character sequences, comparing characters by
/// Unicode scalar value; a prefix sorts before its extensions. This is the
/// ascending order that the title listing documents.
pub open spec fn chars_le(a: Seq<char>, b: Seq<char>) -> bool
    decreases a.len(),
{
    if a.len() == 0 {
        true
    } else if b.len() == 0 {
        false
    } else if (a[0] as u32) == (b[0] as u32) {
        chars_le(a.drop_first(), b.drop_first())
    } else {
        (a[0] as u32) < (b[0] as u32)
    }
}

/// The order is total: of any two sequences, one is below the other.
pub proof fn lemma_chars_le_total(a: Seq<char>, b: Seq<char>)
    ensures
        chars_le(a, b) || chars_le(b, a),
    decreases a.len(),
{
    if a.len() == 0 {
    } else if b.len() == 0 {
    } else if (a[0] as u32) == (b[0] as u32) {
        lemma_chars_le_total(a.drop_first(), b.drop_first());
    }
}

/// The order is transitive.
pub proof fn lemma_chars_le_trans(a: Seq<char>, b: Seq<char>, c: Seq<char>)
    requires
        chars_le(a, b),
        chars_le(b, c),
    ensures
        chars_le(a, c),
    decreases a.len(),
{
    if a.len() == 0 {
    } else if b.len() == 0 {
    } else if c.len() == 0 {
    } else if (a[0] as u32) == (b[0] as u32) && (b[0] as u32) == (c[0] as u32) {
        lemma_chars_le_trans(a.drop_first(), b.drop_first(), c.drop_first());
    }
}

/// Stripping an equal prefix from both sequences does not change how they
/// compare.
proof fn lemma_chars_le_skip(a: Seq<char>, b: Seq<char>, i: int)
    requires
        0 <= i <= a.len(),
        i <= b.len(),
        forall|k: int| 0 <= k < i ==> (#[trigger] a[k] as u32) == (b[k] as u32),
    ensures
        chars_le(a, b) == chars_le(a.skip(i), b.skip(i)),
    decreases i,
{
    if i > 0 {
        assert((a[0] as u32) == (b[0] as u32));
        lemma_chars_le_skip(a.drop_first(), b.drop_first(), i - 1);
        assert(a.drop_first().skip(i - 1) =~= a.skip(i));
        assert(b.drop_first().skip(i - 1) =~= b.skip(i));
    } else {
        assert(a.skip(0) =~= a);
        assert(b.skip(0) =~= b);
    }
}

/// Compares two strings in the lexicographic order of their characters'
/// Unicode scalar values.
pub fn string_le(a: &String, b: &String) -> (r: bool)
    ensures
        r == chars_le(a@, b@),
{
    let sa = a.as_str();
    let sb = b.as_str();
    let alen = sa.unicode_len();
    let blen = sb.unicode_len();
    let mut i: usize = 0;
    loop
        invariant
            i <= alen,
            i <= blen,
            alen == sa@.len(),
            blen == sb@.len(),
            sa@ == a@,
            sb@ == b@,
            forall|k: int| 0 <= k < i ==> (#[trigger] sa@[k] as u32) == (sb@[k] as u32),
        decreases alen - i,
    {
        proof {
            lemma_chars_le_skip(sa@, sb@, i as int);
        }
        if i == alen {
            proof {
                assert(sa@.skip(i as int).len() == 0);
            }
            return true;
        }
        if i == blen {
            proof {
                assert(sb@.skip(i as int).len() == 0);
                assert(sa@.skip(i as int).len() > 0);
            }
            return false;
        }
        let ca = sa.get_char(i);
        let cb = sb.get_char(i);
        if ca as u32 != cb as u32 {
            proof {
                let ta = sa@.skip(i as int);
                let tb = sb@.skip(i as int);
                assert(ta[0] == sa@[i as int]);
                assert(tb[0] == sb@[i as int]);
            }
            return (ca as u32) < (cb as u32);
        }
        i = i + 1;
    }
}

/// Sorted ascending by title: every earlier title is below every later one.
pub open spec fn titles_sorted(s: Seq<(i64, Seq<char>)>) -> bool {
    forall|i: int, j: int| 0 <= i < j < s.len() ==> chars_le(s[i].1, s[j].1)
}

/// Sorts (id, title) pairs ascending by title, by insertion. The result is
/// a rearrangement of the input: same pairs, same number of times each.
pub fn sort_by_title(v: Vec<(i64, String)>) -> (r: Vec<(i64, String)>)
    ensures
        titles_sorted(r.deep_view()),
        r.deep_view().to_multiset() == v.deep_view().to_multiset(),
{
    let ghost orig = v.deep_view();
    let mut v = v;
    if v.len() < 2 {
        return v;
    }
    let mut idx: usize = 1;
    while idx < v.len()
        invariant
            1 <= idx <= v.len(),
            v.deep_view().to_multiset() == orig.to_multiset(),
            forall|i: int, j: int|
                0 <= i < j < idx ==> chars_le(
                    (#[trigger] v.deep_view()[i]).1,
                    (#[trigger] v.deep_view()[j]).1,
                ),
        decreases v.len() - idx,
    {
        let ghost dv0 = v.deep_view();
        let x = v.remove(idx);
        let ghost xv = x.deep_view();
        proof {
            assert(v.deep_view() =~= dv0.remove(idx as int));
            assert(xv == dv0[idx as int]);
        }
        let ghost dv1 = v.deep_view();
        let mut pos: usize = 0;
        while pos < idx && string_le(&v[pos].1, &x.1)
            invariant
                pos <= idx,
                idx <= dv1.len(),
                dv1 == v.deep_view(),
                xv == x.deep_view(),
                forall|k: int| 0 <= k < pos ==> chars_le((#[trigger] dv1[k]).1, xv.1),
            decreases idx - pos,
        {
            proof {
                assert(dv1[pos as int].1 == v[pos as int].1@);
            }
            pos = pos + 1;
        }
        proof {
            if pos < idx {
                assert(!chars_le(dv1[pos as int].1, xv.1));
                lemma_chars_le_total(dv1[pos as int].1, xv.1);
                assert(chars_le(xv.1, dv1[pos as int].1));
            }
        }
        v.insert(pos, x);
        proof {
            broadcast use vstd::multiset::group_multiset_axioms;

            assert(v.deep_view() =~= dv1.insert(pos as int, xv));
            let dv2 = v.deep_view();
            // the pairs are unchanged as a multiset: one was taken out and
            // put back
            assert(dv0[idx as int] == xv);
            assert(dv0.contains(xv));
            vstd::seq_lib::to_multiset_contains(dv0, xv);
            assert(dv0.to_multiset().count(xv) > 0);
            vstd::seq_lib::to_multiset_remove(dv0, idx as int);
            vstd::seq_lib::to_multiset_insert(dv1, pos as int, xv);
            assert(dv2.to_multiset() =~= dv0.to_multiset());
            // the sorted prefix grew by one
            assert forall|i: int, j: int| 0 <= i < j < idx + 1 implies chars_le(
                (#[trigger] dv2[i]).1,
                (#[trigger] dv2[j]).1,
            ) by {
                let p = pos as int;
                if i < p && j < p {
                    assert(dv2[i] == dv1[i] && dv2[j] == dv1[j]);
                    assert(dv1[i] == dv0[i] && dv1[j] == dv0[j]);
                } else if i < p && j == p {
                    assert(dv2[i] == dv1[i]);
                    assert(dv2[j] == xv);
                } else if i == p && j > p {
                    assert(dv2[i] == xv);
                    assert(dv2[j] == dv1[j - 1]);
                    if j - 1 == p {
                        assert(chars_le(xv.1, dv1[p].1));
                    } else {
                        assert(dv1[p].1 == dv0[p].1);
                        assert(dv1[j - 1] == dv0[j - 1]);
                        assert(chars_le(dv0[p].1, dv0[j - 1].1));
                        lemma_chars_le_trans(xv.1, dv1[p].1, dv1[j - 1].1);
                    }
                } else if i < p && j > p {
                    assert(dv2[i] == dv1[i] && dv2[j] == dv1[j - 1]);
                    assert(dv1[i] == dv0[i] && dv1[j - 1] == dv0[j - 1]);
                } else {
                    // p < i < j
                    assert(dv2[i] == dv1[i - 1] && dv2[j] == dv1[j - 1]);
                    assert(dv1[i - 1] == dv0[i - 1] && dv1[j - 1] == dv0[j - 1]);
                }
            }
        }
        idx = idx + 1;
    }
    v
}

} // verus!
