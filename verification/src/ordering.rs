use vstd::prelude::*;
use vstd::string::*;
use crate::config::labels_of;

verus! {

/// Whether `a` comes before `b` in the order of a dictionary, looking only
/// at the characters from `i` on. Characters go by their code points, and a
/// text comes before every longer text that begins with it.
pub open spec fn before_from(a: Seq<char>, b: Seq<char>, i: int) -> bool
    decreases a.len() - i,
{
    if i < 0 || i >= b.len() {
        false
    } else if i >= a.len() {
        true
    } else if (a[i] as int) < (b[i] as int) {
        true
    } else if (a[i] as int) > (b[i] as int) {
        false
    } else {
        before_from(a, b, i + 1)
    }
}

/// Whether `a` comes before `b` in the order of a dictionary. This is the
/// order of `str`.
pub open spec fn before(a: Seq<char>, b: Seq<char>) -> bool {
    before_from(a, b, 0)
}

/// No text of the list comes before an earlier one.
pub open spec fn in_order(labels: Seq<Seq<char>>) -> bool {
    forall|i: int, j: int| 0 <= i < j < labels.len() ==> !before(labels[j], labels[i])
}

/// The order is transitive.
pub proof fn lemma_before_transitive(a: Seq<char>, b: Seq<char>, c: Seq<char>, i: int)
    requires
        0 <= i,
        before_from(a, b, i),
        before_from(b, c, i),
    ensures
        before_from(a, c, i),
    decreases a.len() - i,
{
    if i < a.len() && a[i] as int == b[i] as int && b[i] as int == c[i] as int {
        lemma_before_transitive(a, b, c, i + 1);
    }
}

/// Of two texts at most one comes before the other.
pub proof fn lemma_before_asymmetric(a: Seq<char>, b: Seq<char>, i: int)
    requires
        0 <= i,
        before_from(a, b, i),
    ensures
        !before_from(b, a, i),
    decreases a.len() - i,
{
    if i < a.len() && i < b.len() && a[i] as int == b[i] as int {
        lemma_before_asymmetric(a, b, i + 1);
    }
}

/// Of two different texts one comes before the other.
pub proof fn lemma_before_total(a: Seq<char>, b: Seq<char>, i: int)
    requires
        0 <= i <= a.len(),
        i <= b.len(),
        a.subrange(0, i) == b.subrange(0, i),
        !before_from(a, b, i),
        !before_from(b, a, i),
    ensures
        a == b,
    decreases a.len() - i,
{
    if i >= a.len() || i >= b.len() {
        assert(a.len() == b.len());
        assert(a =~= a.subrange(0, i));
        assert(b =~= b.subrange(0, i));
    } else {
        assert(a[i] as int == b[i] as int);
        assert(a[i] == b[i]);
        assert(a.subrange(0, i + 1) =~= a.subrange(0, i).push(a[i]));
        assert(b.subrange(0, i + 1) =~= b.subrange(0, i).push(b[i]));
        lemma_before_total(a, b, i + 1);
    }
}

/// Every text of the list comes before the texts behind it, so that none
/// occurs twice.
pub open spec fn strictly_in_order(labels: Seq<Seq<char>>) -> bool {
    forall|i: int, j: int| 0 <= i < j < labels.len() ==> before(labels[i], labels[j])
}

/// A list in the order of a dictionary that holds no text twice is in
/// strict order.
pub proof fn lemma_in_order_without_duplicates(labels: Seq<Seq<char>>)
    requires
        in_order(labels),
        labels.no_duplicates(),
    ensures
        strictly_in_order(labels),
{
    assert forall|i: int, j: int| 0 <= i < j < labels.len() implies before(labels[i], labels[j]) by {
        if !before(labels[i], labels[j]) {
            assert(!before(labels[j], labels[i]));
            assert(labels[i].subrange(0, 0) =~= labels[j].subrange(0, 0));
            lemma_before_total(labels[i], labels[j], 0);
        }
    }
}

/// A list in strict order is in order.
pub proof fn lemma_strict_order_is_order(labels: Seq<Seq<char>>)
    requires
        strictly_in_order(labels),
    ensures
        in_order(labels),
{
    assert forall|i: int, j: int| 0 <= i < j < labels.len() implies !before(labels[j], labels[i]) by {
        assert(before(labels[i], labels[j]));
        lemma_before_asymmetric(labels[i], labels[j], 0);
    }
}

/// Whether `a` does not come behind `b`.
pub open spec fn not_behind(a: Seq<char>, b: Seq<char>) -> bool {
    !before(b, a)
}

/// Texts can be listed in the order of a dictionary in one way only: two
/// lists in that order that hold the same texts, each as often as the
/// other, are the same list.
pub proof fn lemma_dictionary_order_is_unique(x: Seq<Seq<char>>, y: Seq<Seq<char>>)
    requires
        in_order(x),
        in_order(y),
        x.to_multiset() == y.to_multiset(),
    ensures
        x == y,
{
    let leq = |a: Seq<char>, b: Seq<char>| not_behind(a, b);
    assert(vstd::relations::reflexive(leq)) by {
        assert forall|a: Seq<char>| #[trigger] leq(a, a) by {
            if before(a, a) {
                lemma_before_asymmetric(a, a, 0);
            }
        }
    }
    assert(vstd::relations::antisymmetric(leq)) by {
        assert forall|a: Seq<char>, b: Seq<char>| #[trigger] leq(a, b) && #[trigger] leq(b, a) implies a == b by {
            assert(a.subrange(0, 0) =~= b.subrange(0, 0));
            lemma_before_total(a, b, 0);
        }
    }
    assert(vstd::relations::transitive(leq)) by {
        assert forall|a: Seq<char>, b: Seq<char>, c: Seq<char>| #[trigger]
            leq(a, b) && #[trigger] leq(b, c) implies leq(a, c) by {
            if before(c, a) {
                if before(b, c) {
                    lemma_before_transitive(b, c, a, 0);
                } else {
                    assert(b.subrange(0, 0) =~= c.subrange(0, 0));
                    lemma_before_total(b, c, 0);
                }
            }
        }
    }
    assert(vstd::relations::strongly_connected(leq)) by {
        assert forall|a: Seq<char>, b: Seq<char>| #[trigger] leq(a, b) || #[trigger] leq(b, a) by {
            if before(b, a) {
                lemma_before_asymmetric(b, a, 0);
            }
        }
    }
    assert(vstd::relations::sorted_by(x, leq));
    assert(vstd::relations::sorted_by(y, leq));
    vstd::seq_lib::lemma_sorted_unique(x, y, leq);
}

/// Tells whether `a` comes before `b` in the order of a dictionary.
pub fn comes_before(a: &str, b: &str) -> (less: bool)
    ensures
        less == before(a@, b@),
{
    let n: usize = a.unicode_len();
    let m: usize = b.unicode_len();
    let mut i: usize = 0;
    while i < n && i < m
        invariant
            n == a@.len(),
            m == b@.len(),
            i <= n,
            i <= m,
            before(a@, b@) == before_from(a@, b@, i as int),
        decreases n - i,
    {
        let x: u32 = a.get_char(i) as u32;
        let y: u32 = b.get_char(i) as u32;
        if x < y {
            return true;
        }
        if x > y {
            return false;
        }
        i += 1;
    }
    i < m
}

/// The labels in the order of a dictionary: the same labels, each as often
/// as it was there.
pub fn sorted_labels(labels: &Vec<String>) -> (sorted: Vec<String>)
    ensures
        in_order(labels_of(sorted@)),
        labels_of(sorted@).to_multiset() == labels_of(labels@).to_multiset(),
{
    let mut sorted: Vec<String> = Vec::new();
    let mut i: usize = 0;
    assert(labels_of(sorted@) =~= labels_of(labels@).subrange(0, 0));
    while i < labels.len()
        invariant
            i <= labels.len(),
            in_order(labels_of(sorted@)),
            labels_of(sorted@).to_multiset() == labels_of(labels@).subrange(0, i as int).to_multiset(),
        decreases labels.len() - i,
    {
        let ghost x = labels@[i as int]@;
        let ghost earlier = labels_of(sorted@);
        let mut pos: usize = 0;
        let mut found = false;
        while pos < sorted.len() && !found
            invariant
                i < labels.len(),
                x == labels@[i as int]@,
                earlier == labels_of(sorted@),
                pos <= sorted.len(),
                forall|k: int| 0 <= k < pos ==> !before(x, earlier[k]),
                found ==> pos < sorted.len() && before(x, earlier[pos as int]),
            decreases sorted.len() - pos + if found { 0int } else { 1int },
        {
            if comes_before(labels[i].as_str(), sorted[pos].as_str()) {
                found = true;
            } else {
                pos += 1;
            }
        }
        sorted.insert(pos, labels[i].clone());
        proof {
            let later = labels_of(sorted@);
            assert(later =~= earlier.insert(pos as int, x));
            assert forall|a: int, b: int| 0 <= a < b < later.len() implies !before(later[b], later[a]) by {
                if b == pos {
                    assert(later[a] == earlier[a]);
                    assert(later[b] == x);
                    assert(!before(x, earlier[a]));
                } else if a == pos {
                    assert(later[a] == x);
                    assert(later[b] == earlier[b - 1]);
                    assert(found);
                    assert(before(x, earlier[pos as int]));
                    if before(later[b], x) {
                        lemma_before_transitive(later[b], x, earlier[pos as int], 0);
                        if b - 1 == pos {
                            lemma_before_asymmetric(x, earlier[pos as int], 0);
                        } else {
                            assert(!before(earlier[b - 1], earlier[pos as int]));
                        }
                    }
                } else {
                    let a0 = if a < pos { a } else { a - 1 };
                    let b0 = if b < pos { b } else { b - 1 };
                    assert(later[a] == earlier[a0]);
                    assert(later[b] == earlier[b0]);
                    assert(0 <= a0 < b0 < earlier.len());
                    assert(!before(earlier[b0], earlier[a0]));
                }
            }
            assert(later.remove(pos as int) =~= earlier);
            later.to_multiset_ensures();
            assert(earlier.to_multiset() =~= later.to_multiset().remove(x));
            assert(later.contains(x)) by {
                assert(later[pos as int] == x);
            }
            let prefix = labels_of(labels@).subrange(0, i as int);
            assert(labels_of(labels@).subrange(0, i + 1) =~= prefix.push(x));
            prefix.to_multiset_ensures();
            assert(later.to_multiset() =~= prefix.to_multiset().insert(x));
        }
        i += 1;
    }
    assert(labels_of(labels@).subrange(0, labels@.len() as int) =~= labels_of(labels@));
    sorted
}

} // verus!
