use vstd::prelude::*;

use crate::text::texts_view;

verus! {

/// `a` sorts strictly before `b` in the lexicographic order of their code points (the order
/// `String` has): the first differing character decides, and a proper prefix comes first.
pub open spec fn text_less(a: Seq<char>, b: Seq<char>) -> bool
    decreases a.len(),
{
    if a.len() == 0 {
        b.len() > 0
    } else if b.len() == 0 {
        false
    } else if a[0] != b[0] {
        (a[0] as int) < (b[0] as int)
    } else {
        text_less(a.drop_first(), b.drop_first())
    }
}

/// No text sorts before itself.
pub proof fn lemma_text_less_irreflexive(a: Seq<char>)
    ensures
        !text_less(a, a),
    decreases a.len(),
{
    if a.len() > 0 {
        lemma_text_less_irreflexive(a.drop_first());
    }
}

/// The order is transitive.
pub proof fn lemma_text_less_transitive(a: Seq<char>, b: Seq<char>, c: Seq<char>)
    requires
        text_less(a, b),
        text_less(b, c),
    ensures
        text_less(a, c),
    decreases a.len(),
{
    if a.len() > 0 && b.len() > 0 && c.len() > 0 && a[0] == b[0] && b[0] == c[0] {
        lemma_text_less_transitive(a.drop_first(), b.drop_first(), c.drop_first());
    }
}

/// Of two different texts, one sorts before the other.
pub proof fn lemma_text_less_total(a: Seq<char>, b: Seq<char>)
    requires
        a != b,
    ensures
        text_less(a, b) || text_less(b, a),
    decreases a.len(),
{
    if a.len() > 0 && b.len() > 0 {
        if a[0] == b[0] {
            if a.drop_first() == b.drop_first() {
                assert(a =~= seq![a[0]] + a.drop_first());
                assert(b =~= seq![b[0]] + b.drop_first());
            }
            lemma_text_less_total(a.drop_first(), b.drop_first());
        } else {
        }
    } else if a.len() == 0 && b.len() == 0 {
        assert(a =~= b);
    }
}

/// Whether the code point of `c` is below that of `d`.
pub fn char_before(c: char, d: char) -> (before: bool)
    ensures
        before == ((c as int) < (d as int)),
{
    assert(0 <= c as int <= 0x10FFFF);
    assert(0 <= d as int <= 0x10FFFF);
    (c as u32) < (d as u32)
}

/// Whether `a` sorts strictly before `b`.
pub fn text_before(a: &str, b: &str) -> (before: bool)
    ensures
        before == text_less(a@, b@),
{
    let left = crate::text::chars_of(a);
    let right = crate::text::chars_of(b);
    let mut i: usize = 0;
    proof {
        assert(a@.skip(0) =~= a@);
        assert(b@.skip(0) =~= b@);
    }
    while i < left.len() && i < right.len()
        invariant
            left@ == a@,
            right@ == b@,
            i <= left@.len(),
            i <= right@.len(),
            text_less(a@, b@) == text_less(a@.skip(i as int), b@.skip(i as int)),
        decreases left.len() - i,
    {
        if left[i] != right[i] {
            let first = left[i];
            let second = right[i];
            proof {
                assert(a@.skip(i as int)[0] == first);
                assert(b@.skip(i as int)[0] == second);
            }
            return char_before(first, second);
        }
        proof {
            assert(a@.skip(i as int).drop_first() =~= a@.skip(i + 1));
            assert(b@.skip(i as int).drop_first() =~= b@.skip(i + 1));
        }
        i = i + 1;
    }
    i == left.len() && i < right.len()
}

/// Every text of `texts` sorts strictly before those after it: sorted, with no text twice.
pub open spec fn strictly_sorted(texts: Seq<Seq<char>>) -> bool {
    forall|i: int, j: int| 0 <= i < j < texts.len() ==> text_less(texts[i], texts[j])
}

/// Two strictly sorted sequences of texts that hold the same texts are the same sequence.
pub proof fn lemma_sorted_unique(a: Seq<Seq<char>>, b: Seq<Seq<char>>)
    requires
        strictly_sorted(a),
        strictly_sorted(b),
        a.to_set() == b.to_set(),
    ensures
        a == b,
    decreases a.len(),
{
    if a.len() == 0 {
        if b.len() > 0 {
            assert(b.to_set().contains(b[0]));
            assert(!a.contains(b[0]));
        }
        assert(a =~= b);
    } else {
        assert(a.to_set().contains(a[0]));
        assert(b.contains(a[0]));
        let j = choose|j: int| 0 <= j < b.len() && b[j] == a[0];
        assert(b.to_set().contains(b[0]));
        assert(a.contains(b[0]));
        let i = choose|i: int| 0 <= i < a.len() && a[i] == b[0];
        if a[0] != b[0] {
            assert(text_less(b[0], b[j]));
            assert(text_less(a[0], a[i]));
            lemma_text_less_transitive(a[0], b[0], a[0]);
            lemma_text_less_irreflexive(a[0]);
        }
        let ra = a.drop_first();
        let rb = b.drop_first();
        assert forall|x: Seq<char>| ra.contains(x) implies rb.contains(x) by {
            let k = choose|k: int| 0 <= k < ra.len() && ra[k] == x;
            assert(a[k + 1] == x);
            assert(text_less(a[0], x));
            lemma_text_less_irreflexive(x);
            assert(a.to_set().contains(x));
            assert(b.contains(x));
            let m = choose|m: int| 0 <= m < b.len() && b[m] == x;
            assert(m != 0);
            assert(rb[m - 1] == x);
        }
        assert forall|x: Seq<char>| rb.contains(x) implies ra.contains(x) by {
            let k = choose|k: int| 0 <= k < rb.len() && rb[k] == x;
            assert(b[k + 1] == x);
            assert(text_less(b[0], x));
            lemma_text_less_irreflexive(x);
            assert(b.to_set().contains(x));
            assert(a.contains(x));
            let m = choose|m: int| 0 <= m < a.len() && a[m] == x;
            assert(m != 0);
            assert(ra[m - 1] == x);
        }
        assert(ra.to_set() =~= rb.to_set());
        lemma_sorted_unique(ra, rb);
        assert(a =~= seq![a[0]] + ra);
        assert(b =~= seq![b[0]] + rb);
    }
}

/// Inserts `text` into the strictly sorted `texts`, where the order puts it; does nothing if it
/// is there already.
pub fn insert_sorted(texts: &mut Vec<String>, text: String)
    requires
        strictly_sorted(texts_view(old(texts)@)),
    ensures
        strictly_sorted(texts_view(final(texts)@)),
        texts_view(final(texts)@).to_set() == texts_view(old(texts)@).to_set().insert(text@),
{
    let ghost before = texts_view(texts@);
    let mut at: usize = 0;
    while at < texts.len() && text_before(texts[at].as_str(), text.as_str())
        invariant
            at <= texts@.len(),
            texts_view(texts@) == before,
            strictly_sorted(before),
            forall|i: int| 0 <= i < at ==> text_less(before[i], text@),
        decreases texts.len() - at,
    {
        at = at + 1;
    }
    if at < texts.len() && texts[at] == text {
        proof {
            assert(before.to_set().insert(text@) =~= before.to_set()) by {
                assert(before[at as int] == text@);
            }
        }
        return;
    }
    proof {
        assert forall|i: int| at <= i < before.len() implies text_less(text@, before[i]) by {
            assert(!text_less(before[at as int], text@));
            if i == at {
                lemma_text_less_total(before[at as int], text@);
            } else {
                lemma_text_less_total(before[at as int], text@);
                lemma_text_less_transitive(text@, before[at as int], before[i]);
            }
        }
    }
    texts.insert(at, text);
    proof {
        let after = texts_view(texts@);
        assert(after =~= before.insert(at as int, text@));
        assert forall|i: int, j: int| 0 <= i < j < after.len() implies text_less(after[i], after[j]) by {
            if j < at {
            } else if i < at && j == at {
            } else if i < at {
                lemma_text_less_transitive(after[i], text@, after[j]);
            } else if i == at {
            } else {
            }
        }
        assert(after.to_set() =~= before.to_set().insert(text@)) by {
            assert forall|t: Seq<char>| after.to_set().contains(t) implies before.to_set().insert(
                text@,
            ).contains(t) by {
                let k = choose|k: int| 0 <= k < after.len() && after[k] == t;
                if k < at {
                    assert(before[k] == t);
                } else if k > at {
                    assert(before[k - 1] == t);
                }
            }
            assert forall|t: Seq<char>| before.to_set().insert(text@).contains(t) implies after.to_set().contains(
                t,
            ) by {
                if t == text@ {
                    assert(after[at as int] == t);
                } else {
                    let k = choose|k: int| 0 <= k < before.len() && before[k] == t;
                    if k < at {
                        assert(after[k] == t);
                    } else {
                        assert(after[k + 1] == t);
                    }
                }
            }
        }
    }
}

/// Where `text` stands in `texts`, if it does.
pub fn position_of_text(texts: &Vec<String>, text: &String) -> (position: Option<usize>)
    ensures
        match position {
            Some(at) => at < texts@.len() && texts@[at as int]@ == text@,
            None => forall|i: int| 0 <= i < texts@.len() ==> texts@[i]@ != text@,
        },
{
    let mut at: usize = 0;
    while at < texts.len()
        invariant
            at <= texts@.len(),
            forall|i: int| 0 <= i < at ==> texts@[i]@ != text@,
        decreases texts.len() - at,
    {
        if texts[at] == *text {
            return Some(at);
        }
        at = at + 1;
    }
    None
}

/// Removes `text` from the strictly sorted `texts`, if it is there.
pub fn remove_sorted(texts: &mut Vec<String>, text: &String)
    requires
        strictly_sorted(texts_view(old(texts)@)),
    ensures
        strictly_sorted(texts_view(final(texts)@)),
        texts_view(final(texts)@).to_set() == texts_view(old(texts)@).to_set().remove(text@),
{
    let ghost before = texts_view(texts@);
    match position_of_text(texts, text) {
        None => {
            proof {
                assert(before.to_set().remove(text@) =~= before.to_set());
            }
        },
        Some(at) => {
            let _ = texts.remove(at);
            proof {
                let after = texts_view(texts@);
                assert(after =~= before.remove(at as int));
                assert forall|i: int, j: int| 0 <= i < j < after.len() implies text_less(
                    after[i],
                    after[j],
                ) by {
                    if i >= at {
                        assert(after[i] == before[i + 1]);
                        assert(after[j] == before[j + 1]);
                    } else if j >= at {
                        assert(after[j] == before[j + 1]);
                    }
                }
                assert forall|k: int| 0 <= k < before.len() && k != at implies before[k] != text@ by {
                    if k > at {
                        assert(text_less(before[at as int], before[k]));
                        lemma_text_less_irreflexive(text@);
                    } else {
                        assert(text_less(before[k], before[at as int]));
                        lemma_text_less_irreflexive(text@);
                    }
                }
                assert forall|t: Seq<char>| after.to_set().contains(t) implies before.to_set().remove(
                    text@,
                ).contains(t) by {
                    let k = choose|k: int| 0 <= k < after.len() && after[k] == t;
                    if k < at {
                        assert(before[k] == t);
                    } else {
                        assert(before[k + 1] == t);
                    }
                }
                assert forall|t: Seq<char>| before.to_set().remove(text@).contains(t) implies after.to_set().contains(
                    t,
                ) by {
                    let k = choose|k: int| 0 <= k < before.len() && before[k] == t;
                    if k < at {
                        assert(after[k] == t);
                    } else {
                        assert(k != at);
                        assert(after[k - 1] == t);
                    }
                }
                assert(after.to_set() =~= before.to_set().remove(text@));
            }
        },
    }
}

} // verus!
