//! Names listed in a report: sorted, and narrowed to the pressed buttons.

use vstd::prelude::*;
use crate::text::chars_of;

verus! {

broadcast use vstd::seq_lib::to_multiset_insert;

/// `a` comes no later than `b` in character order: compared character by character, a
/// prefix first.
pub open spec fn text_le(a: Seq<char>, b: Seq<char>) -> bool
    decreases a.len(),
{
    if a.len() == 0 {
        true
    } else if b.len() == 0 {
        false
    } else if a[0] != b[0] {
        (a[0] as int) < (b[0] as int)
    } else {
        text_le(a.drop_first(), b.drop_first())
    }
}

/// Of two texts, one comes no later than the other.
pub proof fn lemma_text_le_total(a: Seq<char>, b: Seq<char>)
    ensures
        text_le(a, b) || text_le(b, a),
    decreases a.len(),
{
    if a.len() > 0 && b.len() > 0 {
        if a[0] == b[0] {
            lemma_text_le_total(a.drop_first(), b.drop_first());
        } else {
            assert(a[0] as int != b[0] as int);
        }
    }
}

/// Every text comes no later than itself.
pub proof fn lemma_text_le_reflexive(a: Seq<char>)
    ensures
        text_le(a, a),
    decreases a.len(),
{
    if a.len() > 0 {
        lemma_text_le_reflexive(a.drop_first());
    }
}

/// Character order is transitive.
pub proof fn lemma_text_le_transitive(a: Seq<char>, b: Seq<char>, c: Seq<char>)
    requires
        text_le(a, b),
        text_le(b, c),
    ensures
        text_le(a, c),
    decreases a.len(),
{
    if a.len() > 0 && b.len() > 0 && c.len() > 0 && a[0] == b[0] && b[0] == c[0] {
        lemma_text_le_transitive(a.drop_first(), b.drop_first(), c.drop_first());
    }
}

/// Texts that come no later than each other are equal.
pub proof fn lemma_text_le_antisymmetric(a: Seq<char>, b: Seq<char>)
    requires
        text_le(a, b),
        text_le(b, a),
    ensures
        a == b,
    decreases a.len(),
{
    if a.len() > 0 && b.len() > 0 {
        lemma_text_le_antisymmetric(a.drop_first(), b.drop_first());
        assert(a =~= seq![a[0]] + a.drop_first());
        assert(b =~= seq![b[0]] + b.drop_first());
    }
}

/// Whether `a` comes no later than `b` in character order.
pub fn text_at_most(a: &str, b: &str) -> (le: bool)
    ensures
        le == text_le(a@, b@),
{
    let x = chars_of(a);
    let y = chars_of(b);
    let mut i: usize = 0;
    assert(x@.skip(0) =~= x@ && y@.skip(0) =~= y@);
    loop
        invariant
            x@ == a@,
            y@ == b@,
            i <= x@.len(),
            i <= y@.len(),
            text_le(a@, b@) == text_le(x@.skip(i as int), y@.skip(i as int)),
        decreases x@.len() - i,
    {
        let ghost rest_a = x@.skip(i as int);
        let ghost rest_b = y@.skip(i as int);
        if i == x.len() {
            return true;
        }
        if i == y.len() {
            return false;
        }
        assert(rest_a[0] == x@[i as int] && rest_b[0] == y@[i as int]);
        if x[i] != y[i] {
            let earlier = x[i] < y[i];
            assert(earlier == ((x@[i as int] as int) < (y@[i as int] as int)));
            return earlier;
        }
        assert(rest_a.drop_first() =~= x@.skip(i + 1));
        assert(rest_b.drop_first() =~= y@.skip(i + 1));
        i = i + 1;
    }
}

/// The texts of strings, in order.
pub open spec fn name_texts(names: Seq<String>) -> Seq<Seq<char>> {
    names.map_values(|name: String| name@)
}

/// The texts are in character order.
pub open spec fn in_text_order(texts: Seq<Seq<char>>) -> bool {
    forall|i: int, j: int| 0 <= i < j < texts.len() ==> text_le(texts[i], texts[j])
}

/// The names, sorted into character order.
pub fn sorted_names(names: &[String]) -> (sorted: Vec<String>)
    ensures
        in_text_order(name_texts(sorted@)),
        name_texts(sorted@).to_multiset() == name_texts(names@).to_multiset(),
{
    let mut sorted: Vec<String> = Vec::new();
    let mut i: usize = 0;
    assert(name_texts(sorted@) =~= name_texts(names@.take(0)));
    while i < names.len()
        invariant
            i <= names@.len(),
            in_text_order(name_texts(sorted@)),
            name_texts(sorted@).to_multiset() == name_texts(names@.take(i as int)).to_multiset(),
        decreases names@.len() - i,
    {
        let name = &names[i];
        let mut k: usize = 0;
        while k < sorted.len() && text_at_most(sorted[k].as_str(), name.as_str())
            invariant
                k <= sorted@.len(),
                forall|j: int| 0 <= j < k ==> text_le(sorted@[j]@, name@),
            decreases sorted@.len() - k,
        {
            k = k + 1;
        }
        let ghost before = name_texts(sorted@);
        proof {
            if k < sorted@.len() {
                lemma_text_le_total(sorted@[k as int]@, name@);
            }
        }
        sorted.insert(k, name.clone());
        proof {
            let after = name_texts(sorted@);
            assert(after =~= before.insert(k as int, name@));
            assert forall|p: int, q: int| 0 <= p < q < after.len() implies text_le(
                after[p],
                after[q],
            ) by {
                if q == k {
                    assert(text_le(before[p], name@));
                } else if p == k {
                    assert(text_le(name@, before[k as int]));
                    if q - 1 > k {
                        lemma_text_le_transitive(name@, before[k as int], before[q - 1]);
                    }
                } else if p < k && q > k {
                    assert(text_le(before[p], name@));
                    assert(text_le(before[p], before[q - 1]));
                } else if p > k {
                    assert(text_le(before[p - 1], before[q - 1]));
                }
            }
            assert(name_texts(names@.take(i + 1)) =~= name_texts(names@.take(i as int)).push(
                name@,
            ));
            vstd::seq_lib::to_multiset_insert(before, k as int, name@);
            before.to_multiset_ensures();
            name_texts(names@.take(i as int)).to_multiset_ensures();
        }
        i = i + 1;
    }
    assert(names@.take(names@.len() as int) =~= names@);
    sorted
}

/// The names of the buttons that are pressed, in the order given.
pub open spec fn pressed_texts(buttons: Seq<(String, bool)>) -> Seq<Seq<char>> {
    buttons.filter(|button: (String, bool)| button.1).map_values(
        |button: (String, bool)| button.0@,
    )
}

/// The names of all buttons, in the order given.
pub open spec fn button_texts(buttons: Seq<(String, bool)>) -> Seq<Seq<char>> {
    buttons.map_values(|button: (String, bool)| button.0@)
}

/// The button lists of a report from each seen button's name and whether it is pressed: all
/// seen buttons and the pressed ones, each sorted into character order.
pub fn button_name_lists(buttons: &[(String, bool)]) -> (lists: (Vec<String>, Vec<String>))
    ensures
        in_text_order(name_texts(lists.0@)),
        name_texts(lists.0@).to_multiset() == button_texts(buttons@).to_multiset(),
        in_text_order(name_texts(lists.1@)),
        name_texts(lists.1@).to_multiset() == pressed_texts(buttons@).to_multiset(),
{
    let ghost keep = |button: (String, bool)| button.1;
    let mut seen: Vec<String> = Vec::new();
    let mut pressed: Vec<String> = Vec::new();
    let mut i: usize = 0;
    assert(name_texts(seen@) =~= button_texts(buttons@.take(0)));
    assert(buttons@.take(0).filter(keep) =~= Seq::<(String, bool)>::empty()) by {
        reveal(Seq::filter);
    }
    assert(name_texts(pressed@) =~= pressed_texts(buttons@.take(0)));
    while i < buttons.len()
        invariant
            i <= buttons@.len(),
            keep == (|button: (String, bool)| button.1),
            name_texts(seen@) == button_texts(buttons@.take(i as int)),
            name_texts(pressed@) == pressed_texts(buttons@.take(i as int)),
        decreases buttons@.len() - i,
    {
        let ghost prefix = buttons@.take(i as int);
        let ghost next = buttons@.take(i + 1);
        proof {
            assert(next.drop_last() =~= prefix);
            reveal(Seq::filter);
        }
        let ghost old_seen = name_texts(seen@);
        let name = buttons[i].0.clone();
        seen.push(name);
        assert(name_texts(seen@) =~= old_seen.push(buttons@[i as int].0@));
        assert(button_texts(next) =~= button_texts(prefix).push(buttons@[i as int].0@));
        if buttons[i].1 {
            let ghost before = name_texts(pressed@);
            let name = buttons[i].0.clone();
            pressed.push(name);
            assert(next.filter(keep) == prefix.filter(keep).push(buttons@[i as int]));
            assert(name_texts(pressed@) =~= before.push(buttons@[i as int].0@));
            assert(pressed_texts(next) =~= pressed_texts(prefix).push(buttons@[i as int].0@));
        } else {
            assert(next.filter(keep) == prefix.filter(keep));
        }
        i = i + 1;
    }
    assert(buttons@.take(buttons@.len() as int) =~= buttons@);
    (sorted_names(seen.as_slice()), sorted_names(pressed.as_slice()))
}

/// Sorting leaves nothing open: two lists in character order that hold the same names are
/// the same list.
pub proof fn law_sorted_names_are_determined(a: Seq<Seq<char>>, b: Seq<Seq<char>>)
    requires
        in_text_order(a),
        in_text_order(b),
        a.to_multiset() == b.to_multiset(),
    ensures
        a == b,
    decreases a.len(),
{
    broadcast use vstd::seq_lib::group_to_multiset_ensures;
    broadcast use vstd::multiset::group_multiset_axioms;

    assert(a.len() == b.len()) by {
        assert(a.len() == a.to_multiset().len());
        assert(b.len() == b.to_multiset().len());
    }
    if a.len() > 0 {
        let x = a[0];
        let y = b[0];
        assert(a.to_multiset().count(x) > 0) by {
            assert(a.contains(x));
        }
        assert(b.contains(x));
        let j = choose|j: int| 0 <= j < b.len() && b[j] == x;
        assert(text_le(y, x)) by {
            if j > 0 {
                assert(text_le(b[0], b[j]));
            } else {
                lemma_text_le_reflexive(x);
            }
        }
        assert(b.to_multiset().count(y) > 0) by {
            assert(b.contains(y));
        }
        assert(a.contains(y));
        let k = choose|k: int| 0 <= k < a.len() && a[k] == y;
        assert(text_le(x, y)) by {
            if k > 0 {
                assert(text_le(a[0], a[k]));
            } else {
                lemma_text_le_reflexive(x);
            }
        }
        lemma_text_le_antisymmetric(x, y);
        let ra = a.remove(0);
        let rb = b.remove(0);
        assert(ra.to_multiset() == a.to_multiset().remove(x));
        assert(rb.to_multiset() == b.to_multiset().remove(y));
        assert(in_text_order(ra)) by {
            assert forall|p: int, q: int| 0 <= p < q < ra.len() implies text_le(ra[p], ra[q]) by {
                assert(ra[p] == a[p + 1] && ra[q] == a[q + 1]);
            }
        }
        assert(in_text_order(rb)) by {
            assert forall|p: int, q: int| 0 <= p < q < rb.len() implies text_le(rb[p], rb[q]) by {
                assert(rb[p] == b[p + 1] && rb[q] == b[q + 1]);
            }
        }
        law_sorted_names_are_determined(ra, rb);
        assert(a =~= seq![x] + ra);
        assert(b =~= seq![y] + rb);
    }
}

} // verus!
