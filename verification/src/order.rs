//! The order of texts.
use vstd::prelude::*;

use crate::text::chars_of;

verus! {

/// `a` stands before `b` in the order of their characters, or is the same.
pub open spec fn at_or_before(a: Seq<char>, b: Seq<char>) -> bool
    decreases a.len(),
{
    if a.len() == 0 {
        true
    } else if b.len() == 0 {
        false
    } else if a[0] != b[0] {
        a[0] < b[0]
    } else {
        at_or_before(a.skip(1), b.skip(1))
    }
}

/// Of two texts one stands before the other.
proof fn lemma_ordered(a: Seq<char>, b: Seq<char>)
    ensures
        at_or_before(a, b) || at_or_before(b, a),
    decreases a.len(),
{
    if a.len() > 0 && b.len() > 0 && a[0] == b[0] {
        lemma_ordered(a.skip(1), b.skip(1));
    }
}

/// What stands before a text stands before what that text stands before.
proof fn lemma_order_chains(a: Seq<char>, b: Seq<char>, c: Seq<char>)
    requires
        at_or_before(a, b),
        at_or_before(b, c),
    ensures
        at_or_before(a, c),
    decreases a.len(),
{
    if a.len() > 0 && b.len() > 0 && c.len() > 0 && a[0] == b[0] && b[0] == c[0] {
        lemma_order_chains(a.skip(1), b.skip(1), c.skip(1));
    }
}

/// Whether `a` stands before `b`, or is the same.
pub fn not_behind(a: &str, b: &str) -> (r: bool)
    ensures
        r == at_or_before(a@, b@),
{
    let first = chars_of(a);
    let second = chars_of(b);
    let mut i: usize = 0;
    proof {
        assert(a@.skip(0) =~= a@);
        assert(b@.skip(0) =~= b@);
    }
    while i < first.len() && i < second.len() && first[i] == second[i]
        invariant
            first@ == a@,
            second@ == b@,
            i <= first.len(),
            i <= second.len(),
            at_or_before(a@, b@) == at_or_before(a@.skip(i as int), b@.skip(i as int)),
        decreases first.len() - i,
    {
        proof {
            assert(a@.skip(i as int).skip(1) =~= a@.skip(i + 1));
            assert(b@.skip(i as int).skip(1) =~= b@.skip(i + 1));
        }
        i = i + 1;
    }
    if i == first.len() {
        true
    } else if i == second.len() {
        false
    } else {
        first[i] < second[i]
    }
}

/// Texts in order.
pub open spec fn in_order(texts: Seq<Seq<char>>) -> bool {
    forall|i: int, j: int|
        0 <= i <= j < texts.len() ==> at_or_before(#[trigger] texts[i], #[trigger] texts[j])
}

/// The texts in order.
pub fn sorted(texts: &Vec<String>) -> (r: Vec<String>)
    ensures
        in_order(crate::text::views(r@)),
        crate::text::views(r@).to_multiset() == crate::text::views(texts@).to_multiset(),
{
    let mut out: Vec<String> = Vec::new();
    let mut i: usize = 0;
    let ghost all = crate::text::views(texts@);
    proof {
        assert(crate::text::views(out@) =~= all.take(0));
    }
    while i < texts.len()
        invariant
            all == crate::text::views(texts@),
            i <= texts.len(),
            out.len() == i,
            in_order(crate::text::views(out@)),
            crate::text::views(out@).to_multiset() == all.take(i as int).to_multiset(),
        decreases texts.len() - i,
    {
        let text = texts[i].as_str();
        let ghost before = crate::text::views(out@);
        let mut place: usize = 0;
        while place < out.len() && not_behind(out[place].as_str(), text)
            invariant
                before == crate::text::views(out@),
                place <= out.len(),
                forall|j: int| 0 <= j < place ==> at_or_before(#[trigger] before[j], text@),
            decreases out.len() - place,
        {
            place = place + 1;
        }
        proof {
            if place < out.len() {
                lemma_ordered(before[place as int], text@);
            }
        }
        out.insert(place, text.to_owned());
        let ghost after = crate::text::views(out@);
        proof {
            assert(after =~= before.insert(place as int, text@));
            vstd::seq_lib::to_multiset_insert(before, place as int, text@);
            vstd::seq_lib::to_multiset_build(all.take(i as int), text@);
            assert(all.take(i + 1) =~= all.take(i as int).push(text@));
            lemma_ordered(text@, text@);
            assert forall|a: int, b: int| 0 <= a <= b < after.len() implies at_or_before(
                #[trigger] after[a],
                #[trigger] after[b],
            ) by {
                if a < place && b < place {
                    assert(at_or_before(before[a], before[b]));
                } else if a < place && b == place {
                    assert(at_or_before(before[a], text@));
                } else if a < place {
                    assert(at_or_before(before[a], before[b - 1]));
                } else if a == place && b > place {
                    assert(at_or_before(text@, before[place as int]));
                    assert(at_or_before(before[place as int], before[b - 1]));
                    lemma_order_chains(text@, before[place as int], before[b - 1]);
                } else if a > place {
                    assert(at_or_before(before[a - 1], before[b - 1]));
                }
            }
        }
        i = i + 1;
    }
    proof {
        assert(all.take(i as int) =~= all);
    }
    out
}

/// The order of texts is one: of two texts one stands at or before the other, both do only where they
/// are the same, and the empty text stands before all.
pub proof fn lemma_order(a: Seq<char>, b: Seq<char>)
    ensures
        at_or_before(a, b) || at_or_before(b, a),
        at_or_before(a, b) && at_or_before(b, a) ==> a == b,
        at_or_before(Seq::empty(), b),
        at_or_before(a, a + b),
        a.len() > 0 && b.len() > 0 && a[0] < b[0] ==> at_or_before(a, b) && !at_or_before(b, a),
    decreases a.len(),
{
    if a.len() > 0 {
        assert((a + b).skip(1) =~= a.skip(1) + b);
        lemma_order(a.skip(1), b);
        if b.len() > 0 && a[0] == b[0] {
            lemma_order(a.skip(1), b.skip(1));
            if a.skip(1) == b.skip(1) {
                assert(a =~= seq![a[0]] + a.skip(1));
                assert(b =~= seq![b[0]] + b.skip(1));
            }
        }
    } else if b.len() == 0 {
        assert(a =~= b);
    }
}

} // verus!
