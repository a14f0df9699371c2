use vstd::prelude::*;

use vstd::relations::{sorted_by, total_ordering};

use crate::text::{chars_of, strings_view};

verus! {

/// `a` comes no later than `b` in the order of `String`: character by
/// character (the order of their UTF-8 bytes), a prefix first.
pub open spec fn lex_le(a: Seq<char>, b: Seq<char>) -> bool
    decreases a.len(),
{
    if a.len() == 0 {
        true
    } else if b.len() == 0 {
        false
    } else if a[0] != b[0] {
        (a[0] as int) < (b[0] as int)
    } else {
        lex_le(a.drop_first(), b.drop_first())
    }
}

/// The order of strings, as a relation.
pub open spec fn text_order() -> spec_fn(Seq<char>, Seq<char>) -> bool {
    |a: Seq<char>, b: Seq<char>| lex_le(a, b)
}

proof fn lemma_lex_reflexive(a: Seq<char>)
    ensures
        lex_le(a, a),
    decreases a.len(),
{
    if a.len() > 0 {
        lemma_lex_reflexive(a.drop_first());
    }
}

proof fn lemma_lex_antisymmetric(a: Seq<char>, b: Seq<char>)
    requires
        lex_le(a, b),
        lex_le(b, a),
    ensures
        a == b,
    decreases a.len(),
{
    if a.len() > 0 && b.len() > 0 {
        lemma_lex_antisymmetric(a.drop_first(), b.drop_first());
        assert(a =~= seq![a[0]] + a.drop_first());
        assert(b =~= seq![b[0]] + b.drop_first());
    }
}

proof fn lemma_lex_transitive(a: Seq<char>, b: Seq<char>, c: Seq<char>)
    requires
        lex_le(a, b),
        lex_le(b, c),
    ensures
        lex_le(a, c),
    decreases a.len(),
{
    if a.len() > 0 && b.len() > 0 && c.len() > 0 {
        if a[0] == b[0] && b[0] == c[0] {
            lemma_lex_transitive(a.drop_first(), b.drop_first(), c.drop_first());
        }
    }
}

proof fn lemma_lex_total(a: Seq<char>, b: Seq<char>)
    ensures
        lex_le(a, b) || lex_le(b, a),
    decreases a.len(),
{
    if a.len() > 0 && b.len() > 0 && a[0] == b[0] {
        lemma_lex_total(a.drop_first(), b.drop_first());
    }
}

/// The order of strings is a total order.
pub proof fn lemma_text_order_total()
    ensures
        total_ordering(text_order()),
{
    assert forall|a: Seq<char>| #[trigger] text_order()(a, a) by {
        lemma_lex_reflexive(a);
    }
    assert forall|a: Seq<char>, b: Seq<char>| #[trigger] text_order()(a, b) && #[trigger] text_order()(b, a) implies a
        == b by {
        lemma_lex_antisymmetric(a, b);
    }
    assert forall|a: Seq<char>, b: Seq<char>, c: Seq<char>| #[trigger] text_order()(a, b) && #[trigger] text_order()(
        b,
        c,
    ) implies text_order()(a, c) by {
        lemma_lex_transitive(a, b, c);
    }
    assert forall|a: Seq<char>, b: Seq<char>| #[trigger] text_order()(a, b) || #[trigger] text_order()(b, a) by {
        lemma_lex_total(a, b);
    }
}

/// Compares two strings in the order of `String`.
pub fn text_le(a: &str, b: &str) -> (res: bool)
    ensures
        res == lex_le(a@, b@),
{
    let ac = chars_of(a);
    let bc = chars_of(b);
    let mut i: usize = 0;
    assert(a@.skip(0) =~= a@ && b@.skip(0) =~= b@);
    while i < ac.len() && i < bc.len()
        invariant
            i <= ac@.len(),
            i <= bc@.len(),
            ac@ == a@,
            bc@ == b@,
            lex_le(a@, b@) == lex_le(a@.skip(i as int), b@.skip(i as int)),
        decreases ac@.len() - i,
    {
        let x = ac[i];
        let y = bc[i];
        assert(a@.skip(i as int)[0] == x && b@.skip(i as int)[0] == y);
        if x != y {
            return x < y;
        }
        assert(a@.skip(i as int).drop_first() =~= a@.skip(i as int + 1));
        assert(b@.skip(i as int).drop_first() =~= b@.skip(i as int + 1));
        i = i + 1;
    }
    ac.len() <= bc.len()
}

/// The strings in the order of `String`, as `sort` leaves them.
pub fn sort_texts(items: &Vec<String>) -> (res: Vec<String>)
    ensures
        strings_view(res@) == strings_view(items@).sort_by(text_order()),
{
    let ghost input = strings_view(items@);
    let mut out: Vec<String> = Vec::new();
    let mut i: usize = 0;
    proof {
        lemma_text_order_total();
        assert(strings_view(out@) =~= Seq::<Seq<char>>::empty());
        assert(input.take(0) =~= Seq::<Seq<char>>::empty());
    }
    while i < items.len()
        invariant
            i <= items@.len(),
            input == strings_view(items@),
            total_ordering(text_order()),
            sorted_by(strings_view(out@), text_order()),
            strings_view(out@).to_multiset() == input.take(i as int).to_multiset(),
        decreases items@.len() - i,
    {
        let item = items[i].clone();
        let mut p: usize = 0;
        while p < out.len() && text_le(out[p].as_str(), item.as_str())
            invariant
                p <= out@.len(),
                forall|k: int| 0 <= k < p ==> lex_le(#[trigger] out@[k]@, item@),
            decreases out@.len() - p,
        {
            p = p + 1;
        }
        let ghost before = strings_view(out@);
        proof {
            assert forall|k: int| p <= k < before.len() implies lex_le(item@, #[trigger] before[k]) by {
                assert(before[p as int] == out@[p as int]@);
                assert(!lex_le(before[p as int], item@));
                lemma_lex_total(before[p as int], item@);
                assert(text_order()(before[p as int], before[k]));
                lemma_lex_transitive(item@, before[p as int], before[k]);
            }
            assert forall|k: int| 0 <= k < p implies lex_le(#[trigger] before[k], item@) by {
                assert(before[k] == out@[k]@);
            }
        }
        out.insert(p, item);
        proof {
            let after = strings_view(out@);
            assert(after =~= before.insert(p as int, item@));
            assert(items@[i as int]@ == input[i as int]);
            assert(input.take(i as int + 1) =~= input.take(i as int).push(input[i as int]));
            vstd::seq_lib::to_multiset_build(input.take(i as int), input[i as int]);
            vstd::seq_lib::to_multiset_insert(before, p as int, item@);
            assert forall|a: int, b: int| 0 <= a < b < after.len() implies #[trigger] text_order()(
                after[a],
                after[b],
            ) by {
                if b < p {
                    assert(after[a] == before[a] && after[b] == before[b]);
                } else if b == p {
                    assert(after[a] == before[a] && after[b] == item@);
                } else if a < p {
                    assert(after[a] == before[a] && after[b] == before[b - 1]);
                    assert(lex_le(before[a], item@));
                    assert(lex_le(item@, before[b - 1]));
                    lemma_lex_transitive(before[a], item@, before[b - 1]);
                } else if a == p {
                    assert(after[a] == item@ && after[b] == before[b - 1]);
                } else {
                    assert(after[a] == before[a - 1] && after[b] == before[b - 1]);
                }
            }
        }
        i = i + 1;
    }
    proof {
        assert(input.take(items@.len() as int) =~= input);
        input.lemma_sort_by_ensures(text_order());
        vstd::seq_lib::lemma_sorted_unique(strings_view(out@), input.sort_by(text_order()), text_order());
    }
    out
}

} // verus!
