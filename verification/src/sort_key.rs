//! Sort keys made of numbers and texts, compared part by part, and a stable
//! sort of positions by such keys.
use vstd::prelude::*;
use crate::text::{
    lemma_seq_lt_asymmetric, lemma_seq_lt_irreflexive, lemma_seq_lt_total, lemma_seq_lt_transitive, seq_lt, str_lt,
    str_eq,
};

verus! {

/// One part of a sort key: a number or a text.
pub enum KeyPart {
    Num(u128),
    Text(String),
}

/// A key part as plain values: whether it is a text, its number, its text.
pub type PartView = (bool, u128, Seq<char>);

impl View for KeyPart {
    type V = PartView;

    open spec fn view(&self) -> PartView {
        match self {
            KeyPart::Num(n) => (false, *n, Seq::empty()),
            KeyPart::Text(s) => (true, 0, s@),
        }
    }
}

/// The order of key parts: numbers by value, texts in code point order,
/// and any number before any text.
pub open spec fn part_lt(a: PartView, b: PartView) -> bool {
    if !a.0 && !b.0 {
        a.1 < b.1
    } else if a.0 && b.0 {
        seq_lt(a.2, b.2)
    } else {
        !a.0
    }
}

/// Key parts that compare equal are the same.
pub open spec fn part_eq(a: PartView, b: PartView) -> bool {
    a.0 == b.0 && (if a.0 { a.2 == b.2 } else { a.1 == b.1 })
}

/// Lexicographic order on keys from position `i` on: the first differing
/// part decides, and a key that is a prefix of another comes first.
pub open spec fn key_lt_from(a: Seq<PartView>, b: Seq<PartView>, i: int) -> bool
    decreases a.len() - i,
{
    if i < 0 {
        false
    } else if i >= a.len() {
        i < b.len()
    } else if i >= b.len() {
        false
    } else if part_lt(a[i], b[i]) {
        true
    } else if part_lt(b[i], a[i]) {
        false
    } else {
        key_lt_from(a, b, i + 1)
    }
}

/// `a` sorts strictly before `b`.
pub open spec fn key_lt(a: Seq<PartView>, b: Seq<PartView>) -> bool {
    key_lt_from(a, b, 0)
}

proof fn lemma_part_order(a: PartView, b: PartView, c: PartView)
    ensures
        part_lt(a, b) ==> !part_lt(b, a),
        !part_lt(a, a),
        part_lt(a, b) && part_lt(b, c) ==> part_lt(a, c),
        !part_lt(a, b) && !part_lt(b, a) ==> part_eq(a, b),
{
    if a.0 && b.0 {
        if seq_lt(a.2, b.2) {
            lemma_seq_lt_asymmetric(a.2, b.2);
        }
        if !seq_lt(a.2, b.2) && !seq_lt(b.2, a.2) && a.2 != b.2 {
            lemma_seq_lt_total(a.2, b.2);
        }
        if c.0 && seq_lt(a.2, b.2) && seq_lt(b.2, c.2) {
            lemma_seq_lt_transitive(a.2, b.2, c.2);
        }
    }
    if a.0 {
        lemma_seq_lt_irreflexive(a.2);
    }
}

proof fn lemma_key_lt_from_asym(a: Seq<PartView>, b: Seq<PartView>, i: int)
    requires
        0 <= i,
        key_lt_from(a, b, i),
    ensures
        !key_lt_from(b, a, i),
    decreases a.len() - i,
{
    if i < a.len() && i < b.len() {
        lemma_part_order(a[i], b[i], b[i]);
        if !part_lt(a[i], b[i]) && !part_lt(b[i], a[i]) {
            lemma_key_lt_from_asym(a, b, i + 1);
        }
    }
}

proof fn lemma_key_lt_from_trans(a: Seq<PartView>, b: Seq<PartView>, c: Seq<PartView>, i: int)
    requires
        0 <= i,
        key_lt_from(a, b, i),
        key_lt_from(b, c, i),
    ensures
        key_lt_from(a, c, i),
    decreases a.len() - i,
{
    if i < a.len() && i < b.len() && i < c.len() {
        lemma_part_order(a[i], b[i], c[i]);
        lemma_part_order(b[i], c[i], a[i]);
        lemma_part_order(a[i], c[i], b[i]);
        lemma_part_order(c[i], a[i], b[i]);
        lemma_part_order(b[i], a[i], c[i]);
        lemma_part_order(c[i], b[i], a[i]);
        if !part_lt(a[i], b[i]) && !part_lt(b[i], a[i]) && !part_lt(b[i], c[i]) && !part_lt(c[i], b[i]) {
            lemma_key_lt_from_trans(a, b, c, i + 1);
        }
    }
}

proof fn lemma_key_lt_from_total(a: Seq<PartView>, b: Seq<PartView>, i: int)
    requires
        0 <= i <= a.len(),
        i <= b.len(),
        !key_lt_from(a, b, i),
        !key_lt_from(b, a, i),
    ensures
        a.len() == b.len(),
        forall|k: int| i <= k < a.len() ==> part_eq(a[k], b[k]),
    decreases a.len() - i,
{
    if i < a.len() && i < b.len() {
        lemma_part_order(a[i], b[i], b[i]);
        lemma_key_lt_from_total(a, b, i + 1);
    }
}

/// Law: the order of keys is a strict order (no key before itself, never
/// both ways, transitive), and two keys ordered neither way agree part by
/// part.
pub proof fn law_key_order(a: Seq<PartView>, b: Seq<PartView>, c: Seq<PartView>)
    ensures
        !key_lt(a, a),
        key_lt(a, b) ==> !key_lt(b, a),
        key_lt(a, b) && key_lt(b, c) ==> key_lt(a, c),
        !key_lt(a, b) && !key_lt(b, a) ==> a.len() == b.len() && forall|k: int| 0 <= k < a.len() ==> part_eq(a[k], b[k]),
{
    if key_lt(a, a) {
        lemma_key_lt_from_asym(a, a, 0);
    }
    if key_lt(a, b) {
        lemma_key_lt_from_asym(a, b, 0);
    }
    if key_lt(a, b) && key_lt(b, c) {
        lemma_key_lt_from_trans(a, b, c, 0);
    }
    if !key_lt(a, b) && !key_lt(b, a) {
        lemma_key_lt_from_total(a, b, 0);
    }
}

/// The plain values of a key.
pub open spec fn key_view(k: Seq<KeyPart>) -> Seq<PartView> {
    k.map_values(|p: KeyPart| p@)
}

fn part_lt_exec(a: &KeyPart, b: &KeyPart) -> (r: bool)
    ensures
        r == part_lt(a@, b@),
{
    match (a, b) {
        (KeyPart::Num(x), KeyPart::Num(y)) => *x < *y,
        (KeyPart::Text(x), KeyPart::Text(y)) => str_lt(x.as_str(), y.as_str()),
        (KeyPart::Num(_), KeyPart::Text(_)) => true,
        (KeyPart::Text(_), KeyPart::Num(_)) => false,
    }
}

/// Whether key `a` sorts strictly before key `b`.
pub fn key_less(a: &Vec<KeyPart>, b: &Vec<KeyPart>) -> (r: bool)
    ensures
        r == key_lt(key_view(a@), key_view(b@)),
{
    let ghost av = key_view(a@);
    let ghost bv = key_view(b@);
    let mut i: usize = 0;
    while i < a.len() && i < b.len()
        invariant
            av == key_view(a@),
            bv == key_view(b@),
            i <= a@.len(),
            i <= b@.len(),
            key_lt(av, bv) == key_lt_from(av, bv, i as int),
        decreases a@.len() - i,
    {
        if part_lt_exec(&a[i], &b[i]) {
            return true;
        }
        if part_lt_exec(&b[i], &a[i]) {
            return false;
        }
        i = i + 1;
    }
    i >= a.len() && i < b.len()
}

/// Whether `order` lists each of the positions `0..n` exactly once.
pub open spec fn is_permutation(order: Seq<usize>, n: nat) -> bool {
    &&& order.len() == n
    &&& forall|i: int| 0 <= i < order.len() ==> #[trigger] order[i] < n
    &&& forall|i: int, j: int| 0 <= i < j < order.len() ==> order[i] != order[j]
}

/// Whether the positions in `order` go up by key: no later position has a
/// key strictly before an earlier one.
pub open spec fn sorted_by_keys(order: Seq<usize>, keys: Seq<Seq<PartView>>) -> bool {
    forall|i: int, j: int| 0 <= i < j < order.len() ==> !key_lt(keys[order[j] as int], keys[order[i] as int])
}

/// The plain values of a list of keys.
pub open spec fn keys_view(keys: Seq<Vec<KeyPart>>) -> Seq<Seq<PartView>> {
    keys.map_values(|k: Vec<KeyPart>| key_view(k@))
}

/// The positions `0..keys.len()` ordered by key; positions with equal keys
/// keep their order.
pub fn sort_by_keys(keys: &Vec<Vec<KeyPart>>) -> (order: Vec<usize>)
    ensures
        is_permutation(order@, keys@.len()),
        sorted_by_keys(order@, keys_view(keys@)),
{
    let ghost kv = keys_view(keys@);
    let mut order: Vec<usize> = Vec::new();
    let mut n: usize = 0;
    while n < keys.len()
        invariant
            kv == keys_view(keys@),
            n <= keys@.len(),
            order@.len() == n,
            forall|i: int| 0 <= i < order@.len() ==> #[trigger] order@[i] < n,
            forall|i: int, j: int| 0 <= i < j < order@.len() ==> order@[i] != order@[j],
            sorted_by_keys(order@, kv),
        decreases keys@.len() - n,
    {
        let mut pos: usize = order.len();
        while pos > 0 && key_less(&keys[n], &keys[order[pos - 1]])
            invariant
                kv == keys_view(keys@),
                n < keys@.len(),
                pos <= order@.len(),
                order@.len() == n,
                forall|i: int| 0 <= i < order@.len() ==> #[trigger] order@[i] < n,
                forall|i: int| pos <= i < order@.len() ==> key_lt(kv[n as int], #[trigger] kv[order@[i] as int]),
            decreases pos,
        {
            pos = pos - 1;
        }
        proof {
            assert forall|i: int| 0 <= i < pos implies !key_lt(kv[n as int], #[trigger] kv[order@[i] as int]) by {
                if pos > 0 {
                    let last = order@[pos - 1];
                    assert(!key_lt(kv[n as int], kv[last as int]));
                    if i < pos - 1 {
                        let oi = order@[i];
                        assert(!key_lt(kv[last as int], kv[oi as int]));
                        if key_lt(kv[n as int], kv[oi as int]) {
                            if key_lt(kv[last as int], kv[n as int]) {
                                law_key_order(kv[last as int], kv[n as int], kv[oi as int]);
                            } else {
                                lemma_key_equal_left(kv[n as int], kv[last as int], kv[oi as int]);
                            }
                        }
                    }
                }
            }
        }
        let ghost before = order@;
        order.insert(pos, n);
        proof {
            assert forall|i: int, j: int| 0 <= i < j < order@.len() implies !key_lt(kv[order@[j] as int], kv[order@[i] as int]) by {
                if j < pos {
                    assert(order@[i] == before[i] && order@[j] == before[j]);
                } else if j == pos {
                    assert(order@[j] == n);
                    assert(order@[i] == before[i]);
                } else if i == pos {
                    assert(order@[j] == before[j - 1]);
                    law_key_order(kv[n as int], kv[before[j - 1] as int], kv[n as int]);
                } else if i < pos {
                    assert(order@[i] == before[i] && order@[j] == before[j - 1]);
                } else {
                    assert(order@[i] == before[i - 1] && order@[j] == before[j - 1]);
                }
            }
            assert forall|i: int| 0 <= i < order@.len() implies #[trigger] order@[i] < n + 1 by {
                if i < pos {
                    assert(order@[i] == before[i]);
                } else if i > pos {
                    assert(order@[i] == before[i - 1]);
                }
            }
            assert forall|i: int, j: int| 0 <= i < j < order@.len() implies order@[i] != order@[j] by {
                if i < pos && j < pos {
                    assert(order@[i] == before[i] && order@[j] == before[j]);
                } else if i < pos && j == pos {
                    assert(order@[i] == before[i]);
                } else if i < pos {
                    assert(order@[i] == before[i] && order@[j] == before[j - 1]);
                } else if i == pos {
                    assert(order@[j] == before[j - 1]);
                } else {
                    assert(order@[i] == before[i - 1] && order@[j] == before[j - 1]);
                }
            }
        }
        n = n + 1;
    }
    order
}

/// A key that agrees part by part with `b` sorts before `c` exactly when
/// `b` does.
proof fn lemma_key_equal_left(a: Seq<PartView>, b: Seq<PartView>, c: Seq<PartView>)
    requires
        !key_lt(a, b),
        !key_lt(b, a),
        key_lt(a, c),
    ensures
        key_lt(b, c),
{
    lemma_key_lt_from_total(a, b, 0);
    lemma_key_equal_left_from(a, b, c, 0);
}

proof fn lemma_key_equal_left_from(a: Seq<PartView>, b: Seq<PartView>, c: Seq<PartView>, i: int)
    requires
        0 <= i,
        a.len() == b.len(),
        forall|k: int| 0 <= k < a.len() ==> part_eq(a[k], b[k]),
        key_lt_from(a, c, i),
    ensures
        key_lt_from(b, c, i),
    decreases a.len() - i,
{
    if i < a.len() && i < c.len() {
        assert(part_eq(a[i], b[i]));
        lemma_part_order(a[i], c[i], b[i]);
        lemma_part_order(b[i], c[i], a[i]);
        if a[i].0 {
            assert(a[i].2 == b[i].2);
        }
        if !part_lt(a[i], c[i]) && !part_lt(c[i], a[i]) {
            lemma_key_equal_left_from(a, b, c, i + 1);
        }
    }
}

} // verus!
