//! The order of texts: by their bytes, as strings are ordered.

use crate::text::str_eq;
use vstd::prelude::*;
use vstd::string::StringSliceAdditionalSpecFns;
use vstd::utf8::encode_utf8;

verus! {

/// Whether a run of bytes stands before another: at the first place where
/// they differ the smaller byte decides, and a run stands before every
/// longer run that begins with it.
pub open spec fn bytes_lt(a: Seq<u8>, b: Seq<u8>) -> bool
    decreases a.len(),
{
    if b.len() == 0 {
        false
    } else if a.len() == 0 {
        true
    } else if a[0] != b[0] {
        a[0] < b[0]
    } else {
        bytes_lt(a.skip(1), b.skip(1))
    }
}

/// Whether a text stands before another, by the bytes of its encoding.
pub open spec fn text_lt(a: Seq<char>, b: Seq<char>) -> bool {
    bytes_lt(encode_utf8(a), encode_utf8(b))
}

/// No run of bytes stands before itself.
pub proof fn lemma_bytes_lt_irreflexive(a: Seq<u8>)
    ensures
        !bytes_lt(a, a),
    decreases a.len(),
{
    if a.len() > 0 {
        lemma_bytes_lt_irreflexive(a.skip(1));
    }
}

/// Of two different runs of bytes one stands before the other.
pub proof fn lemma_bytes_lt_total(a: Seq<u8>, b: Seq<u8>)
    requires
        a != b,
    ensures
        bytes_lt(a, b) || bytes_lt(b, a),
    decreases a.len(),
{
    if a.len() > 0 && b.len() > 0 && a[0] == b[0] {
        if a.skip(1) == b.skip(1) {
            assert(a =~= seq![a[0]] + a.skip(1));
            assert(b =~= seq![b[0]] + b.skip(1));
        }
        lemma_bytes_lt_total(a.skip(1), b.skip(1));
    } else if a.len() == 0 && b.len() == 0 {
        assert(a =~= b);
    }
}

/// What stands before a run that stands before a third stands before the
/// third.
pub proof fn lemma_bytes_lt_transitive(a: Seq<u8>, b: Seq<u8>, c: Seq<u8>)
    requires
        bytes_lt(a, b),
        bytes_lt(b, c),
    ensures
        bytes_lt(a, c),
    decreases a.len(),
{
    if a.len() > 0 && a[0] == b[0] && b[0] == c[0] {
        lemma_bytes_lt_transitive(a.skip(1), b.skip(1), c.skip(1));
    }
}

/// The order of texts is a strict total order.
pub proof fn lemma_text_lt_order(a: Seq<char>, b: Seq<char>, c: Seq<char>)
    ensures
        !text_lt(a, a),
        a != b ==> text_lt(a, b) || text_lt(b, a),
        text_lt(a, b) && text_lt(b, c) ==> text_lt(a, c),
{
    lemma_bytes_lt_irreflexive(encode_utf8(a));
    if a != b {
        vstd::utf8::encode_utf8_decode_utf8(a);
        vstd::utf8::encode_utf8_decode_utf8(b);
        lemma_bytes_lt_total(encode_utf8(a), encode_utf8(b));
    }
    if text_lt(a, b) && text_lt(b, c) {
        lemma_bytes_lt_transitive(encode_utf8(a), encode_utf8(b), encode_utf8(c));
    }
}

/// Whether a text stands before another.
pub fn str_lt(a: &str, b: &str) -> (r: bool)
    ensures
        r == text_lt(a@, b@),
{
    let x = a.as_bytes();
    let y = b.as_bytes();
    let mut i: usize = 0;
    assert(x@.skip(0) =~= x@);
    assert(y@.skip(0) =~= y@);
    while i < x.len() && i < y.len()
        invariant
            i <= x.len(),
            i <= y.len(),
            x@ == a.spec_bytes(),
            y@ == b.spec_bytes(),
            bytes_lt(x@, y@) == bytes_lt(x@.skip(i as int), y@.skip(i as int)),
        decreases x.len() - i,
    {
        assert(x@.skip(i as int)[0] == x@[i as int]);
        assert(y@.skip(i as int)[0] == y@[i as int]);
        if x[i] != y[i] {
            return x[i] < y[i];
        }
        assert(x@.skip(i as int).skip(1) =~= x@.skip(i + 1));
        assert(y@.skip(i as int).skip(1) =~= y@.skip(i + 1));
        i += 1;
    }
    i < y.len()
}

/// Each text stands before all that follow it.
pub open spec fn strictly_sorted(names: Seq<Seq<char>>) -> bool {
    forall|i: int, j: int| 0 <= i < j < names.len() ==> text_lt(#[trigger] names[i], #[trigger] names[j])
}

/// Two lists hold the same texts, however often and in whatever order.
pub open spec fn same_texts(a: Seq<Seq<char>>, b: Seq<Seq<char>>) -> bool {
    forall|name: Seq<char>| a.contains(name) <==> b.contains(name)
}

/// The texts of a list, each once, in order: the one strictly sorted list
/// that holds the same texts.
pub open spec fn sorted_texts(names: Seq<Seq<char>>) -> Seq<Seq<char>> {
    choose|sorted: Seq<Seq<char>>| strictly_sorted(sorted) && same_texts(sorted, names)
}

/// The texts of a list, each once, in order.
pub fn sort_unique(names: &Vec<String>) -> (r: Vec<String>)
    ensures
        strictly_sorted(r.deep_view()),
        same_texts(r.deep_view(), names.deep_view()),
        r.deep_view() == sorted_texts(names.deep_view()),
{
    let ghost all = names.deep_view();
    let mut sorted: Vec<String> = Vec::new();
    let mut k: usize = 0;
    assert(same_texts(sorted.deep_view(), all.take(0))) by {
        assert forall|name: Seq<char>| sorted.deep_view().contains(name) <==> all.take(
            0,
        ).contains(name) by {}
    }
    while k < names.len()
        invariant
            k <= names.len(),
            all == names.deep_view(),
            strictly_sorted(sorted.deep_view()),
            same_texts(sorted.deep_view(), all.take(k as int)),
        decreases names.len() - k,
    {
        let name = &names[k];
        let ghost held = sorted.deep_view();
        let ghost sofar = all.take(k as int);
        let ghost upto = all.take(k + 1);
        assert(all[k as int] == name@);
        let mut j: usize = 0;
        while j < sorted.len() && str_lt(sorted[j].as_str(), name.as_str())
            invariant
                j <= sorted.len(),
                held == sorted.deep_view(),
                forall|i: int| 0 <= i < j ==> text_lt(#[trigger] held[i], name@),
            decreases sorted.len() - j,
        {
            j += 1;
        }
        let known = j < sorted.len() && str_eq(sorted[j].as_str(), name.as_str());
        if !known {
            sorted.insert(j, name.clone());
            proof {
                let grown = sorted.deep_view();
                assert(grown =~= held.insert(j as int, name@));
                assert forall|i1: int, i2: int| 0 <= i1 < i2 < grown.len() implies text_lt(
                    #[trigger] grown[i1],
                    #[trigger] grown[i2],
                ) by {
                    if i2 < j {
                        assert(grown[i1] == held[i1] && grown[i2] == held[i2]);
                    } else if i2 == j {
                        assert(grown[i1] == held[i1]);
                    } else if i1 < j {
                        assert(grown[i1] == held[i1] && grown[i2] == held[i2 - 1]);
                    } else if i1 == j {
                        assert(grown[i2] == held[i2 - 1]);
                        lemma_text_lt_order(name@, held[j as int], held[i2 - 1]);
                        lemma_text_lt_order(held[j as int], name@, name@);
                        if i2 - 1 > j {
                            assert(text_lt(held[j as int], held[i2 - 1]));
                        }
                    } else {
                        assert(grown[i1] == held[i1 - 1] && grown[i2] == held[i2 - 1]);
                    }
                }
                assert forall|text: Seq<char>| grown.contains(text) <==> upto.contains(text) by {
                    if grown.contains(text) {
                        let i = choose|i: int| 0 <= i < grown.len() && grown[i] == text;
                        if i == j {
                            assert(upto[k as int] == text);
                        } else {
                            let before = if i < j {
                                i
                            } else {
                                i - 1
                            };
                            assert(held[before] == text);
                            assert(sofar.contains(text));
                            let at = choose|at: int|
                                0 <= at < sofar.len() && sofar[at]
                                    == text;
                            assert(upto[at] == text);
                        }
                    }
                    if upto.contains(text) {
                        let at = choose|at: int|
                            0 <= at < upto.len() && upto[at] == text;
                        if at == k {
                            assert(grown[j as int] == text);
                        } else {
                            assert(sofar[at] == text);
                            assert(held.contains(text));
                            let i = choose|i: int| 0 <= i < held.len() && held[i] == text;
                            if i < j {
                                assert(grown[i] == text);
                            } else {
                                assert(grown[i + 1] == text);
                            }
                        }
                    }
                }
            }
        } else {
            proof {
                assert forall|text: Seq<char>| held.contains(text) <==> upto.contains(text) by {
                    if held.contains(text) {
                        let at = choose|at: int|
                            0 <= at < sofar.len() && sofar[at]
                                == text;
                        assert(upto[at] == text);
                    }
                    if upto.contains(text) {
                        let at = choose|at: int|
                            0 <= at < upto.len() && upto[at] == text;
                        if at == k {
                            assert(held[j as int] == text);
                        } else {
                            assert(sofar[at] == text);
                        }
                    }
                }
            }
        }
        k += 1;
    }
    assert(all.take(names.len() as int) =~= all);
    proof {
        let found = sorted.deep_view();
        assert(strictly_sorted(found) && same_texts(found, all));
        let chosen = sorted_texts(all);
        assert(strictly_sorted(chosen) && same_texts(chosen, all));
        assert(same_texts(found, chosen)) by {
            assert forall|name: Seq<char>| found.contains(name) <==> chosen.contains(name) by {
                assert(found.contains(name) <==> all.contains(name));
                assert(chosen.contains(name) <==> all.contains(name));
            }
        }
        lemma_sorted_is_unique(found, chosen);
    }
    sorted
}

/// A list that is strictly sorted is the only one with its texts: another
/// that is strictly sorted and holds the same texts is the same list.
pub proof fn lemma_sorted_is_unique(a: Seq<Seq<char>>, b: Seq<Seq<char>>)
    requires
        strictly_sorted(a),
        strictly_sorted(b),
        same_texts(a, b),
    ensures
        a == b,
    decreases a.len(),
{
    if a.len() == 0 {
        if b.len() > 0 {
            assert(b.contains(b[0]));
            assert(a.contains(b[0]));
        }
        assert(a =~= b);
    } else if b.len() == 0 {
        assert(a.contains(a[0]));
        assert(b.contains(a[0]));
    } else {
        // The first of each is the least of all, so the two are the same.
        assert(a.contains(a[0]));
        assert(b.contains(a[0]));
        let at_b = choose|i: int| 0 <= i < b.len() && b[i] == a[0];
        assert(b.contains(b[0]));
        assert(a.contains(b[0]));
        let at_a = choose|i: int| 0 <= i < a.len() && a[i] == b[0];
        if at_b > 0 {
            // b[0] < a[0] in b, and a[0] <= b[0] in a.
            assert(text_lt(b[0], b[at_b]));
            if at_a > 0 {
                assert(text_lt(a[0], a[at_a]));
                lemma_text_lt_order(a[0], b[0], a[0]);
                lemma_text_lt_order(a[0], a[0], a[0]);
            } else {
                lemma_text_lt_order(a[0], a[0], a[0]);
            }
        }
        assert(a[0] == b[0]);
        let a_rest = a.skip(1);
        let b_rest = b.skip(1);
        assert forall|i: int, j: int| 0 <= i < j < a_rest.len() implies text_lt(
            #[trigger] a_rest[i],
            #[trigger] a_rest[j],
        ) by {
            assert(a_rest[i] == a[i + 1] && a_rest[j] == a[j + 1]);
        }
        assert forall|i: int, j: int| 0 <= i < j < b_rest.len() implies text_lt(
            #[trigger] b_rest[i],
            #[trigger] b_rest[j],
        ) by {
            assert(b_rest[i] == b[i + 1] && b_rest[j] == b[j + 1]);
        }
        assert forall|text: Seq<char>| a_rest.contains(text) <==> b_rest.contains(text) by {
            lemma_text_lt_order(a[0], a[0], a[0]);
            if a_rest.contains(text) {
                let i = choose|i: int| 0 <= i < a_rest.len() && a_rest[i] == text;
                assert(a[i + 1] == text);
                assert(text_lt(a[0], a[i + 1]));
                assert(a.contains(text));
                let k = choose|k: int| 0 <= k < b.len() && b[k] == text;
                assert(k > 0);
                assert(b_rest[k - 1] == text);
            }
            if b_rest.contains(text) {
                let i = choose|i: int| 0 <= i < b_rest.len() && b_rest[i] == text;
                assert(b[i + 1] == text);
                assert(text_lt(b[0], b[i + 1]));
                assert(b.contains(text));
                let k = choose|k: int| 0 <= k < a.len() && a[k] == text;
                assert(k > 0);
                assert(a_rest[k - 1] == text);
            }
        }
        lemma_sorted_is_unique(a_rest, b_rest);
        assert(a =~= seq![a[0]] + a_rest);
        assert(b =~= seq![b[0]] + b_rest);
    }
}

} // verus!
