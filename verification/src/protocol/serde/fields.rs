//! Unrolled forms of the parse and the bytes of short value sequences,
//! which the reads and writes of fixed-shape structures rely on.

use vstd::prelude::*;

use super::wire::{
    TagValue, group_values_bytes, lemma_parse_prop_entry_len, lemma_parse_scalar_len,
    lemma_parse_values_step, parse_prop_entries, parse_prop_entry, parse_value, parse_values,
    props_insert, value_bytes, values_bytes,
};

verus! {

broadcast use group_values_bytes;

/// A parsed property list takes its terminator and at least one byte more.
pub proof fn lemma_parse_prop_entries_len(s: Seq<u8>, acc: Seq<super::wire::PropEntry>)
    ensures
        parse_prop_entries(s, acc) matches Some((_, n)) ==> 1 <= n <= s.len(),
    decreases s.len(),
{
    lemma_parse_prop_entry_len(s);
    if let Some((Some(e), k)) = parse_prop_entry(s) {
        if 0 < k <= s.len() {
            lemma_parse_prop_entries_len(s.skip(k), props_insert(acc, e.0, e.1));
        }
    }
}

/// A parsed value takes at least one byte and no more than there are.
pub proof fn lemma_parse_value_len(s: Seq<u8>)
    ensures
        parse_value(s) matches Some((_, n)) ==> 1 <= n <= s.len(),
{
    lemma_parse_scalar_len(s);
    if s.len() > 0 && s[0] == super::wire::TAG_PROPLIST {
        lemma_parse_prop_entries_len(s.skip(1), Seq::empty());
    }
    if s.len() >= 4 && s[0] == super::wire::TAG_FORMAT_INFO {
        lemma_parse_prop_entries_len(s.skip(4), Seq::empty());
    }
}

/// Parsing 1 value parses one after the other.
pub proof fn lemma_parse_values_1(s: Seq<u8>)
    ensures
        parse_values(s, 1) == match parse_value(s) {
            Some((v1, k1)) => Some((seq![v1], k1)),
            None => None,
        },
{
    reveal(parse_values);
    lemma_parse_values_step(s, 0);
    if let Some((v1, k1)) = parse_value(s) {
        assert(seq![v1] + Seq::<TagValue>::empty() =~= seq![v1]);
    }
}

/// The bytes of 1 value are theirs, one after the other.
pub proof fn lemma_values_bytes_1(v1: TagValue)
    ensures
        values_bytes(seq![v1]) == value_bytes(v1),
{
    assert(seq![v1] =~= Seq::<TagValue>::empty().push(v1));
    super::wire::lemma_values_bytes_push(Seq::<TagValue>::empty(), v1);
    assert(values_bytes(seq![v1]) =~= value_bytes(v1));
}

/// The bytes of 2 values are theirs, one after the other.
pub proof fn lemma_values_bytes_2(v1: TagValue, v2: TagValue)
    ensures
        values_bytes(seq![v1, v2]) == value_bytes(v1) + value_bytes(v2),
{
    assert(seq![v1, v2] =~= seq![v1].push(v2));
    super::wire::lemma_values_bytes_push(seq![v1], v2);
    lemma_values_bytes_1(v1);
}

/// The bytes of 3 values are theirs, one after the other.
pub proof fn lemma_values_bytes_3(v1: TagValue, v2: TagValue, v3: TagValue)
    ensures
        values_bytes(seq![v1, v2, v3]) == value_bytes(v1) + value_bytes(v2) + value_bytes(v3),
{
    assert(seq![v1, v2, v3] =~= seq![v1, v2].push(v3));
    super::wire::lemma_values_bytes_push(seq![v1, v2], v3);
    lemma_values_bytes_2(v1, v2);
}

/// The bytes of 4 values are theirs, one after the other.
pub proof fn lemma_values_bytes_4(v1: TagValue, v2: TagValue, v3: TagValue, v4: TagValue)
    ensures
        values_bytes(seq![v1, v2, v3, v4])
            == value_bytes(v1)
            + value_bytes(v2)
            + value_bytes(v3)
            + value_bytes(v4),
{
    assert(seq![v1, v2, v3, v4] =~= seq![v1, v2, v3].push(v4));
    super::wire::lemma_values_bytes_push(seq![v1, v2, v3], v4);
    lemma_values_bytes_3(v1, v2, v3);
}

/// The bytes of 5 values are theirs, one after the other.
pub proof fn lemma_values_bytes_5(
    v1: TagValue,
    v2: TagValue,
    v3: TagValue,
    v4: TagValue,
    v5: TagValue,
)
    ensures
        values_bytes(seq![v1, v2, v3, v4, v5])
            == value_bytes(v1)
            + value_bytes(v2)
            + value_bytes(v3)
            + value_bytes(v4)
            + value_bytes(v5),
{
    assert(seq![v1, v2, v3, v4, v5] =~= seq![v1, v2, v3, v4].push(v5));
    super::wire::lemma_values_bytes_push(seq![v1, v2, v3, v4], v5);
    lemma_values_bytes_4(v1, v2, v3, v4);
}

/// The bytes of 6 values are theirs, one after the other.
pub proof fn lemma_values_bytes_6(
    v1: TagValue,
    v2: TagValue,
    v3: TagValue,
    v4: TagValue,
    v5: TagValue,
    v6: TagValue,
)
    ensures
        values_bytes(seq![v1, v2, v3, v4, v5, v6])
            == value_bytes(v1)
            + value_bytes(v2)
            + value_bytes(v3)
            + value_bytes(v4)
            + value_bytes(v5)
            + value_bytes(v6),
{
    assert(seq![v1, v2, v3, v4, v5, v6] =~= seq![v1, v2, v3, v4, v5].push(v6));
    super::wire::lemma_values_bytes_push(seq![v1, v2, v3, v4, v5], v6);
    lemma_values_bytes_5(v1, v2, v3, v4, v5);
}

/// The bytes of 7 values are theirs, one after the other.
pub proof fn lemma_values_bytes_7(
    v1: TagValue,
    v2: TagValue,
    v3: TagValue,
    v4: TagValue,
    v5: TagValue,
    v6: TagValue,
    v7: TagValue,
)
    ensures
        values_bytes(seq![v1, v2, v3, v4, v5, v6, v7])
            == value_bytes(v1)
            + value_bytes(v2)
            + value_bytes(v3)
            + value_bytes(v4)
            + value_bytes(v5)
            + value_bytes(v6)
            + value_bytes(v7),
{
    assert(seq![v1, v2, v3, v4, v5, v6, v7] =~= seq![v1, v2, v3, v4, v5, v6].push(v7));
    super::wire::lemma_values_bytes_push(seq![v1, v2, v3, v4, v5, v6], v7);
    lemma_values_bytes_6(v1, v2, v3, v4, v5, v6);
}

/// The bytes of 8 values are theirs, one after the other.
pub proof fn lemma_values_bytes_8(
    v1: TagValue,
    v2: TagValue,
    v3: TagValue,
    v4: TagValue,
    v5: TagValue,
    v6: TagValue,
    v7: TagValue,
    v8: TagValue,
)
    ensures
        values_bytes(seq![v1, v2, v3, v4, v5, v6, v7, v8])
            == value_bytes(v1)
            + value_bytes(v2)
            + value_bytes(v3)
            + value_bytes(v4)
            + value_bytes(v5)
            + value_bytes(v6)
            + value_bytes(v7)
            + value_bytes(v8),
{
    assert(seq![v1, v2, v3, v4, v5, v6, v7, v8] =~= seq![v1, v2, v3, v4, v5, v6, v7].push(v8));
    super::wire::lemma_values_bytes_push(seq![v1, v2, v3, v4, v5, v6, v7], v8);
    lemma_values_bytes_7(v1, v2, v3, v4, v5, v6, v7);
}

/// The bytes of 9 values are theirs, one after the other.
pub proof fn lemma_values_bytes_9(
    v1: TagValue,
    v2: TagValue,
    v3: TagValue,
    v4: TagValue,
    v5: TagValue,
    v6: TagValue,
    v7: TagValue,
    v8: TagValue,
    v9: TagValue,
)
    ensures
        values_bytes(seq![v1, v2, v3, v4, v5, v6, v7, v8, v9])
            == value_bytes(v1)
            + value_bytes(v2)
            + value_bytes(v3)
            + value_bytes(v4)
            + value_bytes(v5)
            + value_bytes(v6)
            + value_bytes(v7)
            + value_bytes(v8)
            + value_bytes(v9),
{
    assert(seq![v1, v2, v3, v4, v5, v6, v7, v8, v9] =~= seq![v1, v2, v3, v4, v5, v6, v7, v8].push(
        v9,
    ));
    super::wire::lemma_values_bytes_push(seq![v1, v2, v3, v4, v5, v6, v7, v8], v9);
    lemma_values_bytes_8(v1, v2, v3, v4, v5, v6, v7, v8);
}

/// The bytes of 10 values are those of each value, one after the other.
pub proof fn lemma_values_bytes_10(
    v1: TagValue,
    v2: TagValue,
    v3: TagValue,
    v4: TagValue,
    v5: TagValue,
    v6: TagValue,
    v7: TagValue,
    v8: TagValue,
    v9: TagValue,
    v10: TagValue,
)
    ensures
        values_bytes(seq![v1, v2, v3, v4, v5, v6, v7, v8, v9, v10])
            == value_bytes(v1)
            + value_bytes(v2)
            + value_bytes(v3)
            + value_bytes(v4)
            + value_bytes(v5)
            + value_bytes(v6)
            + value_bytes(v7)
            + value_bytes(v8)
            + value_bytes(v9)
            + value_bytes(v10),
{
    assert(seq![v1, v2, v3, v4, v5, v6, v7, v8, v9, v10] =~= seq![v1, v2, v3, v4, v5, v6, v7, v8, v9].push(v10));
    super::wire::lemma_values_bytes_push(seq![v1, v2, v3, v4, v5, v6, v7, v8, v9], v10);
    lemma_values_bytes_9(v1, v2, v3, v4, v5, v6, v7, v8, v9);
}

/// The bytes of 11 values are those of each value, one after the other.
pub proof fn lemma_values_bytes_11(
    v1: TagValue,
    v2: TagValue,
    v3: TagValue,
    v4: TagValue,
    v5: TagValue,
    v6: TagValue,
    v7: TagValue,
    v8: TagValue,
    v9: TagValue,
    v10: TagValue,
    v11: TagValue,
)
    ensures
        values_bytes(seq![v1, v2, v3, v4, v5, v6, v7, v8, v9, v10, v11])
            == value_bytes(v1)
            + value_bytes(v2)
            + value_bytes(v3)
            + value_bytes(v4)
            + value_bytes(v5)
            + value_bytes(v6)
            + value_bytes(v7)
            + value_bytes(v8)
            + value_bytes(v9)
            + value_bytes(v10)
            + value_bytes(v11),
{
    assert(seq![v1, v2, v3, v4, v5, v6, v7, v8, v9, v10, v11] =~= seq![v1, v2, v3, v4, v5, v6, v7, v8, v9, v10].push(v11));
    super::wire::lemma_values_bytes_push(seq![v1, v2, v3, v4, v5, v6, v7, v8, v9, v10], v11);
    lemma_values_bytes_10(v1, v2, v3, v4, v5, v6, v7, v8, v9, v10);
}

/// The bytes of 12 values are those of each value, one after the other.
pub proof fn lemma_values_bytes_12(
    v1: TagValue,
    v2: TagValue,
    v3: TagValue,
    v4: TagValue,
    v5: TagValue,
    v6: TagValue,
    v7: TagValue,
    v8: TagValue,
    v9: TagValue,
    v10: TagValue,
    v11: TagValue,
    v12: TagValue,
)
    ensures
        values_bytes(seq![v1, v2, v3, v4, v5, v6, v7, v8, v9, v10, v11, v12])
            == value_bytes(v1)
            + value_bytes(v2)
            + value_bytes(v3)
            + value_bytes(v4)
            + value_bytes(v5)
            + value_bytes(v6)
            + value_bytes(v7)
            + value_bytes(v8)
            + value_bytes(v9)
            + value_bytes(v10)
            + value_bytes(v11)
            + value_bytes(v12),
{
    assert(seq![v1, v2, v3, v4, v5, v6, v7, v8, v9, v10, v11, v12] =~= seq![v1, v2, v3, v4, v5, v6, v7, v8, v9, v10, v11].push(v12));
    super::wire::lemma_values_bytes_push(seq![v1, v2, v3, v4, v5, v6, v7, v8, v9, v10, v11], v12);
    lemma_values_bytes_11(v1, v2, v3, v4, v5, v6, v7, v8, v9, v10, v11);
}

/// The bytes of 13 values are those of each value, one after the other.
pub proof fn lemma_values_bytes_13(
    v1: TagValue,
    v2: TagValue,
    v3: TagValue,
    v4: TagValue,
    v5: TagValue,
    v6: TagValue,
    v7: TagValue,
    v8: TagValue,
    v9: TagValue,
    v10: TagValue,
    v11: TagValue,
    v12: TagValue,
    v13: TagValue,
)
    ensures
        values_bytes(seq![v1, v2, v3, v4, v5, v6, v7, v8, v9, v10, v11, v12, v13])
            == value_bytes(v1)
            + value_bytes(v2)
            + value_bytes(v3)
            + value_bytes(v4)
            + value_bytes(v5)
            + value_bytes(v6)
            + value_bytes(v7)
            + value_bytes(v8)
            + value_bytes(v9)
            + value_bytes(v10)
            + value_bytes(v11)
            + value_bytes(v12)
            + value_bytes(v13),
{
    assert(seq![v1, v2, v3, v4, v5, v6, v7, v8, v9, v10, v11, v12, v13] =~= seq![v1, v2, v3, v4, v5, v6, v7, v8, v9, v10, v11, v12].push(v13));
    super::wire::lemma_values_bytes_push(seq![v1, v2, v3, v4, v5, v6, v7, v8, v9, v10, v11, v12], v13);
    lemma_values_bytes_12(v1, v2, v3, v4, v5, v6, v7, v8, v9, v10, v11, v12);
}

/// The bytes of 14 values are those of each value, one after the other.
pub proof fn lemma_values_bytes_14(
    v1: TagValue,
    v2: TagValue,
    v3: TagValue,
    v4: TagValue,
    v5: TagValue,
    v6: TagValue,
    v7: TagValue,
    v8: TagValue,
    v9: TagValue,
    v10: TagValue,
    v11: TagValue,
    v12: TagValue,
    v13: TagValue,
    v14: TagValue,
)
    ensures
        values_bytes(seq![v1, v2, v3, v4, v5, v6, v7, v8, v9, v10, v11, v12, v13, v14])
            == value_bytes(v1)
            + value_bytes(v2)
            + value_bytes(v3)
            + value_bytes(v4)
            + value_bytes(v5)
            + value_bytes(v6)
            + value_bytes(v7)
            + value_bytes(v8)
            + value_bytes(v9)
            + value_bytes(v10)
            + value_bytes(v11)
            + value_bytes(v12)
            + value_bytes(v13)
            + value_bytes(v14),
{
    assert(seq![v1, v2, v3, v4, v5, v6, v7, v8, v9, v10, v11, v12, v13, v14] =~= seq![v1, v2, v3, v4, v5, v6, v7, v8, v9, v10, v11, v12, v13].push(v14));
    super::wire::lemma_values_bytes_push(seq![v1, v2, v3, v4, v5, v6, v7, v8, v9, v10, v11, v12, v13], v14);
    lemma_values_bytes_13(v1, v2, v3, v4, v5, v6, v7, v8, v9, v10, v11, v12, v13);
}

} // verus!
