//! Items sent after their number, and strings as items.

use vstd::prelude::*;

use super::super::error::ProtocolError;
use super::cstr::CString;
use super::fields::{lemma_parse_value_len, lemma_parse_values_1, lemma_values_bytes_1};
use super::list::{items_encodable, lemma_parse_counted_bytes, list_values, parse_counted, read_counted};
use super::wire::{
    TagValue, lemma_parse_value_bytes, lemma_parse_values_bytes, lemma_values_bytes_concat, parse_value,
    parse_values, value_bytes, values_bytes, values_wf,
};
use super::{TagStructRead, TagStructReader, TagStructWrite, TagStructWriter};

verus! {

/// The values of items sent after their number: the number, as a `u32`,
/// then the values of each item.
pub open spec fn counted_values<T: TagStructWrite>(items: Seq<T>, protocol_version: u16) -> Seq<TagValue> {
    seq![TagValue::U32(items.len() as u32)] + list_values(items, protocol_version)
}

/// The values of items sent after their number that `s` starts with, and
/// the number of bytes they take.
pub open spec fn counted_parse<T: TagStructRead>(s: Seq<u8>, protocol_version: u16) -> Option<(Seq<TagValue>, int)> {
    match parse_value(s) {
        Some((TagValue::U32(c), k)) => if 0 <= k <= s.len() {
            match parse_counted::<T>(s.skip(k), c as nat, protocol_version, Seq::empty()) {
                Some((vs, m)) => Some((seq![TagValue::U32(c)] + vs, k + m)),
                None => None,
            }
        } else {
            None
        },
        _ => None,
    }
}

/// Reads items after their number.
pub fn read_counted_list<T: TagStructRead>(ts: &mut TagStructReader, protocol_version: u16) -> (r: Result<
    Vec<T>,
    ProtocolError,
>)
    ensures
        final(ts).version() == old(ts).version(),
        match counted_parse::<T>(old(ts).rest(), protocol_version) {
            Some((vs, n)) => (r matches Ok(items) && counted_values(items@, protocol_version) == vs
                && forall|i: int| 0 <= i < items@.len() ==> (#[trigger] items@[i]).spec_canonical(protocol_version))
                && 0 <= n <= old(ts).rest().len() && final(ts).rest() == old(ts).rest().skip(n),
            None => r is Err,
        },
{
    let ghost s = ts.rest();
    proof {
        lemma_parse_value_len(s);
    }
    let c = ts.read_u32()?;
    let ghost s1 = ts.rest();
    let items = read_counted::<T>(ts, c, protocol_version)?;
    proof {
        if let Some((TagValue::U32(_), k)) = parse_value(s) {
            if let Some((_, m)) = parse_counted::<T>(s1, c as nat, protocol_version, Seq::empty()) {
                assert(s.skip(k).skip(m) =~= s.skip(k + m));
            }
        }
    }
    Ok(items)
}

/// Reading back the bytes of items sent after their number gives their
/// values.
pub proof fn lemma_counted_roundtrip<T: TagStructRead>(items: Seq<T>, protocol_version: u16, rest: Seq<u8>)
    requires
        items.len() <= u32::MAX,
        items_encodable(items, protocol_version),
    ensures
        counted_parse::<T>(values_bytes(counted_values(items, protocol_version)) + rest, protocol_version) == Some(
            (counted_values(items, protocol_version), values_bytes(counted_values(items, protocol_version)).len() as int),
        ),
        forall|i: int| 0 <= i < items.len() ==> (#[trigger] items[i]).spec_canonical(protocol_version),
{
    let c = TagValue::U32(items.len() as u32);
    let lv = list_values(items, protocol_version);
    lemma_values_bytes_1(c);
    lemma_values_bytes_concat(seq![c], lv);
    let s = values_bytes(counted_values(items, protocol_version)) + rest;
    assert(s =~= value_bytes(c) + (values_bytes(lv) + rest));
    lemma_parse_value_bytes(c, values_bytes(lv) + rest);
    assert(s.skip(value_bytes(c).len() as int) =~= values_bytes(lv) + rest);
    lemma_parse_counted_bytes(items, protocol_version, Seq::empty(), rest);
    assert(Seq::<TagValue>::empty() + lv =~= lv);
}

impl TagStructWrite for CString {
    open spec fn spec_values(&self, protocol_version: u16) -> Seq<TagValue> {
        seq![TagValue::Str(self@)]
    }

    open spec fn spec_writable(&self) -> bool {
        true
    }

    fn write(&self, w: &mut TagStructWriter, _protocol_version: u16) -> (r: Result<(), ProtocolError>) {
        w.write_string(Some(self))?;
        proof {
            lemma_values_bytes_1(TagValue::Str(self@));
        }
        Ok(())
    }
}

impl TagStructRead for CString {
    /// A string that is not null.
    open spec fn spec_parse(s: Seq<u8>, protocol_version: u16) -> Option<(Seq<TagValue>, int)> {
        match parse_values(s, 1) {
            Some((vs, n)) => if vs[0] is Str {
                Some((vs, n))
            } else {
                None
            },
            None => None,
        }
    }

    open spec fn spec_canonical(&self, protocol_version: u16) -> bool {
        true
    }

    open spec fn spec_encodable(&self, protocol_version: u16) -> bool {
        values_wf(self.spec_values(protocol_version))
    }

    fn read(ts: &mut TagStructReader, _protocol_version: u16) -> (r: Result<Self, ProtocolError>) {
        proof {
            lemma_parse_values_1(ts.rest());
            lemma_parse_value_len(ts.rest());
        }
        ts.read_string_non_null()
    }

    proof fn lemma_roundtrip(&self, protocol_version: u16, rest: Seq<u8>) {
        lemma_parse_values_bytes(self.spec_values(protocol_version), rest);
    }
}


/// The values a [`CString`] is sent as, position by position: whatever a read
/// gives from the values `vs` holds each field from its own position.
pub proof fn lemma_c_string_layout(q: CString, vs: Seq<TagValue>, protocol_version: u16)
    requires
        q.spec_values(protocol_version) == vs,
    ensures
        vs == (
            seq![TagValue::Str(q@)]
        ),
{
}

} // verus!
