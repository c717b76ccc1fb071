//! Lists of values, as replies that list objects carry them: the items one
//! after the other, up to the end of the message.

use vstd::prelude::*;

use super::super::error::ProtocolError;
use super::wire::{TagValue, lemma_values_bytes_concat, value_bytes, values_bytes};
use super::{TagStructRead, TagStructReader, TagStructWrite, TagStructWriter};

verus! {

/// The values of a list: those of each item, one after the other.
pub open spec fn list_values<T: TagStructWrite>(items: Seq<T>, protocol_version: u16) -> Seq<TagValue>
    decreases items.len(),
{
    if items.len() == 0 {
        Seq::empty()
    } else {
        items[0].spec_values(protocol_version) + list_values(items.drop_first(), protocol_version)
    }
}

/// Parses items of type `T` up to the end of `s`, appending their values to
/// `acc`: all the values and the number of bytes they take, or `None` when
/// some item is malformed or takes no bytes.
pub open spec fn parse_list<T: TagStructRead>(s: Seq<u8>, protocol_version: u16, acc: Seq<TagValue>) -> Option<
    (Seq<TagValue>, int),
>
    decreases s.len(),
{
    if s.len() == 0 {
        Some((acc, 0))
    } else {
        match T::spec_parse(s, protocol_version) {
            Some((vs, n)) => if 0 < n <= s.len() {
                match parse_list::<T>(s.skip(n), protocol_version, acc + vs) {
                    Some((all, m)) => Some((all, n + m)),
                    None => None,
                }
            } else {
                None
            },
            None => None,
        }
    }
}

/// Appending an item appends its values.
pub proof fn lemma_list_values_push<T: TagStructWrite>(items: Seq<T>, item: T, protocol_version: u16)
    ensures
        list_values(items.push(item), protocol_version) == list_values(items, protocol_version)
            + item.spec_values(protocol_version),
    decreases items.len(),
{
    if items.len() == 0 {
        assert(items.push(item).drop_first() =~= Seq::<T>::empty());
        assert(items.push(item)[0] == item);
        assert(list_values(Seq::<T>::empty(), protocol_version) == Seq::<TagValue>::empty());
        assert(list_values(items.push(item), protocol_version) =~= item.spec_values(protocol_version)
            + Seq::<TagValue>::empty());
        assert(list_values(items.push(item), protocol_version) =~= list_values(items, protocol_version)
            + item.spec_values(protocol_version));
    } else {
        lemma_list_values_push(items.drop_first(), item, protocol_version);
        assert(items.push(item).drop_first() =~= items.drop_first().push(item));
        assert(list_values(items.push(item), protocol_version) =~= list_values(items, protocol_version)
            + item.spec_values(protocol_version));
    }
}

/// A nonempty sequence of values takes some bytes.
pub proof fn lemma_values_bytes_nonempty(vs: Seq<TagValue>)
    requires
        vs.len() > 0,
    ensures
        values_bytes(vs).len() > 0,
{
    assert(value_bytes(vs[0]).len() > 0);
}

/// Whether every item of a list is written and read back unchanged, and
/// takes some bytes.
pub open spec fn list_encodable<T: TagStructRead>(items: Seq<T>, protocol_version: u16) -> bool {
    &&& T::spec_delimited()
    &&& forall|i: int|
        0 <= i < items.len() ==> (#[trigger] items[i]).spec_encodable(protocol_version)
            && items[i].spec_values(protocol_version).len() > 0
}

/// Parsing the bytes of a list gives back the values of its items.
pub proof fn lemma_parse_list_bytes<T: TagStructRead>(items: Seq<T>, protocol_version: u16, acc: Seq<TagValue>)
    requires
        list_encodable(items, protocol_version),
    ensures
        parse_list::<T>(values_bytes(list_values(items, protocol_version)), protocol_version, acc)
            == Some(
            (
                acc + list_values(items, protocol_version),
                values_bytes(list_values(items, protocol_version)).len() as int,
            ),
        ),
        forall|i: int| 0 <= i < items.len() ==> (#[trigger] items[i]).spec_canonical(protocol_version),
    decreases items.len(),
{
    let lv = list_values(items, protocol_version);
    if items.len() == 0 {
        assert(values_bytes(lv) =~= Seq::<u8>::empty());
        assert(acc + lv =~= acc);
    } else {
        let head = items[0];
        let tail = items.drop_first();
        let hv = head.spec_values(protocol_version);
        let tv = list_values(tail, protocol_version);
        lemma_values_bytes_concat(hv, tv);
        head.lemma_roundtrip(protocol_version, values_bytes(tv));
        lemma_values_bytes_nonempty(hv);
        assert forall|i: int| 0 <= i < tail.len() implies (#[trigger] tail[i]).spec_encodable(
            protocol_version,
        ) && tail[i].spec_values(protocol_version).len() > 0 by {
            assert(tail[i] == items[i + 1]);
        }
        lemma_parse_list_bytes(tail, protocol_version, acc + hv);
        assert(values_bytes(lv).skip(values_bytes(hv).len() as int) =~= values_bytes(tv));
        assert(acc + hv + tv =~= acc + lv);
        assert forall|i: int| 0 <= i < items.len() implies (#[trigger] items[i]).spec_canonical(
            protocol_version,
        ) by {
            if i > 0 {
                assert(items[i] == tail[i - 1]);
            }
        }
    }
}

impl<T: TagStructRead> TagStructWrite for Vec<T> {
    open spec fn spec_values(&self, protocol_version: u16) -> Seq<TagValue> {
        list_values(self@, protocol_version)
    }

    open spec fn spec_writable(&self) -> bool {
        forall|i: int| 0 <= i < self@.len() ==> (#[trigger] self@[i]).spec_writable()
    }

    fn write(&self, w: &mut TagStructWriter, protocol_version: u16) -> (r: Result<(), ProtocolError>) {
        let mut i: usize = 0;
        while i < self.len()
            invariant
                i <= self@.len(),
                forall|j: int| 0 <= j < self@.len() ==> (#[trigger] self@[j]).spec_writable(),
                w.version() == old(w).version(),
                w.bytes() == old(w).bytes() + values_bytes(list_values(self@.take(i as int), protocol_version)),
            decreases self@.len() - i,
        {
            self[i].write(w, protocol_version)?;
            proof {
                lemma_list_values_push(self@.take(i as int), self@[i as int], protocol_version);
                assert(self@.take(i as int).push(self@[i as int]) =~= self@.take(i + 1));
                lemma_values_bytes_concat(
                    list_values(self@.take(i as int), protocol_version),
                    self@[i as int].spec_values(protocol_version),
                );
            }
            i = i + 1;
        }
        assert(self@.take(i as int) =~= self@);
        Ok(())
    }
}

impl<T: TagStructRead> TagStructRead for Vec<T> {
    /// The values of the items that fill `s` to its end.
    open spec fn spec_parse(s: Seq<u8>, protocol_version: u16) -> Option<(Seq<TagValue>, int)> {
        parse_list::<T>(s, protocol_version, Seq::empty())
    }

    open spec fn spec_canonical(&self, protocol_version: u16) -> bool {
        forall|i: int| 0 <= i < self@.len() ==> (#[trigger] self@[i]).spec_canonical(protocol_version)
    }

    open spec fn spec_encodable(&self, protocol_version: u16) -> bool {
        list_encodable(self@, protocol_version)
    }

    open spec fn spec_delimited() -> bool {
        false
    }

    fn read(ts: &mut TagStructReader, protocol_version: u16) -> (r: Result<Self, ProtocolError>) {
        let ghost s = ts.rest();
        let mut items: Vec<T> = Vec::new();
        let ghost mut acc: Seq<TagValue> = Seq::empty();
        assert(s.skip(0) =~= s);
        loop
            invariant
                s == old(ts).rest(),
                ts.version() == old(ts).version(),
                ts.rest().len() <= s.len(),
                ts.rest() == s.skip(s.len() - ts.rest().len()),
                acc == list_values(items@, protocol_version),
                forall|i: int| 0 <= i < items@.len() ==> (#[trigger] items@[i]).spec_canonical(
                    protocol_version,
                ),
                parse_list::<T>(s, protocol_version, Seq::empty()) == match parse_list::<T>(
                    ts.rest(),
                    protocol_version,
                    acc,
                ) {
                    Some((all, m)) => Some((all, m + (s.len() - ts.rest().len()))),
                    None => None,
                },
            decreases ts.rest().len(),
        {
            let left = ts.remaining();
            if left == 0 {
                return Ok(items);
            }
            let ghost t = ts.rest();
            let item = T::read(ts, protocol_version)?;
            if ts.remaining() >= left {
                return Err(ProtocolError::Invalid("list item takes no bytes".to_owned()));
            }
            proof {
                lemma_list_values_push(items@, item, protocol_version);
                acc = acc + item.spec_values(protocol_version);
                assert(ts.rest() =~= s.skip(s.len() - ts.rest().len()));
            }
            items.push(item);
        }
    }

    proof fn lemma_roundtrip(&self, protocol_version: u16, rest: Seq<u8>) {
        lemma_parse_list_bytes(self@, protocol_version, Seq::empty());
        assert(Seq::<TagValue>::empty() + list_values(self@, protocol_version) =~= list_values(
            self@,
            protocol_version,
        ));
        assert(values_bytes(self.spec_values(protocol_version)) + rest =~= values_bytes(
            self.spec_values(protocol_version),
        ));
    }
}

/// Parses `count` items of type `T`, one after the other, appending their
/// values to `acc`: all the values and the number of bytes they take, or
/// `None` when some item is malformed.
pub open spec fn parse_counted<T: TagStructRead>(s: Seq<u8>, count: nat, protocol_version: u16, acc: Seq<TagValue>) -> Option<
    (Seq<TagValue>, int),
>
    decreases count,
{
    if count == 0 {
        Some((acc, 0))
    } else {
        match T::spec_parse(s, protocol_version) {
            Some((vs, n)) => if 0 <= n <= s.len() {
                match parse_counted::<T>(s.skip(n), (count - 1) as nat, protocol_version, acc + vs) {
                    Some((all, m)) => Some((all, n + m)),
                    None => None,
                }
            } else {
                None
            },
            None => None,
        }
    }
}

/// Whether every item of a sequence is written and read back unchanged,
/// with anything after it.
pub open spec fn items_encodable<T: TagStructRead>(items: Seq<T>, protocol_version: u16) -> bool {
    &&& T::spec_delimited()
    &&& forall|i: int| 0 <= i < items.len() ==> (#[trigger] items[i]).spec_encodable(protocol_version)
}

/// Parsing the bytes of a number of items gives back their values.
pub proof fn lemma_parse_counted_bytes<T: TagStructRead>(
    items: Seq<T>,
    protocol_version: u16,
    acc: Seq<TagValue>,
    rest: Seq<u8>,
)
    requires
        items_encodable(items, protocol_version),
    ensures
        parse_counted::<T>(
            values_bytes(list_values(items, protocol_version)) + rest,
            items.len(),
            protocol_version,
            acc,
        ) == Some(
            (
                acc + list_values(items, protocol_version),
                values_bytes(list_values(items, protocol_version)).len() as int,
            ),
        ),
        forall|i: int| 0 <= i < items.len() ==> (#[trigger] items[i]).spec_canonical(protocol_version),
    decreases items.len(),
{
    let lv = list_values(items, protocol_version);
    if items.len() == 0 {
        assert(values_bytes(lv) =~= Seq::<u8>::empty());
        assert(acc + lv =~= acc);
    } else {
        let head = items[0];
        let tail = items.drop_first();
        let hv = head.spec_values(protocol_version);
        let tv = list_values(tail, protocol_version);
        let s = values_bytes(lv) + rest;
        lemma_values_bytes_concat(hv, tv);
        assert(s =~= values_bytes(hv) + (values_bytes(tv) + rest));
        head.lemma_roundtrip(protocol_version, values_bytes(tv) + rest);
        assert forall|i: int| 0 <= i < tail.len() implies (#[trigger] tail[i]).spec_encodable(
            protocol_version,
        ) by {
            assert(tail[i] == items[i + 1]);
        }
        lemma_parse_counted_bytes(tail, protocol_version, acc + hv, rest);
        assert(s.skip(values_bytes(hv).len() as int) =~= values_bytes(tv) + rest);
        assert(acc + hv + tv =~= acc + lv);
        assert forall|i: int| 0 <= i < items.len() implies (#[trigger] items[i]).spec_canonical(
            protocol_version,
        ) by {
            if i > 0 {
                assert(items[i] == tail[i - 1]);
            }
        }
    }
}

/// Reads `count` items of type `T`, one after the other.
pub fn read_counted<T: TagStructRead>(ts: &mut TagStructReader, count: u32, protocol_version: u16) -> (r: Result<
    Vec<T>,
    ProtocolError,
>)
    ensures
        final(ts).version() == old(ts).version(),
        match parse_counted::<T>(old(ts).rest(), count as nat, protocol_version, Seq::empty()) {
            Some((vs, n)) => (r matches Ok(items) && list_values(items@, protocol_version) == vs
                && items@.len() == count
                && forall|i: int| 0 <= i < items@.len() ==> (#[trigger] items@[i]).spec_canonical(
                    protocol_version,
                )) && 0 <= n <= old(ts).rest().len() && final(ts).rest() == old(ts).rest().skip(n),
            None => r is Err,
        },
{
    let ghost s = ts.rest();
    let mut items: Vec<T> = Vec::new();
    let ghost mut acc: Seq<TagValue> = Seq::empty();
    let mut i: u32 = 0;
    assert(s.skip(0) =~= s);
    while i < count
        invariant
            s == old(ts).rest(),
            ts.version() == old(ts).version(),
            i <= count,
            items@.len() == i,
            ts.rest().len() <= s.len(),
            ts.rest() == s.skip(s.len() - ts.rest().len()),
            acc == list_values(items@, protocol_version),
            forall|j: int| 0 <= j < items@.len() ==> (#[trigger] items@[j]).spec_canonical(
                protocol_version,
            ),
            parse_counted::<T>(s, count as nat, protocol_version, Seq::empty()) == match parse_counted::<T>(
                ts.rest(),
                (count - i) as nat,
                protocol_version,
                acc,
            ) {
                Some((all, m)) => Some((all, m + (s.len() - ts.rest().len()))),
                None => None,
            },
        decreases count - i,
    {
        let item = T::read(ts, protocol_version)?;
        proof {
            lemma_list_values_push(items@, item, protocol_version);
            acc = acc + item.spec_values(protocol_version);
            assert(ts.rest() =~= s.skip(s.len() - ts.rest().len()));
        }
        items.push(item);
        i = i + 1;
    }
    Ok(items)
}


} // verus!
