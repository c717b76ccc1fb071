//! The mathematical model of the tagstruct wire format: what bytes encode
//! each tagged value, how a byte sequence is parsed back into values, and
//! the proof that parsing undoes encoding.

use vstd::prelude::*;

verus! {

/// Tag byte of a nul-terminated string (`'t'`).
pub const TAG_STRING: u8 = 0x74;
/// Tag byte of the null string (`'N'`).
pub const TAG_STRING_NULL: u8 = 0x4E;
/// Tag byte of an unsigned 32-bit integer (`'L'`).
pub const TAG_U32: u8 = 0x4C;
/// Tag byte of a single byte (`'B'`).
pub const TAG_U8: u8 = 0x42;
/// Tag byte of an unsigned 64-bit integer (`'R'`).
pub const TAG_U64: u8 = 0x52;
/// Tag byte of a signed 64-bit integer (`'r'`).
pub const TAG_S64: u8 = 0x72;
/// Tag byte of a sample spec (`'a'`).
pub const TAG_SAMPLE_SPEC: u8 = 0x61;
/// Tag byte of a length-prefixed byte blob (`'x'`).
pub const TAG_ARBITRARY: u8 = 0x78;
/// Tag byte of the boolean `true` (`'1'`).
pub const TAG_BOOLEAN_TRUE: u8 = 0x31;
/// Tag byte of the boolean `false` (`'0'`).
pub const TAG_BOOLEAN_FALSE: u8 = 0x30;
/// Tag byte of a timeval (`'T'`).
pub const TAG_TIMEVAL: u8 = 0x54;
/// Tag byte of a microsecond count (`'U'`).
pub const TAG_USEC: u8 = 0x55;
/// Tag byte of a channel map (`'m'`).
pub const TAG_CHANNEL_MAP: u8 = 0x6D;
/// Tag byte of a per-channel volume (`'v'`).
pub const TAG_CVOLUME: u8 = 0x76;
/// Tag byte of a property list (`'P'`).
pub const TAG_PROPLIST: u8 = 0x50;
/// Tag byte of a single volume (`'V'`).
pub const TAG_VOLUME: u8 = 0x56;
/// Tag byte of a format info (`'f'`).
pub const TAG_FORMAT_INFO: u8 = 0x66;

/// The largest number of channels a channel volume may hold.
pub const CHANNELS_MAX: u8 = 32;

/// A property: its key and its value.
pub type PropEntry = (Seq<u8>, Seq<u8>);

/// One tagged value of a tagstruct, as a mathematical object.
pub enum TagValue {
    /// A string (without its terminating nul).
    Str(Seq<u8>),
    /// The null string.
    NullStr,
    U32(u32),
    U8(u8),
    U64(u64),
    S64(i64),
    /// A byte blob.
    Arbitrary(Seq<u8>),
    Bool(bool),
    /// A point in time, in microseconds since the Unix epoch; sent as
    /// seconds and microseconds within the second.
    TimeVal(u64),
    Usec(u64),
    Volume(u32),
    /// One volume per channel.
    CVolume(Seq<u32>),
    /// Properties, in the order they are sent.
    PropList(Seq<PropEntry>),
    /// A sample spec: the sample format's code, the number of channels and
    /// the sample rate.
    SampleSpec(u8, u8, u32),
    /// A channel map: the position code of each channel.
    ChannelMap(Seq<u8>),
    /// A format info: the code of its encoding, then its properties.
    FormatInfo(u8, Seq<PropEntry>),
}

/// The four big-endian bytes of `v`.
pub open spec fn u32_be(v: u32) -> Seq<u8> {
    seq![(v >> 24u32) as u8, (v >> 16u32) as u8, (v >> 8u32) as u8, v as u8]
}

/// The eight big-endian bytes of `v`.
pub open spec fn u64_be(v: u64) -> Seq<u8> {
    u32_be((v >> 32u64) as u32) + u32_be(v as u32)
}

/// The value of four big-endian bytes.
pub open spec fn be_u32(b0: u8, b1: u8, b2: u8, b3: u8) -> u32 {
    ((b0 as u32) << 24u32) | ((b1 as u32) << 16u32) | ((b2 as u32) << 8u32) | (b3 as u32)
}

/// The big-endian `u32` that starts at index `i` of `s`.
pub open spec fn be_u32_at(s: Seq<u8>, i: int) -> u32 {
    be_u32(s[i], s[i + 1], s[i + 2], s[i + 3])
}

/// The big-endian `u64` that starts at index `i` of `s`.
pub open spec fn be_u64_at(s: Seq<u8>, i: int) -> u64 {
    ((be_u32_at(s, i) as u64) << 32u64) | (be_u32_at(s, i + 4) as u64)
}

/// The number of microseconds in a second.
pub const MICROS_PER_SEC: u64 = 1_000_000;

/// The point in time a timeval of `secs` seconds and `usecs` microseconds
/// stands for, in microseconds since the epoch.
pub open spec fn timeval_micros(secs: u32, usecs: u32) -> u64 {
    (secs as u64 * MICROS_PER_SEC + usecs as u64) as u64
}

/// The eight bytes of a timeval after its tag: seconds, then microseconds.
pub open spec fn timeval_bytes(secs: u32, usecs: u32) -> Seq<u8> {
    u32_be(secs) + u32_be(usecs)
}

/// The concatenated big-endian bytes of each value of `vs`.
pub open spec fn u32s_be(vs: Seq<u32>) -> Seq<u8> {
    Seq::new((4 * vs.len()) as nat, |j: int| u32_be(vs[j / 4])[j % 4])
}

/// Whether `s` holds no nul byte, as a C string's content must not.
pub open spec fn no_nul(s: Seq<u8>) -> bool {
    forall|i: int| 0 <= i < s.len() ==> s[i] != 0
}

/// `j` is the first index at or after `i` that holds a nul byte.
pub open spec fn is_first_nul(s: Seq<u8>, i: int, j: int) -> bool {
    &&& i <= j < s.len()
    &&& s[j] == 0
    &&& forall|k: int| i <= k < j ==> s[k] != 0
}

/// Whether some nul byte stands at or after index `i`.
pub open spec fn has_nul_from(s: Seq<u8>, i: int) -> bool {
    exists|j: int| is_first_nul(s, i, j)
}

/// The index of the first nul byte at or after index `i`, where there is one.
pub open spec fn first_nul_from(s: Seq<u8>, i: int) -> int {
    choose|j: int| is_first_nul(s, i, j)
}

/// Whether the keys of the property list are pairwise distinct.
pub open spec fn props_keys_unique(ps: Seq<PropEntry>) -> bool {
    forall|i: int, j: int| 0 <= i < j < ps.len() ==> ps[i].0 != ps[j].0
}

/// Whether `key` is the key of some property of `ps`.
pub open spec fn props_has_key(ps: Seq<PropEntry>, key: Seq<u8>) -> bool {
    exists|i: int| 0 <= i < ps.len() && ps[i].0 == key
}

/// Whether every property of `ps` can be sent and read back: keys without
/// nul bytes, values whose length fits the length field, and no key twice.
pub open spec fn props_wf(ps: Seq<PropEntry>) -> bool {
    &&& forall|i: int| 0 <= i < ps.len() ==> no_nul(#[trigger] ps[i].0)
    &&& forall|i: int| 0 <= i < ps.len() ==> (#[trigger] ps[i].1).len() <= u32::MAX
    &&& props_keys_unique(ps)
}

/// Sets property `key` to `value`: replaces the value of an existing key in
/// place, or appends a new property.
pub open spec fn props_insert(ps: Seq<PropEntry>, key: Seq<u8>, value: Seq<u8>) -> Seq<PropEntry> {
    if props_has_key(ps, key) {
        let i = choose|i: int| 0 <= i < ps.len() && ps[i].0 == key;
        ps.update(i, (key, value))
    } else {
        ps.push((key, value))
    }
}

/// The value of property `key` in `ps`, if `ps` has one.
pub open spec fn props_get(ps: Seq<PropEntry>, key: Seq<u8>) -> Option<Seq<u8>> {
    if props_has_key(ps, key) {
        let i = choose|i: int| 0 <= i < ps.len() && ps[i].0 == key;
        Some(ps[i].1)
    } else {
        None
    }
}

/// Whether a value can be sent and read back unchanged.
pub open spec fn wf_value(v: TagValue) -> bool {
    match v {
        TagValue::Str(b) => no_nul(b),
        TagValue::Arbitrary(b) => b.len() <= u32::MAX,
        TagValue::CVolume(vs) => vs.len() <= CHANNELS_MAX,
        TagValue::ChannelMap(ps) => ps.len() <= CHANNELS_MAX,
        TagValue::TimeVal(m) => m / MICROS_PER_SEC <= u32::MAX,
        TagValue::PropList(ps) => props_wf(ps),
        TagValue::FormatInfo(_, ps) => props_wf(ps),
        _ => true,
    }
}

/// Whether every value of a sequence can be sent and read back unchanged.
pub open spec fn values_wf(vs: Seq<TagValue>) -> bool {
    forall|i: int| 0 <= i < vs.len() ==> wf_value(#[trigger] vs[i])
}

/// The bytes of a value that is not a property list.
pub open spec fn scalar_bytes(v: TagValue) -> Seq<u8> {
    match v {
        TagValue::Str(b) => seq![TAG_STRING] + b + seq![0u8],
        TagValue::NullStr => seq![TAG_STRING_NULL],
        TagValue::U32(x) => seq![TAG_U32] + u32_be(x),
        TagValue::U8(x) => seq![TAG_U8, x],
        TagValue::U64(x) => seq![TAG_U64] + u64_be(x),
        TagValue::S64(x) => seq![TAG_S64] + u64_be(x as u64),
        TagValue::Arbitrary(b) => seq![TAG_ARBITRARY] + u32_be(b.len() as u32) + b,
        TagValue::Bool(b) => seq![if b { TAG_BOOLEAN_TRUE } else { TAG_BOOLEAN_FALSE }],
        TagValue::TimeVal(m) => seq![TAG_TIMEVAL] + timeval_bytes(
            (m / MICROS_PER_SEC) as u32,
            (m % MICROS_PER_SEC) as u32,
        ),
        TagValue::Usec(x) => seq![TAG_USEC] + u64_be(x),
        TagValue::Volume(x) => seq![TAG_VOLUME] + u32_be(x),
        TagValue::CVolume(vs) => seq![TAG_CVOLUME, vs.len() as u8] + u32s_be(vs),
        TagValue::SampleSpec(f, c, r) => seq![TAG_SAMPLE_SPEC, f, c] + u32_be(r),
        TagValue::ChannelMap(ps) => seq![TAG_CHANNEL_MAP, ps.len() as u8] + ps,
        TagValue::PropList(_) => Seq::empty(),
        TagValue::FormatInfo(_, _) => Seq::empty(),
    }
}

/// The bytes of one property: its key as a string, the length of its value
/// as a `u32`, then the value as a byte blob.
pub open spec fn prop_entry_bytes(e: PropEntry) -> Seq<u8> {
    scalar_bytes(TagValue::Str(e.0)) + scalar_bytes(TagValue::U32(e.1.len() as u32))
        + scalar_bytes(TagValue::Arbitrary(e.1))
}

/// The bytes of the properties of a list, in order, without the list's tag
/// and terminator.
pub open spec fn props_bytes(ps: Seq<PropEntry>) -> Seq<u8>
    decreases ps.len(),
{
    if ps.len() == 0 {
        Seq::empty()
    } else {
        prop_entry_bytes(ps[0]) + props_bytes(ps.drop_first())
    }
}

/// The bytes of a tagged value.
pub open spec fn value_bytes(v: TagValue) -> Seq<u8> {
    match v {
        TagValue::PropList(ps) => seq![TAG_PROPLIST] + props_bytes(ps) + seq![TAG_STRING_NULL],
        TagValue::FormatInfo(e, ps) => seq![TAG_FORMAT_INFO, TAG_U8, e, TAG_PROPLIST] + props_bytes(ps)
            + seq![TAG_STRING_NULL],
        _ => scalar_bytes(v),
    }
}

/// The bytes of a sequence of tagged values, one after the other.
pub open spec fn values_bytes(vs: Seq<TagValue>) -> Seq<u8>
    decreases vs.len(),
{
    if vs.len() == 0 {
        Seq::empty()
    } else {
        value_bytes(vs[0]) + values_bytes(vs.drop_first())
    }
}

/// Parses the value that `s` starts with, if it is not a property list:
/// the value and the number of bytes it takes, or `None` when `s` is cut
/// short or starts with another tag.
#[verifier::opaque]
pub open spec fn parse_scalar(s: Seq<u8>) -> Option<(TagValue, int)> {
    if s.len() == 0 {
        None
    } else {
        let t = s[0];
        if t == TAG_STRING {
            if has_nul_from(s, 1) {
                let j = first_nul_from(s, 1);
                Some((TagValue::Str(s.subrange(1, j)), j + 1))
            } else {
                None
            }
        } else if t == TAG_STRING_NULL {
            Some((TagValue::NullStr, 1))
        } else if t == TAG_U32 {
            if s.len() >= 5 { Some((TagValue::U32(be_u32_at(s, 1)), 5)) } else { None }
        } else if t == TAG_U8 {
            if s.len() >= 2 { Some((TagValue::U8(s[1]), 2)) } else { None }
        } else if t == TAG_U64 {
            if s.len() >= 9 { Some((TagValue::U64(be_u64_at(s, 1)), 9)) } else { None }
        } else if t == TAG_S64 {
            if s.len() >= 9 { Some((TagValue::S64(be_u64_at(s, 1) as i64), 9)) } else { None }
        } else if t == TAG_ARBITRARY {
            if s.len() >= 5 && s.len() >= 5 + be_u32_at(s, 1) {
                let n = be_u32_at(s, 1) as int;
                Some((TagValue::Arbitrary(s.subrange(5, 5 + n)), 5 + n))
            } else {
                None
            }
        } else if t == TAG_BOOLEAN_TRUE {
            Some((TagValue::Bool(true), 1))
        } else if t == TAG_BOOLEAN_FALSE {
            Some((TagValue::Bool(false), 1))
        } else if t == TAG_TIMEVAL {
            if s.len() >= 9 {
                Some((TagValue::TimeVal(timeval_micros(be_u32_at(s, 1), be_u32_at(s, 5))), 9))
            } else {
                None
            }
        } else if t == TAG_USEC {
            if s.len() >= 9 { Some((TagValue::Usec(be_u64_at(s, 1)), 9)) } else { None }
        } else if t == TAG_VOLUME {
            if s.len() >= 5 { Some((TagValue::Volume(be_u32_at(s, 1)), 5)) } else { None }
        } else if t == TAG_CVOLUME {
            if s.len() >= 2 && s[1] <= CHANNELS_MAX && s.len() >= 2 + 4 * s[1] {
                let n = s[1] as int;
                Some(
                    (
                        TagValue::CVolume(Seq::new(n as nat, |i: int| be_u32_at(s, 2 + 4 * i))),
                        2 + 4 * n,
                    ),
                )
            } else {
                None
            }
        } else if t == TAG_SAMPLE_SPEC {
            if s.len() >= 7 {
                Some((TagValue::SampleSpec(s[1], s[2], be_u32_at(s, 3)), 7))
            } else {
                None
            }
        } else if t == TAG_CHANNEL_MAP {
            if s.len() >= 2 && s[1] <= CHANNELS_MAX && s.len() >= 2 + s[1] {
                let n = s[1] as int;
                Some((TagValue::ChannelMap(s.subrange(2, 2 + n)), 2 + n))
            } else {
                None
            }
        } else {
            None
        }
    }
}

/// A value that is parsed takes at least one byte and no more than there are.
pub proof fn lemma_parse_scalar_len(s: Seq<u8>)
    ensures
        parse_scalar(s) matches Some((_, n)) ==> 1 <= n <= s.len(),
{
    reveal(parse_scalar);
    if parse_scalar(s) is Some && s[0] == TAG_STRING {
        let j = first_nul_from(s, 1);
        assert(is_first_nul(s, 1, j));
    }
}

/// Parses one item of a property list: `None` for the null string that ends
/// the list, or a property, whose key is a string, followed by the length of
/// its value as a `u32` and the value as a byte blob of that length; and
/// the number of bytes the item takes.
pub open spec fn parse_prop_entry(s: Seq<u8>) -> Option<(Option<PropEntry>, int)> {
    match parse_scalar(s) {
        Some((TagValue::NullStr, k)) => Some((None, k)),
        Some((TagValue::Str(key), k1)) => {
            let s1 = s.skip(k1);
            match parse_scalar(s1) {
                Some((TagValue::U32(len), k2)) => {
                    let s2 = s1.skip(k2);
                    match parse_scalar(s2) {
                        Some((TagValue::Arbitrary(value), k3)) => {
                            if value.len() == len {
                                Some((Some((key, value)), k1 + k2 + k3))
                            } else {
                                None
                            }
                        },
                        _ => None,
                    }
                },
                _ => None,
            }
        },
        _ => None,
    }
}

/// Parses the properties of a list up to its terminating null string,
/// setting each property in turn on top of `acc`: the resulting properties
/// and the number of bytes they take, terminator included.
pub open spec fn parse_prop_entries(s: Seq<u8>, acc: Seq<PropEntry>) -> Option<(Seq<PropEntry>, int)>
    decreases s.len(),
{
    match parse_prop_entry(s) {
        Some((None, k)) => Some((acc, k)),
        Some((Some(e), k)) => {
            if 0 < k <= s.len() {
                match parse_prop_entries(s.skip(k), props_insert(acc, e.0, e.1)) {
                    Some((ps, k4)) => Some((ps, k + k4)),
                    None => None,
                }
            } else {
                None
            }
        },
        None => None,
    }
}

/// An item of a property list takes at least one byte and no more than
/// there are.
pub proof fn lemma_parse_prop_entry_len(s: Seq<u8>)
    ensures
        parse_prop_entry(s) matches Some((_, n)) ==> 1 <= n <= s.len(),
{
    lemma_parse_scalar_len(s);
    if let Some((TagValue::Str(key), k1)) = parse_scalar(s) {
        let s1 = s.skip(k1);
        lemma_parse_scalar_len(s1);
        if let Some((TagValue::U32(len), k2)) = parse_scalar(s1) {
            lemma_parse_scalar_len(s1.skip(k2));
        }
    }
}

/// Parses the tagged value that `s` starts with: the value and the number of
/// bytes it takes, or `None` when `s` is cut short, malformed, or starts
/// with an unknown tag.
pub open spec fn parse_value(s: Seq<u8>) -> Option<(TagValue, int)> {
    if s.len() > 0 && s[0] == TAG_PROPLIST {
        match parse_prop_entries(s.skip(1), Seq::empty()) {
            Some((ps, k)) => Some((TagValue::PropList(ps), k + 1)),
            None => None,
        }
    } else if s.len() > 0 && s[0] == TAG_FORMAT_INFO {
        if s.len() >= 4 && s[1] == TAG_U8 && s[3] == TAG_PROPLIST {
            match parse_prop_entries(s.skip(4), Seq::empty()) {
                Some((ps, k)) => Some((TagValue::FormatInfo(s[2], ps), k + 4)),
                None => None,
            }
        } else {
            None
        }
    } else {
        parse_scalar(s)
    }
}

/// Parses `n` tagged values, one after the other.
#[verifier::opaque]
pub open spec fn parse_values(s: Seq<u8>, n: nat) -> Option<(Seq<TagValue>, int)>
    decreases n,
{
    if n == 0 {
        Some((Seq::empty(), 0))
    } else {
        match parse_value(s) {
            Some((v, k)) => match parse_values(s.skip(k), (n - 1) as nat) {
                Some((vs, k2)) => Some((seq![v] + vs, k + k2)),
                None => None,
            },
            None => None,
        }
    }
}

// ---------------------------------------------------------------------------
// Byte-level facts.

/// Decoding the big-endian bytes of a `u32` gives it back.
pub proof fn lemma_u32_be_roundtrip(v: u32)
    ensures
        be_u32(u32_be(v)[0], u32_be(v)[1], u32_be(v)[2], u32_be(v)[3]) == v,
{
    let b0 = (v >> 24u32) as u8;
    let b1 = (v >> 16u32) as u8;
    let b2 = (v >> 8u32) as u8;
    let b3 = v as u8;
    assert(((b0 as u32) << 24u32) | ((b1 as u32) << 16u32) | ((b2 as u32) << 8u32) | (b3 as u32)
        == v) by (bit_vector)
        requires
            b0 == (v >> 24u32) as u8,
            b1 == (v >> 16u32) as u8,
            b2 == (v >> 8u32) as u8,
            b3 == v as u8,
    ;
}

/// Joining the two halves of a `u64` gives it back.
pub proof fn lemma_u64_halves(v: u64)
    ensures
        ((((v >> 32u64) as u32) as u64) << 32u64) | ((v as u32) as u64) == v,
{
    assert(((((v >> 32u64) as u32) as u64) << 32u64) | ((v as u32) as u64) == v) by (bit_vector);
}

/// A signed value survives a round trip through its unsigned bit pattern.
pub proof fn lemma_i64_u64_roundtrip(v: i64)
    ensures
        ((v as u64) as i64) == v,
{
    assert(((v as u64) as i64) == v) by (bit_vector);
}

/// The `u32` read at index `i` of `s` is `v` when `s` holds `u32_be(v)` there.
pub proof fn lemma_be_u32_at(s: Seq<u8>, i: int, v: u32)
    requires
        0 <= i,
        i + 4 <= s.len(),
        s.subrange(i, i + 4) == u32_be(v),
    ensures
        be_u32_at(s, i) == v,
{
    assert(s[i] == s.subrange(i, i + 4)[0]);
    assert(s[i + 1] == s.subrange(i, i + 4)[1]);
    assert(s[i + 2] == s.subrange(i, i + 4)[2]);
    assert(s[i + 3] == s.subrange(i, i + 4)[3]);
    lemma_u32_be_roundtrip(v);
}

/// The `u64` read at index `i` of `s` is `v` when `s` holds `u64_be(v)` there.
pub proof fn lemma_be_u64_at(s: Seq<u8>, i: int, v: u64)
    requires
        0 <= i,
        i + 8 <= s.len(),
        s.subrange(i, i + 8) == u64_be(v),
    ensures
        be_u64_at(s, i) == v,
{
    assert(s.subrange(i, i + 4) =~= s.subrange(i, i + 8).subrange(0, 4));
    assert(s.subrange(i + 4, i + 8) =~= s.subrange(i, i + 8).subrange(4, 8));
    assert(u64_be(v).subrange(0, 4) =~= u32_be((v >> 32u64) as u32));
    assert(u64_be(v).subrange(4, 8) =~= u32_be(v as u32));
    lemma_be_u32_at(s, i, (v >> 32u64) as u32);
    lemma_be_u32_at(s, i + 4, v as u32);
    lemma_u64_halves(v);
}

/// Only one index can be the first nul at or after `i`.
pub proof fn lemma_first_nul_unique(s: Seq<u8>, i: int, j1: int, j2: int)
    requires
        is_first_nul(s, i, j1),
        is_first_nul(s, i, j2),
    ensures
        j1 == j2,
{
    if j1 < j2 {
        assert(s[j1] != 0);
    } else if j2 < j1 {
        assert(s[j2] != 0);
    }
}

// ---------------------------------------------------------------------------
// Round trips.

/// Parsing the bytes of a well-formed value that is not a property list,
/// followed by anything, gives back the value and the length of its bytes.
pub proof fn lemma_parse_scalar_bytes(v: TagValue, rest: Seq<u8>)
    requires
        wf_value(v),
        !(v is PropList),
        !(v is FormatInfo),
    ensures
        parse_scalar(scalar_bytes(v) + rest) == Some((v, scalar_bytes(v).len() as int)),
{
    reveal(parse_scalar);
    let b = scalar_bytes(v);
    let s = b + rest;
    assert(s.subrange(0, b.len() as int) =~= b);
    match v {
        TagValue::Str(x) => {
            let j = x.len() + 1int;
            assert(s[0] == TAG_STRING);
            assert(s[j] == 0);
            assert forall|k: int| 1 <= k < j implies s[k] != 0 by {
                assert(s[k] == x[k - 1]);
            }
            assert(is_first_nul(s, 1, j));
            let c = first_nul_from(s, 1);
            lemma_first_nul_unique(s, 1, j, c);
            assert(s.subrange(1, j) =~= x);
        },
        TagValue::U32(x) => {
            assert(s.subrange(1, 5) =~= u32_be(x));
            lemma_be_u32_at(s, 1, x);
        },
        TagValue::U64(x) => {
            assert(s.subrange(1, 9) =~= u64_be(x));
            lemma_be_u64_at(s, 1, x);
        },
        TagValue::S64(x) => {
            assert(s.subrange(1, 9) =~= u64_be(x as u64));
            lemma_be_u64_at(s, 1, x as u64);
            lemma_i64_u64_roundtrip(x);
        },
        TagValue::Usec(x) => {
            assert(s.subrange(1, 9) =~= u64_be(x));
            lemma_be_u64_at(s, 1, x);
        },
        TagValue::Volume(x) => {
            assert(s.subrange(1, 5) =~= u32_be(x));
            lemma_be_u32_at(s, 1, x);
        },
        TagValue::TimeVal(m) => {
            let a = (m / MICROS_PER_SEC) as u32;
            let c = (m % MICROS_PER_SEC) as u32;
            assert(s.subrange(1, 5) =~= u32_be(a));
            assert(s.subrange(5, 9) =~= u32_be(c));
            lemma_be_u32_at(s, 1, a);
            lemma_be_u32_at(s, 5, c);
            assert(a as u64 * MICROS_PER_SEC + c as u64 == m) by (nonlinear_arith)
                requires
                    a == m / MICROS_PER_SEC,
                    c == m % MICROS_PER_SEC,
                    MICROS_PER_SEC == 1_000_000,
            ;
        },
        TagValue::Arbitrary(x) => {
            let n = x.len() as u32;
            assert(s.subrange(1, 5) =~= u32_be(n));
            lemma_be_u32_at(s, 1, n);
            assert(s.subrange(5, 5 + x.len() as int) =~= x);
        },
        TagValue::CVolume(vs) => {
            let n = vs.len();
            assert(s[1] == n as u8);
            assert forall|i: int| 0 <= i < n implies be_u32_at(s, 2 + 4 * i) == vs[i] by {
                assert((4 * i) / 4 == i);
                assert((4 * i + 1) / 4 == i && (4 * i + 1) % 4 == 1);
                assert((4 * i + 2) / 4 == i && (4 * i + 2) % 4 == 2);
                assert((4 * i + 3) / 4 == i && (4 * i + 3) % 4 == 3);
                assert(s.subrange(2 + 4 * i, 2 + 4 * i + 4) =~= u32_be(vs[i]));
                lemma_be_u32_at(s, 2 + 4 * i, vs[i]);
            }
            assert(Seq::new(n as nat, |i: int| be_u32_at(s, 2 + 4 * i)) =~= vs);
        },
        TagValue::SampleSpec(f, c, r) => {
            assert(s.subrange(3, 7) =~= u32_be(r));
            lemma_be_u32_at(s, 3, r);
        },
        TagValue::ChannelMap(ps) => {
            assert(s[1] == ps.len() as u8);
            assert(s.subrange(2, 2 + ps.len() as int) =~= ps);
        },
        _ => {},
    }
}

/// Setting a property whose key is not in the list appends it.
pub proof fn lemma_props_insert_new(ps: Seq<PropEntry>, key: Seq<u8>, value: Seq<u8>)
    requires
        !props_has_key(ps, key),
    ensures
        props_insert(ps, key, value) == ps.push((key, value)),
{
}

/// Parsing the bytes of one well-formed property, followed by anything,
/// gives the property and the length of its bytes.
pub proof fn lemma_parse_prop_entry_bytes(e: PropEntry, t: Seq<u8>)
    requires
        no_nul(e.0),
        e.1.len() <= u32::MAX,
    ensures
        parse_prop_entry(prop_entry_bytes(e) + t) == Some((Some(e), prop_entry_bytes(e).len() as int)),
{
    let s = prop_entry_bytes(e) + t;
    let b1 = scalar_bytes(TagValue::Str(e.0));
    let b2 = scalar_bytes(TagValue::U32(e.1.len() as u32));
    let b3 = scalar_bytes(TagValue::Arbitrary(e.1));
    assert(s =~= b1 + (b2 + (b3 + t)));
    lemma_parse_scalar_bytes(TagValue::Str(e.0), b2 + (b3 + t));
    assert(s.skip(b1.len() as int) =~= b2 + (b3 + t));
    lemma_parse_scalar_bytes(TagValue::U32(e.1.len() as u32), b3 + t);
    assert((b2 + (b3 + t)).skip(b2.len() as int) =~= b3 + t);
    lemma_parse_scalar_bytes(TagValue::Arbitrary(e.1), t);
}

/// The properties after the first of a well-formed list are well-formed.
proof fn lemma_props_wf_drop_first(ps: Seq<PropEntry>)
    requires
        props_wf(ps),
        ps.len() > 0,
    ensures
        props_wf(ps.drop_first()),
{
    let tail = ps.drop_first();
    assert forall|i: int| 0 <= i < tail.len() implies no_nul(#[trigger] tail[i].0) by {
        assert(tail[i] == ps[i + 1]);
    }
    assert forall|i: int| 0 <= i < tail.len() implies (#[trigger] tail[i].1).len() <= u32::MAX by {
        assert(tail[i] == ps[i + 1]);
    }
    assert forall|i: int, j: int| 0 <= i < j < tail.len() implies tail[i].0 != tail[j].0 by {
        assert(tail[i] == ps[i + 1]);
        assert(tail[j] == ps[j + 1]);
    }
}

/// After moving the first property of a well-formed list into `acc`, the
/// remaining keys are still new to `acc`.
proof fn lemma_props_keys_new_after_push(ps: Seq<PropEntry>, acc: Seq<PropEntry>)
    requires
        props_wf(ps),
        ps.len() > 0,
        forall|i: int| 0 <= i < ps.len() ==> !props_has_key(acc, #[trigger] ps[i].0),
    ensures
        forall|i: int|
            0 <= i < ps.drop_first().len() ==> !props_has_key(
                acc.push(ps[0]),
                #[trigger] ps.drop_first()[i].0,
            ),
{
    let tail = ps.drop_first();
    let acc2 = acc.push(ps[0]);
    assert forall|i: int| 0 <= i < tail.len() implies !props_has_key(acc2, #[trigger] tail[i].0) by {
        assert(tail[i] == ps[i + 1]);
        assert(!props_has_key(acc, ps[i + 1].0));
        if props_has_key(acc2, tail[i].0) {
            let k = choose|k: int| 0 <= k < acc2.len() && acc2[k].0 == tail[i].0;
            if k < acc.len() {
                assert(acc[k].0 == ps[i + 1].0);
            } else {
                assert(ps[0].0 != ps[i + 1].0);
            }
        }
    }
}

/// Parsing the bytes of a list of properties whose keys are new to `acc`,
/// followed by the terminator and anything, appends them to `acc`.
pub proof fn lemma_parse_prop_entries_bytes(ps: Seq<PropEntry>, acc: Seq<PropEntry>, rest: Seq<u8>)
    requires
        props_wf(ps),
        forall|i: int| 0 <= i < ps.len() ==> !props_has_key(acc, #[trigger] ps[i].0),
    ensures
        parse_prop_entries(props_bytes(ps) + seq![TAG_STRING_NULL] + rest, acc) == Some(
            (acc + ps, props_bytes(ps).len() + 1int),
        ),
    decreases ps.len(),
{
    let s = props_bytes(ps) + seq![TAG_STRING_NULL] + rest;
    if ps.len() == 0 {
        assert(s =~= scalar_bytes(TagValue::NullStr) + rest);
        lemma_parse_scalar_bytes(TagValue::NullStr, rest);
        assert(parse_prop_entry(s) == Some((None::<PropEntry>, 1int)));
        assert(acc + ps =~= acc);
    } else {
        let e = ps[0];
        let tail = ps.drop_first();
        let t = props_bytes(tail) + seq![TAG_STRING_NULL] + rest;
        assert(s =~= prop_entry_bytes(e) + t);
        assert(no_nul(ps[0].0) && ps[0].1.len() <= u32::MAX);
        lemma_parse_prop_entry_bytes(e, t);
        assert(s.skip(prop_entry_bytes(e).len() as int) =~= t);
        assert(!props_has_key(acc, ps[0].0));
        lemma_props_insert_new(acc, e.0, e.1);
        lemma_props_wf_drop_first(ps);
        lemma_props_keys_new_after_push(ps, acc);
        lemma_parse_prop_entries_bytes(tail, acc.push(e), rest);
        assert(acc.push(e) + tail =~= acc + ps);
    }
}

/// Parsing the bytes of a well-formed value, followed by anything, gives
/// back the value and the length of its bytes.
pub proof fn lemma_parse_value_bytes(v: TagValue, rest: Seq<u8>)
    requires
        wf_value(v),
    ensures
        parse_value(value_bytes(v) + rest) == Some((v, value_bytes(v).len() as int)),
{
    match v {
        TagValue::PropList(ps) => {
            let s = value_bytes(v) + rest;
            assert(s.skip(1) =~= props_bytes(ps) + seq![TAG_STRING_NULL] + rest);
            lemma_parse_prop_entries_bytes(ps, Seq::empty(), rest);
            assert(Seq::<PropEntry>::empty() + ps =~= ps);
        },
        TagValue::FormatInfo(e, ps) => {
            let s = value_bytes(v) + rest;
            assert(s.skip(4) =~= props_bytes(ps) + seq![TAG_STRING_NULL] + rest);
            lemma_parse_prop_entries_bytes(ps, Seq::empty(), rest);
            assert(Seq::<PropEntry>::empty() + ps =~= ps);
        },
        _ => {
            lemma_parse_scalar_bytes(v, rest);
        },
    }
}

/// Parsing the bytes of a sequence of well-formed values, followed by
/// anything, gives back the values and the length of their bytes.
pub proof fn lemma_parse_values_bytes(vs: Seq<TagValue>, rest: Seq<u8>)
    requires
        values_wf(vs),
    ensures
        parse_values(values_bytes(vs) + rest, vs.len()) == Some((vs, values_bytes(vs).len() as int)),
    decreases vs.len(),
{
    reveal(parse_values);
    if vs.len() == 0 {
        assert(Seq::<TagValue>::empty() =~= vs);
    } else {
        let b = value_bytes(vs[0]);
        let tail = vs.drop_first();
        let t = values_bytes(tail) + rest;
        assert(values_bytes(vs) + rest =~= b + t);
        lemma_parse_value_bytes(vs[0], t);
        assert((b + t).skip(b.len() as int) =~= t);
        assert forall|i: int| 0 <= i < tail.len() implies wf_value(#[trigger] tail[i]) by {
            assert(tail[i] == vs[i + 1]);
        }
        lemma_parse_values_bytes(tail, rest);
        assert(seq![vs[0]] + tail =~= vs);
    }
}

/// Appending a value appends its bytes.
pub broadcast proof fn lemma_values_bytes_push(vs: Seq<TagValue>, v: TagValue)
    ensures
        #[trigger] values_bytes(vs.push(v)) == values_bytes(vs) + value_bytes(v),
    decreases vs.len(),
{
    if vs.len() == 0 {
        assert(vs.push(v).drop_first() =~= Seq::<TagValue>::empty());
        assert(values_bytes(vs.push(v).drop_first()) == Seq::<u8>::empty());
        assert(vs.push(v)[0] == v);
        assert(values_bytes(vs.push(v)) =~= value_bytes(v));
        assert(values_bytes(vs) =~= Seq::<u8>::empty());
        assert(values_bytes(vs.push(v)) =~= values_bytes(vs) + value_bytes(v));
    } else {
        lemma_values_bytes_push(vs.drop_first(), v);
        assert(vs.push(v).drop_first() =~= vs.drop_first().push(v));
        assert(values_bytes(vs.push(v)) =~= values_bytes(vs) + value_bytes(v));
    }
}

/// The values of an empty sequence take no bytes.
pub broadcast proof fn lemma_values_bytes_empty()
    ensures
        #[trigger] values_bytes(Seq::<TagValue>::empty()) == Seq::<u8>::empty(),
{
    assert(values_bytes(Seq::<TagValue>::empty()) =~= Seq::<u8>::empty());
}

/// The facts about the bytes of value sequences that writers rely on.
pub broadcast group group_values_bytes {
    lemma_values_bytes_push,
    lemma_values_bytes_empty,
}

/// Parsing `n + 1` values parses one value, then `n` more after it.
pub proof fn lemma_parse_values_step(s: Seq<u8>, n: nat)
    ensures
        parse_values(s, n + 1) == match parse_value(s) {
            Some((v, k)) => match parse_values(s.skip(k), n) {
                Some((vs, k2)) => Some((seq![v] + vs, k + k2)),
                None => None,
            },
            None => None,
        },
{
    reveal(parse_values);
}

/// Appending a `u32` appends its four big-endian bytes.
pub proof fn lemma_u32s_be_push(vs: Seq<u32>, v: u32)
    ensures
        u32s_be(vs.push(v)) == u32s_be(vs) + u32_be(v),
{
    let a = u32s_be(vs.push(v));
    let b = u32s_be(vs) + u32_be(v);
    let n = vs.len() as int;
    assert forall|j: int| 0 <= j < 4 * n + 4 implies a[j] == b[j] by {
        if j < 4 * n {
            assert(j / 4 < n) by (nonlinear_arith)
                requires
                    0 <= j < 4 * n,
            ;
            assert(vs.push(v)[j / 4] == vs[j / 4]);
        } else {
            assert(j / 4 == n && j % 4 == j - 4 * n) by (nonlinear_arith)
                requires
                    4 * n <= j < 4 * n + 4,
            ;
        }
    }
    assert(a =~= b);
}

/// A format info is its tag, a byte value for its encoding, then a property
/// list; no other tag starts one.
pub proof fn lemma_parse_format_info(s: Seq<u8>)
    ensures
        parse_value(s) matches Some((TagValue::FormatInfo(e, ps), n)) ==> s.len() >= 4
            && s[0] == TAG_FORMAT_INFO && parse_value(s.skip(1)) == Some((TagValue::U8(e), 2int))
            && parse_value(s.skip(3)) == Some((TagValue::PropList(ps), n - 3)),
        (s.len() >= 3 && s[0] == TAG_FORMAT_INFO) ==> match (parse_value(s.skip(1)), parse_value(s.skip(3))) {
            (Some((TagValue::U8(e), _)), Some((TagValue::PropList(ps), k2))) => parse_value(s) == Some(
                (TagValue::FormatInfo(e, ps), k2 + 3),
            ),
            _ => true,
        },
        !(s.len() > 0 && s[0] == TAG_FORMAT_INFO) ==> !(parse_value(s) matches Some((TagValue::FormatInfo(_, _), _))),
        s.len() >= 1 ==> (parse_value(s.skip(1)) matches Some((TagValue::U8(_), k)) ==> k == 2 && s.len() >= 3),
{
    reveal(parse_scalar);
    if s.len() >= 4 {
        assert(s.skip(3).skip(1) =~= s.skip(4));
        assert(s.skip(1)[0] == s[1]);
        assert(s.skip(1)[1] == s[2]);
        assert(s.skip(3)[0] == s[3]);
    }
    if s.len() >= 1 {
        assert(s.skip(1).len() == s.len() - 1);
        if s.skip(1).len() > 0 {
            assert(s.skip(1)[0] == s[1]);
        }
    }
    if s.len() >= 3 && s.skip(3).len() > 0 {
        assert(s.skip(3)[0] == s[3]);
    }
}

/// A value that is not a property list is parsed as a scalar, and a
/// property list is no scalar.
pub proof fn lemma_parse_value_scalar(s: Seq<u8>)
    ensures
        !(s.len() > 0 && (s[0] == TAG_PROPLIST || s[0] == TAG_FORMAT_INFO)) ==> parse_value(s)
            == parse_scalar(s),
        (s.len() > 0 && (s[0] == TAG_PROPLIST || s[0] == TAG_FORMAT_INFO)) ==> parse_scalar(s) is None,
{
    reveal(parse_scalar);
}

/// Appending a property appends its bytes.
pub proof fn lemma_props_bytes_push(ps: Seq<PropEntry>, e: PropEntry)
    ensures
        props_bytes(ps.push(e)) == props_bytes(ps) + prop_entry_bytes(e),
    decreases ps.len(),
{
    if ps.len() == 0 {
        assert(ps.push(e).drop_first() =~= Seq::<PropEntry>::empty());
        assert(props_bytes(ps.push(e).drop_first()) == Seq::<u8>::empty());
        assert(ps.push(e)[0] == e);
        assert(props_bytes(ps.push(e)) =~= prop_entry_bytes(e));
        assert(props_bytes(ps) =~= Seq::<u8>::empty());
        assert(props_bytes(ps.push(e)) =~= props_bytes(ps) + prop_entry_bytes(e));
    } else {
        lemma_props_bytes_push(ps.drop_first(), e);
        assert(ps.push(e).drop_first() =~= ps.drop_first().push(e));
        assert(props_bytes(ps.push(e)) =~= props_bytes(ps) + prop_entry_bytes(e));
    }
}

/// Setting a property with a key without nul bytes and a value whose length
/// fits the length field keeps a list well-formed.
pub proof fn lemma_props_insert_wf(ps: Seq<PropEntry>, key: Seq<u8>, value: Seq<u8>)
    requires
        props_wf(ps),
        no_nul(key),
        value.len() <= u32::MAX,
    ensures
        props_wf(props_insert(ps, key, value)),
        props_insert(ps, key, value).len() == ps.len() + if props_has_key(ps, key) { 0int } else { 1int },
{
    let r = props_insert(ps, key, value);
    if props_has_key(ps, key) {
        let i = choose|i: int| 0 <= i < ps.len() && ps[i].0 == key;
        assert forall|a: int, b: int| 0 <= a < b < r.len() implies r[a].0 != r[b].0 by {
            assert(r[a].0 == ps[a].0);
            assert(r[b].0 == ps[b].0);
        }
    } else {
        assert forall|a: int, b: int| 0 <= a < b < r.len() implies r[a].0 != r[b].0 by {
            if b == ps.len() {
                assert(r[a].0 == ps[a].0);
            }
        }
    }
}

/// The values of a sequence and the bytes they take when `acc` has been
/// parsed from the first `off` bytes and `n` more values follow in `t`.
pub open spec fn parse_values_after(acc: Seq<TagValue>, off: int, t: Seq<u8>, n: int) -> Option<
    (Seq<TagValue>, int),
> {
    match parse_values(t, n as nat) {
        Some((vs, k)) => Some((acc + vs, off + k)),
        None => None,
    }
}

/// Parsing `n` values from `s` is parsing them after nothing.
pub proof fn lemma_parse_values_start(s: Seq<u8>, n: int)
    requires
        n >= 0,
    ensures
        parse_values(s, n as nat) == parse_values_after(Seq::empty(), 0, s, n),
        s == s.skip(0),
{
    assert(s.skip(0) =~= s);
    if let Some((vs, k)) = parse_values(s, n as nat) {
        assert(Seq::<TagValue>::empty() + vs =~= vs);
    }
}

/// Parsing `n + 1` more values from the rest `t` of `s` parses one value,
/// then `n` more after it.
pub proof fn lemma_parse_values_next(s: Seq<u8>, acc: Seq<TagValue>, t: Seq<u8>, n: int)
    requires
        n >= 0,
        t.len() <= s.len(),
        t == s.skip(s.len() - t.len()),
    ensures
        parse_values_after(acc, s.len() - t.len(), t, n + 1) == match parse_value(t) {
            Some((v, k)) => parse_values_after(acc.push(v), s.len() - t.len() + k, t.skip(k), n),
            None => None,
        },
        parse_value(t) matches Some((v, k)) ==> 0 < k <= t.len() && t.skip(k) == s.skip(
            s.len() - t.len() + k,
        ),
        parse_value(t) matches Some((v, k)) ==> (parse_values_after(
            acc.push(v),
            s.len() - t.len() + k,
            t.skip(k),
            n,
        ) matches Some((vs, _)) ==> vs[acc.len() as int] == v && acc.len() < vs.len()),
{
    lemma_parse_values_step(t, n as nat);
    assert((n + 1) as nat == n as nat + 1);
    if let Some((v, k)) = parse_value(t) {
        crate::protocol::serde::fields::lemma_parse_value_len(t);
        assert(t.skip(k) =~= s.skip(s.len() - t.len() + k));
        if let Some((vs, k2)) = parse_values(t.skip(k), n as nat) {
            assert(acc + (seq![v] + vs) =~= acc.push(v) + vs);
        }
    }
}

/// Once no value is left to parse, the values are those parsed.
pub proof fn lemma_parse_values_done(acc: Seq<TagValue>, off: int, t: Seq<u8>)
    ensures
        parse_values_after(acc, off, t, 0) == Some((acc, off)),
{
    reveal(parse_values);
    assert(acc + Seq::<TagValue>::empty() =~= acc);
}

/// The bytes of two sequences of values, one after the other, are the
/// bytes of their concatenation.
pub proof fn lemma_values_bytes_concat(a: Seq<TagValue>, b: Seq<TagValue>)
    ensures
        values_bytes(a + b) == values_bytes(a) + values_bytes(b),
    decreases b.len(),
{
    broadcast use group_values_bytes;

    if b.len() == 0 {
        assert(a + b =~= a);
        assert(values_bytes(a) + values_bytes(b) =~= values_bytes(a));
    } else {
        let b0 = b.drop_last();
        lemma_values_bytes_concat(a, b0);
        assert(a + b =~= (a + b0).push(b.last()));
        assert(b =~= b0.push(b.last()));
        assert(values_bytes(a + b) =~= values_bytes(a) + values_bytes(b));
    }
}

} // verus!
