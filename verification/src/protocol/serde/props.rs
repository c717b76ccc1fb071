//! Property lists: string keys mapped to byte values, which describe
//! clients, streams, devices and events.

use vstd::prelude::*;

use super::super::error::ProtocolError;
use super::cstr::CString;
use super::wire::{
    PropEntry, TAG_PROPLIST, TAG_STRING_NULL, TagValue, lemma_parse_prop_entry_len,
    lemma_parse_value_scalar, lemma_props_bytes_push, lemma_props_insert_wf, no_nul,
    parse_prop_entries, parse_prop_entry, parse_scalar,
    parse_value, props_bytes, props_get, props_has_key, props_insert,
    props_wf, value_bytes, lemma_parse_values_bytes, parse_values,
};
use super::fields::{lemma_parse_value_len, lemma_parse_values_1, lemma_values_bytes_1};
use super::{Tag, TagStructRead, TagStructReader, TagStructWrite, TagStructWriter};
use vstd::string::StringSliceAdditionalSpecFns;

verus! {

/// How an update of a property list combines with the list it updates.
#[derive(Debug, Copy, Clone, PartialEq, Eq, Structural)]
pub enum PropsUpdateMode {
    /// Replace the whole list.
    SetAll,
    /// Add the new properties, keeping the values of existing ones.
    Merge,
    /// Add the new properties, replacing the values of existing ones.
    Replace,
}

/// The number that stands for an update mode on the wire.
pub open spec fn update_mode_code(m: PropsUpdateMode) -> u32 {
    match m {
        PropsUpdateMode::SetAll => 0,
        PropsUpdateMode::Merge => 1,
        PropsUpdateMode::Replace => 2,
    }
}

/// The update mode a number stands for, if any.
pub open spec fn update_mode_of_code(v: u32) -> Option<PropsUpdateMode> {
    if v == 0 {
        Some(PropsUpdateMode::SetAll)
    } else if v == 1 {
        Some(PropsUpdateMode::Merge)
    } else if v == 2 {
        Some(PropsUpdateMode::Replace)
    } else {
        None
    }
}

impl PropsUpdateMode {
    /// The number that stands for the mode on the wire.
    pub fn to_u32(self) -> (r: u32)
        ensures
            r == update_mode_code(self),
    {
        match self {
            PropsUpdateMode::SetAll => 0,
            PropsUpdateMode::Merge => 1,
            PropsUpdateMode::Replace => 2,
        }
    }

    /// The mode a number stands for, or `None` for a number that stands for
    /// none.
    pub fn from_u32(v: u32) -> (r: Option<PropsUpdateMode>)
        ensures
            r == update_mode_of_code(v),
    {
        if v == 0 {
            Some(PropsUpdateMode::SetAll)
        } else if v == 1 {
            Some(PropsUpdateMode::Merge)
        } else if v == 2 {
            Some(PropsUpdateMode::Replace)
        } else {
            None
        }
    }
}

/// Every update mode is read back from its own number.
pub proof fn lemma_update_mode_roundtrip(m: PropsUpdateMode)
    ensures
        update_mode_of_code(update_mode_code(m)) == Some(m),
{
}

/// Reading a property back after setting it gives the value set, and
/// setting a property leaves every other property as it was.
pub proof fn lemma_props_get_insert(ps: Seq<PropEntry>, key: Seq<u8>, value: Seq<u8>, other: Seq<u8>)
    requires
        props_wf(ps),
    ensures
        props_get(props_insert(ps, key, value), key) == Some(value),
        other != key ==> props_get(props_insert(ps, key, value), other) == props_get(ps, other),
{
    let r = props_insert(ps, key, value);
    if props_has_key(ps, key) {
        let i = choose|i: int| 0 <= i < ps.len() && ps[i].0 == key;
        assert(r[i].0 == key);
        let j = choose|j: int| 0 <= j < r.len() && r[j].0 == key;
        if j != i {
            assert(ps[j].0 == key);
        }
        if other != key {
            if props_has_key(ps, other) {
                let a = choose|a: int| 0 <= a < ps.len() && ps[a].0 == other;
                assert(r[a].0 == other);
                let b = choose|b: int| 0 <= b < r.len() && r[b].0 == other;
                assert(r[b] == ps[b]);
                assert(a == b);
            }
            if props_has_key(r, other) {
                let b = choose|b: int| 0 <= b < r.len() && r[b].0 == other;
                assert(ps[b].0 == other);
            }
        }
    } else {
        assert(r[ps.len() as int].0 == key);
        let j = choose|j: int| 0 <= j < r.len() && r[j].0 == key;
        if j < ps.len() {
            assert(ps[j].0 == key);
        }
        if other != key {
            if props_has_key(ps, other) {
                let a = choose|a: int| 0 <= a < ps.len() && ps[a].0 == other;
                assert(r[a].0 == other);
                let b = choose|b: int| 0 <= b < r.len() && r[b].0 == other;
                if b < ps.len() {
                    assert(ps[b].0 == other);
                }
            }
            if props_has_key(r, other) {
                let b = choose|b: int| 0 <= b < r.len() && r[b].0 == other;
                if b < ps.len() {
                    assert(ps[b].0 == other);
                }
            }
        }
    }
}

/// Well-known properties.
#[allow(missing_docs)]
#[derive(Debug, Copy, Clone, PartialEq, Eq, Structural)]
pub enum Prop {
    MediaName,
    MediaTitle,
    MediaArtist,
    MediaRole,
    MediaFilename,
    MediaIconName,
    EventId,
    EventDescription,
    ApplicationName,
    ApplicationId,
    ApplicationVersion,
    ApplicationIconName,
    ApplicationLanguage,
    ApplicationProcessId,
    ApplicationProcessBinary,
    ApplicationProcessUser,
    ApplicationProcessHost,
    DeviceString,
    DeviceApi,
    DeviceDescription,
    DeviceClass,
    DeviceIconName,
    DeviceProfileName,
    WindowName,
    ModuleAuthor,
    ModuleDescription,
    ModuleUsage,
    ModuleVersion,
}

/// The key of a well-known property.
pub open spec fn prop_name(p: Prop) -> &'static str {
    match p {
        Prop::MediaName => "media.name",
        Prop::MediaTitle => "media.title",
        Prop::MediaArtist => "media.artist",
        Prop::MediaRole => "media.role",
        Prop::MediaFilename => "media.filename",
        Prop::MediaIconName => "media.icon_name",
        Prop::EventId => "event.id",
        Prop::EventDescription => "event.description",
        Prop::ApplicationName => "application.name",
        Prop::ApplicationId => "application.id",
        Prop::ApplicationVersion => "application.version",
        Prop::ApplicationIconName => "application.icon_name",
        Prop::ApplicationLanguage => "application.language",
        Prop::ApplicationProcessId => "application.process.id",
        Prop::ApplicationProcessBinary => "application.process.binary",
        Prop::ApplicationProcessUser => "application.process.user",
        Prop::ApplicationProcessHost => "application.process.host",
        Prop::DeviceString => "device.string",
        Prop::DeviceApi => "device.api",
        Prop::DeviceDescription => "device.description",
        Prop::DeviceClass => "device.class",
        Prop::DeviceIconName => "device.icon_name",
        Prop::DeviceProfileName => "device.profile.name",
        Prop::WindowName => "window.name",
        Prop::ModuleAuthor => "module.author",
        Prop::ModuleDescription => "module.description",
        Prop::ModuleUsage => "module.usage",
        Prop::ModuleVersion => "module.version",
    }
}

/// The bytes of the key of a well-known property.
pub open spec fn prop_key(p: Prop) -> Seq<u8> {
    prop_name(p).spec_bytes()
}

/// The bytes of an ASCII string without nul characters hold no nul byte.
proof fn lemma_ascii_key_no_nul(s: &str)
    requires
        forall|i: int| 0 <= i < s@.len() ==> '\0' < #[trigger] s@[i] <= '\u{7f}',
    ensures
        no_nul(s.spec_bytes()),
{
    vstd::string::is_ascii_spec_bytes(s);
    assert forall|i: int| 0 <= i < s.spec_bytes().len() implies s.spec_bytes()[i] != 0 by {
        let c = s@[i] as u32;
        assert(0 < c <= 127);
        assert(0 < c <= 127 ==> c as u8 != 0) by (bit_vector);
        assert(s.spec_bytes()[i] == s@[i] as u8);
        assert(s@[i] as u8 == c as u8);
    }
}

/// The key of every well-known property holds no nul byte, so it can always
/// be stored.
pub proof fn lemma_prop_key_no_nul(p: Prop)
    ensures
        no_nul(prop_key(p)),
{
    match p {
        Prop::MediaName => {
            reveal_strlit("media.name");
            lemma_ascii_key_no_nul("media.name");
        },
        Prop::MediaTitle => {
            reveal_strlit("media.title");
            lemma_ascii_key_no_nul("media.title");
        },
        Prop::MediaArtist => {
            reveal_strlit("media.artist");
            lemma_ascii_key_no_nul("media.artist");
        },
        Prop::MediaRole => {
            reveal_strlit("media.role");
            lemma_ascii_key_no_nul("media.role");
        },
        Prop::MediaFilename => {
            reveal_strlit("media.filename");
            lemma_ascii_key_no_nul("media.filename");
        },
        Prop::MediaIconName => {
            reveal_strlit("media.icon_name");
            lemma_ascii_key_no_nul("media.icon_name");
        },
        Prop::EventId => {
            reveal_strlit("event.id");
            lemma_ascii_key_no_nul("event.id");
        },
        Prop::EventDescription => {
            reveal_strlit("event.description");
            lemma_ascii_key_no_nul("event.description");
        },
        Prop::ApplicationName => {
            reveal_strlit("application.name");
            lemma_ascii_key_no_nul("application.name");
        },
        Prop::ApplicationId => {
            reveal_strlit("application.id");
            lemma_ascii_key_no_nul("application.id");
        },
        Prop::ApplicationVersion => {
            reveal_strlit("application.version");
            lemma_ascii_key_no_nul("application.version");
        },
        Prop::ApplicationIconName => {
            reveal_strlit("application.icon_name");
            lemma_ascii_key_no_nul("application.icon_name");
        },
        Prop::ApplicationLanguage => {
            reveal_strlit("application.language");
            lemma_ascii_key_no_nul("application.language");
        },
        Prop::ApplicationProcessId => {
            reveal_strlit("application.process.id");
            lemma_ascii_key_no_nul("application.process.id");
        },
        Prop::ApplicationProcessBinary => {
            reveal_strlit("application.process.binary");
            lemma_ascii_key_no_nul("application.process.binary");
        },
        Prop::ApplicationProcessUser => {
            reveal_strlit("application.process.user");
            lemma_ascii_key_no_nul("application.process.user");
        },
        Prop::ApplicationProcessHost => {
            reveal_strlit("application.process.host");
            lemma_ascii_key_no_nul("application.process.host");
        },
        Prop::DeviceString => {
            reveal_strlit("device.string");
            lemma_ascii_key_no_nul("device.string");
        },
        Prop::DeviceApi => {
            reveal_strlit("device.api");
            lemma_ascii_key_no_nul("device.api");
        },
        Prop::DeviceDescription => {
            reveal_strlit("device.description");
            lemma_ascii_key_no_nul("device.description");
        },
        Prop::DeviceClass => {
            reveal_strlit("device.class");
            lemma_ascii_key_no_nul("device.class");
        },
        Prop::DeviceIconName => {
            reveal_strlit("device.icon_name");
            lemma_ascii_key_no_nul("device.icon_name");
        },
        Prop::DeviceProfileName => {
            reveal_strlit("device.profile.name");
            lemma_ascii_key_no_nul("device.profile.name");
        },
        Prop::WindowName => {
            reveal_strlit("window.name");
            lemma_ascii_key_no_nul("window.name");
        },
        Prop::ModuleAuthor => {
            reveal_strlit("module.author");
            lemma_ascii_key_no_nul("module.author");
        },
        Prop::ModuleDescription => {
            reveal_strlit("module.description");
            lemma_ascii_key_no_nul("module.description");
        },
        Prop::ModuleUsage => {
            reveal_strlit("module.usage");
            lemma_ascii_key_no_nul("module.usage");
        },
        Prop::ModuleVersion => {
            reveal_strlit("module.version");
            lemma_ascii_key_no_nul("module.version");
        },
    }
}

impl Prop {
    /// The key of the property.
    pub fn as_str(&self) -> (r: &'static str)
        ensures
            r == prop_name(*self),
    {
        match self {
            Prop::MediaName => "media.name",
            Prop::MediaTitle => "media.title",
            Prop::MediaArtist => "media.artist",
            Prop::MediaRole => "media.role",
            Prop::MediaFilename => "media.filename",
            Prop::MediaIconName => "media.icon_name",
            Prop::EventId => "event.id",
            Prop::EventDescription => "event.description",
            Prop::ApplicationName => "application.name",
            Prop::ApplicationId => "application.id",
            Prop::ApplicationVersion => "application.version",
            Prop::ApplicationIconName => "application.icon_name",
            Prop::ApplicationLanguage => "application.language",
            Prop::ApplicationProcessId => "application.process.id",
            Prop::ApplicationProcessBinary => "application.process.binary",
            Prop::ApplicationProcessUser => "application.process.user",
            Prop::ApplicationProcessHost => "application.process.host",
            Prop::DeviceString => "device.string",
            Prop::DeviceApi => "device.api",
            Prop::DeviceDescription => "device.description",
            Prop::DeviceClass => "device.class",
            Prop::DeviceIconName => "device.icon_name",
            Prop::DeviceProfileName => "device.profile.name",
            Prop::WindowName => "window.name",
            Prop::ModuleAuthor => "module.author",
            Prop::ModuleDescription => "module.description",
            Prop::ModuleUsage => "module.usage",
            Prop::ModuleVersion => "module.version",
        }
    }
}

/// A list of properties, each a key without nul bytes and a byte value, in
/// the order they are sent. No key occurs twice.
#[derive(Debug, PartialEq, Eq)]
pub struct Props {
    entries: Vec<(CString, Vec<u8>)>,
}

/// The properties that stored entries stand for.
spec fn entries_view(es: Seq<(CString, Vec<u8>)>) -> Seq<PropEntry> {
    es.map_values(|e: (CString, Vec<u8>)| (e.0@, e.1@))
}

impl View for Props {
    type V = Seq<PropEntry>;

    closed spec fn view(&self) -> Seq<PropEntry> {
        entries_view(self.entries@)
    }
}

impl Clone for Props {
    fn clone(&self) -> (r: Self)
        ensures
            r@ == self@,
    {
        proof {
            use_type_invariant(self);
        }
        let mut entries: Vec<(CString, Vec<u8>)> = Vec::new();
        let mut i: usize = 0;
        while i < self.entries.len()
            invariant
                i <= self.entries@.len(),
                entries@.len() == i,
                entries_view(entries@) == entries_view(self.entries@).take(i as int),
            decreases self.entries@.len() - i,
        {
            let (k, v) = &self.entries[i];
            let ghost before = entries@;
            entries.push((k.duplicate(), vstd::slice::slice_to_vec(v.as_slice())));
            assert forall|j: int| 0 <= j < i + 1 implies #[trigger] entries_view(entries@)[j]
                == entries_view(self.entries@)[j] by {
                if j < i {
                    assert(entries@[j] == before[j]);
                    assert(entries_view(before)[j] == entries_view(self.entries@).take(i as int)[j]);
                }
            }
            assert(entries_view(entries@) =~= entries_view(self.entries@).take(i + 1));
            i = i + 1;
        }
        assert(entries_view(self.entries@).take(i as int) =~= entries_view(self.entries@));
        Props { entries }
    }
}

impl Props {
    #[verifier::type_invariant]
    spec fn inv(self) -> bool {
        props_wf(self@)
    }

    /// An empty property list.
    pub fn new() -> (r: Props)
        ensures
            r@ == Seq::<PropEntry>::empty(),
    {
        let r = Props { entries: Vec::new() };
        assert(r@ =~= Seq::<PropEntry>::empty());
        r
    }

    /// The number of properties.
    pub fn len(&self) -> (r: usize)
        ensures
            r == self@.len(),
    {
        self.entries.len()
    }

    /// Whether the list holds no property.
    pub fn is_empty(&self) -> (r: bool)
        ensures
            r == (self@.len() == 0),
    {
        self.entries.len() == 0
    }

    /// The position of the property with the given key, if there is one.
    fn position(&self, key: &[u8]) -> (r: Option<usize>)
        ensures
            r is Some <==> props_has_key(self@, key@),
            r matches Some(i) ==> i < self@.len() && self@[i as int].0 == key@,
    {
        let mut i: usize = 0;
        while i < self.entries.len()
            invariant
                i <= self.entries@.len(),
                self@.len() == self.entries@.len(),
                forall|k: int| 0 <= k < i ==> self@[k].0 != key@,
            decreases self.entries@.len() - i,
        {
            assert(self@[i as int] == (self.entries@[i as int].0@, self.entries@[i as int].1@));
            if self.entries[i].0.bytes_eq(key) {
                return Some(i);
            }
            i = i + 1;
        }
        None
    }

    /// The value of the property with the given key.
    pub fn get_raw(&self, key: &[u8]) -> (r: Option<&[u8]>)
        ensures
            match props_get(self@, key@) {
                Some(v) => r matches Some(b) && b@ == v,
                None => r is None,
            },
    {
        proof {
            use_type_invariant(self);
        }
        match self.position(key) {
            Some(i) => {
                let ghost j = choose|j: int| 0 <= j < self@.len() && self@[j].0 == key@;
                assert(j == i as int);
                Some(self.entries[i].1.as_slice())
            },
            None => None,
        }
    }

    /// The value of a well-known property.
    pub fn get(&self, prop: Prop) -> (r: Option<&[u8]>)
        ensures
            match props_get(self@, prop_key(prop)) {
                Some(v) => r matches Some(b) && b@ == v,
                None => r is None,
            },
    {
        self.get_raw(prop.as_str().as_bytes())
    }

    /// Sets the property `key` to `value`: replaces the value of an existing
    /// property in place, or appends a new one.
    pub fn set_raw(&mut self, key: CString, value: Vec<u8>)
        requires
            value@.len() <= u32::MAX,
        ensures
            final(self)@ == props_insert(old(self)@, key@, value@),
    {
        proof {
            use_type_invariant(&*self);
            use_type_invariant(&key);
            lemma_props_insert_wf(self@, key@, value@);
        }
        let ghost before = self@;
        let pos = self.position(key.as_bytes());
        let mut entries: Vec<(CString, Vec<u8>)> = Vec::new();
        std::mem::swap(&mut entries, &mut self.entries);
        assert(entries_view(entries@) == before);
        match pos {
            Some(i) => {
                let ghost j = choose|j: int| 0 <= j < before.len() && before[j].0 == key@;
                assert(j == i as int);
                entries.set(i, (key, value));
            },
            None => {
                entries.push((key, value));
            },
        }
        assert(entries_view(entries@) =~= props_insert(before, key@, value@));
        self.entries = entries;
    }

    /// Sets a well-known property to a string value, which is stored with
    /// its terminating nul.
    pub fn set(&mut self, prop: Prop, value: &CString)
        requires
            value@.len() < u32::MAX,
        ensures
            final(self)@ == props_insert(old(self)@, prop_key(prop), value@.push(0)),
    {
        proof {
            lemma_prop_key_no_nul(prop);
        }
        let v = value.to_bytes_with_nul();
        match CString::new(prop.as_str().as_bytes()) {
            Ok(key) => self.set_raw(key, v),
            Err(_) => {},
        }
    }
}

impl<'a> TagStructReader<'a> {
    /// Reads one item of a property list: a property, or `None` for the
    /// null string that ends the list.
    #[verifier::rlimit(100)]
    #[verifier::spinoff_prover]
    fn read_prop_entry(&mut self) -> (r: Result<Option<(CString, Vec<u8>)>, ProtocolError>)
        ensures
            final(self).version() == old(self).version(),
            match parse_prop_entry(old(self).rest()) {
                Some((None, n)) => r matches Ok(None) && final(self).rest() == old(self).rest().skip(n),
                Some((Some(e), n)) => (r matches Ok(Some(p)) && p.0@ == e.0 && p.1@ == e.1)
                    && final(self).rest() == old(self).rest().skip(n),
                None => r is Err,
            },
    {
        let ghost t = self.rest();
        proof {
            lemma_parse_value_scalar(t);
            reveal(parse_scalar);
        }
        match self.read_string()? {
            None => Ok(None),
            Some(key) => {
                let ghost t1 = self.rest();
                proof {
                    lemma_parse_value_scalar(t1);
                }
                let len = self.read_u32()?;
                let ghost t2 = self.rest();
                proof {
                    lemma_parse_value_scalar(t2);
                }
                let value = self.read_arbitrary()?;
                if value.len() != len as usize {
                    return Err(ProtocolError::Invalid("property length mismatch".to_owned()));
                }
                proof {
                    let k1 = t.len() - t1.len();
                    let k2 = t1.len() - t2.len();
                    assert(t1.skip(k2).skip(t2.len() - self.rest().len()) =~= t.skip(t.len() - self.rest().len()));
                    assert(t.skip(k1).skip(k2) =~= t1.skip(k2));
                }
                Ok(Some((key, value)))
            },
        }
    }

    /// Reads a property list.
    pub fn read_props(&mut self) -> (r: Result<Props, ProtocolError>)
        ensures
            final(self).version() == old(self).version(),
            match parse_value(old(self).rest()) {
                Some((TagValue::PropList(ps), n)) => (r matches Ok(p) && p@ == ps) && final(self).rest()
                    == old(self).rest().skip(n),
                _ => r is Err,
            },
    {
        let ghost s = self.rest();
        proof {
            lemma_parse_value_scalar(s);
            reveal(parse_scalar);
        }
        self.expect_tag(Tag::PropList)?;
        let mut props = Props::new();
        let ghost mut consumed: int = 0;
        loop
            invariant
                s == old(self).rest(),
                s.len() > 0 && s[0] == TAG_PROPLIST,
                self.version() == old(self).version(),
                0 <= consumed,
                1 + consumed <= s.len(),
                self.rest() == s.skip(1 + consumed),
                parse_prop_entries(s.skip(1), Seq::empty()) == match parse_prop_entries(
                    self.rest(),
                    props@,
                ) {
                    Some((ps, k)) => Some((ps, k + consumed)),
                    None => None,
                },
            decreases self.rest().len(),
        {
            let ghost t = self.rest();
            proof {
                lemma_parse_prop_entry_len(t);
            }
            match self.read_prop_entry()? {
                None => {
                    assert(s.skip(1 + consumed).skip(self.rest().len() as int - self.rest().len() + t.len() - self.rest().len()) =~= self.rest());
                    assert(s.skip(1 + consumed + (t.len() - self.rest().len())) =~= self.rest());
                    return Ok(props);
                },
                Some((key, value)) => {
                    proof {
                        consumed = consumed + (t.len() - self.rest().len());
                        assert(s.skip(1 + consumed) =~= self.rest());
                    }
                    props.set_raw(key, value);
                },
            }
        }
    }
}

impl TagStructWriter {
    /// Writes a property list.
    pub fn write_props(&mut self, props: &Props) -> (r: Result<(), ProtocolError>)
        ensures
            r == Ok::<(), ProtocolError>(()),
            final(self).bytes() == old(self).bytes() + value_bytes(TagValue::PropList(props@)),
            final(self).version() == old(self).version(),
    {
        proof {
            use_type_invariant(props);
        }
        self.push_byte(TAG_PROPLIST);
        let mut i: usize = 0;
        while i < props.entries.len()
            invariant
                i <= props.entries@.len(),
                props@.len() == props.entries@.len(),
                props_wf(props@),
                self.version() == old(self).version(),
                self.bytes() == old(self).bytes() + seq![TAG_PROPLIST] + props_bytes(
                    props@.take(i as int),
                ),
            decreases props.entries@.len() - i,
        {
            let (key, value) = &props.entries[i];
            let ghost e = props@[i as int];
            assert(e.1.len() <= u32::MAX);
            self.write_string(Some(key))?;
            self.write_u32(value.len() as u32)?;
            self.write_arbitrary(value.as_slice())?;
            proof {
                lemma_props_bytes_push(props@.take(i as int), e);
                assert(props@.take(i as int).push(e) =~= props@.take(i + 1));
            }
            assert(self.bytes() =~= old(self).bytes() + seq![TAG_PROPLIST] + props_bytes(
                props@.take(i + 1),
            ));
            i = i + 1;
        }
        self.push_byte(TAG_STRING_NULL);
        assert(props@.take(i as int) =~= props@);
        assert(self.bytes() =~= old(self).bytes() + value_bytes(TagValue::PropList(props@)));
        Ok(())
    }
}

impl TagStructWrite for Props {
    open spec fn spec_values(&self, protocol_version: u16) -> Seq<TagValue> {
        seq![TagValue::PropList(self@)]
    }

    open spec fn spec_writable(&self) -> bool {
        true
    }

    fn write(&self, w: &mut TagStructWriter, _protocol_version: u16) -> (r: Result<(), ProtocolError>) {
        w.write_props(self)?;
        proof {
            lemma_values_bytes_1(TagValue::PropList(self@));
        }
        Ok(())
    }
}

impl TagStructRead for Props {
    open spec fn spec_parse(s: Seq<u8>, protocol_version: u16) -> Option<(Seq<TagValue>, int)> {
        match parse_values(s, 1) {
            Some((vs, n)) => if vs[0] is PropList {
                Some((vs, n))
            } else {
                None
            },
            None => None,
        }
    }

    open spec fn spec_canonical(&self, protocol_version: u16) -> bool {
        true
    }

    open spec fn spec_encodable(&self, protocol_version: u16) -> bool {
        props_wf(self@)
    }

    fn read(ts: &mut TagStructReader, _protocol_version: u16) -> (r: Result<Self, ProtocolError>) {
        proof {
            lemma_parse_values_1(ts.rest());
            lemma_parse_value_len(ts.rest());
        }
        let p = ts.read_props()?;
        Ok(p)
    }

    proof fn lemma_roundtrip(&self, protocol_version: u16, rest: Seq<u8>) {
        lemma_parse_values_bytes(self.spec_values(protocol_version), rest);
    }
}


/// The numbers that stand for the property update modes on the wire, as the PulseAudio protocol
/// assigns them, in both directions.
pub proof fn lemma_update_mode_table()
    ensures
        update_mode_code(PropsUpdateMode::SetAll) == 0,
        update_mode_code(PropsUpdateMode::Merge) == 1,
        update_mode_code(PropsUpdateMode::Replace) == 2,
        update_mode_of_code(0) == Some(PropsUpdateMode::SetAll),
        update_mode_of_code(1) == Some(PropsUpdateMode::Merge),
        update_mode_of_code(2) == Some(PropsUpdateMode::Replace),
{
}


/// The values a [`Props`] is sent as, position by position: whatever a read
/// gives from the values `vs` holds each field from its own position.
pub proof fn lemma_props_layout(q: Props, vs: Seq<TagValue>, protocol_version: u16)
    requires
        q.spec_values(protocol_version) == vs,
    ensures
        vs == (
            seq![TagValue::PropList(q@)]
        ),
{
}

} // verus!
