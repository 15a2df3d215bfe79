//! The device model: single-outlet relays, child outlets of a
//! multi-outlet host, the requests they put on the wire, and how their
//! cached status changes when a reply comes back.

use vstd::prelude::*;
use vstd::string::*;
use vstd::utf8::encode_utf8;
use crate::codec;
use crate::errors::DeviceError;
use crate::parse;

verus! {

/// Mathematical view of a single-outlet relay.
pub struct PlugModel {
    pub ip: Seq<char>,
    pub name: Seq<char>,
    pub status: bool,
    pub room: Seq<char>,
    pub tags: Seq<Seq<char>>,
}

/// Mathematical view of one child outlet of a multi-outlet host.
pub struct MultiPlugModel {
    pub ip: Seq<char>,
    pub id: Seq<char>,
    pub name: Seq<char>,
    pub status: bool,
    pub room: Seq<char>,
    pub tags: Seq<Seq<char>>,
}

/// Mathematical view of a relay of either kind.
pub enum RelayModel {
    Plug(PlugModel),
    Multi(MultiPlugModel),
}

impl RelayModel {
    pub open spec fn name(self) -> Seq<char> {
        match self {
            RelayModel::Plug(p) => p.name,
            RelayModel::Multi(m) => m.name,
        }
    }

    pub open spec fn ip(self) -> Seq<char> {
        match self {
            RelayModel::Plug(p) => p.ip,
            RelayModel::Multi(m) => m.ip,
        }
    }

    pub open spec fn room(self) -> Seq<char> {
        match self {
            RelayModel::Plug(p) => p.room,
            RelayModel::Multi(m) => m.room,
        }
    }

    pub open spec fn status(self) -> bool {
        match self {
            RelayModel::Plug(p) => p.status,
            RelayModel::Multi(m) => m.status,
        }
    }

    pub open spec fn tags(self) -> Seq<Seq<char>> {
        match self {
            RelayModel::Plug(p) => p.tags,
            RelayModel::Multi(m) => m.tags,
        }
    }

    /// The same relay with its cached status replaced.
    pub open spec fn with_status(self, v: bool) -> RelayModel {
        match self {
            RelayModel::Plug(p) => RelayModel::Plug(PlugModel { status: v, ..p }),
            RelayModel::Multi(m) => RelayModel::Multi(MultiPlugModel { status: v, ..m }),
        }
    }

    /// The snapshot a status report shows for this relay.
    pub open spec fn snapshot(self) -> SnapshotModel {
        match self {
            RelayModel::Plug(p) => (SnapshotModel {
                ip: p.ip,
                id: None,
                name: p.name,
                status: p.status,
                room: p.room,
                tags: p.tags,
            }),
            RelayModel::Multi(m) => (SnapshotModel {
                ip: m.ip,
                id: Some(m.id),
                name: m.name,
                status: m.status,
                room: m.room,
                tags: m.tags,
            }),
        }
    }

    /// The command text a mutation of this relay puts on the wire.
    pub open spec fn mutate_cmd(self, on: bool) -> Seq<u8> {
        match self {
            RelayModel::Plug(_) => encode_utf8(plug_mutate_text(on)),
            RelayModel::Multi(m) => encode_utf8(multi_mutate_text(m.id, on)),
        }
    }
}

/// A single-outlet relay: identity, address, tags, and the cached
/// status observed last.
pub struct KasaPlug {
    pub ip: String,
    pub name: String,
    pub status: bool,
    pub room: String,
    pub tags: Vec<String>,
}

/// One child outlet of a multi-outlet host, addressed by the host's
/// reported child id.
pub struct KasaMultiPlug {
    pub ip: String,
    pub id: String,
    pub name: String,
    pub status: bool,
    pub room: String,
    pub tags: Vec<String>,
}

/// A relay of either kind, under one capability surface.
pub enum RelayType {
    KasaPlug(KasaPlug),
    KasaMultiPlug(KasaMultiPlug),
}

impl View for KasaPlug {
    type V = PlugModel;

    open spec fn view(&self) -> PlugModel {
        PlugModel {
            ip: self.ip@,
            name: self.name@,
            status: self.status,
            room: self.room@,
            tags: self.tags.deep_view(),
        }
    }
}

impl View for KasaMultiPlug {
    type V = MultiPlugModel;

    open spec fn view(&self) -> MultiPlugModel {
        MultiPlugModel {
            ip: self.ip@,
            id: self.id@,
            name: self.name@,
            status: self.status,
            room: self.room@,
            tags: self.tags.deep_view(),
        }
    }
}

impl View for RelayType {
    type V = RelayModel;

    open spec fn view(&self) -> RelayModel {
        match self {
            RelayType::KasaPlug(p) => RelayModel::Plug(p@),
            RelayType::KasaMultiPlug(m) => RelayModel::Multi(m@),
        }
    }
}

/// A snapshot of one relay for status reporting; it reads only the
/// cache and never touches the wire.
pub struct RelaySnapshot {
    pub ip: String,
    pub id: Option<String>,
    pub name: String,
    pub status: bool,
    pub room: String,
    pub tags: Vec<String>,
}

/// Mathematical view of a snapshot.
pub struct SnapshotModel {
    pub ip: Seq<char>,
    pub id: Option<Seq<char>>,
    pub name: Seq<char>,
    pub status: bool,
    pub room: Seq<char>,
    pub tags: Seq<Seq<char>>,
}

impl View for RelaySnapshot {
    type V = SnapshotModel;

    open spec fn view(&self) -> SnapshotModel {
        SnapshotModel {
            ip: self.ip@,
            id: match self.id {
                Some(s) => Some(s@),
                None => None,
            },
            name: self.name@,
            status: self.status,
            room: self.room@,
            tags: self.tags.deep_view(),
        }
    }
}

/// One transport round trip to make: the host to reach and the framed
/// bytes to send.
pub struct TransportRequest {
    pub ip: String,
    pub frame: Vec<u8>,
}

/// Mathematical view of a transport request.
pub struct RequestModel {
    pub ip: Seq<char>,
    pub frame: Seq<u8>,
}

impl View for TransportRequest {
    type V = RequestModel;

    open spec fn view(&self) -> RequestModel {
        RequestModel { ip: self.ip@, frame: self.frame@ }
    }
}

/// The status-query command text, shared by both relay kinds.
pub open spec fn status_cmd_text() -> Seq<char> {
    "{\"system\":{\"get_sysinfo\":{}}}"@
}

/// The status-query command bytes.
pub open spec fn status_cmd() -> Seq<u8> {
    encode_utf8(status_cmd_text())
}

/// The mutation command text of a single-outlet relay.
pub open spec fn plug_mutate_text(on: bool) -> Seq<char> {
    if on {
        "{\"system\":{\"set_relay_state\":{\"state\":1}}}"@
    } else {
        "{\"system\":{\"set_relay_state\":{\"state\":0}}}"@
    }
}

/// The mutation command text of a child outlet: the shared command,
/// scoped to the child's id.
pub open spec fn multi_mutate_text(id: Seq<char>, on: bool) -> Seq<char> {
    "{\"context\":{\"child_ids\":[\""@ + id + (if on {
        "\"]},\"system\":{\"set_relay_state\":{\"state\":1}}}"@
    } else {
        "\"]},\"system\":{\"set_relay_state\":{\"state\":0}}}"@
    })
}

/// The state of the child with the given id, in a host-reported child
/// list; the first match counts.
pub open spec fn find_child(cs: Seq<(Seq<char>, i64)>, id: Seq<char>) -> Option<i64>
    decreases cs.len(),
{
    if cs.len() == 0 {
        None
    } else if cs[0].0 == id {
        Some(cs[0].1)
    } else {
        find_child(cs.drop_first(), id)
    }
}

/// What a status reply means for a relay: the fresh on/off state, or
/// why it could not be read.
pub open spec fn spec_status_outcome(r: RelayModel, payload: Seq<u8>) -> Result<bool, DeviceError> {
    match r {
        RelayModel::Plug(_) => match parse::plug_state_of(payload) {
            Some(st) => Ok(st == 1),
            None => Err(DeviceError::Malformed),
        },
        RelayModel::Multi(m) => match parse::child_states_of(payload) {
            Some(cs) => match find_child(cs, m.id) {
                Some(st) => Ok(st == 1),
                None => Err(DeviceError::NotFound),
            },
            None => Err(DeviceError::Malformed),
        },
    }
}

/// What a connectivity probe reply means: a single-outlet relay reads
/// its fresh state, a multi-outlet child only checks that the host
/// answers.
pub open spec fn spec_connected_outcome(r: RelayModel, payload: Seq<u8>) -> Result<
    bool,
    DeviceError,
> {
    match r {
        RelayModel::Plug(_) => spec_status_outcome(r, payload),
        RelayModel::Multi(_) => match parse::child_states_of(payload) {
            Some(_) => Ok(true),
            None => Err(DeviceError::Malformed),
        },
    }
}

impl KasaPlug {
    /// A fresh single-outlet relay; its status cache starts out off.
    pub fn new(ip: String, name: String, room: String, tags: Vec<String>) -> (r: Self)
        ensures
            r@ == (PlugModel {
                ip: ip@,
                name: name@,
                status: false,
                room: room@,
                tags: tags.deep_view(),
            }),
    {
        KasaPlug { ip, name, status: false, tags, room }
    }
}

impl KasaMultiPlug {
    /// The child outlets of one host: the host's reported children,
    /// in report order, paired positionally with the desired names.
    /// The shorter list bounds the result.
    pub fn new(
        ip: String,
        names: Vec<String>,
        room: String,
        tags: Vec<String>,
        children: Vec<(String, i64)>,
    ) -> (r: Vec<KasaMultiPlug>)
        ensures
            r@.len() == if children@.len() <= names@.len() {
                children@.len()
            } else {
                names@.len()
            },
            forall|i: int|
                0 <= i < r@.len() ==> r@[i]@ == (MultiPlugModel {
                    ip: ip@,
                    id: children.deep_view()[i].0,
                    name: names.deep_view()[i],
                    status: children.deep_view()[i].1 == 1,
                    room: room@,
                    tags: tags.deep_view(),
                }),
    {
        let mut result: Vec<KasaMultiPlug> = Vec::new();
        let count: usize = if children.len() <= names.len() {
            children.len()
        } else {
            names.len()
        };
        let mut i: usize = 0;
        while i < count
            invariant
                count <= children@.len(),
                count <= names@.len(),
                i <= count,
                result@.len() == i,
                forall|j: int|
                    0 <= j < i ==> result@[j]@ == (MultiPlugModel {
                        ip: ip@,
                        id: children.deep_view()[j].0,
                        name: names.deep_view()[j],
                        status: children.deep_view()[j].1 == 1,
                        room: room@,
                        tags: tags.deep_view(),
                    }),
            decreases count - i,
        {
            let child_id = children[i].0.clone();
            let child_on = children[i].1 == 1;
            result.push(
                KasaMultiPlug {
                    ip: ip.clone(),
                    id: child_id,
                    name: names[i].clone(),
                    status: child_on,
                    room: room.clone(),
                    tags: clone_strings(&tags),
                },
            );
            i += 1;
        }
        result
    }
}

impl KasaMultiPlug {
    /// The child outlets read straight from a decoded host status
    /// reply: the reported children paired positionally with the
    /// desired names, or nothing when the reply does not parse.
    pub fn from_host_reply(
        ip: String,
        names: Vec<String>,
        room: String,
        tags: Vec<String>,
        payload: &Vec<u8>,
    ) -> (r: Option<Vec<KasaMultiPlug>>)
        ensures
            r is Some <==> parse::child_states_of(payload@) is Some,
            r is Some ==> ({
                let cs = parse::child_states_of(payload@).unwrap();
                let plugs = r.unwrap();
                &&& plugs@.len() == if cs.len() <= names@.len() {
                    cs.len()
                } else {
                    names@.len()
                }
                &&& forall|i: int|
                    0 <= i < plugs@.len() ==> plugs@[i]@ == (MultiPlugModel {
                        ip: ip@,
                        id: cs[i].0,
                        name: names.deep_view()[i],
                        status: cs[i].1 == 1,
                        room: room@,
                        tags: tags.deep_view(),
                    })
            }),
    {
        match parse::parse_children(payload) {
            Some(children) => Some(KasaMultiPlug::new(ip, names, room, tags, children)),
            None => None,
        }
    }
}

/// A copy of a vector of strings, text for text.
pub fn clone_strings(v: &Vec<String>) -> (r: Vec<String>)
    ensures
        r.deep_view() == v.deep_view(),
{
    let mut r: Vec<String> = Vec::new();
    let mut i: usize = 0;
    while i < v.len()
        invariant
            i <= v@.len(),
            r@.len() == i,
            forall|j: int| 0 <= j < i ==> r.deep_view()[j] == v.deep_view()[j],
        decreases v@.len() - i,
    {
        r.push(v[i].clone());
        i += 1;
    }
    assert(r.deep_view() =~= v.deep_view());
    r
}

impl RelayType {
    /// The relay's unique name.
    pub fn name_str(&self) -> (r: &String)
        ensures
            r@ == self@.name(),
    {
        match self {
            RelayType::KasaPlug(p) => &p.name,
            RelayType::KasaMultiPlug(m) => &m.name,
        }
    }

    /// The relay's room.
    pub fn room_str(&self) -> (r: &String)
        ensures
            r@ == self@.room(),
    {
        match self {
            RelayType::KasaPlug(p) => &p.room,
            RelayType::KasaMultiPlug(m) => &m.room,
        }
    }

    /// The relay's cached status.
    pub fn status(&self) -> (r: bool)
        ensures
            r == self@.status(),
    {
        match self {
            RelayType::KasaPlug(p) => p.status,
            RelayType::KasaMultiPlug(m) => m.status,
        }
    }

    /// Whether the relay carries the given tag.
    pub fn has_tag(&self, tag: &String) -> (r: bool)
        ensures
            r == self@.tags().contains(tag@),
    {
        match self {
            RelayType::KasaPlug(p) => crate::text::vec_contains_string(&p.tags, tag),
            RelayType::KasaMultiPlug(m) => crate::text::vec_contains_string(&m.tags, tag),
        }
    }

    /// The cache-only snapshot used for status reporting.
    pub fn snapshot(&self) -> (r: RelaySnapshot)
        ensures
            r@ == self@.snapshot(),
    {
        match self {
            RelayType::KasaPlug(p) => RelaySnapshot {
                ip: p.ip.clone(),
                id: None,
                name: p.name.clone(),
                status: p.status,
                room: p.room.clone(),
                tags: clone_strings(&p.tags),
            },
            RelayType::KasaMultiPlug(m) => RelaySnapshot {
                ip: m.ip.clone(),
                id: Some(m.id.clone()),
                name: m.name.clone(),
                status: m.status,
                room: m.room.clone(),
                tags: clone_strings(&m.tags),
            },
        }
    }

    /// The transport round trip that queries the relay's fresh status.
    pub fn status_request(&self) -> (r: TransportRequest)
        ensures
            r@ == (RequestModel { ip: self@.ip(), frame: codec::frame(status_cmd()) }),
    {
        let cmd: Vec<u8> = ("{\"system\":{\"get_sysinfo\":{}}}").as_bytes_vec();
        let ip = match self {
            RelayType::KasaPlug(p) => p.ip.clone(),
            RelayType::KasaMultiPlug(m) => m.ip.clone(),
        };
        TransportRequest { ip, frame: codec::encrypt(&cmd) }
    }

    /// The transport round trip that switches the relay on or off.
    pub fn mutate_request(&self, desired: bool) -> (r: TransportRequest)
        ensures
            r@ == (RequestModel { ip: self@.ip(), frame: codec::frame(self@.mutate_cmd(desired)) }),
    {
        match self {
            RelayType::KasaPlug(p) => {
                let cmd: Vec<u8> = if desired {
                    ("{\"system\":{\"set_relay_state\":{\"state\":1}}}").as_bytes_vec()
                } else {
                    ("{\"system\":{\"set_relay_state\":{\"state\":0}}}").as_bytes_vec()
                };
                TransportRequest { ip: p.ip.clone(), frame: codec::encrypt(&cmd) }
            },
            RelayType::KasaMultiPlug(m) => {
                let mut text = String::from_str("{\"context\":{\"child_ids\":[\"");
                text.append(m.id.as_str());
                if desired {
                    text.append("\"]},\"system\":{\"set_relay_state\":{\"state\":1}}}");
                } else {
                    text.append("\"]},\"system\":{\"set_relay_state\":{\"state\":0}}}");
                }
                let cmd: Vec<u8> = text.as_str().as_bytes_vec();
                TransportRequest { ip: m.ip.clone(), frame: codec::encrypt(&cmd) }
            },
        }
    }

    /// Reads a status reply: on success the cache takes the reported
    /// state; on failure the cache is left alone and the error says
    /// why.
    pub fn apply_status_reply(&mut self, payload: &Vec<u8>) -> (r: Result<bool, DeviceError>)
        ensures
            r == spec_status_outcome(old(self)@, payload@),
            match r {
                Ok(b) => final(self)@ == old(self)@.with_status(b),
                Err(_) => final(self)@ == old(self)@,
            },
    {
        match self {
            RelayType::KasaPlug(p) => match parse::parse_plug_state(payload) {
                Some(st) => {
                    let fresh = st == 1;
                    p.status = fresh;
                    Ok(fresh)
                },
                None => Err(DeviceError::Malformed),
            },
            RelayType::KasaMultiPlug(m) => match parse::parse_children(payload) {
                Some(children) => match find_child_state(&children, &m.id) {
                    Some(st) => {
                        let fresh = st == 1;
                        m.status = fresh;
                        Ok(fresh)
                    },
                    None => Err(DeviceError::NotFound),
                },
                None => Err(DeviceError::Malformed),
            },
        }
    }

    /// Reads a mutation reply: an acknowledgement moves the cache to
    /// the desired state; anything else leaves it alone.
    pub fn apply_mutate_reply(&mut self, desired: bool, payload: &Vec<u8>) -> (r: bool)
        ensures
            r == parse::mutate_ack_of(payload@),
            r ==> final(self)@ == old(self)@.with_status(desired),
            !r ==> final(self)@ == old(self)@,
    {
        if parse::parse_mutate_ack(payload) {
            match self {
                RelayType::KasaPlug(p) => p.status = desired,
                RelayType::KasaMultiPlug(m) => m.status = desired,
            }
            true
        } else {
            false
        }
    }

    /// Reads a connectivity-probe reply; a single-outlet relay also
    /// takes the fresh state into its cache.
    pub fn apply_connected_reply(&mut self, payload: &Vec<u8>) -> (r: Result<bool, DeviceError>)
        ensures
            r == spec_connected_outcome(old(self)@, payload@),
            match r {
                Ok(b) => final(self)@ == (match old(self)@ {
                    RelayModel::Plug(_) => old(self)@.with_status(b),
                    RelayModel::Multi(_) => old(self)@,
                }),
                Err(_) => final(self)@ == old(self)@,
            },
    {
        match self {
            RelayType::KasaPlug(_) => self.apply_status_reply(payload),
            RelayType::KasaMultiPlug(_) => match parse::parse_children(payload) {
                Some(_) => Ok(true),
                None => Err(DeviceError::Malformed),
            },
        }
    }
}

/// The first child with the given id in a parsed child list, and its
/// state.
fn find_child_state(children: &Vec<(String, i64)>, id: &String) -> (r: Option<i64>)
    ensures
        r == find_child(children.deep_view(), id@),
{
    let ghost cs = children.deep_view();
    assert(cs.skip(0) =~= cs);
    let mut i: usize = 0;
    while i < children.len()
        invariant
            cs == children.deep_view(),
            i <= children@.len(),
            find_child(cs, id@) == find_child(cs.skip(i as int), id@),
        decreases children@.len() - i,
    {
        assert(cs.skip(i as int)[0] == cs[i as int]);
        if children[i].0 == *id {
            assert(cs[i as int].0 == id@);
            return Some(children[i].1);
        }
        assert(cs.skip(i as int).drop_first() =~= cs.skip(i + 1));
        i += 1;
    }
    assert(cs.skip(i as int).len() == 0);
    None
}

/// Entries of a registry snapshot, keyed by name and compared by
/// value.
pub trait ConfigEntry: View + Sized {
    /// Whether two entries hold the same value, field for field.
    fn value_eq(&self, other: &Self) -> (r: bool)
        ensures
            r == (self@ == other@),
    ;
}

/// Whether some entry of `m` holds the same value as `x`.
pub open spec fn has_equal_entry<T: ConfigEntry>(m: Seq<T>, x: T) -> bool {
    exists|j: int| 0 <= j < m.len() && m[j]@ == x@
}

/// Whether two registry snapshots hold the same entries by value,
/// regardless of order.
pub open spec fn config_maps_equal<T: ConfigEntry>(a: Seq<T>, b: Seq<T>) -> bool {
    a.len() == b.len() && forall|i: int| 0 <= i < a.len() ==> has_equal_entry(b, a[i])
}

/// Whether two registry snapshots are equal by value: same size, and
/// every entry of the first has a value-equal entry in the second.
/// With unique names on both sides this is equality of the name-keyed
/// maps.
pub fn config_equals<T: ConfigEntry>(map1: &Vec<T>, map2: &Vec<T>) -> (r: bool)
    ensures
        r == config_maps_equal(map1@, map2@),
{
    if map1.len() != map2.len() {
        return false;
    }
    let mut i: usize = 0;
    while i < map1.len()
        invariant
            map1@.len() == map2@.len(),
            i <= map1@.len(),
            forall|k: int| 0 <= k < i ==> has_equal_entry(map2@, map1@[k]),
        decreases map1@.len() - i,
    {
        let mut found = false;
        let mut j: usize = 0;
        while j < map2.len() && !found
            invariant
                j <= map2@.len(),
                i < map1@.len(),
                found ==> has_equal_entry(map2@, map1@[i as int]),
                !found ==> forall|k: int| 0 <= k < j ==> map2@[k]@ != map1@[i as int]@,
            decreases map2@.len() - j + (if found {
                0int
            } else {
                1int
            }),
        {
            if map1[i].value_eq(&map2[j]) {
                found = true;
                assert(map2@[j as int]@ == map1@[i as int]@);
            } else {
                j += 1;
            }
        }
        if !found {
            assert(!has_equal_entry(map2@, map1@[i as int]));
            return false;
        }
        i += 1;
    }
    true
}

impl ConfigEntry for RelayType {
    fn value_eq(&self, other: &Self) -> (r: bool) {
        match (self, other) {
            (RelayType::KasaPlug(a), RelayType::KasaPlug(b)) => {
                let r = a.ip == b.ip && a.name == b.name && a.status == b.status && a.room == b.room
                    && crate::text::string_vecs_equal(&a.tags, &b.tags);
                proof {
                    if r {
                        assert(a@ == b@);
                    } else {
                        assert(a@ != b@);
                    }
                }
                r
            },
            (RelayType::KasaMultiPlug(a), RelayType::KasaMultiPlug(b)) => {
                let r = a.ip == b.ip && a.id == b.id && a.name == b.name && a.status == b.status
                    && a.room == b.room && crate::text::string_vecs_equal(&a.tags, &b.tags);
                proof {
                    if r {
                        assert(a@ == b@);
                    } else {
                        assert(a@ != b@);
                    }
                }
                r
            },
            _ => false,
        }
    }
}

} // verus!
