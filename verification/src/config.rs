//! Configuration assembly: the plain shape a config source yields,
//! and the verified construction of a registry snapshot from it.
//! Reading a file or a document store, and probing devices on the
//! network, happen outside; this module takes their plain results.

use vstd::prelude::*;
use vstd::string::*;
use crate::presets::{self, Preset, PresetModel};
use crate::relays::{RelayModel, RelayType};

verus! {

/// Which kind of relay a configuration entry describes.
#[derive(Clone, Copy, Debug, PartialEq, Eq, Structural)]
pub enum ConfigRelayType {
    KasaPlug,
    KasaMultiPlug,
}

/// One relay entry of a configuration document: a single name for a
/// single-outlet relay, an ordered name list for a multi-outlet host.
pub struct ConfigRelay {
    pub relay_type: ConfigRelayType,
    pub name: String,
    pub names: Vec<String>,
    pub ip: String,
    pub room: String,
    pub tags: Vec<String>,
}

/// A registry snapshot: the devices and presets a config source
/// yielded.
pub struct Config {
    pub relays: Vec<RelayType>,
    pub presets: Vec<Preset>,
}

/// Mathematical view of a registry snapshot.
pub struct ConfigModel {
    pub relays: Seq<RelayModel>,
    pub presets: Seq<PresetModel>,
}

impl View for Config {
    type V = ConfigModel;

    open spec fn view(&self) -> ConfigModel {
        ConfigModel {
            relays: relay_models(self.relays@),
            presets: presets::preset_models(self.presets@),
        }
    }
}

/// Which backing source configuration is loaded from.
#[derive(Clone, Copy, Debug, PartialEq, Eq, Structural)]
pub enum ConfigLocation {
    MONGODB,
    LOCAL,
}

impl ConfigLocation {
    /// The printable name of the source.
    pub fn location_name(&self) -> (r: String)
        ensures
            r@ == match self {
                ConfigLocation::MONGODB => "MongoDB"@,
                ConfigLocation::LOCAL => "Local"@,
            },
    {
        match self {
            ConfigLocation::MONGODB => String::from_str("MongoDB"),
            ConfigLocation::LOCAL => String::from_str("Local"),
        }
    }
}

/// Picks the config source named by a command-line argument: `local`
/// and `mongodb` (or `mongo`) are known; anything else, or no
/// argument, falls back to the local source.
pub fn get_config_location(config: Option<String>) -> (r: ConfigLocation)
    ensures
        r == match config {
            Some(s) => {
                if s@ == "mongodb"@ || s@ == "mongo"@ {
                    ConfigLocation::MONGODB
                } else {
                    ConfigLocation::LOCAL
                }
            },
            None => ConfigLocation::LOCAL,
        },
{
    match config {
        Some(s) => {
            if s == String::from_str("mongodb") || s == String::from_str("mongo") {
                ConfigLocation::MONGODB
            } else {
                ConfigLocation::LOCAL
            }
        },
        None => ConfigLocation::LOCAL,
    }
}

/// Views of a vector of relays.
pub open spec fn relay_models(s: Seq<RelayType>) -> Seq<RelayModel> {
    Seq::new(s.len(), |i: int| s[i]@)
}

/// The first relay whose stored name is exactly the given one.
pub open spec fn find_relay_name(s: Seq<RelayModel>, name: Seq<char>) -> Option<int>
    decreases s.len(),
{
    if s.len() == 0 {
        None
    } else if s[0].name() == name {
        Some(0)
    } else {
        match find_relay_name(s.drop_first(), name) {
            Some(i) => Some(i + 1),
            None => None,
        }
    }
}

/// A registry with `m` written under its name: replacing the relay
/// that already carries the name, or appended at the end.
pub open spec fn upsert_relay(s: Seq<RelayModel>, m: RelayModel) -> Seq<RelayModel> {
    match find_relay_name(s, m.name()) {
        Some(i) => s.update(i, m),
        None => s.push(m),
    }
}

/// View of a probed device list: each device with whether its
/// connectivity probe succeeded.
pub open spec fn probed_models(s: Seq<(RelayType, bool)>) -> Seq<(RelayModel, bool)> {
    Seq::new(s.len(), |i: int| (s[i].0@, s[i].1))
}

/// The registry built from a probed device list: devices whose probe
/// failed are silently excluded; the rest are keyed by name, a later
/// device under the same name replacing an earlier one.
pub open spec fn fold_probed(input: Seq<(RelayModel, bool)>) -> Seq<RelayModel>
    decreases input.len(),
{
    if input.len() == 0 {
        Seq::empty()
    } else {
        let rest = fold_probed(input.drop_last());
        if input.last().1 {
            upsert_relay(rest, input.last().0)
        } else {
            rest
        }
    }
}

/// The first relay stored under exactly the given name.
pub(crate) fn find_relay_index(relays: &Vec<RelayType>, name: &String) -> (r: Option<usize>)
    ensures
        match r {
            Some(i) => 0 <= i < relays@.len() && find_relay_name(relay_models(relays@), name@)
                == Some(i as int),
            None => find_relay_name(relay_models(relays@), name@) is None,
        },
{
    let ghost ms = relay_models(relays@);
    let mut i: usize = 0;
    while i < relays.len()
        invariant
            ms == relay_models(relays@),
            i <= relays@.len(),
            forall|j: int| 0 <= j < i ==> ms[j].name() != name@,
        decreases relays@.len() - i,
    {
        if *relays[i].name_str() == *name {
            proof {
                lemma_find_relay_found(ms, name@, i as int);
            }
            return Some(i);
        }
        i += 1;
    }
    proof {
        lemma_find_relay_missing(ms, name@);
    }
    None
}

proof fn lemma_find_relay_found(s: Seq<RelayModel>, name: Seq<char>, i: int)
    requires
        0 <= i < s.len(),
        s[i].name() == name,
        forall|j: int| 0 <= j < i ==> s[j].name() != name,
    ensures
        find_relay_name(s, name) == Some(i),
    decreases i,
{
    if i == 0 {
    } else {
        assert(s[0].name() != name);
        lemma_find_relay_found(s.drop_first(), name, i - 1);
    }
}

proof fn lemma_find_relay_missing(s: Seq<RelayModel>, name: Seq<char>)
    requires
        forall|j: int| 0 <= j < s.len() ==> s[j].name() != name,
    ensures
        find_relay_name(s, name) is None,
    decreases s.len(),
{
    if s.len() > 0 {
        lemma_find_relay_missing(s.drop_first(), name);
    }
}

/// Writes one relay under its name: replaces the entry carrying the
/// name, or appends.
fn upsert_relay_exec(relays: &mut Vec<RelayType>, m: RelayType)
    ensures
        relay_models(final(relays)@) == upsert_relay(relay_models(old(relays)@), m@),
{
    let name = m.name_str().clone();
    let found = find_relay_index(relays, &name);
    match found {
        Some(i) => {
            relays.set(i, m);
            assert(relay_models(final(relays)@) =~= relay_models(old(relays)@).update(
                i as int,
                m@,
            ));
        },
        None => {
            relays.push(m);
            assert(relay_models(final(relays)@) =~= relay_models(old(relays)@).push(m@));
        },
    }
}

/// Builds the device registry from a probed device list: a device
/// whose connectivity probe failed is silently excluded, the rest are
/// keyed by name with a later device replacing an earlier one.
pub fn load_relays(probed: Vec<(RelayType, bool)>) -> (r: Vec<RelayType>)
    ensures
        relay_models(r@) == fold_probed(probed_models(probed@)),
{
    let ghost input = probed_models(probed@);
    let mut relays: Vec<RelayType> = Vec::new();
    let probed_len = probed.len();
    let mut rest = probed;
    let mut i: usize = 0;
    while i < probed_len
        invariant
            probed_len == input.len(),
            rest@.len() == probed_len - i,
            i <= probed_len,
            forall|j: int|
                0 <= j < rest@.len() ==> (rest@[j].0@, rest@[j].1) == input[i + j],
            relay_models(relays@) == fold_probed(input.take(i as int)),
        decreases probed_len - i,
    {
        let (device, connected) = rest.remove(0);
        assert((device@, connected) == input[i as int]);
        if connected {
            upsert_relay_exec(&mut relays, device);
        }
        proof {
            assert(input.take(i + 1).drop_last() =~= input.take(i as int));
            assert(input.take(i + 1).last() == input[i as int]);
        }
        i += 1;
    }
    assert(input.take(i as int) =~= input);
    relays
}

/// Assembles a registry snapshot from a probed device list and the
/// configuration's preset list.
pub fn load_config(probed: Vec<(RelayType, bool)>, preset_list: Vec<Preset>) -> (r: Config)
    ensures
        relay_models(r.relays@) == fold_probed(probed_models(probed@)),
        presets::preset_models(r.presets@) == presets::spec_load_presets(
            presets::preset_models(preset_list@),
        ),
{
    let relays = load_relays(probed);
    let loaded_presets = presets::load_presets(preset_list);
    Config { relays, presets: loaded_presets }
}

} // verus!
