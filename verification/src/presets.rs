//! Presets: named, closed-world on/off assignments over the device
//! set, the preset store with its two reserved entries, and the sorted
//! name listing.

use vstd::prelude::*;
use vstd::multiset::Multiset;
use vstd::string::*;
use crate::relays::ConfigEntry;
use crate::text;

verus! {

/// A named scene: a per-device desired state.  Devices absent from
/// the mapping are forced off when the preset is applied.
pub struct Preset {
    pub name: String,
    pub enabled: bool,
    pub relays: Vec<(String, bool)>,
}

/// Mathematical view of a preset.
pub struct PresetModel {
    pub name: Seq<char>,
    pub enabled: bool,
    pub relays: Seq<(Seq<char>, bool)>,
}

impl View for Preset {
    type V = PresetModel;

    open spec fn view(&self) -> PresetModel {
        PresetModel { name: self.name@, enabled: self.enabled, relays: self.relays.deep_view() }
    }
}

/// The desired state the mapping names for a device, if any; the
/// first entry with the name counts.
pub open spec fn relays_lookup(rs: Seq<(Seq<char>, bool)>, name: Seq<char>) -> Option<bool>
    decreases rs.len(),
{
    if rs.len() == 0 {
        None
    } else if rs[0].0 == name {
        Some(rs[0].1)
    } else {
        relays_lookup(rs.drop_first(), name)
    }
}

/// The state a preset forces on a device: the mapped value where the
/// device is named, and off everywhere else (the closed-world policy).
pub open spec fn preset_target(p: PresetModel, name: Seq<char>) -> bool {
    match relays_lookup(p.relays, name) {
        Some(v) => v,
        None => false,
    }
}

impl Preset {
    /// The state this preset forces on the device with the given name.
    pub fn target_for(&self, name: &String) -> (r: bool)
        ensures
            r == preset_target(self@, name@),
    {
        let ghost rs = self.relays.deep_view();
        assert(rs.skip(0) =~= rs);
        let mut i: usize = 0;
        while i < self.relays.len()
            invariant
                rs == self.relays.deep_view(),
                i <= self.relays@.len(),
                relays_lookup(rs, name@) == relays_lookup(rs.skip(i as int), name@),
            decreases self.relays@.len() - i,
        {
            assert(rs.skip(i as int)[0] == rs[i as int]);
            if self.relays[i].0 == *name {
                return self.relays[i].1;
            }
            assert(rs.skip(i as int).drop_first() =~= rs.skip(i + 1));
            i += 1;
        }
        assert(rs.skip(i as int).len() == 0);
        false
    }
}

/// Whether two mappings hold the same pairs in the same order.
fn relay_maps_equal(a: &Vec<(String, bool)>, b: &Vec<(String, bool)>) -> (r: bool)
    ensures
        r == (a.deep_view() == b.deep_view()),
{
    if a.len() != b.len() {
        assert(a.deep_view().len() != b.deep_view().len());
        return false;
    }
    let mut i: usize = 0;
    while i < a.len()
        invariant
            a@.len() == b@.len(),
            i <= a@.len(),
            forall|j: int| 0 <= j < i ==> a.deep_view()[j] == b.deep_view()[j],
        decreases a@.len() - i,
    {
        if !(a[i].0 == b[i].0) || a[i].1 != b[i].1 {
            assert(a.deep_view()[i as int] != b.deep_view()[i as int]);
            return false;
        }
        assert(a.deep_view()[i as int] == b.deep_view()[i as int]);
        i += 1;
    }
    assert(a.deep_view() =~= b.deep_view());
    true
}

impl ConfigEntry for Preset {
    fn value_eq(&self, other: &Self) -> (r: bool) {
        let r = self.name == other.name && self.enabled == other.enabled && relay_maps_equal(
            &self.relays,
            &other.relays,
        );
        proof {
            if r {
                assert(self@ == other@);
            } else {
                assert(self@ != other@);
            }
        }
        r
    }
}

/// Views of a vector of presets.
pub open spec fn preset_models(s: Seq<Preset>) -> Seq<PresetModel> {
    Seq::new(s.len(), |i: int| s[i]@)
}

/// The first entry with the given name.
pub open spec fn find_preset_name(s: Seq<PresetModel>, name: Seq<char>) -> Option<int>
    decreases s.len(),
{
    if s.len() == 0 {
        None
    } else if s[0].name == name {
        Some(0)
    } else {
        match find_preset_name(s.drop_first(), name) {
            Some(i) => Some(i + 1),
            None => None,
        }
    }
}

/// A store with `p` written under its name: replacing the entry that
/// already carries the name, or appended at the end.
pub open spec fn upsert_preset(s: Seq<PresetModel>, p: PresetModel) -> Seq<PresetModel> {
    match find_preset_name(s, p.name) {
        Some(i) => s.update(i, p),
        None => s.push(p),
    }
}

/// The store built from a configuration list: entries keyed by name,
/// a later entry under the same name replacing an earlier one.
pub open spec fn fold_presets(input: Seq<PresetModel>) -> Seq<PresetModel>
    decreases input.len(),
{
    if input.len() == 0 {
        Seq::empty()
    } else {
        upsert_preset(fold_presets(input.drop_last()), input.last())
    }
}

/// The reserved preset with the given name: no mapping, not enabled.
pub open spec fn reserved_preset(name: Seq<char>) -> PresetModel {
    PresetModel { name: name, enabled: false, relays: Seq::empty() }
}

/// A store with the reserved entry added, where its name is missing.
pub open spec fn ensure_reserved(s: Seq<PresetModel>, name: Seq<char>) -> Seq<PresetModel> {
    match find_preset_name(s, name) {
        Some(_) => s,
        None => s.push(reserved_preset(name)),
    }
}

/// What loading a configuration's preset list yields: the entries
/// keyed by name, and the two reserved presets `Custom` and `FullOff`
/// present in every store.
pub open spec fn spec_load_presets(input: Seq<PresetModel>) -> Seq<PresetModel> {
    ensure_reserved(ensure_reserved(fold_presets(input), "Custom"@), "FullOff"@)
}

/// The first entry with the given name, exactly as written.
pub(crate) fn find_preset_index(presets: &Vec<Preset>, name: &String) -> (r: Option<usize>)
    ensures
        match r {
            Some(i) => 0 <= i < presets@.len() && find_preset_name(preset_models(presets@), name@)
                == Some(i as int),
            None => find_preset_name(preset_models(presets@), name@) is None,
        },
{
    let ghost ms = preset_models(presets@);
    let mut i: usize = 0;
    while i < presets.len()
        invariant
            ms == preset_models(presets@),
            i <= presets@.len(),
            forall|j: int| 0 <= j < i ==> ms[j].name != name@,
        decreases presets@.len() - i,
    {
        if presets[i].name == *name {
            proof {
                lemma_find_preset_found(ms, name@, i as int);
            }
            return Some(i);
        }
        i += 1;
    }
    proof {
        lemma_find_preset_missing(ms, name@);
    }
    None
}

/// If a prefix of the store misses the name and position `i` carries
/// it, the search stops at `i`.
proof fn lemma_find_preset_found(s: Seq<PresetModel>, name: Seq<char>, i: int)
    requires
        0 <= i < s.len(),
        s[i].name == name,
        forall|j: int| 0 <= j < i ==> s[j].name != name,
    ensures
        find_preset_name(s, name) == Some(i),
    decreases i,
{
    if i == 0 {
    } else {
        assert(s[0].name != name);
        lemma_find_preset_found(s.drop_first(), name, i - 1);
    }
}

/// If no entry carries the name, the search misses.
proof fn lemma_find_preset_missing(s: Seq<PresetModel>, name: Seq<char>)
    requires
        forall|j: int| 0 <= j < s.len() ==> s[j].name != name,
    ensures
        find_preset_name(s, name) is None,
    decreases s.len(),
{
    if s.len() > 0 {
        lemma_find_preset_missing(s.drop_first(), name);
    }
}

/// Builds the preset store from a configuration list: entries keyed
/// by name with a later entry replacing an earlier one, and the two
/// reserved presets `Custom` and `FullOff` added where missing.
pub fn load_presets(from_config: Vec<Preset>) -> (r: Vec<Preset>)
    ensures
        preset_models(r@) == spec_load_presets(preset_models(from_config@)),
{
    let ghost input = preset_models(from_config@);
    let mut presets: Vec<Preset> = Vec::new();
    let mut i: usize = 0;
    let from_len = from_config.len();
    let mut rest = from_config;
    // Consume the configuration front to back, writing each entry
    // under its name.
    while i < from_len
        invariant
            from_len == input.len(),
            rest@.len() == from_len - i,
            i <= from_len,
            forall|j: int| 0 <= j < rest@.len() ==> rest@[j]@ == input[i + j],
            preset_models(presets@) == fold_presets(input.take(i as int)),
        decreases from_len - i,
    {
        let p = rest.remove(0);
        assert(p@ == input[i as int]);
        upsert_exec(&mut presets, p);
        proof {
            assert(input.take(i + 1).drop_last() =~= input.take(i as int));
            assert(input.take(i + 1).last() == input[i as int]);
        }
        i += 1;
    }
    assert(input.take(i as int) =~= input);
    ensure_reserved_exec(&mut presets, "Custom");
    ensure_reserved_exec(&mut presets, "FullOff");
    presets
}

/// Writes one preset under its name: replaces the entry carrying the
/// name, or appends.
fn upsert_exec(presets: &mut Vec<Preset>, p: Preset)
    ensures
        preset_models(final(presets)@) == upsert_preset(preset_models(old(presets)@), p@),
{
    let found = find_preset_index(presets, &p.name);
    match found {
        Some(i) => {
            presets.set(i, p);
            assert(preset_models(final(presets)@) =~= preset_models(old(presets)@).update(
                i as int,
                p@,
            ));
        },
        None => {
            presets.push(p);
            assert(preset_models(final(presets)@) =~= preset_models(old(presets)@).push(p@));
        },
    }
}

/// Adds the reserved preset with the given name where it is missing.
fn ensure_reserved_exec(presets: &mut Vec<Preset>, name: &str)
    ensures
        preset_models(final(presets)@) == ensure_reserved(preset_models(old(presets)@), name@),
{
    let owned = String::from_str(name);
    let found = find_preset_index(presets, &owned);
    match found {
        Some(_) => {},
        None => {
            let empty: Vec<(String, bool)> = Vec::new();
            assert(empty.deep_view() =~= Seq::<(Seq<char>, bool)>::empty());
            presets.push(Preset { name: owned, enabled: false, relays: empty });
            assert(preset_models(final(presets)@) =~= preset_models(old(presets)@).push(
                reserved_preset(name@),
            ));
        },
    }
}

/// All names in the listing order.
pub open spec fn preset_names(ms: Seq<PresetModel>) -> Seq<Seq<char>> {
    ms.map_values(|m: PresetModel| m.name)
}

/// A name placed into a list: before the first entry it precedes in
/// the name order.
pub open spec fn insert_sorted(x: Seq<char>, s: Seq<Seq<char>>) -> Seq<Seq<char>>
    decreases s.len(),
{
    if s.len() == 0 {
        seq![x]
    } else if text::name_leq(x, s[0]) {
        seq![x] + s
    } else {
        seq![s[0]] + insert_sorted(x, s.drop_first())
    }
}

/// Names arranged in the byte-wise lexicographic order, by insertion.
pub open spec fn sort_names(s: Seq<Seq<char>>) -> Seq<Seq<char>>
    decreases s.len(),
{
    if s.len() == 0 {
        Seq::empty()
    } else {
        insert_sorted(s.last(), sort_names(s.drop_last()))
    }
}

/// Whether a name list is arranged in the name order.
pub open spec fn names_sorted(s: Seq<Seq<char>>) -> bool {
    forall|i: int, j: int| 0 <= i < j < s.len() ==> text::name_leq(#[trigger] s[i], #[trigger] s[j])
}

/// Insertion keeps a sorted list sorted, adds exactly the inserted
/// name, and invents no other.
proof fn lemma_insert_sorted_props(x: Seq<char>, s: Seq<Seq<char>>)
    ensures
        insert_sorted(x, s).len() == s.len() + 1,
        insert_sorted(x, s).to_multiset() == s.to_multiset().insert(x),
        forall|k: int|
            0 <= k < insert_sorted(x, s).len() ==> (#[trigger] insert_sorted(x, s)[k] == x
                || s.contains(insert_sorted(x, s)[k])),
        names_sorted(s) ==> names_sorted(insert_sorted(x, s)),
    decreases s.len(),
{
    broadcast use vstd::seq_lib::group_to_multiset_ensures;
    broadcast use vstd::multiset::group_multiset_axioms;

    let out = insert_sorted(x, s);
    if s.len() == 0 {
        assert(out =~= Seq::<Seq<char>>::empty().push(x));
        assert(out.to_multiset() =~= s.to_multiset().insert(x));
    } else if text::name_leq(x, s[0]) {
        assert(out =~= seq![x] + s);
        lemma_cons_to_multiset(x, s);
        if names_sorted(s) {
            assert forall|i: int, j: int| 0 <= i < j < out.len() implies text::name_leq(
                #[trigger] out[i],
                #[trigger] out[j],
            ) by {
                if i == 0 {
                    if j == 1 {
                    } else {
                        text::lemma_name_leq_trans(x, s[0], s[j - 1]);
                    }
                }
            }
        }
    } else {
        let rest = s.drop_first();
        lemma_insert_sorted_props(x, rest);
        let ins = insert_sorted(x, rest);
        assert(out =~= seq![s[0]] + ins);
        lemma_cons_to_multiset(s[0], ins);
        lemma_cons_to_multiset(s[0], rest);
        assert(s =~= seq![s[0]] + rest);
        assert(out.to_multiset() =~= s.to_multiset().insert(x));
        assert forall|k: int| 0 <= k < out.len() implies (#[trigger] out[k] == x || s.contains(
            out[k],
        )) by {
            if k > 0 {
                if ins[k - 1] == x {
                } else {
                    assert(rest.contains(ins[k - 1]));
                    let idx = choose|idx: int| 0 <= idx < rest.len() && rest[idx] == ins[k - 1];
                    assert(s[idx + 1] == out[k]);
                }
            }
        }
        if names_sorted(s) {
            assert forall|i: int, j: int| 0 <= i < j < rest.len() implies text::name_leq(
                #[trigger] rest[i],
                #[trigger] rest[j],
            ) by {
                assert(s[i + 1] == rest[i]);
                assert(s[j + 1] == rest[j]);
            }
            assert(names_sorted(rest));
            assert(names_sorted(ins));
            text::lemma_name_leq_total(x, s[0]);
            assert forall|i: int, j: int| 0 <= i < j < out.len() implies text::name_leq(
                #[trigger] out[i],
                #[trigger] out[j],
            ) by {
                if i == 0 {
                    if ins[j - 1] == x {
                    } else {
                        assert(rest.contains(ins[j - 1]));
                        let idx = choose|idx: int| 0 <= idx < rest.len() && rest[idx] == ins[j - 1];
                        assert(text::name_leq(s[0], s[idx + 1]));
                    }
                }
            }
        }
    }
}

/// A non-empty sequence's multiset is its head inserted into its
/// tail's.
proof fn lemma_cons_to_multiset(x: Seq<char>, s: Seq<Seq<char>>)
    ensures
        (seq![x] + s).to_multiset() == s.to_multiset().insert(x),
{
    broadcast use vstd::seq_lib::group_to_multiset_ensures;
    broadcast use vstd::multiset::group_multiset_axioms;

    vstd::seq_lib::lemma_multiset_commutative(seq![x], s);
    assert(seq![x] =~= Seq::<Seq<char>>::empty().push(x));
    assert(Seq::<Seq<char>>::empty().to_multiset() =~= Multiset::<Seq<char>>::empty());
    assert(seq![x].to_multiset() =~= Multiset::<Seq<char>>::empty().insert(x));
    assert((seq![x] + s).to_multiset() =~= s.to_multiset().insert(x));
}

/// The name listing is exactly the input names, arranged in the name
/// order: sorting permutes and sorts, losing and inventing nothing.
pub proof fn lemma_sort_names_sorted(s: Seq<Seq<char>>)
    ensures
        sort_names(s).len() == s.len(),
        sort_names(s).to_multiset() == s.to_multiset(),
        names_sorted(sort_names(s)),
    decreases s.len(),
{
    broadcast use vstd::seq_lib::group_to_multiset_ensures;

    if s.len() == 0 {
        assert(sort_names(s).to_multiset() =~= s.to_multiset());
        assert(names_sorted(sort_names(s)));
    } else {
        lemma_sort_names_sorted(s.drop_last());
        lemma_insert_sorted_props(s.last(), sort_names(s.drop_last()));
        assert(s =~= s.drop_last().push(s.last()));
        assert(s.drop_last().push(s.last()).to_multiset() =~= s.drop_last().to_multiset().insert(
            s.last(),
        ));
    }
}

/// All preset names, in the byte-wise lexicographic order.
pub fn get_preset_names(presets: &Vec<Preset>) -> (r: Vec<String>)
    ensures
        r.deep_view() == sort_names(preset_names(preset_models(presets@))),
{
    let ghost names = preset_names(preset_models(presets@));
    let mut out: Vec<String> = Vec::new();
    let mut i: usize = 0;
    while i < presets.len()
        invariant
            names == preset_names(preset_models(presets@)),
            i <= presets@.len(),
            out.deep_view() == sort_names(names.take(i as int)),
        decreases presets@.len() - i,
    {
        insert_name_sorted(&mut out, presets[i].name.clone());
        proof {
            assert(names.take(i + 1).drop_last() =~= names.take(i as int));
            assert(names.take(i + 1).last() == names[i as int]);
        }
        i += 1;
    }
    assert(names.take(i as int) =~= names);
    out
}

/// Inserts one name before the first entry it precedes.
fn insert_name_sorted(v: &mut Vec<String>, x: String)
    ensures
        final(v).deep_view() == insert_sorted(x@, old(v).deep_view()),
{
    let ghost s = old(v).deep_view();
    let mut j: usize = 0;
    while j < v.len() && !text::str_lex_leq(&x, &v[j])
        invariant
            s == v.deep_view(),
            j <= v@.len(),
            forall|k: int| 0 <= k < j ==> !text::name_leq(x@, s[k]),
        decreases v@.len() - j,
    {
        j += 1;
    }
    proof {
        lemma_insert_sorted_at(x@, s, j as int);
    }
    v.insert(j, x);
    assert(final(v).deep_view() =~= s.take(j as int) + seq![x@] + s.skip(j as int));
}

/// Where the first `j` entries all precede `x` and entry `j` (if any)
/// does not, insertion places `x` exactly at position `j`.
proof fn lemma_insert_sorted_at(x: Seq<char>, s: Seq<Seq<char>>, j: int)
    requires
        0 <= j <= s.len(),
        forall|k: int| 0 <= k < j ==> !text::name_leq(x, s[k]),
        j < s.len() ==> text::name_leq(x, s[j]),
    ensures
        insert_sorted(x, s) == s.take(j) + seq![x] + s.skip(j),
    decreases j,
{
    if s.len() == 0 {
        assert(insert_sorted(x, s) =~= s.take(j) + seq![x] + s.skip(j));
    } else if j == 0 {
        assert(insert_sorted(x, s) =~= s.take(0) + seq![x] + s.skip(0));
    } else {
        assert(!text::name_leq(x, s[0]));
        lemma_insert_sorted_at(x, s.drop_first(), j - 1);
        assert(s.take(j) =~= seq![s[0]] + s.drop_first().take(j - 1));
        assert(s.skip(j) =~= s.drop_first().skip(j - 1));
        assert(insert_sorted(x, s) =~= s.take(j) + seq![x] + s.skip(j));
    }
}

} // verus!
