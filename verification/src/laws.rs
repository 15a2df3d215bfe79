//! Laws of the dispatch machine, stated over whole runs: the
//! closed-world effect of applying a preset, the visibility of a
//! completed mutation to every later command, the idempotence of a
//! refresh against an unchanged source, and the asymmetric treatment
//! of missing names.

use vstd::prelude::*;
use crate::codec;
use crate::config::ConfigModel;
use crate::dispatch::{
    entries_equal, find_relay_match, has_entry, spec_config_loaded, spec_step, spec_start_tag,
    system_model, tag_targets, ActionModel, CommandModel, EventModel, PendingModel,
    PresetCommandModel, ResponseModel, StepModel, ThreadModel, RelayCommands, ValueModel,
};
use crate::parse;
use crate::presets::{preset_target, PresetModel};
use crate::relays::RelayModel;

verus! {

/// The state after feeding a sequence of events, one step at a time.
pub open spec fn run_state(m: ThreadModel, evs: Seq<EventModel>) -> ThreadModel
    decreases evs.len(),
{
    if evs.len() == 0 {
        m
    } else {
        run_state(spec_step(m, evs[0]).state, evs.drop_first())
    }
}

/// The registry with a preset applied to its first `k` devices: each
/// of those forced to the state the preset names for it (off where
/// unnamed), the rest untouched.
pub open spec fn applied_prefix(relays: Seq<RelayModel>, p: PresetModel, k: int) -> Seq<
    RelayModel,
> {
    Seq::new(relays.len(), |i: int| if i < k {
        relays[i].with_status(preset_target(p, relays[i].name()))
    } else {
        relays[i]
    })
}

/// A raw frame whose payload decodes and acknowledges a mutation.
pub open spec fn is_ack_frame(raw: Seq<u8>) -> bool {
    match codec::frame_payload(raw) {
        Some(text) => parse::mutate_ack_of(text),
        None => false,
    }
}

/// Feeding one acknowledged reply per remaining device to a machine
/// in the middle of a preset application drives every remaining
/// device to its target state, then records the preset as current.
proof fn lemma_preset_run(orig: Seq<RelayModel>, p: PresetModel, s: ThreadModel, pidx: int, pos: int, raw: Seq<u8>)
    requires
        is_ack_frame(raw),
        0 <= pidx < s.presets.len(),
        s.presets[pidx] == p,
        0 <= pos < orig.len(),
        s.relays == applied_prefix(orig, p, pos),
        s.pending == (PendingModel::Preset {
            pidx: pidx,
            pos: pos,
            desired: preset_target(p, orig[pos].name()),
        }),
    ensures
        ({
            let fin = run_state(s, Seq::new((orig.len() - pos) as nat, |k: int| EventModel::Reply(Some(raw))));
            &&& fin.relays == applied_prefix(orig, p, orig.len() as int)
            &&& fin.presets == s.presets
            &&& fin.current_preset == p.name
            &&& fin.pending is Idle
        }),
    decreases orig.len() - pos,
{
    let evs = Seq::new((orig.len() - pos) as nat, |k: int| EventModel::Reply(Some(raw)));
    let step = spec_step(s, evs[0]);
    let text = codec::frame_payload(raw).unwrap();
    let desired = preset_target(p, orig[pos].name());
    let r2 = s.relays.update(pos, s.relays[pos].with_status(desired));
    assert(s.relays[pos].name() == orig[pos].name());
    assert(r2 =~= applied_prefix(orig, p, pos + 1));
    if pos + 1 < orig.len() {
        assert(r2[pos + 1] == orig[pos + 1]);
        let s2 = step.state;
        assert(s2.relays == r2);
        assert(s2.pending == (PendingModel::Preset {
            pidx: pidx,
            pos: pos + 1,
            desired: preset_target(p, orig[pos + 1].name()),
        }));
        lemma_preset_run(orig, p, s2, pidx, pos + 1, raw);
        assert(evs.drop_first() =~= Seq::new((orig.len() - (pos + 1)) as nat, |k: int| EventModel::Reply(Some(raw))));
    } else {
        assert(step.state.relays == applied_prefix(orig, p, orig.len() as int));
        assert(step.state.current_preset == p.name);
        assert(evs.drop_first() =~= Seq::new(0, |k: int| EventModel::Reply(Some(raw))));
    }
}

/// Closed-world preset law: starting a preset application from an
/// idle machine and acknowledging every round trip leaves every
/// device in the registry — not only those the preset names — in
/// exactly the state the preset forces on it: the mapped value where
/// its name is mapped, off everywhere else.  The preset is then
/// recorded as current.
pub proof fn lemma_preset_closed_world(m: ThreadModel, name: Seq<char>, pidx: int, raw: Seq<u8>)
    requires
        m.pending is Idle,
        m.relays.len() > 0,
        crate::dispatch::find_preset_match(m.presets, name) == Some(pidx),
        0 <= pidx < m.presets.len(),
        is_ack_frame(raw),
    ensures
        ({
            let evs = seq![
                EventModel::Command(CommandModel::Preset(PresetCommandModel::Apply(name))),
            ] + Seq::new(m.relays.len(), |k: int| EventModel::Reply(Some(raw)));
            let fin = run_state(m, evs);
            &&& fin.relays.len() == m.relays.len()
            &&& forall|i: int|
                0 <= i < m.relays.len() ==> #[trigger] fin.relays[i] == m.relays[i].with_status(
                    preset_target(m.presets[pidx], m.relays[i].name()),
                )
            &&& fin.current_preset == m.presets[pidx].name
            &&& fin.pending is Idle
        }),
{
    let p = m.presets[pidx];
    let evs = seq![
        EventModel::Command(CommandModel::Preset(PresetCommandModel::Apply(name))),
    ] + Seq::new(m.relays.len(), |k: int| EventModel::Reply(Some(raw)));
    let s1 = spec_step(m, evs[0]).state;
    assert(s1.relays =~= applied_prefix(m.relays, p, 0));
    assert(s1.pending == (PendingModel::Preset {
        pidx: pidx,
        pos: 0,
        desired: preset_target(p, m.relays[0].name()),
    }));
    lemma_preset_run(m.relays, p, s1, pidx, 0, raw);
    assert(evs.drop_first() =~= Seq::new((m.relays.len() - 0) as nat, |k: int| EventModel::Reply(Some(raw))));
    let fin = run_state(m, evs);
    assert(fin.relays == applied_prefix(m.relays, p, m.relays.len() as int));
    assert forall|i: int| 0 <= i < m.relays.len() implies #[trigger] fin.relays[i]
        == m.relays[i].with_status(preset_target(p, m.relays[i].name())) by {
        assert(applied_prefix(m.relays, p, m.relays.len() as int)[i] == m.relays[i].with_status(
            preset_target(p, m.relays[i].name()),
        ));
    }
}

/// Ordering law: commands are consumed one at a time, a mutation
/// fully resolved before the next command is read.  Once a switch-on
/// of a device is acknowledged, its cached status is `true`, and a
/// status report taken by any later command shows `true` for it —
/// never the stale `false`.
#[verifier::rlimit(60)]
pub proof fn lemma_mutation_visible_to_next_command(m: ThreadModel, name: Seq<char>, idx: int, raw: Seq<u8>)
    requires
        m.pending is Idle,
        find_relay_match(m.relays, name) == Some(idx),
        0 <= idx < m.relays.len(),
        is_ack_frame(raw),
    ensures
        ({
            let evs = seq![
                EventModel::Command(CommandModel::Relay { name: name, command: RelayCommands::TRUE }),
                EventModel::Reply(Some(raw)),
            ];
            let fin = run_state(m, evs);
            &&& fin.pending is Idle
            &&& fin.relays[idx].status() == true
            &&& spec_step(fin, EventModel::Command(CommandModel::SystemStatus)).action
                == ActionModel::Respond(
                ResponseModel::Value(ValueModel::System(system_model(fin))),
            )
            &&& system_model(fin).relays[idx].status == true
        }),
{
    let evs = seq![
        EventModel::Command(CommandModel::Relay { name: name, command: RelayCommands::TRUE }),
        EventModel::Reply(Some(raw)),
    ];
    let s1 = spec_step(m, evs[0]).state;
    let s2 = spec_step(s1, evs[1]).state;
    let tail1 = evs.drop_first();
    assert(run_state(m, evs) == run_state(s1, tail1));
    assert(tail1[0] == evs[1]);
    assert(run_state(s1, tail1) == run_state(s2, tail1.drop_first()));
    assert(tail1.drop_first().len() == 0);
    assert(run_state(m, evs) == s2);
    assert(s2.relays[idx].status() == true);
    assert(system_model(s2).relays[idx] == s2.relays[idx].snapshot());
}

/// Every registry equals itself entry for entry.
proof fn lemma_entries_equal_reflexive<M>(a: Seq<M>)
    ensures
        entries_equal(a, a),
{
    assert forall|i: int| 0 <= i < a.len() implies has_entry(a, #[trigger] a[i]) by {
        assert(0 <= i < a.len() && a[i] == a[i]);
    }
}

/// Refresh idempotence: a snapshot equal by value to the registry
/// replaces nothing, so every cached status survives; and loading the
/// same snapshot twice is the same as loading it once — the second
/// refresh changes nothing.
pub proof fn lemma_refresh_idempotent(m: ThreadModel, silent1: bool, silent2: bool, cfg: ConfigModel)
    ensures
        entries_equal(m.relays, cfg.relays) ==> spec_config_loaded(m, silent1, Some(cfg)).state.relays
            == m.relays,
        ({
            let once = spec_config_loaded(m, silent1, Some(cfg)).state;
            let twice = spec_config_loaded(once, silent2, Some(cfg)).state;
            twice == once
        }),
{
    let once = spec_config_loaded(m, silent1, Some(cfg)).state;
    if entries_equal(m.relays, cfg.relays) {
        assert(once.relays == m.relays);
    } else {
        assert(once.relays == cfg.relays);
        lemma_entries_equal_reflexive(cfg.relays);
    }
    if entries_equal(m.presets, cfg.presets) {
        assert(once.presets == m.presets);
    } else {
        assert(once.presets == cfg.presets);
        lemma_entries_equal_reflexive(cfg.presets);
    }
    assert(entries_equal(once.relays, cfg.relays));
    assert(entries_equal(once.presets, cfg.presets));
}

/// Miss asymmetry: a relay command naming no device answers the
/// tolerant `false`, while a tag command selecting no device answers
/// a hard error; neither touches the registry's devices.
pub proof fn lemma_miss_asymmetry(m: ThreadModel, name: Seq<char>, tag: Seq<char>, command: RelayCommands)
    requires
        m.pending is Idle,
        find_relay_match(m.relays, name) is None,
        tag_targets(m.relays, tag).len() == 0,
    ensures
        spec_step(m, EventModel::Command(CommandModel::Relay { name: name, command: command }))
            == (StepModel { state: m, action: ActionModel::Respond(ResponseModel::Bool(false)) }),
        spec_step(m, EventModel::Command(CommandModel::Tag { tag: tag, command: command })).action
            == ActionModel::Respond(
            ResponseModel::Error("No relays with tag: "@ + tag + " found"@),
        ),
        spec_step(m, EventModel::Command(CommandModel::Tag { tag: tag, command: command })).state.relays
            == m.relays,
{
    let tagstep = spec_start_tag(m, tag, command);
    assert(tagstep.state.relays == m.relays);
}

} // verus!
