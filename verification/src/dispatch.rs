//! The command-dispatch state machine: the single consumer that owns
//! the registry of devices and presets, takes one command at a time,
//! and emits exactly one action per event.
//!
//! The machine never touches the network itself.  Starting a command
//! either answers at once or names a transport round trip to make;
//! the surrounding application performs it and feeds the raw reply
//! back as the next event.  A refresh likewise asks for a fresh
//! configuration snapshot and consumes the loaded result.

use vstd::prelude::*;
use vstd::string::*;
use crate::codec;
use crate::config::{Config, ConfigModel};
use crate::errors::DeviceError;
use crate::parse;
use crate::presets::{
    preset_models, preset_names, preset_target, sort_names, Preset, PresetModel,
};
use crate::relays::{
    config_equals, status_cmd, RelayModel, RelaySnapshot, RelayType, RequestModel, SnapshotModel,
    TransportRequest,
};
use crate::text;

verus! {

/// The actions a command can ask of a relay.
#[derive(Clone, Copy, Debug, PartialEq, Eq, Structural)]
pub enum RelayCommands {
    TRUE,
    FALSE,
    SWITCH,
    STATUS,
}

/// A command addressed to one relay by name.
pub struct RelayCommand {
    pub name: String,
    pub command: RelayCommands,
}

/// A command addressed to every relay carrying a tag.
pub struct TagCommand {
    pub tag: String,
    pub command: RelayCommands,
}

/// A preset command: apply one by name, or list all names.
pub enum PresetCommand {
    Apply(String),
    Names,
}

/// Everything a caller can ask of the worker.
pub enum DataThreadCommand {
    SystemStatus,
    AutoRefresh,
    Refresh,
    Relay(RelayCommand),
    Tag(TagCommand),
    Preset(PresetCommand),
}

/// Mathematical view of a preset command.
pub enum PresetCommandModel {
    Apply(Seq<char>),
    Names,
}

impl View for PresetCommand {
    type V = PresetCommandModel;

    open spec fn view(&self) -> PresetCommandModel {
        match self {
            PresetCommand::Apply(name) => PresetCommandModel::Apply(name@),
            PresetCommand::Names => PresetCommandModel::Names,
        }
    }
}

/// Mathematical view of a command.
pub enum CommandModel {
    SystemStatus,
    AutoRefresh,
    Refresh,
    Relay { name: Seq<char>, command: RelayCommands },
    Tag { tag: Seq<char>, command: RelayCommands },
    Preset(PresetCommandModel),
}

impl View for DataThreadCommand {
    type V = CommandModel;

    open spec fn view(&self) -> CommandModel {
        match self {
            DataThreadCommand::SystemStatus => CommandModel::SystemStatus,
            DataThreadCommand::AutoRefresh => CommandModel::AutoRefresh,
            DataThreadCommand::Refresh => CommandModel::Refresh,
            DataThreadCommand::Relay(c) => CommandModel::Relay {
                name: c.name@,
                command: c.command,
            },
            DataThreadCommand::Tag(c) => CommandModel::Tag { tag: c.tag@, command: c.command },
            DataThreadCommand::Preset(PresetCommand::Apply(name)) => CommandModel::Preset(
                PresetCommandModel::Apply(name@),
            ),
            DataThreadCommand::Preset(PresetCommand::Names) => CommandModel::Preset(
                PresetCommandModel::Names,
            ),
        }
    }
}

/// The full system status a caller sees: every relay's snapshot, the
/// distinct rooms, and the currently applied preset.
pub struct SystemReport {
    pub relays: Vec<RelaySnapshot>,
    pub rooms: Vec<String>,
    pub current_preset: String,
}

/// Mathematical view of a system status report.
pub struct SystemModel {
    pub relays: Seq<SnapshotModel>,
    pub rooms: Seq<Seq<char>>,
    pub current_preset: Seq<char>,
}

impl View for SystemReport {
    type V = SystemModel;

    open spec fn view(&self) -> SystemModel {
        SystemModel {
            relays: Seq::new(self.relays@.len(), |i: int| self.relays@[i]@),
            rooms: self.rooms.deep_view(),
            current_preset: self.current_preset@,
        }
    }
}

/// The structured payloads a successful response can carry.
pub enum ResponseValue {
    Snapshot(RelaySnapshot),
    Snapshots(Vec<RelaySnapshot>),
    StatusFlag(bool),
    PresetSet(bool),
    Names(Vec<String>),
    System(SystemReport),
}

/// Mathematical view of a response payload.
pub enum ValueModel {
    Snapshot(SnapshotModel),
    Snapshots(Seq<SnapshotModel>),
    StatusFlag(bool),
    PresetSet(bool),
    Names(Seq<Seq<char>>),
    System(SystemModel),
}

impl View for ResponseValue {
    type V = ValueModel;

    open spec fn view(&self) -> ValueModel {
        match self {
            ResponseValue::Snapshot(s) => ValueModel::Snapshot(s@),
            ResponseValue::Snapshots(v) => ValueModel::Snapshots(
                Seq::new(v@.len(), |i: int| v@[i]@),
            ),
            ResponseValue::StatusFlag(b) => ValueModel::StatusFlag(*b),
            ResponseValue::PresetSet(b) => ValueModel::PresetSet(*b),
            ResponseValue::Names(v) => ValueModel::Names(v.deep_view()),
            ResponseValue::System(s) => ValueModel::System(s@),
        }
    }
}

/// One response per command: a structured value, a bare boolean, or
/// an error message.
pub enum DataThreadResponse {
    Value(ResponseValue),
    Bool(bool),
    Error(String),
}

/// Mathematical view of a response.
pub enum ResponseModel {
    Value(ValueModel),
    Bool(bool),
    Error(Seq<char>),
}

impl View for DataThreadResponse {
    type V = ResponseModel;

    open spec fn view(&self) -> ResponseModel {
        match self {
            DataThreadResponse::Value(v) => ResponseModel::Value(v@),
            DataThreadResponse::Bool(b) => ResponseModel::Bool(*b),
            DataThreadResponse::Error(m) => ResponseModel::Error(m@),
        }
    }
}

/// An event fed to the machine: a fresh command, the raw bytes a
/// transport round trip returned (or nothing, when the device was
/// unreachable), or a loaded configuration snapshot (or nothing, when
/// loading failed).
pub enum WorkerEvent {
    Command(DataThreadCommand),
    Reply(Option<Vec<u8>>),
    ConfigLoaded(Option<Config>),
}

/// Mathematical view of an event.
pub enum EventModel {
    Command(CommandModel),
    Reply(Option<Seq<u8>>),
    ConfigLoaded(Option<ConfigModel>),
}

impl View for WorkerEvent {
    type V = EventModel;

    open spec fn view(&self) -> EventModel {
        match self {
            WorkerEvent::Command(c) => EventModel::Command(c@),
            WorkerEvent::Reply(Some(v)) => EventModel::Reply(Some(v@)),
            WorkerEvent::Reply(None) => EventModel::Reply(None),
            WorkerEvent::ConfigLoaded(Some(c)) => EventModel::ConfigLoaded(Some(c@)),
            WorkerEvent::ConfigLoaded(None) => EventModel::ConfigLoaded(None),
        }
    }
}

/// What the machine asks of its surroundings after an event: send a
/// frame and come back with the reply, deliver a response to the
/// caller, deliver nothing (background work), or load a fresh
/// configuration snapshot.
pub enum WorkerAction {
    Send(TransportRequest),
    Respond(DataThreadResponse),
    Silent,
    LoadConfig,
}

/// Mathematical view of an action.
pub enum ActionModel {
    Send(RequestModel),
    Respond(ResponseModel),
    Silent,
    LoadConfig,
}

impl View for WorkerAction {
    type V = ActionModel;

    open spec fn view(&self) -> ActionModel {
        match self {
            WorkerAction::Send(r) => ActionModel::Send(r@),
            WorkerAction::Respond(r) => ActionModel::Respond(r@),
            WorkerAction::Silent => ActionModel::Silent,
            WorkerAction::LoadConfig => ActionModel::LoadConfig,
        }
    }
}

/// The work the machine is in the middle of, if any.
pub enum Pending {
    Idle,
    Relay { idx: usize, command: RelayCommands, desired: bool },
    Tag { command: RelayCommands, targets: Vec<usize>, pos: usize, desired: bool },
    Preset { pidx: usize, pos: usize, desired: bool },
    Refresh { silent: bool },
}

/// Mathematical view of the pending work.
pub enum PendingModel {
    Idle,
    Relay { idx: int, command: RelayCommands, desired: bool },
    Tag { command: RelayCommands, targets: Seq<int>, pos: int, desired: bool },
    Preset { pidx: int, pos: int, desired: bool },
    Refresh { silent: bool },
}

/// Index views of a vector of indices.
pub open spec fn usizes(s: Seq<usize>) -> Seq<int> {
    Seq::new(s.len(), |i: int| s[i] as int)
}

impl View for Pending {
    type V = PendingModel;

    open spec fn view(&self) -> PendingModel {
        match self {
            Pending::Idle => PendingModel::Idle,
            Pending::Relay { idx, command, desired } => PendingModel::Relay {
                idx: *idx as int,
                command: *command,
                desired: *desired,
            },
            Pending::Tag { command, targets, pos, desired } => PendingModel::Tag {
                command: *command,
                targets: usizes(targets@),
                pos: *pos as int,
                desired: *desired,
            },
            Pending::Preset { pidx, pos, desired } => PendingModel::Preset {
                pidx: *pidx as int,
                pos: *pos as int,
                desired: *desired,
            },
            Pending::Refresh { silent } => PendingModel::Refresh { silent: *silent },
        }
    }
}

/// The worker's whole state: the registry it owns, the marker of the
/// currently applied preset, and the work in flight.
pub struct DataThread {
    pub relays: Vec<RelayType>,
    pub presets: Vec<Preset>,
    pub current_preset: String,
    pub pending: Pending,
}

/// Mathematical view of the worker state.
pub struct ThreadModel {
    pub relays: Seq<RelayModel>,
    pub presets: Seq<PresetModel>,
    pub current_preset: Seq<char>,
    pub pending: PendingModel,
}

impl View for DataThread {
    type V = ThreadModel;

    open spec fn view(&self) -> ThreadModel {
        ThreadModel {
            relays: crate::config::relay_models(self.relays@),
            presets: preset_models(self.presets@),
            current_preset: self.current_preset@,
            pending: self.pending@,
        }
    }
}

/// One transition of the machine: the state after the event, and the
/// action it asks for.
pub struct StepModel {
    pub state: ThreadModel,
    pub action: ActionModel,
}

/// Whether the pending work addresses the registry within bounds.
pub open spec fn wf_pending(m: ThreadModel) -> bool {
    match m.pending {
        PendingModel::Idle => true,
        PendingModel::Relay { idx, .. } => 0 <= idx < m.relays.len(),
        PendingModel::Tag { targets, pos, .. } => 0 <= pos < targets.len() && forall|k: int|
            0 <= k < targets.len() ==> 0 <= #[trigger] targets[k] < m.relays.len(),
        PendingModel::Preset { pidx, pos, .. } => 0 <= pidx < m.presets.len() && 0 <= pos
            < m.relays.len(),
        PendingModel::Refresh { .. } => true,
    }
}

impl DataThread {
    /// Whether the state addresses its registry within bounds; every
    /// machine built from a snapshot has this, and every step keeps
    /// it.
    pub open spec fn wf(&self) -> bool {
        wf_pending(self@)
    }

    /// A fresh worker owning a registry snapshot; it starts idle,
    /// with the `Custom` marker set.
    pub fn new(config: Config) -> (r: DataThread)
        ensures
            r.wf(),
            r@ == (ThreadModel {
                relays: crate::config::relay_models(config.relays@),
                presets: preset_models(config.presets@),
                current_preset: "Custom"@,
                pending: PendingModel::Idle,
            }),
    {
        DataThread {
            relays: config.relays,
            presets: config.presets,
            current_preset: String::from_str("Custom"),
            pending: Pending::Idle,
        }
    }
}

/// Whether a command mutates device state (rather than only reading
/// it).
pub open spec fn is_mutating(c: RelayCommands) -> bool {
    !(c is STATUS)
}

/// The state a mutating command drives a relay to; a switch goes by
/// the relay's cached status.
pub open spec fn desired_of(c: RelayCommands, cached: bool) -> bool {
    match c {
        RelayCommands::TRUE => true,
        RelayCommands::FALSE => false,
        RelayCommands::SWITCH => !cached,
        RelayCommands::STATUS => false,
    }
}

/// The first relay whose name matches the caller's input up to ASCII
/// case.
pub open spec fn find_relay_match(relays: Seq<RelayModel>, input: Seq<char>) -> Option<int>
    decreases relays.len(),
{
    if relays.len() == 0 {
        None
    } else if text::names_match(relays[0].name(), input) {
        Some(0)
    } else {
        match find_relay_match(relays.drop_first(), input) {
            Some(i) => Some(i + 1),
            None => None,
        }
    }
}

/// The first preset whose name matches the caller's input up to ASCII
/// case.
pub open spec fn find_preset_match(presets: Seq<PresetModel>, input: Seq<char>) -> Option<int>
    decreases presets.len(),
{
    if presets.len() == 0 {
        None
    } else if text::names_match(presets[0].name, input) {
        Some(0)
    } else {
        match find_preset_match(presets.drop_first(), input) {
            Some(i) => Some(i + 1),
            None => None,
        }
    }
}

/// The indices of all relays carrying a tag, in registry order.
pub open spec fn tag_targets(relays: Seq<RelayModel>, tag: Seq<char>) -> Seq<int>
    decreases relays.len(),
{
    if relays.len() == 0 {
        Seq::empty()
    } else {
        let rest = tag_targets(relays.drop_last(), tag);
        if relays.last().tags().contains(tag) {
            rest.push(relays.len() - 1)
        } else {
            rest
        }
    }
}

/// The snapshots of the relays at the given indices, in order.
pub open spec fn snapshots_at(relays: Seq<RelayModel>, targets: Seq<int>) -> Seq<SnapshotModel> {
    Seq::new(targets.len(), |k: int| relays[targets[k]].snapshot())
}

/// The snapshots of all relays, in registry order.
pub open spec fn snapshots_of(relays: Seq<RelayModel>) -> Seq<SnapshotModel> {
    Seq::new(relays.len(), |i: int| relays[i].snapshot())
}

/// The distinct rooms of the registry, in first-occurrence order.
pub open spec fn rooms_of(relays: Seq<RelayModel>) -> Seq<Seq<char>>
    decreases relays.len(),
{
    if relays.len() == 0 {
        Seq::empty()
    } else {
        let rest = rooms_of(relays.drop_last());
        if rest.contains(relays.last().room()) {
            rest
        } else {
            rest.push(relays.last().room())
        }
    }
}

/// The report a system-status command yields: a cache-only read.
pub open spec fn system_model(m: ThreadModel) -> SystemModel {
    SystemModel {
        relays: snapshots_of(m.relays),
        rooms: rooms_of(m.relays),
        current_preset: m.current_preset,
    }
}

/// Whether two registries hold the same entries by value, regardless
/// of order.
/// Whether some entry of `b` is the value `x`.
pub open spec fn has_entry<M>(b: Seq<M>, x: M) -> bool {
    exists|j: int| 0 <= j < b.len() && b[j] == x
}

pub open spec fn entries_equal<M>(a: Seq<M>, b: Seq<M>) -> bool {
    a.len() == b.len() && forall|i: int| 0 <= i < a.len() ==> has_entry(b, #[trigger] a[i])
}

/// A state with nothing in flight.
pub open spec fn with_pending(m: ThreadModel, p: PendingModel) -> ThreadModel {
    ThreadModel { pending: p, ..m }
}

/// A transition that changes nothing and asks nothing; taken on an
/// event that does not fit the state.
pub open spec fn spec_noop(m: ThreadModel) -> StepModel {
    StepModel { state: m, action: ActionModel::Silent }
}

/// Starting a relay command: an unknown name tolerantly answers
/// `false`; a mutating command resets the preset marker and opens a
/// transport round trip; a status command opens one without touching
/// the marker.
pub open spec fn spec_start_relay(m: ThreadModel, name: Seq<char>, command: RelayCommands) -> StepModel {
    match find_relay_match(m.relays, name) {
        None => StepModel { state: m, action: ActionModel::Respond(ResponseModel::Bool(false)) },
        Some(i) => {
            if command is STATUS {
                StepModel {
                    state: with_pending(
                        m,
                        PendingModel::Relay { idx: i, command: command, desired: false },
                    ),
                    action: ActionModel::Send(
                        RequestModel { ip: m.relays[i].ip(), frame: codec::frame(status_cmd()) },
                    ),
                }
            } else {
                let d = desired_of(command, m.relays[i].status());
                StepModel {
                    state: ThreadModel {
                        current_preset: "Custom"@,
                        pending: PendingModel::Relay { idx: i, command: command, desired: d },
                        ..m
                    },
                    action: ActionModel::Send(
                        RequestModel {
                            ip: m.relays[i].ip(),
                            frame: codec::frame(m.relays[i].mutate_cmd(d)),
                        },
                    ),
                }
            }
        },
    }
}

/// Starting a tag command: a mutating one resets the preset marker
/// even before the selection is checked; an empty selection is a hard
/// error; a status selection answers from the cache; a mutating
/// selection opens the first of its round trips.
pub open spec fn spec_start_tag(m: ThreadModel, tag: Seq<char>, command: RelayCommands) -> StepModel {
    let m1 = if is_mutating(command) {
        ThreadModel { current_preset: "Custom"@, ..m }
    } else {
        m
    };
    let targets = tag_targets(m.relays, tag);
    if targets.len() == 0 {
        StepModel {
            state: m1,
            action: ActionModel::Respond(
                ResponseModel::Error("No relays with tag: "@ + tag + " found"@),
            ),
        }
    } else if command is STATUS {
        StepModel {
            state: m1,
            action: ActionModel::Respond(
                ResponseModel::Value(ValueModel::Snapshots(snapshots_at(m.relays, targets))),
            ),
        }
    } else {
        let t0 = targets[0];
        let d = desired_of(command, m.relays[t0].status());
        StepModel {
            state: with_pending(
                m1,
                PendingModel::Tag { command: command, targets: targets, pos: 0, desired: d },
            ),
            action: ActionModel::Send(
                RequestModel { ip: m.relays[t0].ip(), frame: codec::frame(m.relays[t0].mutate_cmd(d)) },
            ),
        }
    }
}

/// Starting a preset command: listing answers the sorted names;
/// applying an unknown name is a hard error; applying to an empty
/// registry succeeds at once; otherwise the first of the round trips
/// opens, one per device, in registry order.
pub open spec fn spec_start_preset(m: ThreadModel, c: PresetCommandModel) -> StepModel {
    match c {
        PresetCommandModel::Names => StepModel {
            state: m,
            action: ActionModel::Respond(
                ResponseModel::Value(ValueModel::Names(sort_names(preset_names(m.presets)))),
            ),
        },
        PresetCommandModel::Apply(name) => match find_preset_match(m.presets, name) {
            None => StepModel {
                state: m,
                action: ActionModel::Respond(ResponseModel::Error("Unable to find preset"@)),
            },
            Some(p) => {
                if m.relays.len() == 0 {
                    StepModel {
                        state: ThreadModel {
                            current_preset: m.presets[p].name,
                            pending: PendingModel::Idle,
                            ..m
                        },
                        action: ActionModel::Respond(
                            ResponseModel::Value(ValueModel::PresetSet(true)),
                        ),
                    }
                } else {
                    let d = preset_target(m.presets[p], m.relays[0].name());
                    StepModel {
                        state: with_pending(
                            m,
                            PendingModel::Preset { pidx: p, pos: 0, desired: d },
                        ),
                        action: ActionModel::Send(
                            RequestModel {
                                ip: m.relays[0].ip(),
                                frame: codec::frame(m.relays[0].mutate_cmd(d)),
                            },
                        ),
                    }
                }
            },
        },
    }
}

/// Starting any command from the idle state.
pub open spec fn spec_start(m: ThreadModel, c: CommandModel) -> StepModel {
    match c {
        CommandModel::SystemStatus => StepModel {
            state: m,
            action: ActionModel::Respond(
                ResponseModel::Value(ValueModel::System(system_model(m))),
            ),
        },
        CommandModel::Refresh => StepModel {
            state: with_pending(m, PendingModel::Refresh { silent: false }),
            action: ActionModel::LoadConfig,
        },
        CommandModel::AutoRefresh => StepModel {
            state: with_pending(m, PendingModel::Refresh { silent: true }),
            action: ActionModel::LoadConfig,
        },
        CommandModel::Relay { name, command } => spec_start_relay(m, name, command),
        CommandModel::Tag { tag, command } => spec_start_tag(m, tag, command),
        CommandModel::Preset(pc) => spec_start_preset(m, pc),
    }
}

/// The payload a reply carries once the framing is checked: nothing
/// when the device was unreachable or the frame malformed.
pub open spec fn reply_payload(payload: Option<Seq<u8>>) -> Option<Seq<u8>> {
    match payload {
        None => None,
        Some(raw) => codec::frame_payload(raw),
    }
}

/// Consuming the reply of a relay command's round trip: a transport
/// or framing failure answers an error and leaves the cache alone; a
/// status reply refreshes the cache; an acknowledged mutation moves
/// it and answers the fresh snapshot.
pub open spec fn spec_reply_relay(
    m: ThreadModel,
    idx: int,
    command: RelayCommands,
    desired: bool,
    payload: Option<Seq<u8>>,
) -> StepModel {
    let m1 = with_pending(m, PendingModel::Idle);
    let fail = StepModel {
        state: m1,
        action: ActionModel::Respond(ResponseModel::Error("Can't Connect To Plug"@)),
    };
    match reply_payload(payload) {
        None => fail,
        Some(text) => {
            if command is STATUS {
                match crate::relays::spec_status_outcome(m.relays[idx], text) {
                    Ok(b) => StepModel {
                        state: ThreadModel {
                            relays: m.relays.update(idx, m.relays[idx].with_status(b)),
                            ..m1
                        },
                        action: ActionModel::Respond(
                            ResponseModel::Value(ValueModel::StatusFlag(b)),
                        ),
                    },
                    Err(e) => StepModel {
                        state: m1,
                        action: ActionModel::Respond(ResponseModel::Error(e.spec_message())),
                    },
                }
            } else {
                if parse::mutate_ack_of(text) {
                    let moved = m.relays[idx].with_status(desired);
                    StepModel {
                        state: ThreadModel { relays: m.relays.update(idx, moved), ..m1 },
                        action: ActionModel::Respond(
                            ResponseModel::Value(ValueModel::Snapshot(moved.snapshot())),
                        ),
                    }
                } else {
                    fail
                }
            }
        },
    }
}

/// Consuming one reply of a tag command's round trips: any failure
/// aborts the remaining targets with an error; an acknowledgement
/// moves the target's cache and either opens the next round trip or
/// answers `true`.
pub open spec fn spec_reply_tag(
    m: ThreadModel,
    command: RelayCommands,
    targets: Seq<int>,
    pos: int,
    desired: bool,
    payload: Option<Seq<u8>>,
) -> StepModel {
    let m1 = with_pending(m, PendingModel::Idle);
    let fail = StepModel {
        state: m1,
        action: ActionModel::Respond(ResponseModel::Error("Can't Connect To Plug"@)),
    };
    match reply_payload(payload) {
        None => fail,
        Some(text) => {
            if parse::mutate_ack_of(text) {
                let r2 = m.relays.update(targets[pos], m.relays[targets[pos]].with_status(desired));
                if pos + 1 < targets.len() {
                    let nxt = targets[pos + 1];
                    let d2 = desired_of(command, r2[nxt].status());
                    StepModel {
                        state: ThreadModel {
                            relays: r2,
                            pending: PendingModel::Tag {
                                command: command,
                                targets: targets,
                                pos: pos + 1,
                                desired: d2,
                            },
                            ..m
                        },
                        action: ActionModel::Send(
                            RequestModel { ip: r2[nxt].ip(), frame: codec::frame(r2[nxt].mutate_cmd(d2)) },
                        ),
                    }
                } else {
                    StepModel {
                        state: ThreadModel { relays: r2, pending: PendingModel::Idle, ..m },
                        action: ActionModel::Respond(ResponseModel::Bool(true)),
                    }
                }
            } else {
                fail
            }
        },
    }
}

/// Consuming one reply of a preset application: any failure aborts
/// with `presetSet: false`, mutated devices keeping their new state
/// and the marker untouched; an acknowledgement moves the device and
/// either opens the next round trip or, after the last device,
/// records the preset as current and answers `presetSet: true`.
pub open spec fn spec_reply_preset(
    m: ThreadModel,
    pidx: int,
    pos: int,
    desired: bool,
    payload: Option<Seq<u8>>,
) -> StepModel {
    let m1 = with_pending(m, PendingModel::Idle);
    let fail = StepModel {
        state: m1,
        action: ActionModel::Respond(ResponseModel::Value(ValueModel::PresetSet(false))),
    };
    match reply_payload(payload) {
        None => fail,
        Some(text) => {
            if parse::mutate_ack_of(text) {
                let r2 = m.relays.update(pos, m.relays[pos].with_status(desired));
                if pos + 1 < m.relays.len() {
                    let d2 = preset_target(m.presets[pidx], r2[pos + 1].name());
                    StepModel {
                        state: ThreadModel {
                            relays: r2,
                            pending: PendingModel::Preset { pidx: pidx, pos: pos + 1, desired: d2 },
                            ..m
                        },
                        action: ActionModel::Send(
                            RequestModel {
                                ip: r2[pos + 1].ip(),
                                frame: codec::frame(r2[pos + 1].mutate_cmd(d2)),
                            },
                        ),
                    }
                } else {
                    StepModel {
                        state: ThreadModel {
                            relays: r2,
                            current_preset: m.presets[pidx].name,
                            pending: PendingModel::Idle,
                            ..m
                        },
                        action: ActionModel::Respond(
                            ResponseModel::Value(ValueModel::PresetSet(true)),
                        ),
                    }
                }
            } else {
                fail
            }
        },
    }
}

/// Consuming a loaded configuration: a failed load answers an error;
/// a loaded snapshot replaces devices and presets only where they
/// differ by value, so an unchanged source keeps every cached status.
/// A manual refresh answers `true`; a background one stays silent.
pub open spec fn spec_config_loaded(m: ThreadModel, silent: bool, res: Option<ConfigModel>) -> StepModel {
    match res {
        None => StepModel {
            state: with_pending(m, PendingModel::Idle),
            action: ActionModel::Respond(ResponseModel::Error("Could not refresh config"@)),
        },
        Some(cfg) => {
            let r2 = if entries_equal(m.relays, cfg.relays) {
                m.relays
            } else {
                cfg.relays
            };
            let p2 = if entries_equal(m.presets, cfg.presets) {
                m.presets
            } else {
                cfg.presets
            };
            StepModel {
                state: ThreadModel {
                    relays: r2,
                    presets: p2,
                    current_preset: m.current_preset,
                    pending: PendingModel::Idle,
                },
                action: if silent {
                    ActionModel::Silent
                } else {
                    ActionModel::Respond(ResponseModel::Bool(true))
                },
            }
        },
    }
}

/// What a caller-supplied action word means, matched up to ASCII
/// case: `true` and `on` switch on, `false` and `off` switch off,
/// `switch` toggles, `status` queries; anything else is refused.
pub open spec fn spec_parse_action(s: Seq<char>) -> Option<RelayCommands> {
    if text::names_match(s, "true"@) || text::names_match(s, "on"@) {
        Some(RelayCommands::TRUE)
    } else if text::names_match(s, "false"@) || text::names_match(s, "off"@) {
        Some(RelayCommands::FALSE)
    } else if text::names_match(s, "switch"@) {
        Some(RelayCommands::SWITCH)
    } else if text::names_match(s, "status"@) {
        Some(RelayCommands::STATUS)
    } else {
        None
    }
}

/// Reads a caller-supplied action word, matched up to ASCII case.
pub fn handle_command_input(input: &str) -> (r: Option<RelayCommands>)
    ensures
        r == spec_parse_action(input@),
{
    if text::str_eq_ignore_case(input, "true") || text::str_eq_ignore_case(input, "on") {
        Some(RelayCommands::TRUE)
    } else if text::str_eq_ignore_case(input, "false") || text::str_eq_ignore_case(input, "off") {
        Some(RelayCommands::FALSE)
    } else if text::str_eq_ignore_case(input, "switch") {
        Some(RelayCommands::SWITCH)
    } else if text::str_eq_ignore_case(input, "status") {
        Some(RelayCommands::STATUS)
    } else {
        None
    }
}

/// One transition of the machine: an idle state takes a command; a
/// state with a round trip in flight takes its reply; a refreshing
/// state takes the loaded configuration.  An event that does not fit
/// the state changes nothing and asks nothing.
pub open spec fn spec_step(m: ThreadModel, ev: EventModel) -> StepModel {
    match ev {
        EventModel::Command(c) => {
            if m.pending is Idle {
                spec_start(m, c)
            } else {
                spec_noop(m)
            }
        },
        EventModel::Reply(payload) => match m.pending {
            PendingModel::Relay { idx, command, desired } => spec_reply_relay(
                m,
                idx,
                command,
                desired,
                payload,
            ),
            PendingModel::Tag { command, targets, pos, desired } => spec_reply_tag(
                m,
                command,
                targets,
                pos,
                desired,
                payload,
            ),
            PendingModel::Preset { pidx, pos, desired } => spec_reply_preset(
                m,
                pidx,
                pos,
                desired,
                payload,
            ),
            _ => spec_noop(m),
        },
        EventModel::ConfigLoaded(res) => match m.pending {
            PendingModel::Refresh { silent } => spec_config_loaded(m, silent, res),
            _ => spec_noop(m),
        },
    }
}

/// The first relay whose name matches the input up to ASCII case, as
/// stored.
fn find_relay_match_exec(relays: &Vec<RelayType>, input: &String) -> (r: Option<usize>)
    ensures
        match r {
            Some(i) => 0 <= i < relays@.len() && find_relay_match(
                crate::config::relay_models(relays@),
                input@,
            ) == Some(i as int),
            None => find_relay_match(crate::config::relay_models(relays@), input@) is None,
        },
{
    let ghost ms = crate::config::relay_models(relays@);
    let mut i: usize = 0;
    while i < relays.len()
        invariant
            ms == crate::config::relay_models(relays@),
            i <= relays@.len(),
            forall|j: int| 0 <= j < i ==> !text::names_match(ms[j].name(), input@),
        decreases relays@.len() - i,
    {
        if text::str_eq_ignore_case(relays[i].name_str().as_str(), input.as_str()) {
            proof {
                lemma_find_relay_match_at(ms, input@, i as int);
            }
            return Some(i);
        }
        i += 1;
    }
    proof {
        lemma_find_relay_match_none(ms, input@);
    }
    None
}

proof fn lemma_find_relay_match_at(s: Seq<RelayModel>, input: Seq<char>, i: int)
    requires
        0 <= i < s.len(),
        text::names_match(s[i].name(), input),
        forall|j: int| 0 <= j < i ==> !text::names_match(s[j].name(), input),
    ensures
        find_relay_match(s, input) == Some(i),
    decreases i,
{
    if i == 0 {
    } else {
        assert(!text::names_match(s[0].name(), input));
        lemma_find_relay_match_at(s.drop_first(), input, i - 1);
    }
}

proof fn lemma_find_relay_match_none(s: Seq<RelayModel>, input: Seq<char>)
    requires
        forall|j: int| 0 <= j < s.len() ==> !text::names_match(s[j].name(), input),
    ensures
        find_relay_match(s, input) is None,
    decreases s.len(),
{
    if s.len() > 0 {
        lemma_find_relay_match_none(s.drop_first(), input);
    }
}

/// The first preset whose name matches the input up to ASCII case, as
/// stored.
fn find_preset_match_exec(presets: &Vec<Preset>, input: &String) -> (r: Option<usize>)
    ensures
        match r {
            Some(i) => 0 <= i < presets@.len() && find_preset_match(
                preset_models(presets@),
                input@,
            ) == Some(i as int),
            None => find_preset_match(preset_models(presets@), input@) is None,
        },
{
    let ghost ms = preset_models(presets@);
    let mut i: usize = 0;
    while i < presets.len()
        invariant
            ms == preset_models(presets@),
            i <= presets@.len(),
            forall|j: int| 0 <= j < i ==> !text::names_match(ms[j].name, input@),
        decreases presets@.len() - i,
    {
        if text::str_eq_ignore_case(presets[i].name.as_str(), input.as_str()) {
            proof {
                lemma_find_preset_match_at(ms, input@, i as int);
            }
            return Some(i);
        }
        i += 1;
    }
    proof {
        lemma_find_preset_match_none(ms, input@);
    }
    None
}

proof fn lemma_find_preset_match_at(s: Seq<PresetModel>, input: Seq<char>, i: int)
    requires
        0 <= i < s.len(),
        text::names_match(s[i].name, input),
        forall|j: int| 0 <= j < i ==> !text::names_match(s[j].name, input),
    ensures
        find_preset_match(s, input) == Some(i),
    decreases i,
{
    if i == 0 {
    } else {
        assert(!text::names_match(s[0].name, input));
        lemma_find_preset_match_at(s.drop_first(), input, i - 1);
    }
}

proof fn lemma_find_preset_match_none(s: Seq<PresetModel>, input: Seq<char>)
    requires
        forall|j: int| 0 <= j < s.len() ==> !text::names_match(s[j].name, input),
    ensures
        find_preset_match(s, input) is None,
    decreases s.len(),
{
    if s.len() > 0 {
        lemma_find_preset_match_none(s.drop_first(), input);
    }
}

/// Selects the indices of all relays carrying a tag, in registry
/// order.
fn tag_targets_exec(relays: &Vec<RelayType>, tag: &String) -> (r: Vec<usize>)
    ensures
        usizes(r@) == tag_targets(crate::config::relay_models(relays@), tag@),
        forall|k: int| 0 <= k < r@.len() ==> r@[k] < relays@.len(),
{
    let ghost ms = crate::config::relay_models(relays@);
    let mut out: Vec<usize> = Vec::new();
    let mut i: usize = 0;
    assert(usizes(out@) =~= tag_targets(ms.take(0), tag@));
    while i < relays.len()
        invariant
            ms == crate::config::relay_models(relays@),
            i <= relays@.len(),
            usizes(out@) == tag_targets(ms.take(i as int), tag@),
            forall|k: int| 0 <= k < out@.len() ==> out@[k] < i,
        decreases relays@.len() - i,
    {
        proof {
            assert(ms.take(i + 1).drop_last() =~= ms.take(i as int));
            assert(ms.take(i + 1).last() == ms[i as int]);
        }
        if relays[i].has_tag(tag) {
            out.push(i);
            assert(usizes(out@) =~= tag_targets(ms.take(i as int), tag@).push(i as int));
        }
        i += 1;
    }
    assert(ms.take(i as int) =~= ms);
    out
}

/// The snapshots of the relays at the given indices, in order.
fn snapshots_at_exec(relays: &Vec<RelayType>, targets: &Vec<usize>) -> (r: Vec<RelaySnapshot>)
    requires
        forall|k: int| 0 <= k < targets@.len() ==> targets@[k] < relays@.len(),
    ensures
        Seq::new(r@.len(), |i: int| r@[i]@) == snapshots_at(
            crate::config::relay_models(relays@),
            usizes(targets@),
        ),
{
    let ghost ms = crate::config::relay_models(relays@);
    let mut out: Vec<RelaySnapshot> = Vec::new();
    let mut k: usize = 0;
    while k < targets.len()
        invariant
            ms == crate::config::relay_models(relays@),
            forall|j: int| 0 <= j < targets@.len() ==> targets@[j] < relays@.len(),
            k <= targets@.len(),
            out@.len() == k,
            forall|j: int| 0 <= j < k ==> out@[j]@ == ms[targets@[j] as int].snapshot(),
        decreases targets@.len() - k,
    {
        out.push(relays[targets[k]].snapshot());
        k += 1;
    }
    assert(Seq::new(out@.len(), |i: int| out@[i]@) =~= snapshots_at(ms, usizes(targets@)));
    out
}

/// The state a mutating command drives a relay to.
fn desired_exec(c: RelayCommands, cached: bool) -> (r: bool)
    ensures
        r == desired_of(c, cached),
{
    match c {
        RelayCommands::TRUE => true,
        RelayCommands::FALSE => false,
        RelayCommands::SWITCH => !cached,
        RelayCommands::STATUS => false,
    }
}

/// Two registries of relays hold equal entries exactly when their
/// models do.
proof fn lemma_relay_entries(a: Seq<RelayType>, b: Seq<RelayType>)
    ensures
        crate::relays::config_maps_equal(a, b) == entries_equal(
            crate::config::relay_models(a),
            crate::config::relay_models(b),
        ),
{
    let ma = crate::config::relay_models(a);
    let mb = crate::config::relay_models(b);
    assert(ma.len() == a.len());
    assert(mb.len() == b.len());
    if crate::relays::config_maps_equal(a, b) {
        assert forall|i: int| 0 <= i < ma.len() implies has_entry(mb, #[trigger] ma[i]) by {
            assert(crate::relays::has_equal_entry(b, a[i]));
            let j = choose|j: int| 0 <= j < b.len() && b[j]@ == a[i]@;
            assert(mb[j] == ma[i]);
        }
        assert(entries_equal(ma, mb));
    }
    if entries_equal(ma, mb) {
        assert forall|i: int| 0 <= i < a.len() implies crate::relays::has_equal_entry(
            b,
            #[trigger] a[i],
        ) by {
            assert(has_entry(mb, ma[i]));
            let j = choose|j: int| 0 <= j < mb.len() && mb[j] == ma[i];
            assert(b[j]@ == a[i]@);
        }
        assert(crate::relays::config_maps_equal(a, b));
    }
}

/// Two stores of presets hold equal entries exactly when their models
/// do.
proof fn lemma_preset_entries(a: Seq<Preset>, b: Seq<Preset>)
    ensures
        crate::relays::config_maps_equal(a, b) == entries_equal(
            preset_models(a),
            preset_models(b),
        ),
{
    let ma = preset_models(a);
    let mb = preset_models(b);
    assert(ma.len() == a.len());
    assert(mb.len() == b.len());
    if crate::relays::config_maps_equal(a, b) {
        assert forall|i: int| 0 <= i < ma.len() implies has_entry(mb, #[trigger] ma[i]) by {
            assert(crate::relays::has_equal_entry(b, a[i]));
            let j = choose|j: int| 0 <= j < b.len() && b[j]@ == a[i]@;
            assert(mb[j] == ma[i]);
        }
        assert(entries_equal(ma, mb));
    }
    if entries_equal(ma, mb) {
        assert forall|i: int| 0 <= i < a.len() implies crate::relays::has_equal_entry(
            b,
            #[trigger] a[i],
        ) by {
            assert(has_entry(mb, ma[i]));
            let j = choose|j: int| 0 <= j < mb.len() && mb[j] == ma[i];
            assert(b[j]@ == a[i]@);
        }
        assert(crate::relays::config_maps_equal(a, b));
    }
}

impl DataThread {
    /// The full system status: every relay's snapshot, the distinct
    /// rooms, and the current preset marker, all read from the cache.
    pub fn system_report(&self) -> (r: SystemReport)
        ensures
            r@ == system_model(self@),
    {
        let ghost ms = crate::config::relay_models(self.relays@);
        let mut snaps: Vec<RelaySnapshot> = Vec::new();
        let mut i: usize = 0;
        while i < self.relays.len()
            invariant
                ms == crate::config::relay_models(self.relays@),
                i <= self.relays@.len(),
                snaps@.len() == i,
                forall|j: int| 0 <= j < i ==> snaps@[j]@ == ms[j].snapshot(),
            decreases self.relays@.len() - i,
        {
            snaps.push(self.relays[i].snapshot());
            i += 1;
        }
        assert(Seq::new(snaps@.len(), |j: int| snaps@[j]@) =~= snapshots_of(ms));

        let mut rooms: Vec<String> = Vec::new();
        let mut k: usize = 0;
        assert(rooms.deep_view() =~= rooms_of(ms.take(0)));
        while k < self.relays.len()
            invariant
                ms == crate::config::relay_models(self.relays@),
                k <= self.relays@.len(),
                rooms.deep_view() == rooms_of(ms.take(k as int)),
            decreases self.relays@.len() - k,
        {
            proof {
                assert(ms.take(k + 1).drop_last() =~= ms.take(k as int));
                assert(ms.take(k + 1).last() == ms[k as int]);
            }
            let room = self.relays[k].room_str();
            if !text::vec_contains_string(&rooms, room) {
                rooms.push(room.clone());
                assert(rooms.deep_view() =~= rooms_of(ms.take(k as int)).push(ms[k as int].room()));
            }
            k += 1;
        }
        assert(ms.take(k as int) =~= ms);

        SystemReport { relays: snaps, rooms, current_preset: self.current_preset.clone() }
    }

    /// Starts a relay command addressed by name.
    fn start_relay(&mut self, rc: RelayCommand) -> (r: WorkerAction)
        requires
            old(self).wf(),
            old(self)@.pending is Idle,
        ensures
            final(self).wf(),
            final(self)@ == spec_start_relay(old(self)@, rc.name@, rc.command).state,
            r@ == spec_start_relay(old(self)@, rc.name@, rc.command).action,
    {
        let found = find_relay_match_exec(&self.relays, &rc.name);
        match found {
            None => WorkerAction::Respond(DataThreadResponse::Bool(false)),
            Some(i) => {
                match rc.command {
                    RelayCommands::STATUS => {
                        let req = self.relays[i].status_request();
                        self.pending = Pending::Relay {
                            idx: i,
                            command: rc.command,
                            desired: false,
                        };
                        WorkerAction::Send(req)
                    },
                    _ => {
                        self.current_preset = String::from_str("Custom");
                        let d = desired_exec(rc.command, self.relays[i].status());
                        let req = self.relays[i].mutate_request(d);
                        self.pending = Pending::Relay { idx: i, command: rc.command, desired: d };
                        WorkerAction::Send(req)
                    },
                }
            },
        }
    }

    /// Starts a tag command addressed to a group.
    fn start_tag(&mut self, tc: TagCommand) -> (r: WorkerAction)
        requires
            old(self).wf(),
            old(self)@.pending is Idle,
        ensures
            final(self).wf(),
            final(self)@ == spec_start_tag(old(self)@, tc.tag@, tc.command).state,
            r@ == spec_start_tag(old(self)@, tc.tag@, tc.command).action,
    {
        let mutating = match tc.command {
            RelayCommands::STATUS => false,
            _ => true,
        };
        if mutating {
            self.current_preset = String::from_str("Custom");
        }
        let targets = tag_targets_exec(&self.relays, &tc.tag);
        if targets.len() == 0 {
            let mut msg = String::from_str("No relays with tag: ");
            msg.append(tc.tag.as_str());
            msg.append(" found");
            WorkerAction::Respond(DataThreadResponse::Error(msg))
        } else {
            match tc.command {
                RelayCommands::STATUS => {
                    let snaps = snapshots_at_exec(&self.relays, &targets);
                    WorkerAction::Respond(DataThreadResponse::Value(ResponseValue::Snapshots(snaps)))
                },
                _ => {
                    let t0 = targets[0];
                    assert(usizes(targets@)[0] == t0 as int);
                    let d = desired_exec(tc.command, self.relays[t0].status());
                    let req = self.relays[t0].mutate_request(d);
                    self.pending = Pending::Tag {
                        command: tc.command,
                        targets,
                        pos: 0,
                        desired: d,
                    };
                    WorkerAction::Send(req)
                },
            }
        }
    }

    /// Starts a preset command: listing names or applying one.
    fn start_preset(&mut self, pc: PresetCommand) -> (r: WorkerAction)
        requires
            old(self).wf(),
            old(self)@.pending is Idle,
        ensures
            final(self).wf(),
            final(self)@ == spec_start_preset(old(self)@, pc@).state,
            r@ == spec_start_preset(old(self)@, pc@).action,
    {
        match pc {
            PresetCommand::Names => {
                let names = crate::presets::get_preset_names(&self.presets);
                WorkerAction::Respond(DataThreadResponse::Value(ResponseValue::Names(names)))
            },
            PresetCommand::Apply(name) => {
                let found = find_preset_match_exec(&self.presets, &name);
                match found {
                    None => WorkerAction::Respond(
                        DataThreadResponse::Error(String::from_str("Unable to find preset")),
                    ),
                    Some(p) => {
                        if self.relays.len() == 0 {
                            self.current_preset = self.presets[p].name.clone();
                            WorkerAction::Respond(
                                DataThreadResponse::Value(ResponseValue::PresetSet(true)),
                            )
                        } else {
                            let d = self.presets[p].target_for(self.relays[0].name_str());
                            let req = self.relays[0].mutate_request(d);
                            self.pending = Pending::Preset { pidx: p, pos: 0, desired: d };
                            WorkerAction::Send(req)
                        }
                    },
                }
            },
        }
    }

    /// Consumes the reply of a relay command's round trip.
    fn reply_relay(
        &mut self,
        idx: usize,
        command: RelayCommands,
        desired: bool,
        payload: Option<Vec<u8>>,
    ) -> (r: WorkerAction)
        requires
            old(self)@.pending is Idle,
            idx < old(self)@.relays.len(),
        ensures
            final(self).wf(),
            final(self)@ == spec_reply_relay(old(self)@, idx as int, command, desired, (match payload {
                Some(v) => Some(v@),
                None => None,
            })).state,
            r@ == spec_reply_relay(old(self)@, idx as int, command, desired, (match payload {
                Some(v) => Some(v@),
                None => None,
            })).action,
    {
        let decoded: Option<Vec<u8>> = match payload {
            None => None,
            Some(raw) => codec::decode_frame(&raw),
        };
        match decoded {
            None => WorkerAction::Respond(
                DataThreadResponse::Error(DeviceError::Unreachable.message()),
            ),
            Some(text) => {
                match command {
                    RelayCommands::STATUS => {
                        let ghost pre = self@.relays;
                        let device = &mut self.relays[idx];
                        let outcome = device.apply_status_reply(&text);
                        match outcome {
                            Ok(b) => {
                                assert(crate::config::relay_models(self.relays@) =~= pre.update(
                                    idx as int,
                                    pre[idx as int].with_status(b),
                                ));
                                WorkerAction::Respond(
                                    DataThreadResponse::Value(ResponseValue::StatusFlag(b)),
                                )
                            },
                            Err(e) => {
                                assert(crate::config::relay_models(self.relays@) =~= pre);
                                WorkerAction::Respond(DataThreadResponse::Error(e.message()))
                            },
                        }
                    },
                    _ => {
                        let ghost pre = self@.relays;
                        let device = &mut self.relays[idx];
                        let acked = device.apply_mutate_reply(desired, &text);
                        if acked {
                            assert(crate::config::relay_models(self.relays@) =~= pre.update(
                                idx as int,
                                pre[idx as int].with_status(desired),
                            ));
                            let snap = self.relays[idx].snapshot();
                            WorkerAction::Respond(
                                DataThreadResponse::Value(ResponseValue::Snapshot(snap)),
                            )
                        } else {
                            assert(crate::config::relay_models(self.relays@) =~= pre);
                            WorkerAction::Respond(
                                DataThreadResponse::Error(DeviceError::Unreachable.message()),
                            )
                        }
                    },
                }
            },
        }
    }

    /// Consumes one reply of a tag command's round trips.
    fn reply_tag(
        &mut self,
        command: RelayCommands,
        targets: Vec<usize>,
        pos: usize,
        desired: bool,
        payload: Option<Vec<u8>>,
    ) -> (r: WorkerAction)
        requires
            old(self)@.pending is Idle,
            pos < targets@.len(),
            forall|k: int| 0 <= k < targets@.len() ==> targets@[k] < old(self)@.relays.len(),
        ensures
            final(self).wf(),
            final(self)@ == spec_reply_tag(
                old(self)@,
                command,
                usizes(targets@),
                pos as int,
                desired,
                (match payload {
                    Some(v) => Some(v@),
                    None => None,
                }),
            ).state,
            r@ == spec_reply_tag(
                old(self)@,
                command,
                usizes(targets@),
                pos as int,
                desired,
                (match payload {
                    Some(v) => Some(v@),
                    None => None,
                }),
            ).action,
    {
        let decoded: Option<Vec<u8>> = match payload {
            None => None,
            Some(raw) => codec::decode_frame(&raw),
        };
        match decoded {
            None => WorkerAction::Respond(
                DataThreadResponse::Error(DeviceError::Unreachable.message()),
            ),
            Some(text) => {
                let ghost pre = self@.relays;
                let tgt = targets[pos];
                let count = targets.len();
                assert(pos < count);
                let device = &mut self.relays[tgt];
                let acked = device.apply_mutate_reply(desired, &text);
                if acked {
                    assert(crate::config::relay_models(self.relays@) =~= pre.update(
                        tgt as int,
                        pre[tgt as int].with_status(desired),
                    ));
                    if pos + 1 < count {
                        let nxt = targets[pos + 1];
                        assert(usizes(targets@)[pos + 1] == nxt as int);
                        let d2 = desired_exec(command, self.relays[nxt].status());
                        let req = self.relays[nxt].mutate_request(d2);
                        self.pending = Pending::Tag {
                            command,
                            targets,
                            pos: pos + 1,
                            desired: d2,
                        };
                        WorkerAction::Send(req)
                    } else {
                        WorkerAction::Respond(DataThreadResponse::Bool(true))
                    }
                } else {
                    assert(crate::config::relay_models(self.relays@) =~= pre);
                    WorkerAction::Respond(
                        DataThreadResponse::Error(DeviceError::Unreachable.message()),
                    )
                }
            },
        }
    }

    /// Consumes one reply of a preset application's round trips.
    fn reply_preset(
        &mut self,
        pidx: usize,
        pos: usize,
        desired: bool,
        payload: Option<Vec<u8>>,
    ) -> (r: WorkerAction)
        requires
            old(self)@.pending is Idle,
            pidx < old(self)@.presets.len(),
            pos < old(self)@.relays.len(),
        ensures
            final(self).wf(),
            final(self)@ == spec_reply_preset(
                old(self)@,
                pidx as int,
                pos as int,
                desired,
                (match payload {
                    Some(v) => Some(v@),
                    None => None,
                }),
            ).state,
            r@ == spec_reply_preset(
                old(self)@,
                pidx as int,
                pos as int,
                desired,
                (match payload {
                    Some(v) => Some(v@),
                    None => None,
                }),
            ).action,
    {
        let decoded: Option<Vec<u8>> = match payload {
            None => None,
            Some(raw) => codec::decode_frame(&raw),
        };
        match decoded {
            None => WorkerAction::Respond(
                DataThreadResponse::Value(ResponseValue::PresetSet(false)),
            ),
            Some(text) => {
                let ghost pre = self@.relays;
                let device = &mut self.relays[pos];
                let acked = device.apply_mutate_reply(desired, &text);
                let n = self.relays.len();
                assert(pos < n);
                if acked {
                    assert(crate::config::relay_models(self.relays@) =~= pre.update(
                        pos as int,
                        pre[pos as int].with_status(desired),
                    ));
                    if pos + 1 < n {
                        let d2 = self.presets[pidx].target_for(self.relays[pos + 1].name_str());
                        let req = self.relays[pos + 1].mutate_request(d2);
                        self.pending = Pending::Preset { pidx, pos: pos + 1, desired: d2 };
                        WorkerAction::Send(req)
                    } else {
                        self.current_preset = self.presets[pidx].name.clone();
                        WorkerAction::Respond(
                            DataThreadResponse::Value(ResponseValue::PresetSet(true)),
                        )
                    }
                } else {
                    assert(crate::config::relay_models(self.relays@) =~= pre);
                    WorkerAction::Respond(
                        DataThreadResponse::Value(ResponseValue::PresetSet(false)),
                    )
                }
            },
        }
    }

    /// Consumes a loaded configuration snapshot while refreshing.
    fn apply_refresh(&mut self, silent: bool, res: Option<Config>) -> (r: WorkerAction)
        requires
            old(self)@.pending is Idle,
        ensures
            final(self).wf(),
            final(self)@ == spec_config_loaded(old(self)@, silent, (match res {
                Some(c) => Some(c@),
                None => None,
            })).state,
            r@ == spec_config_loaded(old(self)@, silent, (match res {
                Some(c) => Some(c@),
                None => None,
            })).action,
    {
        match res {
            None => WorkerAction::Respond(
                DataThreadResponse::Error(String::from_str("Could not refresh config")),
            ),
            Some(cfg) => {
                let Config { relays: new_relays, presets: new_presets } = cfg;
                proof {
                    lemma_relay_entries(self.relays@, new_relays@);
                    lemma_preset_entries(self.presets@, new_presets@);
                }
                if !config_equals(&self.relays, &new_relays) {
                    self.relays = new_relays;
                }
                if !config_equals(&self.presets, &new_presets) {
                    self.presets = new_presets;
                }
                if silent {
                    WorkerAction::Silent
                } else {
                    WorkerAction::Respond(DataThreadResponse::Bool(true))
                }
            },
        }
    }

    /// Feeds one event to the machine and takes its one action.  A
    /// command is accepted when idle, a transport reply while its
    /// round trip is in flight, a loaded configuration while
    /// refreshing; anything else changes nothing and asks nothing.
    pub fn step(&mut self, ev: WorkerEvent) -> (r: WorkerAction)
        requires
            old(self).wf(),
        ensures
            final(self).wf(),
            final(self)@ == spec_step(old(self)@, ev@).state,
            r@ == spec_step(old(self)@, ev@).action,
    {
        match ev {
            WorkerEvent::Command(c) => {
                match &self.pending {
                    Pending::Idle => {},
                    _ => {
                        return WorkerAction::Silent;
                    },
                }
                match c {
                    DataThreadCommand::SystemStatus => WorkerAction::Respond(
                        DataThreadResponse::Value(ResponseValue::System(self.system_report())),
                    ),
                    DataThreadCommand::Refresh => {
                        self.pending = Pending::Refresh { silent: false };
                        WorkerAction::LoadConfig
                    },
                    DataThreadCommand::AutoRefresh => {
                        self.pending = Pending::Refresh { silent: true };
                        WorkerAction::LoadConfig
                    },
                    DataThreadCommand::Relay(rc) => self.start_relay(rc),
                    DataThreadCommand::Tag(tc) => self.start_tag(tc),
                    DataThreadCommand::Preset(pc) => self.start_preset(pc),
                }
            },
            WorkerEvent::Reply(payload) => {
                let mut taken = Pending::Idle;
                core::mem::swap(&mut self.pending, &mut taken);
                match taken {
                    Pending::Relay { idx, command, desired } => self.reply_relay(
                        idx,
                        command,
                        desired,
                        payload,
                    ),
                    Pending::Tag { command, targets, pos, desired } => {
                        proof {
                            assert forall|k: int|
                                0 <= k < targets@.len() implies targets@[k] < old(
                                self,
                            )@.relays.len() by {
                                assert(usizes(targets@)[k] == targets@[k] as int);
                            }
                        }
                        self.reply_tag(command, targets, pos, desired, payload)
                    },
                    Pending::Preset { pidx, pos, desired } => self.reply_preset(
                        pidx,
                        pos,
                        desired,
                        payload,
                    ),
                    Pending::Idle => WorkerAction::Silent,
                    Pending::Refresh { silent } => {
                        self.pending = Pending::Refresh { silent };
                        WorkerAction::Silent
                    },
                }
            },
            WorkerEvent::ConfigLoaded(res) => {
                let silent = match &self.pending {
                    Pending::Refresh { silent } => *silent,
                    _ => {
                        return WorkerAction::Silent;
                    },
                };
                self.pending = Pending::Idle;
                self.apply_refresh(silent, res)
            },
        }
    }
}

} // verus!
