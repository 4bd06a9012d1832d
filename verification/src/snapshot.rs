//! Loading an emulated device from a JSON snapshot:
//! `{"input_channels", "output_channels", "audio_support", "current_ties":
//! [{"in", "out"}], "presets": [{"number", "name", "ties"}]}`.

use vstd::prelude::*;
use crate::config::ConfigurationError;
use crate::crosspoint::{ties_view, CrossPointIO, CrossPointTie, TieView};
use crate::document::{
    as_u8, as_usize, boolean, field, json_bool, json_field, json_members, json_document, json_text,
    json_u8, json_usize, members, parse, text,
};
use crate::vextron::{
    configured_state, factory_state, is_outcome, kept_state, VirtualCrosspoint,
    VirtualCrosspointView,
};

verus! {

/// The tie that an input and an output make, if both are given. A snapshot
/// says nothing of the kind of signal: it is `All`.
pub open spec fn tie_between(input: Option<u8>, output: Option<u8>) -> Option<TieView> {
    match (input, output) {
        (Some(i), Some(o)) => Some(
            TieView { input_channel: i, output_channels: seq![o], io_type: CrossPointIO::All },
        ),
        _ => None,
    }
}

/// The tie that one member of a list of ties states, if it states one: its
/// `in` and its `out`, where both are numbers that a `u8` holds.
pub open spec fn tie_in(member: json::JsonValue) -> Option<TieView> {
    tie_between(json_u8(json_field(member, "in"@)), json_u8(json_field(member, "out"@)))
}

/// The ties that `members` state, in order. A member that states none is
/// passed over.
pub open spec fn ties_in(members: Seq<json::JsonValue>) -> Seq<TieView>
    decreases members.len(),
{
    if members.len() == 0 {
        Seq::empty()
    } else {
        match tie_in(members.last()) {
            Some(tie) => ties_in(members.drop_last()).push(tie),
            None => ties_in(members.drop_last()),
        }
    }
}

/// The ties that `value` lists; none where it is no array.
pub open spec fn snapshot_ties(value: json::JsonValue) -> Seq<TieView> {
    ties_in(json_members(value))
}

/// The name that one member of the list of presets gives its preset;
/// `[unassigned]` where it gives none.
pub open spec fn preset_name_in(member: json::JsonValue) -> Seq<char> {
    match json_text(json_field(member, "name"@)) {
        Some(name) => name,
        None => "[unassigned]"@,
    }
}

/// The state of `device` with the preset that `member` states. A member
/// without a number is passed over.
pub open spec fn with_preset_in(device: VirtualCrosspointView, member: json::JsonValue) -> Result<
    VirtualCrosspointView,
    Seq<char>,
> {
    match json_usize(json_field(member, "number"@)) {
        Some(number) => kept_state(
            device,
            number,
            preset_name_in(member),
            snapshot_ties(json_field(member, "ties"@)),
        ),
        None => Ok(device),
    }
}

/// The state of `device` with the presets that `members` state, taken in
/// order up to the first that is refused.
pub open spec fn with_presets_in(
    device: VirtualCrosspointView,
    members: Seq<json::JsonValue>,
) -> Result<VirtualCrosspointView, Seq<char>>
    decreases members.len(),
{
    if members.len() == 0 {
        Ok(device)
    } else {
        match with_presets_in(device, members.drop_last()) {
            Ok(before) => with_preset_in(before, members.last()),
            Err(description) => Err(description),
        }
    }
}

/// The state that the snapshot `document` describes.
pub open spec fn snapshot_state(document: json::JsonValue) -> Result<
    VirtualCrosspointView,
    Seq<char>,
> {
    match configured_state(
        json_usize(json_field(document, "input_channels"@)),
        json_usize(json_field(document, "output_channels"@)),
        json_bool(json_field(document, "audio_support"@)),
        snapshot_ties(json_field(document, "current_ties"@)),
    ) {
        Ok(device) => with_presets_in(device, json_members(json_field(document, "presets"@))),
        Err(description) => Err(description),
    }
}

/// The state that the text of a snapshot describes.
pub open spec fn parsed_state(data: Seq<char>) -> Result<VirtualCrosspointView, Seq<char>> {
    match json_document(data) {
        Some(document) => snapshot_state(document),
        None => Err("Invalid JSON"@),
    }
}

/// The state of a device that is started with `snapshot`: what the snapshot
/// describes, and the factory state where there is no snapshot or it cannot
/// be used.
pub open spec fn loaded_state(snapshot: Option<Seq<char>>) -> VirtualCrosspointView {
    match snapshot {
        Some(data) => match parsed_state(data) {
            Ok(state) => state,
            Err(_) => factory_state(),
        },
        None => factory_state(),
    }
}

/// The characters of `snapshot`, where there is one.
pub open spec fn snapshot_text(snapshot: Option<&str>) -> Option<Seq<char>> {
    match snapshot {
        Some(data) => Some(data@),
        None => None,
    }
}

/// The tie from `input` to `output`, if both are given.
pub fn tie_from(input: Option<u8>, output: Option<u8>) -> (tie: Option<CrossPointTie>)
    ensures
        match tie_between(input, output) {
            Some(expected) => tie is Some && tie->Some_0@ == expected,
            None => tie is None,
        },
{
    match (input, output) {
        (Some(i), Some(o)) => {
            let mut output_channels: Vec<u8> = Vec::new();
            output_channels.push(o);
            Some(CrossPointTie { input_channel: i, output_channels, io_type: CrossPointIO::All })
        },
        _ => None,
    }
}

impl VirtualCrosspoint {
    /// A device as it is started: from the text of the snapshot, where one
    /// was found and can be used, and in its factory state otherwise.
    pub fn load_or_new(snapshot: Option<&str>) -> (device: VirtualCrosspoint)
        ensures
            device@ == loaded_state(snapshot_text(snapshot)),
            device@.wf(),
    {
        match snapshot {
            Some(data) => match VirtualCrosspoint::parse_json(data) {
                Ok(device) => device,
                Err(_) => VirtualCrosspoint::new(),
            },
            None => VirtualCrosspoint::new(),
        }
    }

    /// The device that the text of a snapshot describes.
    pub fn parse_json(data: &str) -> (result: Result<VirtualCrosspoint, ConfigurationError>)
        ensures
            is_outcome(result, parsed_state(data@)),
            result matches Ok(device) ==> device@.wf(),
    {
        let jconfig = match parse(data) {
            Some(document) => document,
            None => { return Err(ConfigurationError::new("Invalid JSON")); },
        };
        let in_channels = as_usize(field(&jconfig, "input_channels"));
        let out_channels = as_usize(field(&jconfig, "output_channels"));
        let audio = boolean(field(&jconfig, "audio_support"));
        let ties = match Self::get_ties(field(&jconfig, "current_ties")) {
            Ok(ties) => ties,
            Err(_) => Vec::new(),
        };
        let mut device = match VirtualCrosspoint::configured(
            in_channels,
            out_channels,
            audio,
            ties,
        ) {
            Ok(device) => device,
            Err(e) => { return Err(e); },
        };
        let ghost start = device@;
        let presets = members(field(&jconfig, "presets"));
        let ghost listed = json_members(json_field(jconfig, "presets"@));
        assert(snapshot_state(jconfig) == with_presets_in(start, listed));
        let mut i: usize = 0;
        assert(listed.take(0) == Seq::<json::JsonValue>::empty());
        while i < presets.len()
            invariant
                i <= presets.len(),
                presets@.len() == listed.len(),
                forall|k: int| 0 <= k < presets@.len() ==> *#[trigger] presets@[k] == listed[k],
                with_presets_in(start, listed.take(i as int)) == Ok::<
                    VirtualCrosspointView,
                    Seq<char>,
                >(device@),
                json_document(data@) == Some(jconfig),
                snapshot_state(jconfig) == with_presets_in(start, listed),
                device@.wf(),
            decreases presets.len() - i,
        {
            let preset = presets[i];
            assert(listed.take(i + 1).drop_last() == listed.take(i as int));
            assert(listed.take(i + 1).last() == *preset);
            match as_usize(field(preset, "number")) {
                Some(number) => {
                    let name = match text(field(preset, "name")) {
                        Some(name) => name,
                        None => "[unassigned]",
                    };
                    let ties = match Self::get_ties(field(preset, "ties")) {
                        Ok(ties) => ties,
                        Err(_) => Vec::new(),
                    };
                    match device.keep_preset(number, name, ties) {
                        Ok(_) => {},
                        Err(e) => {
                            proof {
                                lemma_refused_stays_refused(start, listed, i + 1);
                            }
                            return Err(e);
                        },
                    }
                },
                None => {},
            }
            i += 1;
        }
        assert(listed.take(i as int) == listed);
        Ok(device)
    }

    /// The ties that `tiesobj` lists. It never fails: what is no list holds
    /// no ties, and a member that is no tie is passed over.
    pub fn get_ties(tiesobj: &json::JsonValue) -> (result: Result<
        Vec<CrossPointTie>,
        ConfigurationError,
    >)
        ensures
            result is Ok,
            ties_view(result->Ok_0@) == snapshot_ties(*tiesobj),
    {
        let mut ties: Vec<CrossPointTie> = Vec::new();
        let listed = members(tiesobj);
        let ghost stated = json_members(*tiesobj);
        let mut i: usize = 0;
        assert(stated.take(0) == Seq::<json::JsonValue>::empty());
        assert(ties_view(ties@) == Seq::<TieView>::empty());
        while i < listed.len()
            invariant
                i <= listed.len(),
                listed@.len() == stated.len(),
                forall|k: int| 0 <= k < listed@.len() ==> *#[trigger] listed@[k] == stated[k],
                ties_view(ties@) == ties_in(stated.take(i as int)),
            decreases listed.len() - i,
        {
            let tie = listed[i];
            assert(stated.take(i + 1).drop_last() == stated.take(i as int));
            assert(stated.take(i + 1).last() == *tie);
            let input_channel = as_u8(field(tie, "in"));
            let output_channel = as_u8(field(tie, "out"));
            match tie_from(input_channel, output_channel) {
                Some(tie) => {
                    let ghost before = ties@;
                    ties.push(tie);
                    assert(ties_view(ties@) == ties_view(before).push(tie@));
                },
                None => {},
            }
            i += 1;
        }
        assert(stated.take(i as int) == stated);
        Ok(ties)
    }
}

/// Once a preset was refused, the snapshot is refused with the same words,
/// whatever presets follow.
pub proof fn lemma_refused_stays_refused(
    device: VirtualCrosspointView,
    members: Seq<json::JsonValue>,
    k: int,
)
    requires
        0 <= k <= members.len(),
        with_presets_in(device, members.take(k)) is Err,
    ensures
        with_presets_in(device, members) == with_presets_in(device, members.take(k)),
    decreases members.len() - k,
{
    if k == members.len() {
        assert(members.take(k) == members);
    } else {
        assert(members.take(k + 1).drop_last() == members.take(k));
        lemma_refused_stays_refused(device, members, k + 1);
    }
}

} // verus!
