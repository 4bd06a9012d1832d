//! The configuration of the service and the error of reading one.

use std::collections::HashMap;
use vstd::prelude::*;
use crate::document::{
    as_i32, field, json_field, json_i32, json_members, json_document, json_text, members, parse,
    text,
};

verus! {

/// What the service is started with.
pub struct ServiceConfiguration {
    /// The serial port of the device, or `virtual` for the emulator.
    pub serial_port: Option<String>,
    /// The directory that pages are served from.
    pub http_root: Option<String>,
    /// The address to listen on, as it is written in the file.
    pub binding: Option<String>,
    /// The descriptions of the inputs, by channel.
    pub inputs: HashMap<i32, String>,
    /// The descriptions of the outputs, by channel.
    pub outputs: HashMap<i32, String>,
}

/// A configuration as a mathematical value.
pub struct ServiceConfigurationView {
    pub serial_port: Option<Seq<char>>,
    pub http_root: Option<Seq<char>>,
    pub binding: Option<Seq<char>>,
    pub inputs: Map<i32, Seq<char>>,
    pub outputs: Map<i32, Seq<char>>,
}

/// The characters of `text`, where there is one.
pub open spec fn text_view(text: Option<String>) -> Option<Seq<char>> {
    match text {
        Some(t) => Some(t@),
        None => None,
    }
}

/// The descriptions that a map of channels holds.
pub open spec fn descriptions(map: Map<i32, String>) -> Map<i32, Seq<char>> {
    Map::new(|channel: i32| map.contains_key(channel), |channel: i32| map[channel]@)
}

impl View for ServiceConfiguration {
    type V = ServiceConfigurationView;

    open spec fn view(&self) -> ServiceConfigurationView {
        ServiceConfigurationView {
            serial_port: text_view(self.serial_port),
            http_root: text_view(self.http_root),
            binding: text_view(self.binding),
            inputs: descriptions(self.inputs@),
            outputs: descriptions(self.outputs@),
        }
    }
}

/// The channels that `members` describe: each member with a `description`
/// that is text and a `channel` that is a number gives one, the others give
/// none, and of two members with one channel the later counts.
pub open spec fn channels_in(members: Seq<json::JsonValue>) -> Map<i32, Seq<char>>
    decreases members.len(),
{
    if members.len() == 0 {
        Map::empty()
    } else {
        with_channel(
            channels_in(members.drop_last()),
            json_text(json_field(members.last(), "description"@)),
            json_i32(json_field(members.last(), "channel"@)),
        )
    }
}

/// `channels` with one more described, where both its description and its
/// number are given; unchanged otherwise. A channel that was described
/// before takes the new description.
pub open spec fn with_channel(
    channels: Map<i32, Seq<char>>,
    description: Option<Seq<char>>,
    channel: Option<i32>,
) -> Map<i32, Seq<char>> {
    match (description, channel) {
        (Some(name), Some(number)) => channels.insert(number, name),
        _ => channels,
    }
}

/// The characters of `text`, where there is one.
pub open spec fn chars_in(text: Option<&str>) -> Option<Seq<char>> {
    match text {
        Some(t) => Some(t@),
        None => None,
    }
}

/// Adds the description of a channel to `channels`, where both the
/// description and the number of the channel are given.
pub fn describe_channel(
    channels: &mut HashMap<i32, String>,
    description: Option<&str>,
    channel: Option<i32>,
)
    ensures
        descriptions(final(channels)@) == with_channel(
            descriptions(old(channels)@),
            chars_in(description),
            channel,
        ),
{
    broadcast use vstd::std_specs::hash::group_hash_axioms;

    match (description, channel) {
        (Some(name), Some(number)) => {
            let ghost before = channels@;
            channels.insert(number, name.to_owned());
            assert(descriptions(channels@) == descriptions(before).insert(number, name@));
        },
        _ => {},
    }
}

/// The configuration that a JSON document holds. Whatever is missing, or of
/// the wrong kind, is left out.
pub open spec fn configuration_in(document: json::JsonValue) -> ServiceConfigurationView {
    ServiceConfigurationView {
        serial_port: json_text(json_field(document, "serial-port"@)),
        http_root: json_text(json_field(document, "http_root"@)),
        binding: json_text(json_field(document, "binding"@)),
        inputs: channels_in(json_members(json_field(document, "inputs"@))),
        outputs: channels_in(json_members(json_field(document, "outputs"@))),
    }
}

/// Reads the channels that `list` describes.
fn read_channels(list: &json::JsonValue) -> (channels: HashMap<i32, String>)
    ensures
        descriptions(channels@) == channels_in(json_members(*list)),
{
    broadcast use vstd::std_specs::hash::group_hash_axioms;

    let mut channels: HashMap<i32, String> = HashMap::new();
    let listed = members(list);
    let ghost stated = json_members(*list);
    let mut i: usize = 0;
    assert(stated.take(0) == Seq::<json::JsonValue>::empty());
    assert(descriptions(channels@) == Map::<i32, Seq<char>>::empty());
    while i < listed.len()
        invariant
            i <= listed.len(),
            listed@.len() == stated.len(),
            forall|k: int| 0 <= k < listed@.len() ==> *#[trigger] listed@[k] == stated[k],
            descriptions(channels@) == channels_in(stated.take(i as int)),
        decreases listed.len() - i,
    {
        let member = listed[i];
        assert(stated.take(i + 1).drop_last() == stated.take(i as int));
        assert(stated.take(i + 1).last() == *member);
        let name = text(field(member, "description"));
        let number = as_i32(field(member, "channel"));
        describe_channel(&mut channels, name, number);
        i += 1;
    }
    assert(stated.take(i as int) == stated);
    channels
}

/// The text of `value`, as a `String` of its own.
fn owned_text(value: &json::JsonValue) -> (owned: Option<String>)
    ensures
        text_view(owned) == json_text(*value),
{
    match text(value) {
        Some(t) => Some(t.to_owned()),
        None => None,
    }
}

impl ServiceConfiguration {
    /// The configuration that the text of the configuration file holds.
    pub fn load(config_file: &str) -> (result: Result<ServiceConfiguration, ConfigurationError>)
        ensures
            match json_document(config_file@) {
                Some(document) => result is Ok && result->Ok_0@ == configuration_in(document),
                None => result is Err && result->Err_0.description()
                    == "Config file is not in JSON format"@,
            },
    {
        let config_json = match parse(config_file) {
            Some(document) => document,
            None => {
                return Err(ConfigurationError::new("Config file is not in JSON format"));
            },
        };
        Ok(
            ServiceConfiguration {
                serial_port: owned_text(field(&config_json, "serial-port")),
                http_root: owned_text(field(&config_json, "http_root")),
                binding: owned_text(field(&config_json, "binding")),
                inputs: read_channels(field(&config_json, "inputs")),
                outputs: read_channels(field(&config_json, "outputs")),
            },
        )
    }
}

/// Why a configuration, or a snapshot of a device, could not be used.
#[derive(Clone, Debug, PartialEq, Eq)]
pub struct ConfigurationError {
    description: String,
}

impl ConfigurationError {
    /// What went wrong, in words.
    pub closed spec fn description(&self) -> Seq<char> {
        self.description@
    }

    /// An error that says `desc`.
    pub fn new(desc: &str) -> (error: ConfigurationError)
        ensures
            error.description() == desc@,
    {
        ConfigurationError { description: desc.to_owned() }
    }

    /// What went wrong, in words.
    pub fn to_string(&self) -> (text: String)
        ensures
            text@ == self.description(),
    {
        self.description.clone()
    }
}

} // verus!
