//! What the HTTP front end does with a request: which operation it stands
//! for, what is asked of the device, and what is answered.

use vstd::prelude::*;
use crate::codec::{get_preset_name_frame, load_preset_frame, save_current_frame};
use crate::crosspoint::{
    create_preset_outcome, preset_command_outcome, text_of, CrossPoint, CrossPointError,
    CrossPointIO, CrossPointPreset, CrossPointTie, PresetView, TieView,
};
use crate::document::{
    array_value, as_i32, as_u8, dump, entry_values, entry_values_of, field, insert, json_document,
    json_dump, json_entries, json_field, json_i32, json_members, json_number, json_text, json_u8,
    key_position, new_object, number_value, object_entries, object_value, parse, parts_of, text,
    text_value,
};
use crate::http::{HttpError, HttpMethod, HttpResponse, HttpResponseCode};
use crate::text::{
    chars_of, parse_i32, parse_i32_spec, str_eq, string_of, strip_leading, trim, trimmed,
    without_leading,
};
use crate::transport::DeviceTransport;

verus! {

/// The address that the service listens on where the configuration names
/// none.
pub const DEFAULT_BINDING: &'static str = "127.0.0.1:1872";

/// The directory that pages are served from where the configuration names
/// none.
pub const DEFAULT_HTTP_ROOT: &'static str = "../site/";

/// What a request asks for.
#[derive(Clone, Copy, Debug, PartialEq, Eq, Structural)]
pub enum Route {
    /// The names of the presets that are assigned.
    ActivePresets,
    /// Saving the current ties as a preset.
    SaveCurrentToPreset,
    /// Recalling a preset.
    LoadPreset,
    /// Creating a preset.
    CreatePreset,
    /// The names of all presets.
    PresetNames,
    /// A page from the site.
    Page,
    /// Nothing that the service has.
    NotFound,
}

/// What a request with this method and path asks for.
pub open spec fn route_of(method: HttpMethod, path: Seq<char>) -> Route {
    if method == HttpMethod::GET && path == "/activePresets"@ {
        Route::ActivePresets
    } else if method == HttpMethod::GET && path == "/saveCurrentToPreset"@ {
        Route::SaveCurrentToPreset
    } else if method == HttpMethod::GET && path == "/loadPreset"@ {
        Route::LoadPreset
    } else if method == HttpMethod::POST && path == "/createPreset"@ {
        Route::CreatePreset
    } else if method == HttpMethod::GET && path == "/presetNames"@ {
        Route::PresetNames
    } else if method == HttpMethod::GET {
        Route::Page
    } else {
        Route::NotFound
    }
}

/// Tells what a request with this method and path asks for.
pub fn route(method: HttpMethod, path: &str) -> (found: Route)
    ensures
        found == route_of(method, path@),
{
    let get = method == HttpMethod::GET;
    if get && str_eq(path, "/activePresets") {
        Route::ActivePresets
    } else if get && str_eq(path, "/saveCurrentToPreset") {
        Route::SaveCurrentToPreset
    } else if get && str_eq(path, "/loadPreset") {
        Route::LoadPreset
    } else if method == HttpMethod::POST && str_eq(path, "/createPreset") {
        Route::CreatePreset
    } else if get && str_eq(path, "/presetNames") {
        Route::PresetNames
    } else if get {
        Route::Page
    } else {
        Route::NotFound
    }
}

/// The answer to a request for what the service does not have.
pub fn not_found() -> (error: HttpError)
    ensures
        error.says(404, "Resource does not exist"@),
{
    HttpError::new(404, "Resource does not exist")
}

/// The response without content and with status 200.
pub open spec fn is_done(response: HttpResponse) -> bool {
    response.status_code.code == 200 && response.content is None && response.mime is None
}

/// The response that tells of an error: its words as plain text, under its
/// status.
pub fn error_response(error: HttpError) -> (response: HttpResponse)
    ensures
        response.status_code == error.code,
        response.content == Some(error.message),
        response.mime is Some && response.mime->Some_0@ == "text/plain"@,
{
    HttpResponse {
        content: Some(error.message),
        mime: Some("text/plain".to_owned()),
        status_code: error.code,
    }
}

/// The response that carries a page.
pub fn page_response(content: String, mime: String) -> (response: HttpResponse)
    ensures
        response.status_code.code == 200,
        response.content == Some(content),
        response.mime == Some(mime),
{
    HttpResponse { status_code: HttpResponseCode::new(200), content: Some(content), mime: Some(mime) }
}

/// The response that carries a JSON document.
pub fn json_response(document: String) -> (response: HttpResponse)
    ensures
        response.status_code.code == 200,
        response.content == Some(document),
        response.mime is Some && response.mime->Some_0@ == "application/json"@,
{
    HttpResponse {
        content: Some(document),
        mime: Some("application/json".to_owned()),
        status_code: HttpResponseCode { code: 200 },
    }
}

/// The file that is served for a path: `index.html` for the root, and else
/// the path without the slashes it begins with.
pub open spec fn page_file_of(relative_path: Seq<char>) -> Seq<char> {
    if relative_path == "/"@ {
        "index.html"@
    } else {
        strip_leading(relative_path, '/')
    }
}

/// The file that is served for a path.
pub fn page_file(relative_path: &str) -> (file: String)
    ensures
        file@ == page_file_of(relative_path@),
{
    if str_eq(relative_path, "/") {
        "index.html".to_owned()
    } else {
        string_of(&without_leading(&chars_of(relative_path), '/'))
    }
}

/// The media type of a file with this extension.
pub open spec fn mime_of(extension: Seq<char>) -> Seq<char> {
    if extension == "js"@ {
        "text/javascript"@
    } else if extension == "css"@ {
        "text/css"@
    } else if extension == "html"@ {
        "text/html"@
    } else if extension == "xml"@ {
        "text/xml"@
    } else {
        "text/plain"@
    }
}

/// The media type of a file with this extension.
pub fn mime_for(extension: &str) -> (mime: String)
    ensures
        mime@ == mime_of(extension@),
{
    if str_eq(extension, "js") {
        "text/javascript".to_owned()
    } else if str_eq(extension, "css") {
        "text/css".to_owned()
    } else if str_eq(extension, "html") {
        "text/html".to_owned()
    } else if str_eq(extension, "xml") {
        "text/xml".to_owned()
    } else {
        "text/plain".to_owned()
    }
}

/// The numbers and names that a list of presets holds.
pub open spec fn listed_view(listed: Seq<(i32, String)>) -> Seq<(i32, Seq<char>)> {
    listed.map_values(|preset: (i32, String)| (preset.0, preset.1@))
}

/// The list of names, or the status and the words of a failure, for what
/// was returned.
pub open spec fn names_view(result: Result<Vec<(i32, String)>, HttpError>) -> Result<
    Seq<(i32, Seq<char>)>,
    (int, Seq<char>),
> {
    match result {
        Ok(listed) => Ok(listed_view(listed@)),
        Err(e) => Err((e.code.code as int, e.message@)),
    }
}

/// `listed` with preset `n` under the name that the device gave for it,
/// without the white space at its ends. Where only the assigned presets are
/// asked for, one that the device calls `[unassigned]` is left out.
pub open spec fn with_name(
    listed: Seq<(i32, Seq<char>)>,
    n: int,
    name: Seq<char>,
    only_active: bool,
) -> Seq<(i32, Seq<char>)> {
    if !only_active || trim(name) != "[unassigned]"@ {
        listed.push((n as i32, trim(name)))
    } else {
        listed
    }
}

/// Whether asking for the names of the presets from `from` to 32, one after
/// the other, may take the session `before` to `after` and give `result`,
/// with `listed` gathered so far. The first failure ends it, with status 500
/// and the words of the error.
pub open spec fn names_outcome<T: DeviceTransport>(
    before: CrossPoint<T>,
    from: int,
    only_active: bool,
    listed: Seq<(i32, Seq<char>)>,
    after: CrossPoint<T>,
    result: Result<Seq<(i32, Seq<char>)>, (int, Seq<char>)>,
) -> bool
    decreases 33 - from, 1int,
{
    if from < 1 || from > 32 {
        after == before && result == Ok::<Seq<(i32, Seq<char>)>, (int, Seq<char>)>(listed)
    } else {
        exists|next: CrossPoint<T>, returned: Result<Seq<char>, CrossPointError>| #[trigger]
            preset_command_outcome(
                before,
                from,
                get_preset_name_frame(from),
                next,
                returned,
            ) && names_after(next, returned, from, only_active, listed, after, result)
    }
}

/// Whether the listing, once the device has returned `returned` for preset
/// `from` and left the session `next`, may go on to `after` and `result`.
pub open spec fn names_after<T: DeviceTransport>(
    next: CrossPoint<T>,
    returned: Result<Seq<char>, CrossPointError>,
    from: int,
    only_active: bool,
    listed: Seq<(i32, Seq<char>)>,
    after: CrossPoint<T>,
    result: Result<Seq<(i32, Seq<char>)>, (int, Seq<char>)>,
) -> bool
    decreases 33 - from, 0int,
{
    if from < 1 || from > 32 {
        false
    } else {
        match returned {
            Err(e) => after == next && result == Err::<Seq<(i32, Seq<char>)>, (int, Seq<char>)>(
                (500, e.message()),
            ),
            Ok(name) => names_outcome(
                next,
                from + 1,
                only_active,
                with_name(listed, from, name, only_active),
                after,
                result,
            ),
        }
    }
}

/// Asks the device for the names of its presets, 1 to 32 in order, and lists
/// them with their numbers: all of them, or only those that are assigned.
pub fn preset_names<T: DeviceTransport>(cp: &mut CrossPoint<T>, only_active: bool) -> (result:
    Result<Vec<(i32, String)>, HttpError>)
    ensures
        names_outcome(*old(cp), 1, only_active, Seq::empty(), *final(cp), names_view(result)),
{
    let mut presets: Vec<(i32, String)> = Vec::new();
    let mut i: i32 = 1;
    assert(listed_view(presets@) == Seq::<(i32, Seq<char>)>::empty());
    while i <= 32
        invariant
            1 <= i <= 33,
            forall|after: CrossPoint<T>, result: Result<Seq<(i32, Seq<char>)>, (int, Seq<char>)>| #[trigger]
                names_outcome(*cp, i as int, only_active, listed_view(presets@), after, result)
                    ==> names_outcome(*old(cp), 1, only_active, Seq::empty(), after, result),
        decreases 33 - i,
    {
        let ghost before = *cp;
        let ghost listed = listed_view(presets@);
        proof {
            reveal_with_fuel(names_outcome, 2);
        }
        let returned = cp.get_preset_name(i);
        assert(preset_command_outcome(
            before,
            i as int,
            get_preset_name_frame(i as int),
            *cp,
            text_of(returned),
        ));
        let name = match returned {
            Ok(name) => name,
            Err(e) => {
                let error = HttpError::new(500, e.to_string().as_str());
                assert(names_outcome(
                    before,
                    i as int,
                    only_active,
                    listed,
                    *cp,
                    Err::<Seq<(i32, Seq<char>)>, (int, Seq<char>)>((500, e.message())),
                ));
                return Err(error);
            },
        };
        let name = string_of(&trimmed(&chars_of(name.as_str())));
        if !only_active || !str_eq(name.as_str(), "[unassigned]") {
            let ghost held = presets@;
            presets.push((i, name));
            assert(listed_view(presets@) == listed_view(held).push((i, name@)));
        }
        i += 1;
        assert forall|
            after: CrossPoint<T>,
            result: Result<Seq<(i32, Seq<char>)>, (int, Seq<char>)>,
        | #[trigger]
            names_outcome(
                *cp,
                i as int,
                only_active,
                listed_view(presets@),
                after,
                result,
            ) implies names_outcome(before, i - 1, only_active, listed, after, result) by {
            assert(preset_command_outcome(
                before,
                i - 1,
                get_preset_name_frame(i - 1),
                *cp,
                text_of(returned),
            ));
        }
    }
    assert(names_outcome(
        *cp,
        33,
        only_active,
        listed_view(presets@),
        *cp,
        Ok::<Seq<(i32, Seq<char>)>, (int, Seq<char>)>(listed_view(presets@)),
    ));
    Ok(presets)
}

/// Whether `value` is the entry of a preset in the list of names: an object
/// with its `Number` and then its `Name`.
pub open spec fn is_name_entry(value: json::JsonValue, preset: (i32, Seq<char>)) -> bool {
    let entries = json_entries(value);
    &&& entries.len() == 2
    &&& entries[0].0 == "Number"@
    &&& json_number(entries[0].1) == Some(parts_of(preset.0 as i64))
    &&& entries[1].0 == "Name"@
    &&& json_text(entries[1].1) == Some(preset.1)
}

/// Whether `document` is the list of names `listed`: an object whose one
/// entry, `Presets`, is an array with an entry for each preset, in order.
pub open spec fn is_names_document(document: json::JsonValue, listed: Seq<(i32, Seq<char>)>) -> bool {
    let entries = json_entries(document);
    &&& entries.len() == 1
    &&& entries[0].0 == "Presets"@
    &&& json_members(entries[0].1).len() == listed.len()
    &&& forall|i: int|
        0 <= i < listed.len() ==> is_name_entry(#[trigger] json_members(entries[0].1)[i], listed[i])
}

/// Whether `text` is the list of names `listed`, written out as JSON.
pub open spec fn is_names_text(text: Seq<char>, listed: Seq<(i32, Seq<char>)>) -> bool {
    exists|document: json::JsonValue| #[trigger]
        json_dump(document) == text && is_names_document(document, listed)
}

/// Whether `result` is the answer to a request for the names of the
/// presets, given the list that came of asking the device: the list as JSON
/// under status 200, or the failure.
pub open spec fn is_names_answer(
    result: Result<HttpResponse, HttpError>,
    names: Result<Seq<(i32, Seq<char>)>, (int, Seq<char>)>,
) -> bool {
    match names {
        Ok(listed) => {
            &&& result matches Ok(response)
            &&& response.status_code.code == 200
            &&& response.mime matches Some(mime)
            &&& mime@ == "application/json"@
            &&& response.content matches Some(content)
            &&& is_names_text(content@, listed)
        },
        Err((code, message)) => result is Err && result->Err_0.says(code, message),
    }
}

/// The entry of one preset in the list of names.
fn name_entry(number: i32, name: String) -> (entry: json::JsonValue)
    ensures
        is_name_entry(entry, (number, name@)),
{
    proof {
        reveal_strlit("Number");
        reveal_strlit("Name");
    }
    let mut preset = new_object();
    let number_value = number_value(number as i64);
    insert(&mut preset, "Number", number_value);
    assert(object_entries(preset) == seq![("Number"@, number_value)]);
    assert(key_position(object_entries(preset), "Name"@) == 1) by {
        reveal_with_fuel(key_position, 2);
        assert("Number"@.len() != "Name"@.len());
        assert(object_entries(preset).skip(1).len() == 0);
    }
    insert(&mut preset, "Name", text_value(name));
    object_value(preset)
}

/// Writes a list of presets out as JSON: `{"Presets":[{"Number":..,
/// "Name":..},..]}`.
pub fn names_document(names: &Vec<(i32, String)>) -> (text: String)
    ensures
        is_names_text(text@, listed_view(names@)),
{
    let mut presets: Vec<json::JsonValue> = Vec::new();
    let mut i: usize = 0;
    while i < names.len()
        invariant
            i <= names.len(),
            presets@.len() == i,
            forall|k: int|
                0 <= k < i ==> is_name_entry(#[trigger] presets@[k], listed_view(names@)[k]),
        decreases names.len() - i,
    {
        let entry = name_entry(names[i].0, names[i].1.clone());
        presets.push(entry);
        i += 1;
    }
    let mut response = new_object();
    insert(&mut response, "Presets", array_value(presets));
    let document = object_value(response);
    assert(is_names_document(document, listed_view(names@)));
    dump(document)
}

/// Answers a request for the names of the presets: asks the device for
/// them, 1 to 32 in order, and writes out as JSON all of them, or only those
/// that are assigned.
pub fn get_presets_names<T: DeviceTransport>(cp: &mut CrossPoint<T>, only_active: bool) -> (result:
    Result<HttpResponse, HttpError>)
    ensures
        exists|names: Result<Seq<(i32, Seq<char>)>, (int, Seq<char>)>| #[trigger]
            names_outcome(*old(cp), 1, only_active, Seq::empty(), *final(cp), names)
                && is_names_answer(result, names),
{
    let names = preset_names(cp, only_active);
    assert(names_outcome(*old(cp), 1, only_active, Seq::empty(), *cp, names_view(names)));
    match names {
        Ok(listed) => Ok(json_response(names_document(&listed))),
        Err(e) => Err(e),
    }
}

/// The preset number that a parameter gives, if it gives one.
pub open spec fn number_in(parameter: Option<&String>) -> Option<i32> {
    match parameter {
        Some(text) => parse_i32_spec(text@),
        None => None,
    }
}

/// Whether `result` is what the request to save the current ties answers,
/// given what the device returned: done where the command went through, and
/// status 400 where it did not.
pub open spec fn is_saved(
    result: Result<HttpResponse, HttpError>,
    returned: Result<Seq<char>, CrossPointError>,
) -> bool {
    match returned {
        Ok(_) => result is Ok && is_done(result->Ok_0),
        Err(_) => result is Err && result->Err_0.says(400, "Invalid preset number"@),
    }
}

/// Whether `result` is what the request to recall a preset answers, given
/// what the device returned.
pub open spec fn is_loaded(
    result: Result<HttpResponse, HttpError>,
    returned: Result<Seq<char>, CrossPointError>,
) -> bool {
    match returned {
        Ok(_) => result is Ok && is_done(result->Ok_0),
        Err(_) => result is Err && result->Err_0.says(400, "Missing or invalid preset"@),
    }
}

/// Whether `result` is what the request to create a preset answers, given
/// what the device returned: done where both commands went through, and
/// status 500 with the words of the error where they did not.
pub open spec fn is_created(
    result: Result<HttpResponse, HttpError>,
    returned: Result<Seq<char>, CrossPointError>,
) -> bool {
    match returned {
        Ok(_) => result is Ok && is_done(result->Ok_0),
        Err(e) => result is Err && result->Err_0.says(500, e.message()),
    }
}

/// Saves the current ties as the preset that the parameter names. Without a
/// parameter that is a number nothing is asked of the device.
pub fn save_current_config<T: DeviceTransport>(
    cp: &mut CrossPoint<T>,
    preset_number_param: Option<&String>,
) -> (result: Result<HttpResponse, HttpError>)
    ensures
        match number_in(preset_number_param) {
            None => *final(cp) == *old(cp) && result is Err && result->Err_0.says(
                400,
                "Missing preset number argument"@,
            ),
            Some(n) => exists|returned: Result<Seq<char>, CrossPointError>| #[trigger]
                preset_command_outcome(
                    *old(cp),
                    n as int,
                    save_current_frame(n as int),
                    *final(cp),
                    returned,
                ) && is_saved(result, returned),
        },
{
    let preset_number = match preset_number_param {
        Some(text) => match parse_i32(&chars_of(text.as_str())) {
            Some(n) => n,
            None => { return Err(HttpError::new(400, "Missing preset number argument")); },
        },
        None => { return Err(HttpError::new(400, "Missing preset number argument")); },
    };
    let returned = cp.save_current_config(preset_number);
    assert(preset_command_outcome(
        *old(cp),
        preset_number as int,
        save_current_frame(preset_number as int),
        *cp,
        text_of(returned),
    ));
    match returned {
        Ok(_) => Ok(HttpResponse { status_code: HttpResponseCode::new(200), content: None, mime: None }),
        Err(_) => Err(HttpError::new(400, "Invalid preset number")),
    }
}

/// The preset number that the request to recall a preset asks for: the
/// number in the parameter, and zero where the parameter is no number.
pub open spec fn number_to_load(parameter: &String) -> i32 {
    match parse_i32_spec(parameter@) {
        Some(n) => n,
        None => 0,
    }
}

/// Recalls the preset that the parameter names. Without a parameter nothing
/// is asked of the device; a parameter that is no number counts as zero,
/// which the client refuses.
pub fn load_preset<T: DeviceTransport>(
    port: &mut CrossPoint<T>,
    preset_number_param: Option<&String>,
) -> (result: Result<HttpResponse, HttpError>)
    ensures
        match preset_number_param {
            None => *final(port) == *old(port) && result is Err && result->Err_0.says(
                400,
                "Missing preset number argument"@,
            ),
            Some(parameter) => exists|returned: Result<Seq<char>, CrossPointError>| #[trigger]
                preset_command_outcome(
                    *old(port),
                    number_to_load(parameter) as int,
                    load_preset_frame(number_to_load(parameter) as int),
                    *final(port),
                    returned,
                ) && is_loaded(result, returned),
        },
{
    let parameter = match preset_number_param {
        Some(parameter) => parameter,
        None => { return Err(HttpError::new(400, "Missing preset number argument")); },
    };
    let preset_number: i32 = match parse_i32(&chars_of(parameter.as_str())) {
        Some(n) => n,
        None => 0,
    };
    assert(preset_number == number_to_load(parameter));
    let returned = port.load_preset(preset_number);
    assert(preset_command_outcome(
        *old(port),
        preset_number as int,
        load_preset_frame(preset_number as int),
        *port,
        text_of(returned),
    ));
    match returned {
        Ok(_) => Ok(HttpResponse { content: None, mime: None, status_code: HttpResponseCode { code: 200 } }),
        Err(_) => Err(HttpError::new(400, "Missing or invalid preset")),
    }
}

/// The tie that one entry of `Inputs` states: its `InputChannel`, its
/// `OutputChannels` and its `IOType`, which is `All` where it is missing or
/// not known. None where a channel is missing or no number that a `u8`
/// holds.
pub open spec fn requested_tie(entry: json::JsonValue) -> Option<TieView> {
    tie_of_request(
        json_u8(json_field(entry, "InputChannel"@)),
        json_u8(json_field(entry, "OutputChannels"@)),
        json_text(json_field(entry, "IOType"@)),
    )
}

/// The tie from `input` to `output` for the kind of signal that `io_type`
/// names, which is `All` where no name is given or the name is not known.
/// None where a channel is missing.
pub open spec fn tie_of_request(
    input: Option<u8>,
    output: Option<u8>,
    io_type: Option<Seq<char>>,
) -> Option<TieView> {
    match (input, output) {
        (Some(input), Some(output)) => Some(
            TieView {
                input_channel: input,
                output_channels: seq![output],
                io_type: CrossPointIO::spec_from_str(
                    match io_type {
                        Some(name) => name,
                        None => Seq::empty(),
                    },
                ),
            },
        ),
        _ => None,
    }
}

/// The characters of `text`, where there is one.
pub open spec fn chars_in(text: Option<&str>) -> Option<Seq<char>> {
    match text {
        Some(t) => Some(t@),
        None => None,
    }
}

/// The preset with this name, number and ties; none where one of them is
/// missing.
pub open spec fn preset_of_request(
    name: Option<Seq<char>>,
    number: Option<i32>,
    ties: Option<Seq<TieView>>,
) -> Option<PresetView> {
    match (name, number, ties) {
        (Some(name), Some(number), Some(ties)) => Some(PresetView { number, name, ties }),
        _ => None,
    }
}

/// The ties that a vector holds, where there is one.
pub open spec fn ties_in(ties: Option<Vec<CrossPointTie>>) -> Option<Seq<TieView>> {
    match ties {
        Some(ties) => Some(crate::crosspoint::ties_view(ties@)),
        None => None,
    }
}

/// The ties that `entries` state, in order; none where one of them states
/// no tie.
pub open spec fn requested_ties(entries: Seq<json::JsonValue>) -> Option<Seq<TieView>>
    decreases entries.len(),
{
    if entries.len() == 0 {
        Some(Seq::empty())
    } else {
        match (requested_ties(entries.drop_last()), requested_tie(entries.last())) {
            (Some(ties), Some(tie)) => Some(ties.push(tie)),
            _ => None,
        }
    }
}

/// The preset that a request to create one describes: its `PresetName`, its
/// `PresetNumber` and, from the entries of `Inputs`, its ties. None where
/// the name or the number is missing or one of the entries states no tie.
pub open spec fn requested_preset(request: json::JsonValue) -> Option<PresetView> {
    preset_of_request(
        json_text(json_field(request, "PresetName"@)),
        json_i32(json_field(request, "PresetNumber"@)),
        requested_ties(entry_values_of(json_field(request, "Inputs"@))),
    )
}

/// The tie that a request asks for, from what its entry holds.
pub fn tie_requested(input: Option<u8>, output: Option<u8>, io_type: Option<&str>) -> (tie: Option<
    CrossPointTie,
>)
    ensures
        match tie_of_request(input, output, chars_in(io_type)) {
            Some(expected) => tie is Some && tie->Some_0@ == expected,
            None => tie is None,
        },
{
    let input_channel = match input {
        Some(channel) => channel,
        None => { return None; },
    };
    let output_channel = match output {
        Some(channel) => channel,
        None => { return None; },
    };
    let io_type = match io_type {
        Some(name) => CrossPointIO::from_str(name),
        None => {
            let kind = CrossPointIO::from_str("");
            proof {
                reveal_strlit("");
                assert(""@ == Seq::<char>::empty());
            }
            kind
        },
    };
    let io_type = match io_type {
        Ok(kind) => kind,
        Err(_) => CrossPointIO::All,
    };
    let mut output_channels: Vec<u8> = Vec::new();
    output_channels.push(output_channel);
    Some(CrossPointTie { input_channel, output_channels, io_type })
}

/// The preset that a request asks for, from what the request holds.
pub fn preset_requested(
    name: Option<&str>,
    number: Option<i32>,
    ties: Option<Vec<CrossPointTie>>,
) -> (preset: Option<CrossPointPreset>)
    ensures
        match preset_of_request(chars_in(name), number, ties_in(ties)) {
            Some(expected) => preset is Some && preset->Some_0@ == expected,
            None => preset is None,
        },
{
    match (name, number, ties) {
        (Some(name), Some(number), Some(ties)) => Some(
            CrossPointPreset { number, name: name.to_owned(), ties },
        ),
        _ => None,
    }
}

/// Reads one entry of `Inputs`.
fn tie_from_request(entry: &json::JsonValue) -> (tie: Option<CrossPointTie>)
    ensures
        match requested_tie(*entry) {
            Some(expected) => tie is Some && tie->Some_0@ == expected,
            None => tie is None,
        },
{
    tie_requested(
        as_u8(field(entry, "InputChannel")),
        as_u8(field(entry, "OutputChannels")),
        text(field(entry, "IOType")),
    )
}

impl CrossPointPreset {
    /// The preset that a request to create one describes, if it describes
    /// one.
    pub fn from(json_request: json::JsonValue) -> (preset: Option<CrossPointPreset>)
        ensures
            match requested_preset(json_request) {
                Some(expected) => preset is Some && preset->Some_0@ == expected,
                None => preset is None,
            },
    {
        let name = text(field(&json_request, "PresetName"));
        let number = as_i32(field(&json_request, "PresetNumber"));
        let ties = Self::ties_from(field(&json_request, "Inputs"));
        preset_requested(name, number, ties)
    }

    /// The ties that the entries of `inputs` state, if each states one.
    fn ties_from(inputs: &json::JsonValue) -> (ties: Option<Vec<CrossPointTie>>)
        ensures
            ties_in(ties) == requested_ties(entry_values_of(*inputs)),
    {
        let entries = entry_values(inputs);
        let ghost stated = entry_values_of(*inputs);
        let mut ties: Vec<CrossPointTie> = Vec::new();
        let mut i: usize = 0;
        assert(stated.take(0) == Seq::<json::JsonValue>::empty());
        assert(crate::crosspoint::ties_view(ties@) == Seq::<TieView>::empty());
        while i < entries.len()
            invariant
                i <= entries.len(),
                entries@.len() == stated.len(),
                forall|k: int| 0 <= k < entries@.len() ==> *#[trigger] entries@[k] == stated[k],
                requested_ties(stated.take(i as int)) == Some(crate::crosspoint::ties_view(ties@)),
                stated == entry_values_of(*inputs),
            decreases entries.len() - i,
        {
            let entry = entries[i];
            assert(stated.take(i + 1).drop_last() == stated.take(i as int));
            assert(stated.take(i + 1).last() == *entry);
            match tie_from_request(entry) {
                Some(tie) => {
                    let ghost before = ties@;
                    ties.push(tie);
                    assert(crate::crosspoint::ties_view(ties@) == crate::crosspoint::ties_view(
                        before,
                    ).push(tie@));
                },
                None => {
                    proof {
                        lemma_missing_tie(stated, i + 1);
                    }
                    return None;
                },
            }
            i += 1;
        }
        assert(stated.take(i as int) == stated);
        Some(ties)
    }
}

/// Once an entry states no tie, the entries state no ties, whatever follows.
pub proof fn lemma_missing_tie(entries: Seq<json::JsonValue>, k: int)
    requires
        0 <= k <= entries.len(),
        requested_ties(entries.take(k)) is None,
    ensures
        requested_ties(entries) is None,
    decreases entries.len() - k,
{
    if k == entries.len() {
        assert(entries.take(k) == entries);
    } else {
        assert(entries.take(k + 1).drop_last() == entries.take(k));
        lemma_missing_tie(entries, k + 1);
    }
}

/// Creates the preset that `content` describes in JSON. Content that is no
/// JSON, or describes no preset, is refused and nothing is asked of the
/// device.
pub fn create_preset<T: DeviceTransport>(port: &mut CrossPoint<T>, content: &str) -> (result:
    Result<HttpResponse, HttpError>)
    ensures
        match json_document(content@) {
            None => *final(port) == *old(port) && result is Err && result->Err_0.says(
                400,
                "Unparseable content"@,
            ),
            Some(request) => match requested_preset(request) {
                None => *final(port) == *old(port) && result is Err && result->Err_0.says(
                    400,
                    "Invalid preset"@,
                ),
                Some(preset) => exists|returned: Result<Seq<char>, CrossPointError>| #[trigger]
                    create_preset_outcome(
                        *old(port),
                        preset.number as int,
                        preset.ties,
                        *final(port),
                        returned,
                    ) && is_created(result, returned),
            },
        },
{
    let json_obj = match parse(content) {
        Some(document) => document,
        None => { return Err(HttpError::new(400, "Unparseable content")); },
    };
    let preset = match CrossPointPreset::from(json_obj) {
        Some(preset) => preset,
        None => { return Err(HttpError::new(400, "Invalid preset")); },
    };
    let ghost asked = preset@;
    let returned = port.create_preset(preset);
    assert(create_preset_outcome(
        *old(port),
        asked.number as int,
        asked.ties,
        *port,
        text_of(returned),
    ));
    match returned {
        Ok(_) => Ok(HttpResponse { content: None, mime: None, status_code: HttpResponseCode::new(200) }),
        Err(e) => Err(HttpError::new(500, e.to_string().as_str())),
    }
}

} // verus!
