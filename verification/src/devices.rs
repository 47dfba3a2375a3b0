//! Connected devices: reading the device list that the remote-control
//! executable prints, and filling in what each ready device says of itself.
//!
//! The list has a header line, then one device per line: the serial, the
//! state, and attributes written as `key:value`, such as
//! `emulator-5554 device product:sdk model:Pixel_5 transport_id:1`.

use crate::models::{copy_opt, device_state_of, opt_text, Device, DeviceState, DeviceView};
use crate::scan::{
    lines, replace, replace_all, split_lines, split_whitespace, tokens, trim, trimmed,
};
use crate::text::{
    chars_of, find, find_in, lowercase_of, rows, same_chars, slice_of, starts_with, string_of,
    texts,
};
use vstd::prelude::*;

verus! {

/// The views of a vector of devices.
pub open spec fn device_views(devices: Seq<Device>) -> Seq<DeviceView> {
    devices.map_values(|d: Device| d@)
}

/// The lines after the header line.
pub open spec fn after_header(all: Seq<Seq<char>>) -> Seq<Seq<char>> {
    if all.len() > 0 {
        all.skip(1)
    } else {
        all
    }
}

/// The value of the attribute token `token` if its key is `key`: what
/// follows its first colon.
pub open spec fn keyed_value(token: Seq<char>, key: Seq<char>) -> Option<Seq<char>> {
    match find(token, seq![':']) {
        Some(at) => if token.take(at) == key {
            Some(token.skip(at + 1))
        } else {
            None
        },
        None => None,
    }
}

/// The value that the last attribute with the key `key` gives. The first
/// two tokens of a line are the serial and the state, and no attributes.
pub open spec fn last_keyed(tokens: Seq<Seq<char>>, key: Seq<char>) -> Option<Seq<char>>
    decreases tokens.len(),
{
    if tokens.len() <= 2 {
        None
    } else {
        match keyed_value(tokens.last(), key) {
            Some(value) => Some(value),
            None => last_keyed(tokens.drop_last(), key),
        }
    }
}

/// The model name that the attribute value `value` writes: underscores
/// stand for spaces.
pub open spec fn model_name(value: Seq<char>) -> Seq<char> {
    replace_all(value, seq!['_'], seq![' '])
}

/// The device that the line `line` of the device list describes, if it
/// describes one.
pub open spec fn device_entry(line: Seq<char>) -> Option<DeviceView> {
    let t = trim(line);
    let tokens = split_whitespace(t);
    if t.len() == 0 || "List of devices"@.is_prefix_of(t) || tokens.len() < 2 {
        None
    } else {
        Some(
            DeviceView {
                serial: tokens[0],
                state: device_state_of(lowercase_of(tokens[1])),
                model: match last_keyed(tokens, "model"@) {
                    Some(value) => Some(model_name(value)),
                    None => None,
                },
                manufacturer: last_keyed(tokens, "manufacturer"@),
                android_version: None,
            },
        )
    }
}

/// The devices that the lines describe, in the order of the lines.
pub open spec fn device_entries(lines: Seq<Seq<char>>) -> Seq<DeviceView>
    decreases lines.len(),
{
    if lines.len() == 0 {
        Seq::empty()
    } else {
        match device_entry(lines.last()) {
            Some(device) => device_entries(lines.drop_last()).push(device),
            None => device_entries(lines.drop_last()),
        }
    }
}

/// The devices that the device list `output` describes.
pub open spec fn listed_devices(output: Seq<char>) -> Seq<DeviceView> {
    device_entries(after_header(lines(output)))
}

/// What a ready device is asked about itself.
#[derive(Clone, Copy, Debug, PartialEq, Eq, Structural)]
pub enum DeviceQuery {
    AndroidVersion,
    Manufacturer,
    Model,
}

/// The system property that answers the query.
pub open spec fn property_of(query: DeviceQuery) -> Seq<char> {
    match query {
        DeviceQuery::AndroidVersion => "ro.build.version.release"@,
        DeviceQuery::Manufacturer => "ro.product.manufacturer"@,
        DeviceQuery::Model => "ro.product.model"@,
    }
}

/// The arguments of the command that asks the device `serial`.
pub open spec fn query_arguments(serial: Seq<char>, query: DeviceQuery) -> Seq<Seq<char>> {
    seq!["-s"@, serial, "shell"@, "getprop"@, property_of(query)]
}

/// The queries that are put to `device`: a ready device is asked for its
/// version, and for its manufacturer and its model where the device list
/// did not give them; another device is asked nothing.
pub open spec fn queries_for(device: DeviceView) -> Seq<DeviceQuery> {
    if device.state != DeviceState::Ready {
        Seq::empty()
    } else {
        seq![DeviceQuery::AndroidVersion] + (if device.manufacturer is None {
            seq![DeviceQuery::Manufacturer]
        } else {
            Seq::empty()
        }) + (if device.model is None {
            seq![DeviceQuery::Model]
        } else {
            Seq::empty()
        })
    }
}

/// What a device answered; `None` where it was not asked or did not answer.
#[derive(Clone, Debug, PartialEq, Eq)]
pub struct DeviceAnswers {
    pub android_version: Option<String>,
    pub manufacturer: Option<String>,
    pub model: Option<String>,
}

/// An answer without the white space around it.
pub open spec fn trimmed_answer(answer: Option<String>) -> Option<Seq<char>> {
    match answer {
        Some(text) => Some(trim(text@)),
        None => None,
    }
}

/// `device` with the answers filled in. Only a ready device is filled in;
/// an answer never replaces what the device list gave.
pub open spec fn enriched(device: DeviceView, answers: DeviceAnswers) -> DeviceView {
    if device.state != DeviceState::Ready {
        device
    } else {
        DeviceView {
            android_version: match answers.android_version {
                Some(text) => Some(trim(text@)),
                None => device.android_version,
            },
            manufacturer: if device.manufacturer is None {
                trimmed_answer(answers.manufacturer)
            } else {
                device.manufacturer
            },
            model: if device.model is None {
                trimmed_answer(answers.model)
            } else {
                device.model
            },
            ..device
        }
    }
}

/// The value of the attribute token `token` if its key is `key`.
fn keyed_value_of(token: &Vec<char>, key: &Vec<char>) -> (value: Option<Vec<char>>)
    ensures
        match value {
            Some(v) => keyed_value(token@, key@) == Some(v@),
            None => keyed_value(token@, key@) is None,
        },
{
    let mut colon: Vec<char> = Vec::new();
    colon.push(':');
    proof {
        assert(colon@ =~= seq![':']);
    }
    match find_in(token, &colon) {
        Some(at) => {
            let before = slice_of(token, 0, at);
            proof {
                assert(before@ =~= token@.take(at as int));
            }
            assert(at + colon.len() <= token.len());
            if same_chars(&before, key) {
                let after = slice_of(token, at + 1, token.len());
                proof {
                    assert(after@ =~= token@.skip(at + 1));
                }
                Some(after)
            } else {
                None
            }
        },
        None => None,
    }
}

/// The value that the last attribute with the key `key` gives.
fn last_keyed_of(tokens: &Vec<Vec<char>>, key: &Vec<char>) -> (value: Option<Vec<char>>)
    ensures
        match value {
            Some(v) => last_keyed(rows(tokens@), key@) == Some(v@),
            None => last_keyed(rows(tokens@), key@) is None,
        },
{
    let mut n: usize = tokens.len();
    proof {
        assert(rows(tokens@).take(n as int) =~= rows(tokens@));
    }
    while n > 2
        invariant
            n <= tokens.len(),
            last_keyed(rows(tokens@), key@) == last_keyed(rows(tokens@).take(n as int), key@),
        decreases n,
    {
        proof {
            let part = rows(tokens@).take(n as int);
            assert(part.last() == tokens@[n - 1]@);
            assert(part.drop_last() =~= rows(tokens@).take(n - 1));
        }
        match keyed_value_of(&tokens[n - 1], key) {
            Some(v) => {
                return Some(v);
            },
            None => {},
        }
        n -= 1;
    }
    None
}

/// The device that the line `line` describes, if any.
fn parse_device_line(line: &Vec<char>) -> (r: Option<Device>)
    ensures
        match r {
            Some(device) => device_entry(line@) == Some(device@),
            None => device_entry(line@) is None,
        },
{
    let t = trimmed(line);
    if t.len() == 0 || starts_with(&t, &chars_of("List of devices")) {
        return None;
    }
    let parts = tokens(&t);
    proof {
        assert(rows(parts@).len() == parts@.len());
    }
    if parts.len() < 2 {
        return None;
    }
    proof {
        assert(rows(parts@)[0] == parts@[0]@);
        assert(rows(parts@)[1] == parts@[1]@);
    }
    let word = string_of(&parts[1]);
    let state = DeviceState::from_word(word.as_str());
    let model = match last_keyed_of(&parts, &chars_of("model")) {
        Some(value) => {
            let mut underscore: Vec<char> = Vec::new();
            underscore.push('_');
            let mut space: Vec<char> = Vec::new();
            space.push(' ');
            proof {
                assert(underscore@ =~= seq!['_']);
                assert(space@ =~= seq![' ']);
            }
            Some(string_of(&replace(&value, &underscore, &space)))
        },
        None => None,
    };
    let manufacturer = match last_keyed_of(&parts, &chars_of("manufacturer")) {
        Some(value) => Some(string_of(&value)),
        None => None,
    };
    Some(
        Device {
            serial: string_of(&parts[0]),
            state,
            model,
            manufacturer,
            android_version: None,
        },
    )
}

/// The devices that the device list `output` describes: one for each line
/// after the header that gives a serial and a state, in the order of the
/// list.
pub fn parse_devices_output(output: &str) -> (devices: Vec<Device>)
    ensures
        device_views(devices@) == listed_devices(output@),
{
    let all = split_lines(&chars_of(output));
    let mut devices: Vec<Device> = Vec::new();
    proof {
        assert(device_views(devices@) =~= Seq::<DeviceView>::empty());
    }
    if all.len() == 0 {
        return devices;
    }
    let ghost rest = rows(all@).skip(1);
    let mut i: usize = 1;
    proof {
        assert(rest.take(0) =~= Seq::<Seq<char>>::empty());
    }
    while i < all.len()
        invariant
            1 <= i <= all.len(),
            rest == rows(all@).skip(1),
            device_views(devices@) == device_entries(rest.take(i - 1)),
        decreases all.len() - i,
    {
        proof {
            let part = rest.take(i as int);
            assert(part.last() == all@[i as int]@);
            assert(part.drop_last() =~= rest.take(i - 1));
        }
        match parse_device_line(&all[i]) {
            Some(device) => {
                proof {
                    assert(device_views(devices@.push(device)) =~= device_views(devices@).push(
                        device@,
                    ));
                }
                devices.push(device);
            },
            None => {},
        }
        i += 1;
    }
    proof {
        assert(rest.take(all.len() - 1) =~= rest);
    }
    devices
}

/// The arguments with which the remote-control executable prints the
/// device list.
pub fn device_list_command() -> (arguments: Vec<String>)
    ensures
        texts(arguments@) == seq!["devices"@, "-l"@],
{
    let mut arguments: Vec<String> = Vec::new();
    arguments.push("devices".to_owned());
    arguments.push("-l".to_owned());
    proof {
        assert(texts(arguments@) =~= seq!["devices"@, "-l"@]);
    }
    arguments
}

/// The queries that are put to `device`.
pub fn device_queries(device: &Device) -> (queries: Vec<DeviceQuery>)
    ensures
        queries@ == queries_for(device@),
{
    let mut queries: Vec<DeviceQuery> = Vec::new();
    if device.state == DeviceState::Ready {
        queries.push(DeviceQuery::AndroidVersion);
        if device.manufacturer.is_none() {
            queries.push(DeviceQuery::Manufacturer);
        }
        if device.model.is_none() {
            queries.push(DeviceQuery::Model);
        }
    }
    proof {
        assert(queries@ =~= queries_for(device@));
    }
    queries
}

/// The arguments with which the remote-control executable puts the query
/// to the device `serial`.
pub fn query_command(serial: &str, query: DeviceQuery) -> (arguments: Vec<String>)
    ensures
        texts(arguments@) == query_arguments(serial@, query),
{
    let property: &str = match query {
        DeviceQuery::AndroidVersion => "ro.build.version.release",
        DeviceQuery::Manufacturer => "ro.product.manufacturer",
        DeviceQuery::Model => "ro.product.model",
    };
    let mut arguments: Vec<String> = Vec::new();
    arguments.push("-s".to_owned());
    arguments.push(serial.to_owned());
    arguments.push("shell".to_owned());
    arguments.push("getprop".to_owned());
    arguments.push(property.to_owned());
    proof {
        assert(texts(arguments@) =~= query_arguments(serial@, query));
    }
    arguments
}

/// An answer without the white space around it.
fn trim_answer(answer: &Option<String>) -> (r: Option<String>)
    ensures
        opt_text(r) == trimmed_answer(*answer),
{
    match answer {
        Some(text) => Some(string_of(&trimmed(&chars_of(text.as_str())))),
        None => None,
    }
}

/// `device` with the answers filled in.
pub fn enrich(device: &Device, answers: &DeviceAnswers) -> (r: Device)
    ensures
        r@ == enriched(device@, *answers),
{
    if device.state != DeviceState::Ready {
        return Device {
            serial: device.serial.clone(),
            state: device.state,
            model: copy_opt(&device.model),
            manufacturer: copy_opt(&device.manufacturer),
            android_version: copy_opt(&device.android_version),
        };
    }
    Device {
        serial: device.serial.clone(),
        state: device.state,
        model: if device.model.is_none() {
            trim_answer(&answers.model)
        } else {
            copy_opt(&device.model)
        },
        manufacturer: if device.manufacturer.is_none() {
            trim_answer(&answers.manufacturer)
        } else {
            copy_opt(&device.manufacturer)
        },
        android_version: match &answers.android_version {
            Some(_) => trim_answer(&answers.android_version),
            None => copy_opt(&device.android_version),
        },
    }
}

/// The connected devices: those that the device list `output` describes,
/// each with the answers filled in that stand at its index in `answers`. A
/// device without answers is listed as the device list gave it.
pub fn list_devices(output: &str, answers: &Vec<DeviceAnswers>) -> (devices: Vec<Device>)
    ensures
        devices.len() == listed_devices(output@).len(),
        forall|i: int|
            0 <= i < devices.len() ==> (#[trigger] devices@[i])@ == if i < answers.len() {
                enriched(listed_devices(output@)[i], answers@[i])
            } else {
                listed_devices(output@)[i]
            },
{
    let listed = parse_devices_output(output);
    let mut devices: Vec<Device> = Vec::new();
    let mut i: usize = 0;
    proof {
        assert(device_views(listed@).len() == listed@.len());
    }
    while i < listed.len()
        invariant
            i <= listed.len(),
            devices.len() == i,
            device_views(listed@) == listed_devices(output@),
            forall|k: int|
                0 <= k < i ==> (#[trigger] devices@[k])@ == if k < answers.len() {
                    enriched(listed_devices(output@)[k], answers@[k])
                } else {
                    listed_devices(output@)[k]
                },
        decreases listed.len() - i,
    {
        proof {
            assert(device_views(listed@)[i as int] == listed@[i as int]@);
        }
        let device = if i < answers.len() {
            enrich(&listed[i], &answers[i])
        } else {
            listed[i].duplicate()
        };
        devices.push(device);
        i += 1;
    }
    proof {
        assert(device_views(listed@).len() == listed@.len());
    }
    devices
}

} // verus!
