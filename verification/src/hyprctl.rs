//! How Hyprland's command line tool is called, and what its output says.

use vstd::prelude::*;
use vstd::utf8::{decode_utf8, valid_utf8};

use crate::codec::{keys_once, parse_json, parsed_json};
use crate::json::{viewed, Json, JsonView};
use crate::text::{slices, strings, trimmed, utf8_text};

verus! {

/// An entry of the directory in which running instances of Hyprland keep their sockets: its name,
/// where that is text, and whether it holds a socket.
#[derive(Debug)]
pub struct InstanceEntry {
    pub name: Option<String>,
    pub has_socket: bool,
}

/// The name of the instance that the environment gives, unless it is empty.
pub open spec fn named_instance(variable: Option<Seq<char>>) -> Option<Seq<char>> {
    match variable {
        Some(name) => if name.len() > 0 {
            Some(name)
        } else {
            None
        },
        None => None,
    }
}

/// The name of the instance that the environment gives, unless it is empty.
pub fn signature_from_environment(variable: Option<String>) -> (r: Option<String>)
    ensures
        viewed(r) == named_instance(viewed(variable)),
{
    match variable {
        Some(name) => if name.as_str().is_empty() {
            None
        } else {
            Some(name)
        },
        None => None,
    }
}

/// The name of the first entry that has a name and holds a socket.
pub open spec fn first_instance(entries: Seq<InstanceEntry>) -> Option<Seq<char>>
    decreases entries.len(),
{
    if entries.len() == 0 {
        None
    } else if entries.first().has_socket && entries.first().name is Some {
        viewed(entries.first().name)
    } else {
        first_instance(entries.drop_first())
    }
}

/// The name of the first entry that has a name and holds a socket.
pub fn signature_from_entries(entries: &Vec<InstanceEntry>) -> (r: Option<String>)
    ensures
        viewed(r) == first_instance(entries@),
{
    let mut i: usize = 0;
    assert(entries@.skip(0) =~= entries@);
    while i < entries.len()
        invariant
            i <= entries@.len(),
            first_instance(entries@) == first_instance(entries@.skip(i as int)),
        decreases entries@.len() - i,
    {
        proof {
            assert(entries@.skip(i as int).first() == entries@[i as int]);
            assert(entries@.skip(i as int).drop_first() =~= entries@.skip(i + 1));
        }
        if entries[i].has_socket {
            if let Some(name) = &entries[i].name {
                return Some(name.clone());
            }
        }
        i = i + 1;
    }
    None
}

/// The arguments of a call: the instance in front, where the environment does not name one and one
/// was found.
pub open spec fn call_arguments(
    named: bool,
    signature: Option<Seq<char>>,
    arguments: Seq<Seq<char>>,
) -> Seq<Seq<char>> {
    match signature {
        Some(name) => if named {
            arguments
        } else {
            seq!["-i"@, name] + arguments
        },
        None => arguments,
    }
}

/// The arguments of a call: `named` says whether the environment names an instance, `signature`
/// is the one that was found.
pub fn hyprctl_arguments(named: bool, signature: Option<&str>, arguments: &[&str]) -> (r: Vec<
    String,
>)
    ensures
        strings(r@) == call_arguments(named, viewed(signature), slices(arguments@)),
{
    let mut r: Vec<String> = Vec::new();
    if !named {
        if let Some(name) = signature {
            r.push("-i".to_owned());
            r.push(name.to_owned());
        }
    }
    let ghost head = strings(r@);
    let mut i: usize = 0;
    assert(strings(r@) =~= head + slices(arguments@).take(0));
    while i < arguments.len()
        invariant
            i <= arguments@.len(),
            strings(r@) == head + slices(arguments@).take(i as int),
        decreases arguments@.len() - i,
    {
        let ghost before = r@;
        r.push(arguments[i].to_owned());
        i = i + 1;
        proof {
            assert(strings(r@) =~= strings(before).push(arguments@[i - 1]@));
            assert(strings(r@) =~= head + slices(arguments@).take(i as int));
        }
    }
    assert(strings(r@) =~= call_arguments(named, viewed(signature), slices(arguments@)));
    r
}

/// The text that a command wrote, without white space around it, where the command succeeded and
/// wrote valid UTF-8.
pub open spec fn output_text(success: bool, stdout: Seq<u8>) -> Option<Seq<char>> {
    if success && valid_utf8(stdout) {
        Some(trimmed(decode_utf8(stdout)))
    } else {
        None
    }
}

/// The text that a command wrote, from which JSON is read.
pub fn hyprctl_output(success: bool, stdout: Vec<u8>) -> (r: Option<String>)
    ensures
        viewed(r) == output_text(success, stdout@),
{
    if !success {
        return None;
    }
    match utf8_text(stdout) {
        Some(output) => Some(output.as_str().trim().to_owned()),
        None => None,
    }
}

/// The JSON value that a command wrote, where it succeeded and wrote one.
pub open spec fn output_json(success: bool, stdout: Seq<u8>) -> Option<JsonView> {
    match output_text(success, stdout) {
        Some(output) => parsed_json(output),
        None => None,
    }
}

/// The JSON value that a command wrote, where it succeeded and wrote one.
pub fn hyprctl_json(success: bool, stdout: Vec<u8>) -> (r: Option<Json>)
    ensures
        viewed(r) == output_json(success, stdout@),
        r is Some ==> keys_once(r->0@),
{
    match hyprctl_output(success, stdout) {
        Some(output) => parse_json(output.as_str()),
        None => None,
    }
}

/// The text that a command wrote, unless it is blank.
pub open spec fn nonblank_output(success: bool, stdout: Seq<u8>) -> Option<Seq<char>> {
    match output_text(success, stdout) {
        Some(output) => if output.len() > 0 {
            Some(output)
        } else {
            None
        },
        None => None,
    }
}

/// The text that a command wrote, unless it is blank.
pub fn text_command_output(success: bool, stdout: Vec<u8>) -> (r: Option<String>)
    ensures
        viewed(r) == nonblank_output(success, stdout@),
{
    match hyprctl_output(success, stdout) {
        Some(output) => if output.as_str().is_empty() {
            None
        } else {
            Some(output)
        },
        None => None,
    }
}

} // verus!
