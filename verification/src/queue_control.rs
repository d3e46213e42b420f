//! Holding and resuming all changes to the merge queue, and telling who may make
//! them.
use vstd::prelude::*;

use crate::guard::ends_with_its_end;
use crate::json::{trees, Json, JsonTree};
use crate::model::{fails, CliFailure};
use crate::text::{
    blank, concat, concat3, concat6, has_suffix, is_blank, or_text, trim, trimmed, views,
};
use crate::text_map::TextMap;

verus! {

/// The trimmed reason of a command, which must not be empty.
pub fn required_reason(reason: &str) -> (r: Result<String, CliFailure>)
    ensures
        if is_blank(reason@) {
            fails(r, 2, "--reason must not be empty"@)
        } else {
            r matches Ok(text) && text@ == trimmed(reason@)
        },
        r is Ok <==> !is_blank(reason@),
{
    if blank(reason) {
        Err(CliFailure::new(2, "--reason must not be empty"))
    } else {
        Ok(trim(reason))
    }
}

/// What resolves an uncertain change: its identity, its outcome and the reason,
/// all trimmed. There must be a reason.
pub fn resolve_command(correlation_id: &str, outcome: &str, reason: &str) -> (r: Result<
    (String, String, String),
    CliFailure,
>)
    ensures
        if is_blank(reason@) {
            fails(r, 2, "--reason must not be empty"@)
        } else {
            r matches Ok((id, result, why)) && id@ == trimmed(correlation_id@) && result@ == trimmed(
                outcome@,
            ) && why@ == trimmed(reason@)
        },
{
    match required_reason(reason) {
        Ok(why) => Ok((trim(correlation_id), trim(outcome), why)),
        Err(failure) => Err(failure),
    }
}

/// What a command came to.
#[derive(Debug)]
pub enum QueueControl {
    /// Whether changes are held, where that is kept, what is uncertain, and who
    /// may make changes.
    Status { held: Option<Json>, path: String, uncertain: Vec<Json>, authority: Json },
    /// Changes are held, as this file says.
    Hold { path: String },
    /// Changes are resumed; whether they had been held.
    Resume { changed: bool },
    /// An uncertain change was resolved.
    Resolve { correlation_id: String, outcome: String },
}

/// The name under which a command's data are told.
pub open spec fn envelope_name(control: QueueControl) -> Seq<char> {
    match control {
        QueueControl::Status { .. } => "merge-queue.status"@,
        QueueControl::Hold { .. } => "merge-queue.hold"@,
        QueueControl::Resume { .. } => "merge-queue.resume"@,
        QueueControl::Resolve { .. } => "merge-queue.resolve"@,
    }
}

/// The values of a map, as documents.
pub open spec fn documents(map: Map<Seq<char>, Json>) -> Map<Seq<char>, JsonTree> {
    map.map_values(|j: Json| j@)
}

/// A map with the members of a document on top; of two with one name the last
/// counts.
pub open spec fn with_members(
    map: Map<Seq<char>, JsonTree>,
    members: Seq<(Seq<char>, JsonTree)>,
) -> Map<Seq<char>, JsonTree>
    decreases members.len(),
{
    if members.len() == 0 {
        map
    } else {
        with_members(map, members.drop_last()).insert(members.last().0, members.last().1)
    }
}

/// The members of a document that is an object.
pub open spec fn object_members(document: JsonTree) -> Seq<(Seq<char>, JsonTree)> {
    match document {
        JsonTree::Object(members) => members,
        _ => Seq::empty(),
    }
}

/// A command's data.
pub open spec fn control_data(control: QueueControl) -> Map<Seq<char>, JsonTree> {
    let none = Map::<Seq<char>, JsonTree>::empty();
    match control {
        QueueControl::Status { held, path, uncertain, authority } => {
            let base = none.insert("held"@, JsonTree::Bool(held is Some)).insert(
                "path"@,
                JsonTree::Text(path@),
            );
            let told = match held {
                Some(hold) => base.insert("hold"@, hold@),
                None => base,
            };
            with_members(
                told.insert("uncertain_mutations"@, JsonTree::Array(trees(uncertain@))),
                object_members(authority@),
            )
        },
        QueueControl::Hold { path } => none.insert("held"@, JsonTree::Bool(true)).insert(
            "path"@,
            JsonTree::Text(path@),
        ),
        QueueControl::Resume { changed } => none.insert("held"@, JsonTree::Bool(false)).insert(
            "changed"@,
            JsonTree::Bool(changed),
        ),
        QueueControl::Resolve { correlation_id, outcome } => none.insert(
            "correlation_id"@,
            JsonTree::Text(correlation_id@),
        ).insert("outcome"@, JsonTree::Text(outcome@)),
    }
}

fn put(map: &mut TextMap<Json>, name: &str, value: Json)
    ensures
        documents(final(map)@) == documents(old(map)@).insert(name@, value@),
{
    let ghost before = map@;
    map.insert(name.to_owned(), value);
    proof {
        assert(documents(map@) =~= documents(before).insert(name@, value@));
    }
}

fn put_members(map: &mut TextMap<Json>, authority: Json)
    ensures
        documents(final(map)@) == with_members(documents(old(map)@), object_members(authority@)),
{
    let ghost start = documents(map@);
    match authority {
        Json::Object(entries) => {
            let ghost all = entries@;
            let ghost members = object_members(Json::Object(entries)@);
            let mut rest = entries;
            let ghost mut n: int = 0;
            proof {
                assert(members.take(0) =~= Seq::<(Seq<char>, JsonTree)>::empty());
                assert(rest@ =~= all.skip(0));
            }
            while rest.len() > 0
                invariant
                    0 <= n <= all.len(),
                    members.len() == all.len(),
                    forall|i: int|
                        0 <= i < all.len() ==> #[trigger] members[i] == (all[i].0@, all[i].1@),
                    rest@ == all.skip(n),
                    documents(map@) == with_members(start, members.take(n)),
                decreases rest.len(),
            {
                let (name, value) = rest.remove(0);
                proof {
                    assert(members[n] == (all[n].0@, all[n].1@));
                    assert(members.take(n + 1).drop_last() =~= members.take(n));
                    assert(rest@ =~= all.skip(n + 1));
                }
                put(map, name.as_str(), value);
                proof {
                    n = n + 1;
                }
            }
            proof {
                assert(members.take(n) =~= members);
            }
        },
        _ => {
            proof {
                assert(object_members(authority@) =~= Seq::<(Seq<char>, JsonTree)>::empty());
            }
        },
    }
}

/// A command's data, by name.
pub fn merge_queue_control_command(control: QueueControl) -> (r: (&'static str, TextMap<Json>))
    ensures
        r.0@ == envelope_name(control),
        documents(r.1@) == control_data(control),
{
    let mut map: TextMap<Json> = TextMap::new();
    proof {
        assert(documents(map@) =~= Map::<Seq<char>, JsonTree>::empty());
    }
    match control {
        QueueControl::Status { held, path, uncertain, authority } => {
            put(&mut map, "held", Json::Bool(held.is_some()));
            put(&mut map, "path", Json::Text(path));
            match held {
                Some(hold) => put(&mut map, "hold", hold),
                None => {},
            }
            let list = Json::Array(uncertain);
            proof {
                assert(list@->Array_0 =~= trees(uncertain@));
            }
            put(&mut map, "uncertain_mutations", list);
            put_members(&mut map, authority);
            ("merge-queue.status", map)
        },
        QueueControl::Hold { path } => {
            put(&mut map, "held", Json::Bool(true));
            put(&mut map, "path", Json::Text(path));
            ("merge-queue.hold", map)
        },
        QueueControl::Resume { changed } => {
            put(&mut map, "held", Json::Bool(false));
            put(&mut map, "changed", Json::Bool(changed));
            ("merge-queue.resume", map)
        },
        QueueControl::Resolve { correlation_id, outcome } => {
            put(&mut map, "correlation_id", Json::Text(correlation_id));
            put(&mut map, "outcome", Json::Text(outcome));
            ("merge-queue.resolve", map)
        },
    }
}

/// A truth value as a text.
pub open spec fn truth_of(b: Option<bool>) -> Seq<char> {
    if b == Some(true) {
        "true"@
    } else {
        "false"@
    }
}

/// A command's result in lines.
pub open spec fn control_lines(control: QueueControl) -> Seq<Seq<char>> {
    match control {
        QueueControl::Status { held, authority, .. } => seq![
            match held {
                Some(hold) => "held: "@ + or_text(hold@.text_at("reason"@), "unspecified"@),
                None => "active"@,
            },
            "authority: machine="@ + or_text(authority@.text_at("machine"@), "unconfigured"@)
                + " configured="@ + or_text(
                authority@.text_at("mutation_machine"@),
                "unconfigured"@,
            ) + " matches="@ + truth_of(authority@.boolean_at("authority_matches"@)),
        ],
        QueueControl::Hold { path } => seq![
            "merge-queue mutations held ("@ + path@ + ")"@,
        ],
        QueueControl::Resume { changed } => seq![
            if changed {
                "merge-queue mutation hold removed"@
            } else {
                "merge-queue mutations were already active"@
            },
        ],
        QueueControl::Resolve { .. } => seq!["merge-queue uncertainty resolved"@],
    }
}

/// A command's result in lines.
pub fn print_control(control: &QueueControl) -> (r: Vec<String>)
    ensures
        views(r@) == control_lines(*control),
{
    let mut out: Vec<String> = Vec::new();
    match control {
        QueueControl::Status { held, authority, .. } => {
            match held {
                Some(hold) => {
                    let reason = match hold.text_field("reason") {
                        Some(reason) => reason.as_str(),
                        None => "unspecified",
                    };
                    out.push(concat("held: ", reason));
                },
                None => out.push("active".to_owned()),
            }
            let machine = match authority.text_field("machine") {
                Some(machine) => machine.as_str(),
                None => "unconfigured",
            };
            let configured = match authority.text_field("mutation_machine") {
                Some(machine) => machine.as_str(),
                None => "unconfigured",
            };
            let matching = match authority.bool_field("authority_matches") {
                Some(true) => "true",
                _ => "false",
            };
            out.push(
                concat6(
                    "authority: machine=",
                    machine,
                    " configured=",
                    configured,
                    " matches=",
                    matching,
                ),
            );
        },
        QueueControl::Hold { path } => out.push(
            concat3("merge-queue mutations held (", path.as_str(), ")"),
        ),
        QueueControl::Resume { changed } => out.push(
            if *changed {
                "merge-queue mutation hold removed".to_owned()
            } else {
                "merge-queue mutations were already active".to_owned()
            },
        ),
        QueueControl::Resolve { .. } => out.push("merge-queue uncertainty resolved".to_owned()),
    }
    proof {
        assert(views(out@) =~= control_lines(*control));
    }
    out
}

/// Holding tells that the queue is held and resuming that it is not, with whether that
/// changed anything; resolving tells of the mutation that it names.
pub proof fn each_control_tells_what_it_did(control: QueueControl)
    ensures
        control is Hold ==> control_data(control).dom().contains("held"@) && control_data(
            control,
        )["held"@] == JsonTree::Bool(true),
        control matches QueueControl::Resume { changed } ==> control_data(control)["held"@]
            == JsonTree::Bool(false) && control_data(control)["changed"@] == JsonTree::Bool(changed),
        control matches QueueControl::Resolve { correlation_id, outcome } ==> control_data(
            control,
        )["correlation_id"@] == JsonTree::Text(correlation_id@) && control_data(control)["outcome"@]
            == JsonTree::Text(outcome@),
        control matches QueueControl::Status { held, authority, .. } ==> (object_members(
            authority@,
        ).len() == 0 ==> control_data(control)["held"@] == JsonTree::Bool(held is Some) && (held
            matches Some(hold) ==> control_data(control)["hold"@] == hold@)),
{
    reveal_strlit("held");
    reveal_strlit("hold");
    reveal_strlit("path");
    reveal_strlit("changed");
    reveal_strlit("outcome");
    reveal_strlit("correlation_id");
    reveal_strlit("uncertain_mutations");
    assert("held"@[2] == 'l' && "hold"@[1] == 'o' && "held"@[1] == 'e' && "path"@[0] == 'p' && "held"@[0]
        == 'h' && "hold"@[0] == 'h');
    assert("changed"@.len() == 7 && "outcome"@.len() == 7 && "correlation_id"@.len() == 14
        && "held"@.len() == 4 && "hold"@.len() == 4 && "path"@.len() == 4
        && "uncertain_mutations"@.len() == 19);
}

/// The queue is printed as held exactly where it is, with the reason.
pub proof fn a_held_queue_is_printed_as_held(control: QueueControl)
    ensures
        control matches QueueControl::Status { held, .. } ==> (held is None <==> control_lines(
            control,
        )[0] == "active"@),
        control matches QueueControl::Status { held: Some(hold), .. } ==> (hold@.text_at("reason"@)
            matches Some(reason) ==> has_suffix(control_lines(control)[0], reason)),
{
    reveal_strlit("active");
    reveal_strlit("held: ");
    assert("active"@[0] == 'a');
    if let QueueControl::Status { held: Some(hold), .. } = control {
        let reason = or_text(hold@.text_at("reason"@), "unspecified"@);
        assert(("held: "@ + reason)[0] == 'h');
        ends_with_its_end("held: "@, reason);
    }
}

} // verus!
