use vstd::prelude::*;

use crate::codec::{
    integrity_matches, is_hex_text, legal_body, parse_ack_payload, parse_store_payload,
    parse_wire, piece, piece_count, StorePayload, WireFields,
};
use crate::skel::{Integrity, Message, Payload, Responses, StatCode};
use crate::text::{lemma_split_concat, lemma_split_no_sep, split_spec};

verus! {

/// An operation on the persistent row store.
pub enum StoreOp {
    CreateMessageTable { channel: String },
    CreatePermissionTable { channel: String },
    DropMessageTable { channel: String },
    DropPermissionTable { channel: String },
    /// Record `client` as a member of `channel`.
    AddMember { channel: String, client: String },
    /// Count the membership rows of `client` in `channel`.
    CountMember { channel: String, client: String },
    /// Delete every processed message row of `channel`.
    DeleteProcessed { channel: String },
    /// Insert an unprocessed message row.
    InsertMessage { channel: String, row: Message },
    /// Select at most one unprocessed message row, in the store's own order.
    FetchUnprocessed { channel: String },
    /// Mark processed every message row whose body is `body`.
    MarkProcessed { channel: String, body: String },
}

/// What came back from the last action.
pub enum Event {
    /// The integrity hash of the text that was asked for.
    Digest(String),
    /// The store operation succeeded.
    Done,
    /// The store operation failed.
    Failed,
    /// The number of rows counted.
    Count(u64),
    /// The row selected, if any.
    Fetched(Option<Message>),
    /// The number of rows an update matched.
    Affected(u64),
}

/// What the caller has to do next.
pub enum Action {
    /// Compute the integrity hash of this text and answer with `Event::Digest`.
    Hash(String),
    /// Run this store operation and answer with its result.
    Perform(StoreOp),
    /// Send this response; the request is finished.
    Respond(Responses),
    /// The request cannot be read; drop the connection without a response.
    Abort,
}

/// How a two-table channel operation (creation or deletion) ended.
#[derive(PartialEq, Eq, Structural, Clone, Copy, Debug)]
pub enum ChannelOutcome {
    Complete,
    /// Only the permission table operation failed.
    MessagesOnly,
    /// Only the message table operation failed.
    PermissionsOnly,
    Failed,
}

/// What a permission check leads to once it is answered.
pub enum Pending {
    Store(Message),
    Check,
}

/// The state of one request.
pub enum Phase {
    /// Waiting for the hash of the request's client id and first field.
    Verifying { wire: WireFields },
    /// `Store`: waiting for the hash of the hex body.
    StoreHashing { client: String, payload: StorePayload },
    /// Waiting for the membership count of the client.
    Guarding { channel: String, next: Pending },
    /// Waiting for compaction; `permitted` is the answer of the permission check.
    Compacting { channel: String, permitted: bool, next: Pending },
    Inserting,
    Fetching,
    /// `Check`: waiting for the hash of the fetched body.
    CheckHashing { row: Message },
    CreatingMessages { channel: String },
    CreatingPermissions { messages_ok: bool },
    DroppingMessages { channel: String },
    DroppingPermissions { messages_ok: bool },
    Registering,
    Acking,
    /// A channel creation or deletion has ended as `outcome`.
    Settled { outcome: ChannelOutcome },
    Done,
}

pub open spec fn outcome_of(messages_ok: bool, permissions_ok: bool) -> ChannelOutcome {
    match (messages_ok, permissions_ok) {
        (true, true) => ChannelOutcome::Complete,
        (true, false) => ChannelOutcome::MessagesOnly,
        (false, true) => ChannelOutcome::PermissionsOnly,
        (false, false) => ChannelOutcome::Failed,
    }
}

/// Combines the results of the two table operations of a channel.
pub fn channel_outcome(messages_ok: bool, permissions_ok: bool) -> (r: ChannelOutcome)
    ensures
        r == outcome_of(messages_ok, permissions_ok),
{
    if messages_ok && permissions_ok {
        ChannelOutcome::Complete
    } else if messages_ok {
        ChannelOutcome::MessagesOnly
    } else if permissions_ok {
        ChannelOutcome::PermissionsOnly
    } else {
        ChannelOutcome::Failed
    }
}

pub open spec fn code(c: StatCode) -> Action {
    Action::Respond(Responses::Code(c))
}

/// The request ends with status `c`.
pub open spec fn ends(p2: Phase, a: Action, c: StatCode) -> bool {
    p2 is Done && a == code(c)
}

pub fn sec_fault() -> (r: Responses)
    ensures
        r == Responses::Code(StatCode::SecFt),
{
    Responses::Code(StatCode::SecFt)
}

/// The response that delivers `data` with its integrity hash `hash`.
pub fn send_ack_ds(data: String, hash: String) -> (r: Responses)
    ensures
        r == Responses::Data(StatCode::AckDs, Payload::Data(data, Integrity::Hash(hash))),
{
    Responses::Data(StatCode::AckDs, Payload::Data(data, Integrity::Hash(hash)))
}

pub fn send_ack_dr() -> (r: Responses)
    ensures
        r == Responses::Code(StatCode::AckDr),
{
    Responses::Code(StatCode::AckDr)
}

pub fn send_ack_ok() -> (r: Responses)
    ensures
        r == Responses::Code(StatCode::AckOk),
{
    Responses::Code(StatCode::AckOk)
}

pub fn no_handel() -> (r: Responses)
    ensures
        r == Responses::Code(StatCode::NoHnd),
{
    Responses::Code(StatCode::NoHnd)
}

pub fn no_permission() -> (r: Responses)
    ensures
        r == Responses::Code(StatCode::NoPer),
{
    Responses::Code(StatCode::NoPer)
}

fn finish(c: StatCode) -> (r: (Phase, Action))
    ensures
        ends(r.0, r.1, c),
{
    (Phase::Done, Action::Respond(Responses::Code(c)))
}

/// The first step of a request given as raw wire text: it is split into its
/// fields and the hash of its client id and first field is asked for.
pub open spec fn begins(raw: Seq<char>, p: Phase, a: Action) -> bool {
    if piece_count(raw, ',') < 3 {
        p is Done && a is Abort
    } else {
        &&& p matches Phase::Verifying { wire }
        &&& a matches Action::Hash(t)
        &&& p->wire.first@ == piece(raw, ',', 0)
        &&& p->wire.client@ == piece(raw, ',', 1)
        &&& p->wire.claimed@ == piece(raw, ',', 2)
        &&& p->wire.command@ == piece(piece(raw, ',', 0), '/', 0)
        &&& (p->wire.payload is Some <==> piece_count(piece(raw, ',', 0), '/') > 1)
        &&& (p->wire.payload matches Some(d) ==> d@ == piece(piece(raw, ',', 0), '/', 1))
        &&& a->Hash_0@ == p->wire.client@ + p->wire.first@
    }
}

pub fn start(raw: &str) -> (r: (Phase, Action))
    ensures
        begins(raw@, r.0, r.1),
{
    match parse_wire(raw) {
        None => (Phase::Done, Action::Abort),
        Some(wire) => {
            let text = wire.hash_input();
            (Phase::Verifying { wire }, Action::Hash(text))
        },
    }
}

/// Routing of a request that has passed its integrity check, by command name.
pub open spec fn routes(command: Seq<char>, data: String, client: String, p2: Phase, a: Action) -> bool {
    if command == "CreateChannel"@ {
        p2 == (Phase::CreatingMessages { channel: data }) && a == Action::Perform(
            StoreOp::CreateMessageTable { channel: data },
        )
    } else if command == "RegisterChannel"@ {
        p2 is Registering && a == Action::Perform(StoreOp::AddMember { channel: data, client })
    } else if command == "DeleteChannel"@ {
        p2 == (Phase::DroppingMessages { channel: data }) && a == Action::Perform(
            StoreOp::DropMessageTable { channel: data },
        )
    } else if command == "Store"@ {
        if piece_count(data@, '_') < 4 {
            ends(p2, a, StatCode::NoHnd)
        } else {
            &&& p2 matches Phase::StoreHashing { client: c, payload }
            &&& p2->StoreHashing_client == client
            &&& a == Action::Hash(p2->StoreHashing_payload.body)
            &&& p2->StoreHashing_payload.channel@ == piece(data@, '_', 0)
            &&& p2->StoreHashing_payload.message_type@ == piece(data@, '_', 1)
            &&& p2->StoreHashing_payload.body@ == piece(data@, '_', 2)
            &&& p2->StoreHashing_payload.hash@ == piece(data@, '_', 3)
        }
    } else if command == "Check"@ {
        p2 == (Phase::Guarding { channel: data, next: Pending::Check }) && a == Action::Perform(
            StoreOp::CountMember { channel: data, client },
        )
    } else if command == "Ack"@ {
        if piece_count(data@, '_') < 2 {
            ends(p2, a, StatCode::NoHnd)
        } else {
            &&& p2 is Acking
            &&& a matches Action::Perform(StoreOp::MarkProcessed { channel, body })
            &&& a->Perform_0->MarkProcessed_channel@ == piece(data@, '_', 0)
            &&& a->Perform_0->MarkProcessed_body@ == piece(data@, '_', 1)
        }
    } else {
        ends(p2, a, StatCode::NoHnd)
    }
}

/// The six command names are distinct.
pub proof fn lemma_command_names_differ()
    ensures
        "CreateChannel"@ != "RegisterChannel"@,
        "CreateChannel"@ != "DeleteChannel"@,
        "CreateChannel"@ != "Store"@,
        "CreateChannel"@ != "Check"@,
        "CreateChannel"@ != "Ack"@,
        "RegisterChannel"@ != "DeleteChannel"@,
        "RegisterChannel"@ != "Store"@,
        "RegisterChannel"@ != "Check"@,
        "RegisterChannel"@ != "Ack"@,
        "DeleteChannel"@ != "Store"@,
        "DeleteChannel"@ != "Check"@,
        "DeleteChannel"@ != "Ack"@,
        "Store"@ != "Check"@,
        "Store"@ != "Ack"@,
        "Check"@ != "Ack"@,
{
    reveal_strlit("CreateChannel");
    reveal_strlit("RegisterChannel");
    reveal_strlit("DeleteChannel");
    reveal_strlit("Store");
    reveal_strlit("Check");
    reveal_strlit("Ack");
    assert("CreateChannel"@[1] != "Check"@[1]);
    assert("CreateChannel"@[0] != "RegisterChannel"@[0]);
    assert("CreateChannel"@[0] != "DeleteChannel"@[0]);
    assert("CreateChannel"@[0] != "Store"@[0]);
    assert("CreateChannel"@[0] != "Ack"@[0]);
    assert("RegisterChannel"@[0] != "DeleteChannel"@[0]);
    assert("RegisterChannel"@[0] != "Store"@[0]);
    assert("RegisterChannel"@[0] != "Check"@[0]);
    assert("RegisterChannel"@[0] != "Ack"@[0]);
    assert("DeleteChannel"@[0] != "Store"@[0]);
    assert("DeleteChannel"@[0] != "Check"@[0]);
    assert("DeleteChannel"@[0] != "Ack"@[0]);
    assert("Store"@[0] != "Check"@[0]);
    assert("Store"@[0] != "Ack"@[0]);
    assert("Check"@[0] != "Ack"@[0]);
}

fn is_command(command: &String, name: &str) -> (r: bool)
    ensures
        r == (command@ == name@),
{
    *command == name.to_owned()
}

/// Routes a request with a payload, once its integrity has been checked.
pub fn complex_processor(command: &String, data: String, register_id: String) -> (r: (
    Phase,
    Action,
))
    ensures
        routes(command@, data, register_id, r.0, r.1),
{
    if is_command(command, "CreateChannel") {
        let channel = data.clone();
        (Phase::CreatingMessages { channel }, Action::Perform(StoreOp::CreateMessageTable { channel: data }))
    } else if is_command(command, "RegisterChannel") {
        (Phase::Registering, Action::Perform(StoreOp::AddMember { channel: data, client: register_id }))
    } else if is_command(command, "DeleteChannel") {
        let channel = data.clone();
        (Phase::DroppingMessages { channel }, Action::Perform(StoreOp::DropMessageTable { channel: data }))
    } else if is_command(command, "Store") {
        match parse_store_payload(data.as_str()) {
            None => finish(StatCode::NoHnd),
            Some(payload) => {
                let body = payload.body.clone();
                (Phase::StoreHashing { client: register_id, payload }, Action::Hash(body))
            },
        }
    } else if is_command(command, "Check") {
        let channel = data.clone();
        (
            Phase::Guarding { channel, next: Pending::Check },
            Action::Perform(StoreOp::CountMember { channel: data, client: register_id }),
        )
    } else if is_command(command, "Ack") {
        match parse_ack_payload(data.as_str()) {
            None => finish(StatCode::NoHnd),
            Some((channel, body)) => (
                Phase::Acking,
                Action::Perform(StoreOp::MarkProcessed { channel, body }),
            ),
        }
    } else {
        finish(StatCode::NoHnd)
    }
}

/// Routes a request without a payload: no command takes that form.
pub fn simple_processor(command: &String, register_id: String) -> (r: (Phase, Action))
    ensures
        ends(r.0, r.1, StatCode::NoHnd),
{
    finish(StatCode::NoHnd)
}

/// Whether the hash of a `Store` body matches the hash the payload claims.
pub fn payload_integrity(payload: &StorePayload, computed: &str) -> (r: bool)
    ensures
        r == (payload.hash@ == computed@),
{
    payload.hash == computed.to_owned()
}

/// One step of a request: from phase `p`, on event `ev`, to phase `p2` with action `a`.
pub open spec fn next(p: Phase, ev: Event, p2: Phase, a: Action) -> bool {
    match p {
        Phase::Verifying { wire } => match ev {
            Event::Digest(d) => if !integrity_matches(wire.claimed@, d@) {
                ends(p2, a, StatCode::SecFt)
            } else {
                match wire.payload {
                    Some(data) => routes(wire.command@, data, wire.client, p2, a),
                    None => ends(p2, a, StatCode::NoHnd),
                }
            },
            _ => ends(p2, a, StatCode::NoHnd),
        },
        Phase::StoreHashing { client, payload } => match ev {
            Event::Digest(d) => if payload.hash@ != d@ {
                ends(p2, a, StatCode::NoHnd)
            } else if !is_hex_text(payload.body@) {
                p2 is Done && a is Abort
            } else {
                p2 == (Phase::Guarding {
                    channel: payload.channel,
                    next: Pending::Store(
                        Message {
                            uuid: payload.hash,
                            message_type: payload.message_type,
                            message: payload.body,
                        },
                    ),
                }) && a == Action::Perform(
                    StoreOp::CountMember { channel: payload.channel, client },
                )
            },
            _ => ends(p2, a, StatCode::NoHnd),
        },
        Phase::Guarding { channel, next } => {
            let permitted = match ev {
                Event::Count(n) => n > 0,
                _ => false,
            };
            p2 == (Phase::Compacting { channel, permitted, next }) && a == Action::Perform(
                StoreOp::DeleteProcessed { channel },
            )
        },
        Phase::Compacting { channel, permitted, next } => if !permitted {
            ends(p2, a, StatCode::NoPer)
        } else {
            match next {
                Pending::Store(row) => p2 is Inserting && a == Action::Perform(
                    StoreOp::InsertMessage { channel, row },
                ),
                Pending::Check => p2 is Fetching && a == Action::Perform(
                    StoreOp::FetchUnprocessed { channel },
                ),
            }
        },
        Phase::Inserting => ends(
            p2,
            a,
            if ev is Done {
                StatCode::AckDr
            } else {
                StatCode::NoHnd
            },
        ),
        Phase::Fetching => match ev {
            Event::Fetched(None) => ends(p2, a, StatCode::AckOk),
            Event::Fetched(Some(row)) => p2 == (Phase::CheckHashing { row }) && a
                == Action::Hash(row.message),
            _ => ends(p2, a, StatCode::NoHnd),
        },
        Phase::CheckHashing { row } => match ev {
            Event::Digest(d) => if d@ == row.uuid@ {
                p2 is Done && a == Action::Respond(
                    Responses::Data(
                        StatCode::AckDs,
                        Payload::Data(row.message, Integrity::Hash(d)),
                    ),
                )
            } else {
                ends(p2, a, StatCode::SecFt)
            },
            _ => ends(p2, a, StatCode::NoHnd),
        },
        Phase::CreatingMessages { channel } => p2 == (Phase::CreatingPermissions {
            messages_ok: ev is Done,
        }) && a == Action::Perform(StoreOp::CreatePermissionTable { channel }),
        Phase::CreatingPermissions { messages_ok } => {
            let outcome = outcome_of(messages_ok, ev is Done);
            p2 == (Phase::Settled { outcome }) && a == code(
                if outcome == ChannelOutcome::Complete {
                    StatCode::AckDr
                } else {
                    StatCode::NoHnd
                },
            )
        },
        Phase::DroppingMessages { channel } => p2 == (Phase::DroppingPermissions {
            messages_ok: ev is Done,
        }) && a == Action::Perform(StoreOp::DropPermissionTable { channel }),
        Phase::DroppingPermissions { messages_ok } => {
            let outcome = outcome_of(messages_ok, ev is Done);
            p2 == (Phase::Settled { outcome }) && a == code(
                if outcome == ChannelOutcome::Complete {
                    StatCode::AckOk
                } else {
                    StatCode::NoHnd
                },
            )
        },
        Phase::Registering => ends(
            p2,
            a,
            if ev is Done {
                StatCode::AckDr
            } else {
                StatCode::NoHnd
            },
        ),
        Phase::Acking => ends(
            p2,
            a,
            if ev matches Event::Affected(n) && n > 0 {
                StatCode::AckOk
            } else {
                StatCode::NoHnd
            },
        ),
        Phase::Settled { .. } => ends(p2, a, StatCode::NoHnd),
        Phase::Done => ends(p2, a, StatCode::NoHnd),
    }
}

/// A request whose claimed hash is the hash of its client id and first field
/// passes the integrity check; the same request with any one character of
/// that hash changed is refused with `SecFt`, whatever its command.
pub proof fn integrity_roundtrip(
    wire: WireFields,
    h: spec_fn(Seq<char>) -> Seq<char>,
    d: String,
    p2: Phase,
    a2: Action,
    forged: WireFields,
    i: int,
    c: char,
    q2: Phase,
    b2: Action,
)
    requires
        wire.claimed@ == h(wire.client@ + wire.first@),
        d@ == h(wire.client@ + wire.first@),
        next(Phase::Verifying { wire }, Event::Digest(d), p2, a2),
        0 <= i < wire.claimed@.len(),
        c != wire.claimed@[i],
        forged.claimed@ == wire.claimed@.update(i, c),
        next(Phase::Verifying { wire: forged }, Event::Digest(d), q2, b2),
    ensures
        a2 != code(StatCode::SecFt),
        b2 == code(StatCode::SecFt),
{
    assert(forged.claimed@[i] != d@[i]);
}

/// A request written as `first,client,claimed`, none of the three holding a
/// comma: once the hash asked for by `start` comes back, the request is
/// routed when `claimed` is that hash, and refused with `SecFt`, with no
/// store operation, whenever it is not, whatever the command.
pub proof fn wire_integrity(
    first: Seq<char>,
    client: Seq<char>,
    claimed: Seq<char>,
    h: spec_fn(Seq<char>) -> Seq<char>,
    p: Phase,
    a: Action,
    d: String,
    p2: Phase,
    a2: Action,
)
    requires
        !first.contains(','),
        !client.contains(','),
        !claimed.contains(','),
        begins(first + seq![','] + client + seq![','] + claimed, p, a),
        a matches Action::Hash(t) && d@ == h(t@),
        next(p, Event::Digest(d), p2, a2),
    ensures
        a is Hash,
        claimed == h(client + first) ==> a2 != code(StatCode::SecFt),
        claimed != h(client + first) ==> ends(p2, a2, StatCode::SecFt),
{
    let raw = first + seq![','] + client + seq![','] + claimed;
    lemma_split_no_sep(first, ',');
    lemma_split_no_sep(client, ',');
    lemma_split_no_sep(claimed, ',');
    lemma_split_concat(first, client, ',');
    lemma_split_concat(first + seq![','] + client, claimed, ',');
    assert(split_spec(raw, ',') =~= seq![first, client, claimed]);
}

fn is_done(ev: &Event) -> (r: bool)
    ensures
        r == (*ev is Done),
{
    match ev {
        Event::Done => true,
        _ => false,
    }
}

/// Advances a request by one event.
pub fn step(p: Phase, ev: Event) -> (r: (Phase, Action))
    ensures
        next(p, ev, r.0, r.1),
{
    match p {
        Phase::Verifying { wire } => match ev {
            Event::Digest(d) => {
                if wire.claimed != d {
                    finish(StatCode::SecFt)
                } else {
                    let command = wire.command;
                    match wire.payload {
                        Some(data) => complex_processor(&command, data, wire.client),
                        None => simple_processor(&command, wire.client),
                    }
                }
            },
            _ => finish(StatCode::NoHnd),
        },
        Phase::StoreHashing { client, payload } => match ev {
            Event::Digest(d) => {
                if !payload_integrity(&payload, d.as_str()) {
                    finish(StatCode::NoHnd)
                } else if !legal_body(payload.body.as_str()) {
                    (Phase::Done, Action::Abort)
                } else {
                    let channel = payload.channel.clone();
                    let row = Message {
                        uuid: payload.hash,
                        message_type: payload.message_type,
                        message: payload.body,
                    };
                    (
                        Phase::Guarding { channel, next: Pending::Store(row) },
                        Action::Perform(StoreOp::CountMember { channel: payload.channel, client }),
                    )
                }
            },
            _ => finish(StatCode::NoHnd),
        },
        Phase::Guarding { channel, next } => {
            let permitted = match ev {
                Event::Count(n) => n > 0,
                _ => false,
            };
            let ch = channel.clone();
            (
                Phase::Compacting { channel, permitted, next },
                Action::Perform(StoreOp::DeleteProcessed { channel: ch }),
            )
        },
        Phase::Compacting { channel, permitted, next } => {
            if !permitted {
                finish(StatCode::NoPer)
            } else {
                match next {
                    Pending::Store(row) => (
                        Phase::Inserting,
                        Action::Perform(StoreOp::InsertMessage { channel, row }),
                    ),
                    Pending::Check => (
                        Phase::Fetching,
                        Action::Perform(StoreOp::FetchUnprocessed { channel }),
                    ),
                }
            }
        },
        Phase::Inserting => finish(
            if is_done(&ev) {
                StatCode::AckDr
            } else {
                StatCode::NoHnd
            },
        ),
        Phase::Fetching => match ev {
            Event::Fetched(None) => finish(StatCode::AckOk),
            Event::Fetched(Some(row)) => {
                let body = row.message.clone();
                (Phase::CheckHashing { row }, Action::Hash(body))
            },
            _ => finish(StatCode::NoHnd),
        },
        Phase::CheckHashing { row } => match ev {
            Event::Digest(d) => {
                if d == row.uuid {
                    (Phase::Done, Action::Respond(send_ack_ds(row.message, d)))
                } else {
                    finish(StatCode::SecFt)
                }
            },
            _ => finish(StatCode::NoHnd),
        },
        Phase::CreatingMessages { channel } => (
            Phase::CreatingPermissions { messages_ok: is_done(&ev) },
            Action::Perform(StoreOp::CreatePermissionTable { channel }),
        ),
        Phase::CreatingPermissions { messages_ok } => {
            let outcome = channel_outcome(messages_ok, is_done(&ev));
            let resp = if outcome == ChannelOutcome::Complete {
                send_ack_dr()
            } else {
                no_handel()
            };
            (Phase::Settled { outcome }, Action::Respond(resp))
        },
        Phase::DroppingMessages { channel } => (
            Phase::DroppingPermissions { messages_ok: is_done(&ev) },
            Action::Perform(StoreOp::DropPermissionTable { channel }),
        ),
        Phase::DroppingPermissions { messages_ok } => {
            let outcome = channel_outcome(messages_ok, is_done(&ev));
            let resp = if outcome == ChannelOutcome::Complete {
                send_ack_ok()
            } else {
                no_handel()
            };
            (Phase::Settled { outcome }, Action::Respond(resp))
        },
        Phase::Registering => finish(
            if is_done(&ev) {
                StatCode::AckDr
            } else {
                StatCode::NoHnd
            },
        ),
        Phase::Acking => {
            let found = match ev {
                Event::Affected(n) => n > 0,
                _ => false,
            };
            finish(
                if found {
                    StatCode::AckOk
                } else {
                    StatCode::NoHnd
                },
            )
        },
        Phase::Settled { .. } => finish(StatCode::NoHnd),
        Phase::Done => finish(StatCode::NoHnd),
    }
}

} // verus!
