use vstd::prelude::*;

use crate::codec::{is_hex_text, piece, piece_count};
use crate::dispatch::{
    code, lemma_command_names_differ, next, routes, Action, ChannelOutcome, Event, Pending, Phase,
    StoreOp,
};
use crate::skel::{Integrity, Message, Payload, Responses, StatCode};

verus! {

/// A message row as the store holds it.
pub struct Row {
    pub uuid: Seq<char>,
    pub message_type: Seq<char>,
    pub body: Seq<char>,
    pub processed: bool,
}

/// The store's contents: each channel's message table and permission table,
/// present when the channel's name is in the map's domain.
pub struct Tables {
    pub messages: Map<Seq<char>, Seq<Row>>,
    pub members: Map<Seq<char>, Set<Seq<char>>>,
}

pub open spec fn new_row(m: Message) -> Row {
    Row { uuid: m.uuid@, message_type: m.message_type@, body: m.message@, processed: false }
}

pub open spec fn unprocessed(rows: Seq<Row>) -> Seq<Row> {
    rows.filter(|r: Row| !r.processed)
}

pub open spec fn mark_body(rows: Seq<Row>, body: Seq<char>) -> Seq<Row> {
    rows.map_values(
        |r: Row|
            if r.body == body {
                Row { processed: true, ..r }
            } else {
                r
            },
    )
}

/// Whether some unprocessed row of `rows` has body `body`.
pub open spec fn pending_body(rows: Seq<Row>, body: Seq<char>) -> bool {
    exists|i: int| 0 <= i < rows.len() && !rows[i].processed && #[trigger] rows[i].body == body
}

/// Whether a store whose contents were `t` may answer `op` with `ev`, leaving `t2`.
/// A failed operation changes nothing; a successful one does what the
/// relational interface says, and needs the tables it works on to exist.
pub open spec fn answers(t: Tables, op: StoreOp, ev: Event, t2: Tables) -> bool {
    if ev is Failed {
        t2 == t
    } else {
        match op {
            StoreOp::CreateMessageTable { channel } => ev is Done && !t.messages.contains_key(
                channel@,
            ) && t2 == (Tables { messages: t.messages.insert(channel@, Seq::empty()), ..t }),
            StoreOp::CreatePermissionTable { channel } => ev is Done && !t.members.contains_key(
                channel@,
            ) && t2 == (Tables { members: t.members.insert(channel@, Set::empty()), ..t }),
            StoreOp::DropMessageTable { channel } => ev is Done && t.messages.contains_key(
                channel@,
            ) && t2 == (Tables { messages: t.messages.remove(channel@), ..t }),
            StoreOp::DropPermissionTable { channel } => ev is Done && t.members.contains_key(
                channel@,
            ) && t2 == (Tables { members: t.members.remove(channel@), ..t }),
            StoreOp::AddMember { channel, client } => ev is Done && t.members.contains_key(
                channel@,
            ) && !t.members[channel@].contains(client@) && t2 == (Tables {
                members: t.members.insert(channel@, t.members[channel@].insert(client@)),
                ..t
            }),
            StoreOp::CountMember { channel, client } => {
                &&& ev matches Event::Count(n)
                &&& t.members.contains_key(channel@)
                &&& (ev->Count_0 > 0 <==> t.members[channel@].contains(client@))
                &&& t2 == t
            },
            StoreOp::DeleteProcessed { channel } => ev is Done && t.messages.contains_key(
                channel@,
            ) && t2 == (Tables {
                messages: t.messages.insert(channel@, unprocessed(t.messages[channel@])),
                ..t
            }),
            StoreOp::InsertMessage { channel, row } => {
                let rows = t.messages[channel@];
                &&& ev is Done
                &&& t.messages.contains_key(channel@)
                &&& forall|i: int| 0 <= i < rows.len() ==> #[trigger] rows[i].uuid != row.uuid@
                &&& t2 == (Tables {
                    messages: t.messages.insert(channel@, rows.push(new_row(row))),
                    ..t
                })
            },
            StoreOp::FetchUnprocessed { channel } => {
                let rows = t.messages[channel@];
                &&& t.messages.contains_key(channel@)
                &&& t2 == t
                &&& match ev {
                    Event::Fetched(None) => forall|i: int|
                        0 <= i < rows.len() ==> #[trigger] rows[i].processed,
                    Event::Fetched(Some(m)) => exists|i: int|
                        0 <= i < rows.len() && #[trigger] rows[i] == new_row(m),
                    _ => false,
                }
            },
            StoreOp::MarkProcessed { channel, body } => {
                let rows = t.messages[channel@];
                &&& ev matches Event::Affected(n)
                &&& t.messages.contains_key(channel@)
                &&& (ev->Affected_0 > 0 <==> exists|i: int|
                    0 <= i < rows.len() && #[trigger] rows[i].body == body@)
                &&& t2 == (Tables {
                    messages: t.messages.insert(channel@, mark_body(rows, body@)),
                    ..t
                })
            },
        }
    }
}

/// One answered step of a request.
pub struct Step {
    pub event: Event,
    pub phase: Phase,
    pub action: Action,
    pub tables: Tables,
}

/// Whether `ev` answers action `a` on tables `t`, leaving `t2`; hashes are
/// computed by `h`.
pub open spec fn answered(
    a: Action,
    t: Tables,
    ev: Event,
    t2: Tables,
    h: spec_fn(Seq<char>) -> Seq<char>,
) -> bool {
    match a {
        Action::Hash(text) => ev matches Event::Digest(d) && d@ == h(text@) && t2 == t,
        Action::Perform(op) => answers(t, op, ev, t2),
        _ => false,
    }
}

/// Whether `steps` is a run of a request from phase `p` and action `a` on
/// tables `t`: each action answered, each step taken as `next` says.
pub open spec fn run(
    p: Phase,
    a: Action,
    t: Tables,
    h: spec_fn(Seq<char>) -> Seq<char>,
    steps: Seq<Step>,
) -> bool
    decreases steps.len(),
{
    steps.len() == 0 || {
        let s = steps[0];
        &&& answered(a, t, s.event, s.tables, h)
        &&& next(p, s.event, s.phase, s.action)
        &&& run(s.phase, s.action, s.tables, h, steps.drop_first())
    }
}

/// The first step of a run, and the run that follows it.
pub proof fn lemma_run_first(
    p: Phase,
    a: Action,
    t: Tables,
    h: spec_fn(Seq<char>) -> Seq<char>,
    steps: Seq<Step>,
)
    requires
        run(p, a, t, h, steps),
        steps.len() > 0,
    ensures
        answered(a, t, steps[0].event, steps[0].tables, h),
        next(p, steps[0].event, steps[0].phase, steps[0].action),
        run(steps[0].phase, steps[0].action, steps[0].tables, h, steps.drop_first()),
        forall|k: int| 0 <= k < steps.len() - 1 ==> #[trigger] steps.drop_first()[k] == steps[k + 1],
{
}

/// Nothing answers a response or an abort: a run ends there.
pub proof fn lemma_run_ends(
    p: Phase,
    a: Action,
    t: Tables,
    h: spec_fn(Seq<char>) -> Seq<char>,
    steps: Seq<Step>,
)
    requires
        run(p, a, t, h, steps),
        a is Respond || a is Abort,
    ensures
        steps.len() == 0,
{
}

pub proof fn lemma_unprocessed_idempotent(rows: Seq<Row>)
    ensures
        unprocessed(unprocessed(rows)) == unprocessed(rows),
    decreases rows.len(),
{
    reveal(Seq::filter);
    if rows.len() > 0 {
        lemma_unprocessed_idempotent(rows.drop_last());
        let sub = unprocessed(rows.drop_last());
        if !rows.last().processed {
            assert(sub.push(rows.last()).drop_last() =~= sub);
        }
    }
}

pub proof fn lemma_unprocessed_push(rows: Seq<Row>, r: Row)
    ensures
        unprocessed(rows.push(r)) == if r.processed {
            unprocessed(rows)
        } else {
            unprocessed(rows).push(r)
        },
{
    reveal(Seq::filter);
    assert(rows.push(r).drop_last() =~= rows);
}

/// The unprocessed rows of every channel are the same in `t` and `t2`, and
/// the same message tables exist.
pub open spec fn same_pending(t: Tables, t2: Tables) -> bool {
    &&& t2.messages.dom() == t.messages.dom()
    &&& forall|c: Seq<char>| #[trigger]
        t.messages.contains_key(c) ==> unprocessed(t2.messages[c]) == unprocessed(t.messages[c])
}

/// Compaction on a permission check: whatever the check's answer, the
/// channel's processed rows are deleted, and no unprocessed row ever is.
pub proof fn compaction_keeps_pending(
    channel: String,
    next_step: Pending,
    ev: Event,
    p2: Phase,
    a2: Action,
    t: Tables,
    ev2: Event,
    t2: Tables,
)
    requires
        next(Phase::Guarding { channel, next: next_step }, ev, p2, a2),
        a2 matches Action::Perform(op) && answers(t, op, ev2, t2),
    ensures
        a2 == Action::Perform(StoreOp::DeleteProcessed { channel }),
        same_pending(t, t2),
        t2.members == t.members,
        ev2 is Done ==> forall|i: int|
            0 <= i < t2.messages[channel@].len() ==> !#[trigger] t2.messages[channel@][i].processed,
{
    if ev2 is Done {
        assert forall|c: Seq<char>| #[trigger] t.messages.contains_key(c) implies unprocessed(
            t2.messages[c],
        ) == unprocessed(t.messages[c]) by {
            if c == channel@ {
                lemma_unprocessed_idempotent(t.messages[c]);
            }
        }
        assert(t2.messages.dom() =~= t.messages.dom());
        let rows = t.messages[channel@];
        assert forall|i: int| 0 <= i < t2.messages[channel@].len() implies !#[trigger] t2.messages[channel@][i].processed by {
            rows.lemma_filter_pred(|r: Row| !r.processed, i);
        }
    }
}

/// A `Check` from a client that is not a member of the channel is refused
/// with `NoPer`, and leaves every unprocessed row as it was.
pub proof fn check_refused_to_stranger(
    command: String,
    data: String,
    client: String,
    p: Phase,
    a: Action,
    t: Tables,
    h: spec_fn(Seq<char>) -> Seq<char>,
    steps: Seq<Step>,
)
    requires
        command@ == "Check"@,
        routes(command@, data, client, p, a),
        !(t.members.contains_key(data@) && t.members[data@].contains(client@)),
        run(p, a, t, h, steps),
    ensures
        steps.len() <= 2,
        steps.len() == 2 ==> steps[1].action == code(StatCode::NoPer),
        forall|k: int| 0 <= k < steps.len() ==> same_pending(t, #[trigger] steps[k].tables),
{
    lemma_command_names_differ();
    if steps.len() > 0 {
        lemma_run_first(p, a, t, h, steps);
        let s1 = steps.drop_first();
        assert(!(steps[0].phase->Compacting_permitted));
        if s1.len() > 0 {
            lemma_run_first(steps[0].phase, steps[0].action, steps[0].tables, h, s1);
            compaction_keeps_pending(data, Pending::Check, steps[0].event, steps[0].phase,
                steps[0].action, steps[0].tables, s1[0].event, s1[0].tables);
            lemma_run_ends(s1[0].phase, s1[0].action, s1[0].tables, h, s1.drop_first());
        }
    }
}

/// The tables of a channel are both absent.
pub open spec fn no_channel(t: Tables, c: Seq<char>) -> bool {
    !t.messages.contains_key(c) && !t.members.contains_key(c)
}

/// Deleting a channel whose tables do not exist fails, as a total failure,
/// and changes nothing.
pub proof fn delete_missing_channel(
    command: String,
    data: String,
    client: String,
    p: Phase,
    a: Action,
    t: Tables,
    h: spec_fn(Seq<char>) -> Seq<char>,
    steps: Seq<Step>,
)
    requires
        command@ == "DeleteChannel"@,
        routes(command@, data, client, p, a),
        no_channel(t, data@),
        run(p, a, t, h, steps),
        steps.len() == 2,
    ensures
        steps[1].action == code(StatCode::NoHnd),
        steps[1].phase == (Phase::Settled { outcome: ChannelOutcome::Failed }),
        steps[1].tables == t,
{
    lemma_command_names_differ();
    reveal_with_fuel(run, 3);
    assert(p == (Phase::DroppingMessages { channel: data }));
    assert(steps[0].event is Failed);
    assert(steps.drop_first()[0] == steps[1]);
    assert(steps[1].event is Failed);
}


/// A `Store` whose payload passes its integrity check, from a client that is
/// not a member of the channel, is refused with `NoPer`; no message is
/// inserted and every unprocessed row stays as it was.
pub proof fn store_refused_to_stranger(
    command: String,
    data: String,
    client: String,
    p: Phase,
    a: Action,
    t: Tables,
    h: spec_fn(Seq<char>) -> Seq<char>,
    steps: Seq<Step>,
)
    requires
        command@ == "Store"@,
        routes(command@, data, client, p, a),
        piece_count(data@, '_') >= 4,
        h(piece(data@, '_', 2)) == piece(data@, '_', 3),
        is_hex_text(piece(data@, '_', 2)),
        !(t.members.contains_key(piece(data@, '_', 0)) && t.members[piece(
            data@,
            '_',
            0,
        )].contains(client@)),
        run(p, a, t, h, steps),
    ensures
        steps.len() <= 3,
        steps.len() == 3 ==> steps[2].action == code(StatCode::NoPer),
        forall|k: int| 0 <= k < steps.len() ==> same_pending(t, #[trigger] steps[k].tables),
{
    lemma_command_names_differ();
    if steps.len() > 0 {
        lemma_run_first(p, a, t, h, steps);
        let s1 = steps.drop_first();
        if s1.len() > 0 {
            lemma_run_first(steps[0].phase, steps[0].action, steps[0].tables, h, s1);
            assert(!(s1[0].phase->Compacting_permitted));
            let s2 = s1.drop_first();
            if s2.len() > 0 {
                lemma_run_first(s1[0].phase, s1[0].action, s1[0].tables, h, s2);
                compaction_keeps_pending(
                    steps[0].phase->Guarding_channel,
                    steps[0].phase->Guarding_next,
                    s1[0].event,
                    s1[0].phase,
                    s1[0].action,
                    s1[0].tables,
                    s2[0].event,
                    s2[0].tables,
                );
                lemma_run_ends(s2[0].phase, s2[0].action, s2[0].tables, h, s2.drop_first());
            }
        }
    }
}

/// The row a `Store` payload `channel_type_body_hash` describes.
pub open spec fn stored_row(data: Seq<char>) -> Row {
    Row {
        uuid: piece(data, '_', 3),
        message_type: piece(data, '_', 1),
        body: piece(data, '_', 2),
        processed: false,
    }
}

/// A `Store` that is acknowledged with `AckDr` has added one unprocessed row,
/// whose uuid is the hash of its body, to the channel; the other unprocessed
/// rows and the members are as they were.
pub proof fn store_adds_pending_row(
    command: String,
    data: String,
    client: String,
    p: Phase,
    a: Action,
    t: Tables,
    h: spec_fn(Seq<char>) -> Seq<char>,
    steps: Seq<Step>,
)
    requires
        command@ == "Store"@,
        routes(command@, data, client, p, a),
        run(p, a, t, h, steps),
        steps.len() > 0,
        steps.last().action == code(StatCode::AckDr),
    ensures
        steps.len() == 4,
        h(stored_row(data@).body) == stored_row(data@).uuid,
        is_hex_text(stored_row(data@).body),
        unprocessed(steps[3].tables.messages[piece(data@, '_', 0)]) == unprocessed(
            t.messages[piece(data@, '_', 0)],
        ).push(stored_row(data@)),
        steps[3].tables.members == t.members,
        steps[3].tables.messages.contains_key(piece(data@, '_', 0)),
{
    lemma_command_names_differ();
    let ch = piece(data@, '_', 0);
    lemma_run_first(p, a, t, h, steps);
    let s1 = steps.drop_first();
    assert(s1.len() > 0);
    lemma_run_first(steps[0].phase, steps[0].action, steps[0].tables, h, s1);
    let s2 = s1.drop_first();
    assert(s2.len() > 0);
    lemma_run_first(s1[0].phase, s1[0].action, s1[0].tables, h, s2);
    compaction_keeps_pending(
        steps[0].phase->Guarding_channel,
        steps[0].phase->Guarding_next,
        s1[0].event,
        s1[0].phase,
        s1[0].action,
        s1[0].tables,
        s2[0].event,
        s2[0].tables,
    );
    let s3 = s2.drop_first();
    assert(s3.len() > 0);
    lemma_run_first(s2[0].phase, s2[0].action, s2[0].tables, h, s3);
    lemma_run_ends(s3[0].phase, s3[0].action, s3[0].tables, h, s3.drop_first());
    let row = s2[0].action->Perform_0->InsertMessage_row;
    assert(new_row(row) == stored_row(data@));
    lemma_unprocessed_push(s2[0].tables.messages[ch], new_row(row));
}

/// The response delivers `body` with integrity hash `hash`.
pub open spec fn delivers(a: Action, body: Seq<char>, hash: Seq<char>) -> bool {
    &&& a matches Action::Respond(Responses::Data(c, Payload::Data(b, Integrity::Hash(x))))
    &&& c == StatCode::AckDs
    &&& b@ == body
    &&& x@ == hash
}

/// No event of the run is a failure of the store.
pub open spec fn no_failure(steps: Seq<Step>) -> bool {
    forall|k: int| 0 <= k < steps.len() ==> !(#[trigger] steps[k].event is Failed)
}

/// A `Check` by a member of a channel whose only unprocessed row is `r`,
/// with `r.uuid` the hash of its body, delivers that body and its hash
/// when no store operation fails.
pub proof fn check_delivers_sole_pending(
    command: String,
    data: String,
    client: String,
    p: Phase,
    a: Action,
    t: Tables,
    h: spec_fn(Seq<char>) -> Seq<char>,
    steps: Seq<Step>,
    r: Row,
)
    requires
        command@ == "Check"@,
        routes(command@, data, client, p, a),
        t.members.contains_key(data@) && t.members[data@].contains(client@),
        t.messages.contains_key(data@),
        unprocessed(t.messages[data@]) == seq![r],
        h(r.body) == r.uuid,
        run(p, a, t, h, steps),
        no_failure(steps),
    ensures
        steps.len() <= 4,
        steps.len() == 4 ==> delivers(steps[3].action, r.body, r.uuid),
{
    lemma_command_names_differ();
    if steps.len() > 0 {
        lemma_run_first(p, a, t, h, steps);
        let s1 = steps.drop_first();
        if s1.len() > 0 {
            lemma_run_first(steps[0].phase, steps[0].action, steps[0].tables, h, s1);
            compaction_keeps_pending(data, Pending::Check, steps[0].event, steps[0].phase,
                steps[0].action, steps[0].tables, s1[0].event, s1[0].tables);
            let t2 = s1[0].tables;
            let rows = t2.messages[data@];
            assert(unprocessed(rows) == seq![r]);
            let s2 = s1.drop_first();
            if s2.len() > 0 {
                lemma_run_first(s1[0].phase, s1[0].action, s1[0].tables, h, s2);
                assert(!(s2[0].event is Failed));
                if s2[0].event == Event::Fetched(None) {
                    assert(unprocessed(rows)[0] == r);
                    rows.lemma_filter_contains_rev(|x: Row| !x.processed, r);
                    let j = choose|j: int| 0 <= j < rows.len() && rows[j] == r;
                    assert(rows[j].processed);
                    assert(false);
                }
                let m = s2[0].event->Fetched_0->Some_0;
                let i = choose|i: int| 0 <= i < rows.len() && #[trigger] rows[i] == new_row(m);
                rows.lemma_filter_contains(|x: Row| !x.processed, i);
                assert(new_row(m) == r);
                let s3 = s2.drop_first();
                if s3.len() > 0 {
                    lemma_run_first(s2[0].phase, s2[0].action, s2[0].tables, h, s3);
                    lemma_run_ends(s3[0].phase, s3[0].action, s3[0].tables, h, s3.drop_first());
                }
            }
        }
    }
}

/// A `Store` acknowledged into a channel with no unprocessed row, then a
/// `Check` by a member of that channel: the check delivers the stored body
/// and its hash, when none of its store operations fails.
pub proof fn store_then_check(
    store_command: String,
    store_data: String,
    writer: String,
    p: Phase,
    a: Action,
    t: Tables,
    h: spec_fn(Seq<char>) -> Seq<char>,
    steps: Seq<Step>,
    check_command: String,
    check_data: String,
    reader: String,
    q: Phase,
    b: Action,
    check_steps: Seq<Step>,
)
    requires
        store_command@ == "Store"@,
        routes(store_command@, store_data, writer, p, a),
        t.messages.contains_key(piece(store_data@, '_', 0)),
        unprocessed(t.messages[piece(store_data@, '_', 0)]).len() == 0,
        run(p, a, t, h, steps),
        steps.len() > 0,
        steps.last().action == code(StatCode::AckDr),
        check_command@ == "Check"@,
        check_data@ == piece(store_data@, '_', 0),
        routes(check_command@, check_data, reader, q, b),
        t.members.contains_key(check_data@) && t.members[check_data@].contains(reader@),
        run(q, b, steps.last().tables, h, check_steps),
        no_failure(check_steps),
    ensures
        check_steps.len() <= 4,
        check_steps.len() == 4 ==> delivers(
            check_steps[3].action,
            piece(store_data@, '_', 2),
            h(piece(store_data@, '_', 2)),
        ),
{
    store_adds_pending_row(store_command, store_data, writer, p, a, t, h, steps);
    let t1 = steps.last().tables;
    let ch = check_data@;
    assert(unprocessed(t.messages[ch]).push(stored_row(store_data@)) =~= seq![stored_row(store_data@)]);
    check_delivers_sole_pending(check_command, check_data, reader, q, b, t1, h, check_steps,
        stored_row(store_data@));
}


/// An `Ack` of `channel_body` that the store answers leaves no unprocessed
/// row with that body in the channel.
pub proof fn ack_clears_body(
    command: String,
    data: String,
    client: String,
    p: Phase,
    a: Action,
    t: Tables,
    h: spec_fn(Seq<char>) -> Seq<char>,
    steps: Seq<Step>,
)
    requires
        command@ == "Ack"@,
        routes(command@, data, client, p, a),
        run(p, a, t, h, steps),
        steps.len() > 0,
        !(steps[0].event is Failed),
    ensures
        steps.len() == 1,
        steps[0].tables.messages.contains_key(piece(data@, '_', 0)),
        !pending_body(steps[0].tables.messages[piece(data@, '_', 0)], piece(data@, '_', 1)),
        steps[0].action == code(StatCode::AckOk) || steps[0].action == code(StatCode::NoHnd),
{
    lemma_command_names_differ();
    lemma_run_first(p, a, t, h, steps);
    lemma_run_ends(steps[0].phase, steps[0].action, steps[0].tables, h, steps.drop_first());
    let ch = piece(data@, '_', 0);
    let body = piece(data@, '_', 1);
    let rows = t.messages[ch];
    let marked = steps[0].tables.messages[ch];
    assert(marked == mark_body(rows, body));
    assert forall|i: int| 0 <= i < marked.len() && !marked[i].processed implies #[trigger] marked[i].body != body by {
        assert(marked[i] == (if rows[i].body == body { Row { processed: true, ..rows[i] } } else { rows[i] }));
    }
}

/// A `Check` never delivers a body that no unprocessed row of its channel holds.
pub proof fn check_never_delivers_settled(
    command: String,
    data: String,
    client: String,
    p: Phase,
    a: Action,
    t: Tables,
    h: spec_fn(Seq<char>) -> Seq<char>,
    steps: Seq<Step>,
    body: Seq<char>,
    hash: Seq<char>,
)
    requires
        command@ == "Check"@,
        routes(command@, data, client, p, a),
        t.messages.contains_key(data@) ==> !pending_body(t.messages[data@], body),
        run(p, a, t, h, steps),
    ensures
        forall|k: int| 0 <= k < steps.len() ==> !delivers(#[trigger] steps[k].action, body, hash),
{
    lemma_command_names_differ();
    if steps.len() > 0 {
        lemma_run_first(p, a, t, h, steps);
        let s1 = steps.drop_first();
        if s1.len() > 0 {
            lemma_run_first(steps[0].phase, steps[0].action, steps[0].tables, h, s1);
            let s2 = s1.drop_first();
            if s2.len() > 0 {
                lemma_run_first(s1[0].phase, s1[0].action, s1[0].tables, h, s2);
                let s3 = s2.drop_first();
                if s3.len() > 0 {
                    lemma_run_first(s2[0].phase, s2[0].action, s2[0].tables, h, s3);
                    lemma_run_ends(s3[0].phase, s3[0].action, s3[0].tables, h, s3.drop_first());
                    if delivers(s3[0].action, body, hash) {
                        let m = s2[0].event->Fetched_0->Some_0;
                        let t2 = s1[0].tables;
                        let rows2 = t2.messages[data@];
                        let i = choose|i: int| 0 <= i < rows2.len() && #[trigger] rows2[i] == new_row(m);
                        assert(m.message@ == body);
                        if s1[0].event is Done {
                            let rows = t.messages[data@];
                            assert(rows2 == unprocessed(rows));
                            assert(rows2.contains(rows2[i]));
                            rows.lemma_filter_contains_rev(|x: Row| !x.processed, rows2[i]);
                            let j = choose|j: int| 0 <= j < rows.len() && rows[j] == rows2[i];
                            assert(!rows[j].processed && rows[j].body == body);
                        } else {
                            assert(!rows2[i].processed && rows2[i].body == body);
                        }
                        assert(false);
                    }
                }
            }
        }
    }
}

/// Once an `Ack` of `channel_body` has been answered by the store, a later
/// `Check` of that channel never delivers that body again.
pub proof fn ack_then_check(
    ack_command: String,
    ack_data: String,
    acker: String,
    p: Phase,
    a: Action,
    t: Tables,
    h: spec_fn(Seq<char>) -> Seq<char>,
    steps: Seq<Step>,
    check_command: String,
    check_data: String,
    reader: String,
    q: Phase,
    b: Action,
    check_steps: Seq<Step>,
    hash: Seq<char>,
)
    requires
        ack_command@ == "Ack"@,
        routes(ack_command@, ack_data, acker, p, a),
        run(p, a, t, h, steps),
        steps.len() > 0,
        !(steps[0].event is Failed),
        check_command@ == "Check"@,
        check_data@ == piece(ack_data@, '_', 0),
        routes(check_command@, check_data, reader, q, b),
        run(q, b, steps.last().tables, h, check_steps),
    ensures
        forall|k: int|
            0 <= k < check_steps.len() ==> !delivers(
                #[trigger] check_steps[k].action,
                piece(ack_data@, '_', 1),
                hash,
            ),
{
    ack_clears_body(ack_command, ack_data, acker, p, a, t, h, steps);
    check_never_delivers_settled(check_command, check_data, reader, q, b, steps.last().tables, h,
        check_steps, piece(ack_data@, '_', 1), hash);
}

/// A second deletion of a channel whose first deletion succeeded fails as a
/// total failure: it never looks like a first, successful one.
pub proof fn delete_twice(
    command: String,
    data: String,
    client: String,
    p: Phase,
    a: Action,
    t: Tables,
    h: spec_fn(Seq<char>) -> Seq<char>,
    steps: Seq<Step>,
    again: String,
    q: Phase,
    b: Action,
    steps2: Seq<Step>,
)
    requires
        command@ == "DeleteChannel"@,
        routes(command@, data, client, p, a),
        run(p, a, t, h, steps),
        steps.len() == 2,
        steps[1].action == code(StatCode::AckOk),
        again@ == data@,
        routes(command@, again, client, q, b),
        run(q, b, steps[1].tables, h, steps2),
        steps2.len() == 2,
    ensures
        steps2[1].action == code(StatCode::NoHnd),
        steps2[1].phase == (Phase::Settled { outcome: ChannelOutcome::Failed }),
{
    lemma_command_names_differ();
    lemma_run_first(p, a, t, h, steps);
    lemma_run_first(steps[0].phase, steps[0].action, steps[0].tables, h, steps.drop_first());
    assert(steps[0].event is Done && steps[1].event is Done);
    assert(no_channel(steps[1].tables, data@));
    delete_missing_channel(command, again, client, q, b, steps[1].tables, h, steps2);
}


/// Registering a client that is already a member of the channel, or in a
/// channel without a permission table, fails with `NoHnd`: membership stays
/// a set.
pub proof fn register_existing_member_fails(
    command: String,
    data: String,
    client: String,
    p: Phase,
    a: Action,
    t: Tables,
    h: spec_fn(Seq<char>) -> Seq<char>,
    steps: Seq<Step>,
)
    requires
        command@ == "RegisterChannel"@,
        routes(command@, data, client, p, a),
        !t.members.contains_key(data@) || t.members[data@].contains(client@),
        run(p, a, t, h, steps),
    ensures
        steps.len() <= 1,
        steps.len() == 1 ==> steps[0].action == code(StatCode::NoHnd) && steps[0].tables == t,
{
    lemma_command_names_differ();
    if steps.len() > 0 {
        lemma_run_first(p, a, t, h, steps);
        lemma_run_ends(steps[0].phase, steps[0].action, steps[0].tables, h, steps.drop_first());
    }
}

/// An `Ack` of `channel_body` where some row of the channel, processed or
/// not, holds that body is acknowledged with `AckOk` when the store answers;
/// when no row holds it, with `NoHnd`.
pub proof fn ack_of_known_body(
    command: String,
    data: String,
    client: String,
    p: Phase,
    a: Action,
    t: Tables,
    h: spec_fn(Seq<char>) -> Seq<char>,
    steps: Seq<Step>,
)
    requires
        command@ == "Ack"@,
        routes(command@, data, client, p, a),
        piece_count(data@, '_') >= 2,
        run(p, a, t, h, steps),
        steps.len() > 0,
        !(steps[0].event is Failed),
    ensures
        steps.len() == 1,
        (exists|i: int|
            0 <= i < t.messages[piece(data@, '_', 0)].len() && #[trigger] t.messages[piece(
                data@,
                '_',
                0,
            )][i].body == piece(data@, '_', 1)) ==> steps[0].action == code(StatCode::AckOk),
        !(exists|i: int|
            0 <= i < t.messages[piece(data@, '_', 0)].len() && #[trigger] t.messages[piece(
                data@,
                '_',
                0,
            )][i].body == piece(data@, '_', 1)) ==> steps[0].action == code(StatCode::NoHnd),
{
    lemma_command_names_differ();
    lemma_run_first(p, a, t, h, steps);
    lemma_run_ends(steps[0].phase, steps[0].action, steps[0].tables, h, steps.drop_first());
}

} // verus!
