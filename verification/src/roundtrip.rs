//! Running a script that reports its result by an event: naming the execution,
//! keeping who waits for its result, and ending it.

use crate::reply::{EventAction, ScriptReply};
use crate::{reply, script};
use vstd::prelude::*;

verus! {

/// Whether `c` is a lower-case hexadecimal digit.
pub open spec fn is_hex_digit(c: char) -> bool {
    '0' <= c <= '9' || 'a' <= c <= 'f'
}

/// Whether `id` is a random UUID, written in lower case and with hyphens.
pub open spec fn is_exec_id(id: Seq<char>) -> bool {
    &&& id.len() == 36
    &&& forall|i: int|
        0 <= i < 36 ==> if i == 8 || i == 13 || i == 18 || i == 23 {
            #[trigger] id[i] == '-'
        } else {
            is_hex_digit(id[i])
        }
    &&& id[14] == '4'
    &&& '8' <= id[19] <= '9' || 'a' <= id[19] <= 'b'
}

/// `uuid::Uuid::new_v4`, in its `Display` form. Claimed: the form of a random
/// UUID, lower-case hexadecimal digits in hyphenated groups, with the version
/// and the variant that mark it as random. That no two calls give the same is
/// left to chance and not claimed. The call panics where the machine has no
/// source of randomness.
#[verifier::external_body]
fn new_exec_id() -> (id: String)
    ensures
        is_exec_id(id@),
{
    uuid::Uuid::new_v4().to_string()
}

/// One execution of a script: its id, and the script as the webview runs it.
#[derive(Debug, PartialEq)]
pub struct EventRun {
    pub exec_id: String,
    pub wrapped_script: String,
}

impl EventRun {
    /// The execution of `script` under the id `exec_id`.
    pub fn with_id(exec_id: String, script: &str) -> (run: EventRun)
        ensures
            run.exec_id == exec_id,
            run.wrapped_script@ == script::event_script(
                exec_id@,
                script::prepared_script(script@),
            ),
    {
        let prepared = script::prepare_script(script);
        let wrapped_script = script::wrap_for_event(exec_id.as_str(), prepared.as_str());
        EventRun { exec_id, wrapped_script }
    }

    /// The execution of `script` under a new id.
    pub fn start(script: &str) -> (run: EventRun)
        ensures
            is_exec_id(run.exec_id@),
            run.wrapped_script@ == script::event_script(
                run.exec_id@,
                script::prepared_script(script@),
            ),
    {
        EventRun::with_id(new_exec_id(), script)
    }
}

/// Those who wait for the result of an execution, by its id.
pub struct PendingResults<S> {
    entries: Vec<(String, S)>,
}

/// Whether no id stands twice.
spec fn distinct_ids<S>(entries: Seq<(String, S)>) -> bool {
    forall|i: int, j: int|
        0 <= i < j < entries.len() ==> #[trigger] entries[i].0@ != #[trigger] entries[j].0@
}

/// Whether `id` stands among `entries`.
spec fn has_id<S>(entries: Seq<(String, S)>, id: Seq<char>) -> bool {
    exists|i: int| 0 <= i < entries.len() && #[trigger] entries[i].0@ == id
}

/// Where `id` stands among `entries`.
spec fn index_of_id<S>(entries: Seq<(String, S)>, id: Seq<char>) -> int {
    choose|i: int| 0 <= i < entries.len() && #[trigger] entries[i].0@ == id
}

/// `entries` as a map.
spec fn map_of<S>(entries: Seq<(String, S)>) -> Map<Seq<char>, S> {
    Map::new(
        |id: Seq<char>| has_id(entries, id),
        |id: Seq<char>| entries[index_of_id(entries, id)].1,
    )
}

impl<S> View for PendingResults<S> {
    type V = Map<Seq<char>, S>;

    closed spec fn view(&self) -> Map<Seq<char>, S> {
        map_of(self.entries@)
    }
}

/// An entry is found under its id.
proof fn lemma_entry<S>(entries: Seq<(String, S)>, i: int)
    requires
        distinct_ids(entries),
        0 <= i < entries.len(),
    ensures
        has_id(entries, entries[i].0@),
        map_of(entries).contains_key(entries[i].0@),
        map_of(entries)[entries[i].0@] == entries[i].1,
{
    let id = entries[i].0@;
    assert(entries[i].0@ == id);
    let k = index_of_id(entries, id);
    assert(entries[k].0@ == id);
    assert(k == i);
}

impl<S> PendingResults<S> {
    #[verifier::type_invariant]
    spec fn well_formed(self) -> bool {
        distinct_ids(self.entries@)
    }

    /// Nobody waits.
    pub fn new() -> (pending: Self)
        ensures
            pending@ == Map::<Seq<char>, S>::empty(),
    {
        let pending = PendingResults { entries: Vec::new() };
        assert(pending@ =~= Map::<Seq<char>, S>::empty());
        pending
    }

    /// Where `exec_id` stands.
    fn position(&self, exec_id: &str) -> (r: Option<usize>)
        ensures
            match r {
                Some(i) => i < self.entries.len() && self.entries@[i as int].0@ == exec_id@,
                None => !has_id(self.entries@, exec_id@),
            },
    {
        let wanted = exec_id.to_owned();
        let mut i: usize = 0;
        while i < self.entries.len()
            invariant
                i <= self.entries.len(),
                wanted@ == exec_id@,
                forall|j: int| 0 <= j < i ==> #[trigger] self.entries@[j].0@ != exec_id@,
            decreases self.entries.len() - i,
        {
            if self.entries[i].0 == wanted {
                return Some(i);
            }
            i = i + 1;
        }
        None
    }

    /// Takes out whoever waits for `exec_id`.
    pub fn remove(&mut self, exec_id: &str) -> (r: Option<S>)
        ensures
            final(self)@ == old(self)@.remove(exec_id@),
            match r {
                Some(sender) => old(self)@.contains_key(exec_id@) && sender == old(
                    self,
                )@[exec_id@],
                None => !old(self)@.contains_key(exec_id@),
            },
    {
        proof {
            use_type_invariant(&*self);
        }
        let ghost before = self.entries@;
        match self.position(exec_id) {
            Some(i) => {
                let mut entries: Vec<(String, S)> = Vec::new();
                std::mem::swap(&mut entries, &mut self.entries);
                let (_, sender) = entries.remove(i);
                proof {
                    lemma_entry(before, i as int);
                    lemma_removed(before, i as int);
                }
                self.entries = entries;
                Some(sender)
            },
            None => {
                assert(self@ =~= old(self)@.remove(exec_id@));
                None
            },
        }
    }

    /// Lets `sender` wait for `exec_id`, in place of whoever waited before.
    pub fn insert(&mut self, exec_id: String, sender: S)
        ensures
            final(self)@ == old(self)@.insert(exec_id@, sender),
    {
        let _ = self.remove(exec_id.as_str());
        proof {
            use_type_invariant(&*self);
        }
        let ghost before = self.entries@;
        let ghost added = (exec_id, sender);
        let mut entries: Vec<(String, S)> = Vec::new();
        std::mem::swap(&mut entries, &mut self.entries);
        entries.push((exec_id, sender));
        proof {
            assert(!map_of(before).contains_key(exec_id@));
            lemma_added(before, added);
        }
        self.entries = entries;
        assert(self@ =~= old(self)@.insert(exec_id@, sender));
    }
}

/// Taking an entry out takes its id out of the map.
proof fn lemma_removed<S>(entries: Seq<(String, S)>, i: int)
    requires
        distinct_ids(entries),
        0 <= i < entries.len(),
    ensures
        distinct_ids(entries.remove(i)),
        map_of(entries.remove(i)) == map_of(entries).remove(entries[i].0@),
{
    let rest = entries.remove(i);
    let id = entries[i].0@;
    assert(forall|k: int| 0 <= k < i ==> rest[k] == entries[k]);
    assert(forall|k: int| i <= k < rest.len() ==> rest[k] == entries[k + 1]);
    assert(distinct_ids(rest)) by {
        assert forall|a: int, b: int| 0 <= a < b < rest.len() implies #[trigger] rest[a].0@
            != #[trigger] rest[b].0@ by {
            let a2 = if a < i { a } else { a + 1 };
            let b2 = if b < i { b } else { b + 1 };
            assert(entries[a2].0@ != entries[b2].0@);
        }
    }
    let smaller = map_of(entries).remove(id);
    assert forall|other: Seq<char>| map_of(rest).contains_key(other) implies {
        &&& #[trigger] smaller.contains_key(other)
        &&& smaller[other] == map_of(rest)[other]
    } by {
        let k = index_of_id(rest, other);
        let k2 = if k < i { k } else { k + 1 };
        assert(rest[k].0@ == other);
        lemma_entry(rest, k);
        lemma_entry(entries, k2);
        assert(entries[k2].0@ != id);
    }
    assert forall|other: Seq<char>| smaller.contains_key(other) implies #[trigger] map_of(
        rest,
    ).contains_key(other) by {
        let k = index_of_id(entries, other);
        assert(entries[k].0@ == other);
        let k2 = if k < i { k } else { k - 1 };
        assert(rest[k2].0@ == other);
    }
    assert(map_of(rest) =~= smaller);
}

/// Adding an entry under a new id adds it to the map.
proof fn lemma_added<S>(entries: Seq<(String, S)>, entry: (String, S))
    requires
        distinct_ids(entries),
        !map_of(entries).contains_key(entry.0@),
    ensures
        distinct_ids(entries.push(entry)),
        map_of(entries.push(entry)) == map_of(entries).insert(entry.0@, entry.1),
{
    let longer = entries.push(entry);
    let id = entry.0@;
    assert(!has_id(entries, id));
    assert forall|a: int, b: int| 0 <= a < b < longer.len() implies #[trigger] longer[a].0@
        != #[trigger] longer[b].0@ by {
        assert(longer[a] == entries[a]);
        if b < entries.len() {
            assert(longer[b] == entries[b]);
            assert(entries[a].0@ != entries[b].0@);
        } else {
            assert(entries[a].0@ != id);
        }
    }
    assert(distinct_ids(longer));
    lemma_entry(longer, longer.len() - 1);
    let larger = map_of(entries).insert(id, entry.1);
    assert forall|other: Seq<char>| map_of(longer).contains_key(other) implies {
        &&& #[trigger] larger.contains_key(other)
        &&& larger[other] == map_of(longer)[other]
    } by {
        let k = index_of_id(longer, other);
        assert(longer[k].0@ == other);
        lemma_entry(longer, k);
        if k < entries.len() {
            assert(entries[k] == longer[k]);
            lemma_entry(entries, k);
        }
    }
    assert forall|other: Seq<char>| larger.contains_key(other) implies #[trigger] map_of(
        longer,
    ).contains_key(other) by {
        if other != id {
            let k = index_of_id(entries, other);
            assert(longer[k].0@ == other);
        }
    }
    assert(map_of(longer) =~= larger);
}

/// Who still waits when the listener for `exec_id` has acted.
pub open spec fn pending_after<S>(
    pending: Map<Seq<char>, S>,
    exec_id: Seq<char>,
    action: EventAction,
) -> Map<Seq<char>, S> {
    if action is Deliver {
        pending.remove(exec_id)
    } else {
        pending
    }
}

/// Who gets which reply when the listener for `exec_id` acts, if anybody does.
pub open spec fn handed_over<S>(
    pending: Map<Seq<char>, S>,
    exec_id: Seq<char>,
    action: EventAction,
) -> Option<(S, ScriptReply)> {
    match action {
        EventAction::Deliver(reply) => if pending.contains_key(exec_id) {
            Some((pending[exec_id], reply))
        } else {
            None
        },
        _ => None,
    }
}

/// Lets the listener for `exec_id` act on those who wait: a reply goes to whoever
/// waits for it, and is dropped if nobody does.
pub fn hand_over<S>(pending: &mut PendingResults<S>, exec_id: &str, action: EventAction) -> (r:
    Option<(S, ScriptReply)>)
    ensures
        final(pending)@ == pending_after(old(pending)@, exec_id@, action),
        r == handed_over(old(pending)@, exec_id@, action),
{
    match action {
        EventAction::Deliver(reply) => match pending.remove(exec_id) {
            Some(sender) => Some((sender, reply)),
            None => None,
        },
        _ => None,
    }
}

/// Who still waits when the listener for `exec_id` has acted so often.
pub open spec fn pending_after_all<S>(
    pending: Map<Seq<char>, S>,
    exec_id: Seq<char>,
    actions: Seq<EventAction>,
) -> Map<Seq<char>, S>
    decreases actions.len(),
{
    if actions.len() == 0 {
        pending
    } else {
        pending_after_all(
            pending_after(pending, exec_id, actions.first()),
            exec_id,
            actions.drop_first(),
        )
    }
}

/// All that is handed over while the listener for `exec_id` acts so often.
pub open spec fn all_handed_over<S>(
    pending: Map<Seq<char>, S>,
    exec_id: Seq<char>,
    actions: Seq<EventAction>,
) -> Seq<(S, ScriptReply)>
    decreases actions.len(),
{
    if actions.len() == 0 {
        Seq::empty()
    } else {
        let later = all_handed_over(
            pending_after(pending, exec_id, actions.first()),
            exec_id,
            actions.drop_first(),
        );
        match handed_over(pending, exec_id, actions.first()) {
            Some(delivery) => seq![delivery] + later,
            None => later,
        }
    }
}

/// What happens in the course of an execution.
#[derive(Debug, PartialEq)]
pub enum RunEvent {
    /// The webview took the script, or refused it for this cause.
    Evaluated(Result<(), String>),
    /// This reply came.
    Replied(ScriptReply),
    /// Whoever was to send the reply is gone.
    ChannelClosed,
    /// No reply came in time.
    TimedOut,
}

/// What is to be done next about an execution.
#[derive(Debug, PartialEq)]
pub enum RunAction {
    /// Wait for a reply, for so many seconds at most.
    AwaitReply { timeout_secs: u64 },
    /// Give the caller this reply, and stop listening for events or not.
    Finish { reply: ScriptReply, stop_listening: bool },
}

/// Whether an execution is given up when this happens, so that nobody waits for
/// it any longer.
pub open spec fn is_given_up(event: RunEvent) -> bool {
    event matches RunEvent::Evaluated(Err(_)) || event is TimedOut
}

/// Who still waits when `event` has happened to the execution `exec_id`.
pub open spec fn pending_after_step<S>(
    pending: Map<Seq<char>, S>,
    exec_id: Seq<char>,
    event: RunEvent,
) -> Map<Seq<char>, S> {
    if is_given_up(event) {
        pending.remove(exec_id)
    } else {
        pending
    }
}

/// Whether `action` is what is to be done when `event` happens. A script that
/// the webview refused can have no event to listen for.
pub open spec fn is_next_action(event: RunEvent, action: RunAction) -> bool {
    match event {
        RunEvent::Evaluated(Ok(_)) => action == (RunAction::AwaitReply {
            timeout_secs: reply::EVENT_TIMEOUT_SECS,
        }),
        RunEvent::Evaluated(Err(cause)) => {
            &&& action matches RunAction::Finish { reply, stop_listening }
            &&& reply::is_failure(reply, "Failed to execute script: "@ + cause@)
            &&& !stop_listening
        },
        RunEvent::Replied(received) => action == (RunAction::Finish {
            reply: received,
            stop_listening: true,
        }),
        RunEvent::ChannelClosed => {
            &&& action matches RunAction::Finish { reply, stop_listening }
            &&& reply::is_failure(reply, "Script execution failed: channel closed"@)
            &&& stop_listening
        },
        RunEvent::TimedOut => {
            &&& action matches RunAction::Finish { reply, stop_listening }
            &&& reply::is_failure(reply, "Script execution timeout"@)
            &&& stop_listening
        },
    }
}

/// Takes the execution `exec_id` a step further: what is to be done now that
/// `event` has happened. Nobody waits for an execution that is given up.
pub fn step_run<S>(pending: &mut PendingResults<S>, exec_id: &str, event: RunEvent) -> (action:
    RunAction)
    ensures
        is_next_action(event, action),
        final(pending)@ == pending_after_step(old(pending)@, exec_id@, event),
{
    match event {
        RunEvent::Evaluated(Ok(_)) => {
            RunAction::AwaitReply { timeout_secs: reply::EVENT_TIMEOUT_SECS }
        },
        RunEvent::Evaluated(Err(cause)) => {
            let _ = pending.remove(exec_id);
            let mut error = "Failed to execute script: ".to_owned();
            error.append(cause.as_str());
            RunAction::Finish { reply: ScriptReply::Failure { error }, stop_listening: false }
        },
        RunEvent::Replied(received) => {
            RunAction::Finish { reply: received, stop_listening: true }
        },
        RunEvent::ChannelClosed => {
            let error = "Script execution failed: channel closed".to_owned();
            RunAction::Finish { reply: ScriptReply::Failure { error }, stop_listening: true }
        },
        RunEvent::TimedOut => {
            let _ = pending.remove(exec_id);
            let error = "Script execution timeout".to_owned();
            RunAction::Finish { reply: ScriptReply::Failure { error }, stop_listening: true }
        },
    }
}

/// An execution id can stand between quotes in a script: it holds no quote, no
/// backslash and no line break.
pub proof fn law_exec_id_is_quotable(id: Seq<char>)
    requires
        is_exec_id(id),
    ensures
        forall|i: int|
            0 <= i < id.len() ==> {
                &&& #[trigger] id[i] != '\''
                &&& id[i] != '"'
                &&& id[i] != '\\'
                &&& id[i] != '\n'
                &&& id[i] != '\r'
            },
{
}

/// Whoever waits for another execution is untouched by what the listener for
/// `exec_id` does, and by what happens to that execution.
pub proof fn law_others_keep_waiting<S>(
    pending: Map<Seq<char>, S>,
    exec_id: Seq<char>,
    other: Seq<char>,
    action: EventAction,
    event: RunEvent,
)
    requires
        other != exec_id,
        pending.contains_key(other),
    ensures
        pending_after(pending, exec_id, action).contains_key(other),
        pending_after(pending, exec_id, action)[other] == pending[other],
        pending_after_step(pending, exec_id, event).contains_key(other),
        pending_after_step(pending, exec_id, event)[other] == pending[other],
{
}

/// Where nobody waits for an execution, nothing is handed over.
proof fn lemma_nobody_waits<S>(
    pending: Map<Seq<char>, S>,
    exec_id: Seq<char>,
    actions: Seq<EventAction>,
)
    requires
        !pending.contains_key(exec_id),
    ensures
        all_handed_over(pending, exec_id, actions).len() == 0,
    decreases actions.len(),
{
    if actions.len() > 0 {
        lemma_nobody_waits(
            pending_after(pending, exec_id, actions.first()),
            exec_id,
            actions.drop_first(),
        );
    }
}

/// However many events come, an execution's result is handed over once at most.
pub proof fn law_delivered_once<S>(
    pending: Map<Seq<char>, S>,
    exec_id: Seq<char>,
    actions: Seq<EventAction>,
)
    ensures
        all_handed_over(pending, exec_id, actions).len() <= 1,
    decreases actions.len(),
{
    if actions.len() > 0 {
        let next = pending_after(pending, exec_id, actions.first());
        if actions.first() is Deliver {
            lemma_nobody_waits(next, exec_id, actions.drop_first());
        } else {
            law_delivered_once(next, exec_id, actions.drop_first());
        }
    }
}

/// Once an execution is given up, no event hands anything over for it.
pub proof fn law_nothing_after_giving_up<S>(
    pending: Map<Seq<char>, S>,
    exec_id: Seq<char>,
    event: RunEvent,
    actions: Seq<EventAction>,
)
    requires
        is_given_up(event),
    ensures
        all_handed_over(pending_after_step(pending, exec_id, event), exec_id, actions).len() == 0,
{
    lemma_nobody_waits(pending_after_step(pending, exec_id, event), exec_id, actions);
}

/// A stray event with the payload `raw`, wherever it comes among the others,
/// changes neither what is handed over nor who waits.
pub proof fn law_stray_event_changes_nothing<S>(
    pending: Map<Seq<char>, S>,
    exec_id: Seq<char>,
    actions: Seq<EventAction>,
    at: int,
    raw: Seq<char>,
    stray: EventAction,
)
    requires
        0 <= at <= actions.len(),
        reply::is_stray_event(raw, exec_id),
        reply::is_event_action(raw, exec_id, stray),
    ensures
        all_handed_over(pending, exec_id, actions.insert(at, stray)) == all_handed_over(
            pending,
            exec_id,
            actions,
        ),
        pending_after_all(pending, exec_id, actions.insert(at, stray)) == pending_after_all(
            pending,
            exec_id,
            actions,
        ),
    decreases actions.len(),
{
    let more = actions.insert(at, stray);
    reply::law_stray_event_delivers_nothing(raw, exec_id, stray);
    if at == 0 {
        assert(more.first() == stray);
        assert(more.drop_first() == actions);
    } else {
        assert(more.first() == actions.first());
        assert(more.drop_first() == actions.drop_first().insert(at - 1, stray));
        law_stray_event_changes_nothing(
            pending_after(pending, exec_id, actions.first()),
            exec_id,
            actions.drop_first(),
            at - 1,
            raw,
            stray,
        );
    }
}

/// An execution under a new id leaves those who wait as they were, be its result
/// delivered or be it given up.
pub proof fn law_run_leaves_no_trace<S>(
    pending: Map<Seq<char>, S>,
    exec_id: Seq<char>,
    sender: S,
    action: EventAction,
    event: RunEvent,
)
    requires
        !pending.contains_key(exec_id),
        action is Deliver,
        is_given_up(event),
    ensures
        pending_after(pending.insert(exec_id, sender), exec_id, action) == pending,
        pending_after_step(pending.insert(exec_id, sender), exec_id, event) == pending,
{
    assert(pending.insert(exec_id, sender).remove(exec_id) =~= pending);
}

} // verus!
