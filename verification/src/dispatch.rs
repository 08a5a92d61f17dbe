use vstd::prelude::*;

verus! {

/// Where the handling of one inbound request stands.
#[derive(PartialEq, Eq, Structural, Clone, Copy, Debug)]
pub enum Phase {
    Routing,
    BuildingHeaders,
    Translating,
    Forwarding,
    Refreshing,
    RetryForwarding,
    Done,
}

/// What the surrounding request loop observed while carrying out the last
/// directive.
#[derive(PartialEq, Eq, Structural, Clone, Copy, Debug)]
pub enum Event {
    /// The route table matched the request.
    RouteMatched,
    /// The route table had no entry for the request.
    RouteMissed,
    /// The outbound header set was built.
    HeadersOk,
    /// The outbound header set could not be built.
    HeadersErr,
    /// The body was translated.
    TranslationOk,
    /// The body could not be translated and is used as it came in.
    TranslationSkipped,
    /// The upstream call returned this status.
    UpstreamStatus(u16),
    /// The upstream call failed below the HTTP layer.
    UpstreamTransportErr,
    /// The credential refresh produced a fresh credential.
    RefreshOk,
    /// The credential refresh failed.
    RefreshErr,
}

/// What the surrounding request loop must do next.
#[derive(PartialEq, Eq, Structural, Clone, Copy, Debug)]
pub enum Action {
    /// Build the outbound header set from the current credential.
    BuildHeaders,
    /// Translate the inbound body.
    TranslateBody,
    /// Send the prepared request upstream, first attempt.
    SendFirst,
    /// Exchange the credential's refresh material once.
    Refresh,
    /// Rebuild the headers from the refreshed credential and replay the
    /// identical body once against the same upstream URL.
    SendRetry,
    /// Reject the unmatched request with status 403.
    Respond403,
    /// Answer with a local server error; nothing was forwarded.
    RespondLocalError,
    /// Relay the stored first upstream response to the client unchanged.
    RelayFirst,
    /// Relay the retry's upstream response to the client.
    RelayRetry,
    /// Drop the request after a transport failure; no response is owed.
    Abort,
    /// Nothing; the request is over.
    Idle,
}

/// The transition relation of the dispatcher: one deliberate refresh after
/// a first 401, whose retry outcome is final whatever it is.
pub open spec fn step_spec(p: Phase, e: Event) -> (Phase, Action) {
    match (p, e) {
        (Phase::Routing, Event::RouteMatched) => (Phase::BuildingHeaders, Action::BuildHeaders),
        (Phase::Routing, Event::RouteMissed) => (Phase::Done, Action::Respond403),
        (Phase::BuildingHeaders, Event::HeadersOk) => (Phase::Translating, Action::TranslateBody),
        (Phase::BuildingHeaders, Event::HeadersErr) => (Phase::Done, Action::RespondLocalError),
        (Phase::Translating, Event::TranslationOk) => (Phase::Forwarding, Action::SendFirst),
        (Phase::Translating, Event::TranslationSkipped) => (Phase::Forwarding, Action::SendFirst),
        (Phase::Forwarding, Event::UpstreamStatus(s)) => if s == 401 {
            (Phase::Refreshing, Action::Refresh)
        } else {
            (Phase::Done, Action::RelayFirst)
        },
        (Phase::Forwarding, Event::UpstreamTransportErr) => (Phase::Done, Action::Abort),
        (Phase::Refreshing, Event::RefreshOk) => (Phase::RetryForwarding, Action::SendRetry),
        (Phase::Refreshing, Event::RefreshErr) => (Phase::Done, Action::RelayFirst),
        (Phase::RetryForwarding, Event::UpstreamStatus(_)) => (Phase::Done, Action::RelayRetry),
        (Phase::RetryForwarding, Event::UpstreamTransportErr) => (Phase::Done, Action::Abort),
        (Phase::Done, _) => (Phase::Done, Action::Idle),
        _ => (Phase::Done, Action::Abort),
    }
}

/// Takes one step of the dispatcher.
pub fn dispatch_step(p: Phase, e: &Event) -> (r: (Phase, Action))
    ensures
        r == step_spec(p, *e),
{
    match (p, e) {
        (Phase::Routing, Event::RouteMatched) => (Phase::BuildingHeaders, Action::BuildHeaders),
        (Phase::Routing, Event::RouteMissed) => (Phase::Done, Action::Respond403),
        (Phase::BuildingHeaders, Event::HeadersOk) => (Phase::Translating, Action::TranslateBody),
        (Phase::BuildingHeaders, Event::HeadersErr) => (Phase::Done, Action::RespondLocalError),
        (Phase::Translating, Event::TranslationOk) => (Phase::Forwarding, Action::SendFirst),
        (Phase::Translating, Event::TranslationSkipped) => (Phase::Forwarding, Action::SendFirst),
        (Phase::Forwarding, Event::UpstreamStatus(s)) => {
            if *s == 401 {
                (Phase::Refreshing, Action::Refresh)
            } else {
                (Phase::Done, Action::RelayFirst)
            }
        },
        (Phase::Forwarding, Event::UpstreamTransportErr) => (Phase::Done, Action::Abort),
        (Phase::Refreshing, Event::RefreshOk) => (Phase::RetryForwarding, Action::SendRetry),
        (Phase::Refreshing, Event::RefreshErr) => (Phase::Done, Action::RelayFirst),
        (Phase::RetryForwarding, Event::UpstreamStatus(_)) => (Phase::Done, Action::RelayRetry),
        (Phase::RetryForwarding, Event::UpstreamTransportErr) => (Phase::Done, Action::Abort),
        (Phase::Done, _) => (Phase::Done, Action::Idle),
        _ => (Phase::Done, Action::Abort),
    }
}

/// Decides what one upstream attempt carries: the translated bytes when
/// translation produced some, and otherwise — a body that failed to parse
/// or to translate — the original inbound bytes, untranslated and
/// unchanged, together with the event that reports the choice.
pub fn select_upstream_body(original: Vec<u8>, translated: Option<Vec<u8>>) -> (r: (Vec<u8>, Event))
    ensures
        match translated {
            Some(b) => r.0 == b && r.1 == Event::TranslationOk,
            None => r.0 == original && r.1 == Event::TranslationSkipped,
        },
{
    match translated {
        Some(b) => (b, Event::TranslationOk),
        None => (original, Event::TranslationSkipped),
    }
}

/// The phase after a sequence of events.
pub open spec fn run_phase(p: Phase, events: Seq<Event>) -> Phase
    decreases events.len(),
{
    if events.len() == 0 {
        p
    } else {
        run_phase(step_spec(p, events[0]).0, events.drop_first())
    }
}

/// The directives issued along a sequence of events, in order.
pub open spec fn run_actions(p: Phase, events: Seq<Event>) -> Seq<Action>
    decreases events.len(),
{
    if events.len() == 0 {
        Seq::empty()
    } else {
        seq![step_spec(p, events[0]).1] + run_actions(step_spec(p, events[0]).0,
            events.drop_first(),
        )
    }
}

/// A directive that puts bytes on the client connection.
pub open spec fn is_reply(a: Action) -> bool {
    a == Action::Respond403 || a == Action::RespondLocalError || a == Action::RelayFirst || a
        == Action::RelayRetry
}

/// How many directives of a run reply to the client.
pub open spec fn reply_count(actions: Seq<Action>) -> int
    decreases actions.len(),
{
    if actions.len() == 0 {
        0
    } else {
        (if is_reply(actions[0]) {
            1int
        } else {
            0int
        }) + reply_count(actions.drop_first())
    }
}

/// How often a given directive occurs in a run.
pub open spec fn action_count(actions: Seq<Action>, a: Action) -> int
    decreases actions.len(),
{
    if actions.len() == 0 {
        0
    } else {
        (if actions[0] == a {
            1int
        } else {
            0int
        }) + action_count(actions.drop_first(), a)
    }
}

/// Phases ordered along the life of a request.
pub open spec fn phase_rank(p: Phase) -> int {
    match p {
        Phase::Routing => 0,
        Phase::BuildingHeaders => 1,
        Phase::Translating => 2,
        Phase::Forwarding => 3,
        Phase::Refreshing => 4,
        Phase::RetryForwarding => 5,
        Phase::Done => 6,
    }
}

proof fn lemma_step_facts(p: Phase, e: Event)
    ensures
        p != Phase::Done ==> phase_rank(step_spec(p, e).0) > phase_rank(p),
        p == Phase::Done ==> step_spec(p, e) == (Phase::Done, Action::Idle),
        is_reply(step_spec(p, e).1) ==> step_spec(p, e).0 == Phase::Done,
        step_spec(p, e).1 == Action::Refresh ==> p == Phase::Forwarding,
        step_spec(p, e).1 == Action::SendRetry ==> p == Phase::Refreshing,
        p != Phase::Done && step_spec(p, e).0 == Phase::Done ==> is_reply(step_spec(p, e).1)
            || step_spec(p, e).1 == Action::Abort,
{
}

proof fn lemma_done_run(events: Seq<Event>)
    ensures
        run_phase(Phase::Done, events) == Phase::Done,
        reply_count(run_actions(Phase::Done, events)) == 0,
        forall|a: Action| a != Action::Idle ==> #[trigger] action_count(
            run_actions(Phase::Done, events),
            a,
        ) == 0,
    decreases events.len(),
{
    if events.len() > 0 {
        lemma_done_run(events.drop_first());
        assert forall|a: Action| a != Action::Idle implies #[trigger] action_count(
            run_actions(Phase::Done, events),
            a,
        ) == 0 by {
            let acts = run_actions(Phase::Done, events);
            assert(acts[0] == Action::Idle);
            assert(acts.drop_first() =~= run_actions(Phase::Done, events.drop_first()));
            assert(action_count(run_actions(Phase::Done, events.drop_first()), a) == 0);
        }
        let acts = run_actions(Phase::Done, events);
        assert(acts.drop_first() =~= run_actions(Phase::Done, events.drop_first()));
    }
}

/// Law: over any sequence of events, from any phase, the dispatcher replies
/// to the client at most once. A request is never answered twice, whatever
/// interleaving of statuses, refreshes, and failures comes in.
pub proof fn lemma_at_most_one_reply(p: Phase, events: Seq<Event>)
    ensures
        reply_count(run_actions(p, events)) <= 1,
    decreases events.len(),
{
    if events.len() > 0 {
        let next = step_spec(p, events[0]).0;
        let a = step_spec(p, events[0]).1;
        let acts = run_actions(p, events);
        assert(acts.drop_first() =~= run_actions(next, events.drop_first()));
        lemma_step_facts(p, events[0]);
        if is_reply(a) {
            lemma_done_run(events.drop_first());
        } else {
            lemma_at_most_one_reply(next, events.drop_first());
        }
    }
}

proof fn lemma_high_rank_no_refresh(p: Phase, events: Seq<Event>)
    requires
        phase_rank(p) > 3,
    ensures
        action_count(run_actions(p, events), Action::Refresh) == 0,
    decreases events.len(),
{
    if events.len() > 0 {
        let next = step_spec(p, events[0]).0;
        let acts = run_actions(p, events);
        assert(acts.drop_first() =~= run_actions(next, events.drop_first()));
        lemma_step_facts(p, events[0]);
        lemma_high_rank_no_refresh(next, events.drop_first());
    }
}

/// Law: over any sequence of events, from any phase, the dispatcher orders
/// at most one credential refresh; a second 401 is never retried again.
pub proof fn lemma_at_most_one_refresh(p: Phase, events: Seq<Event>)
    ensures
        action_count(run_actions(p, events), Action::Refresh) <= 1,
    decreases events.len(),
{
    if events.len() > 0 {
        let next = step_spec(p, events[0]).0;
        let a = step_spec(p, events[0]).1;
        let acts = run_actions(p, events);
        assert(acts.drop_first() =~= run_actions(next, events.drop_first()));
        lemma_step_facts(p, events[0]);
        if a == Action::Refresh {
            assert(phase_rank(next) > 3);
            lemma_high_rank_no_refresh(next, events.drop_first());
        } else {
            lemma_at_most_one_refresh(next, events.drop_first());
        }
    }
}

proof fn lemma_high_rank_no_send_retry(p: Phase, events: Seq<Event>)
    requires
        phase_rank(p) > 4,
    ensures
        action_count(run_actions(p, events), Action::SendRetry) == 0,
    decreases events.len(),
{
    if events.len() > 0 {
        let next = step_spec(p, events[0]).0;
        let acts = run_actions(p, events);
        assert(acts.drop_first() =~= run_actions(next, events.drop_first()));
        lemma_step_facts(p, events[0]);
        lemma_high_rank_no_send_retry(next, events.drop_first());
    }
}

/// Law: over any sequence of events, from any phase, the dispatcher sends
/// at most one retry attempt upstream.
pub proof fn lemma_at_most_one_retry_send(p: Phase, events: Seq<Event>)
    ensures
        action_count(run_actions(p, events), Action::SendRetry) <= 1,
    decreases events.len(),
{
    if events.len() > 0 {
        let next = step_spec(p, events[0]).0;
        let a = step_spec(p, events[0]).1;
        let acts = run_actions(p, events);
        assert(acts.drop_first() =~= run_actions(next, events.drop_first()));
        lemma_step_facts(p, events[0]);
        if a == Action::SendRetry {
            assert(phase_rank(next) > 4);
            lemma_high_rank_no_send_retry(next, events.drop_first());
        } else {
            lemma_at_most_one_retry_send(next, events.drop_first());
        }
    }
}

/// Law: a run that reaches the terminal phase has issued exactly one
/// terminal directive: one reply to the client, or one abort after a
/// transport failure — never both, never neither, never two.
pub proof fn lemma_completed_run_terminates_once(p: Phase, events: Seq<Event>)
    requires
        p != Phase::Done,
        run_phase(p, events) == Phase::Done,
    ensures
        reply_count(run_actions(p, events)) + action_count(run_actions(p, events), Action::Abort)
            == 1,
    decreases events.len(),
{
    lemma_at_most_one_reply(p, events);
    let acts = run_actions(p, events);
    let next = step_spec(p, events[0]).0;
    let a = step_spec(p, events[0]).1;
    assert(acts.drop_first() =~= run_actions(next, events.drop_first()));
    lemma_step_facts(p, events[0]);
    lemma_count_unfold(acts);
    if next == Phase::Done {
        lemma_done_run(events.drop_first());
        assert(is_reply(a) || a == Action::Abort);
        assert(!(is_reply(a) && a == Action::Abort));
    } else {
        assert(!is_reply(a) && a != Action::Abort);
        lemma_completed_run_terminates_once(next, events.drop_first());
    }
}

/// Law: an upstream 401 on the first attempt, a successful refresh, and
/// any status on the replay make the dispatcher reply exactly once, with
/// the retry's response — never with the first 401.
pub proof fn lemma_refresh_success_replays_once(retry_status: u16)
    ensures
        ({
            let es = seq![
                Event::RouteMatched,
                Event::HeadersOk,
                Event::TranslationOk,
                Event::UpstreamStatus(401),
                Event::RefreshOk,
                Event::UpstreamStatus(retry_status),
            ];
            &&& run_phase(Phase::Routing, es) == Phase::Done
            &&& run_actions(Phase::Routing, es) =~= seq![
                Action::BuildHeaders,
                Action::TranslateBody,
                Action::SendFirst,
                Action::Refresh,
                Action::SendRetry,
                Action::RelayRetry,
            ]
            &&& reply_count(run_actions(Phase::Routing, es)) == 1
            &&& action_count(run_actions(Phase::Routing, es), Action::RelayFirst) == 0
        }),
{
    let es = seq![
        Event::RouteMatched,
        Event::HeadersOk,
        Event::TranslationOk,
        Event::UpstreamStatus(401),
        Event::RefreshOk,
        Event::UpstreamStatus(retry_status),
    ];
    reveal_with_fuel(run_phase, 8);
    reveal_with_fuel(run_actions, 8);
    assert(es.drop_first() =~= es.subrange(1, 6));
    assert(run_actions(Phase::Routing, es) =~= seq![
        Action::BuildHeaders,
        Action::TranslateBody,
        Action::SendFirst,
        Action::Refresh,
        Action::SendRetry,
        Action::RelayRetry,
    ]) by {
        lemma_run_unfold(Phase::Routing, es);
    }
    reveal_with_fuel(reply_count, 8);
    reveal_with_fuel(action_count, 8);
    lemma_count_unfold(run_actions(Phase::Routing, es));
}

/// Law: an upstream 401 on the first attempt followed by a failing refresh
/// makes the dispatcher reply exactly once, by relaying the stored first
/// response — the original 401 — unchanged.
#[verifier::rlimit(60)]
pub proof fn lemma_refresh_failure_relays_original()
    ensures
        step_spec(Phase::Refreshing, Event::RefreshErr) == (Phase::Done, Action::RelayFirst),
        ({
            let es = seq![
                Event::RouteMatched,
                Event::HeadersOk,
                Event::TranslationOk,
                Event::UpstreamStatus(401),
                Event::RefreshErr,
            ];
            &&& run_phase(Phase::Routing, es) == Phase::Done
            &&& run_actions(Phase::Routing, es) =~= seq![
                Action::BuildHeaders,
                Action::TranslateBody,
                Action::SendFirst,
                Action::Refresh,
                Action::RelayFirst,
            ]
            &&& reply_count(run_actions(Phase::Routing, es)) == 1
        }),
{
    let es = seq![
        Event::RouteMatched,
        Event::HeadersOk,
        Event::TranslationOk,
        Event::UpstreamStatus(401),
        Event::RefreshErr,
    ];
    reveal_with_fuel(run_phase, 8);
    reveal_with_fuel(run_actions, 8);
    reveal_with_fuel(reply_count, 8);
    reveal_with_fuel(action_count, 8);
    assert(run_actions(Phase::Routing, es) =~= seq![
        Action::BuildHeaders,
        Action::TranslateBody,
        Action::SendFirst,
        Action::Refresh,
        Action::RelayFirst,
    ]) by {
        lemma_run_unfold(Phase::Routing, es);
    }
    lemma_count_unfold(run_actions(Phase::Routing, es));
}

proof fn lemma_run_unfold(p: Phase, events: Seq<Event>)
    ensures
        run_phase(p, events) == (if events.len() == 0 {
            p
        } else {
            run_phase(step_spec(p, events[0]).0, events.drop_first())
        }),
        run_actions(p, events) == (if events.len() == 0 {
            Seq::<Action>::empty()
        } else {
            seq![step_spec(p, events[0]).1] + run_actions(step_spec(p, events[0]).0,
                events.drop_first(),
            )
        }),
        events.len() > 0 ==> run_phase(step_spec(p, events[0]).0, events.drop_first())
            == run_phase(p, events),
    decreases events.len(),
{
    if events.len() > 0 {
        lemma_run_unfold(step_spec(p, events[0]).0, events.drop_first());
    }
}

proof fn lemma_count_unfold(actions: Seq<Action>)
    ensures
        reply_count(actions) == (if actions.len() == 0 {
            0int
        } else {
            (if is_reply(actions[0]) {
                1int
            } else {
                0int
            }) + reply_count(actions.drop_first())
        }),
        forall|a: Action| #[trigger] action_count(actions, a) == (if actions.len() == 0 {
            0int
        } else {
            (if actions[0] == a {
                1int
            } else {
                0int
            }) + action_count(actions.drop_first(), a)
        }),
    decreases actions.len(),
{
    if actions.len() > 0 {
        lemma_count_unfold(actions.drop_first());
    }
}

} // verus!
