//! What the resynchronisation does over whole runs: where the device answers
//! at some attempt, where it never answers, and where it answers wrongly.

use vstd::prelude::*;
use crate::bbio::{BBIOConn, BinModeVSN};
use crate::error::ErrorView;
use crate::link::{ActionView, EventView, StepView, Timeout};
use crate::pirate::{
    attempt_timeout, bitbang_magic, poke, resync_step, ResyncView, RESYNC_ATTEMPTS,
};

verus! {

/// What a resynchronisation did over a sequence of events: the actions it
/// asked for after the first, and how it ended, if it did.
pub struct Run {
    pub actions: Seq<ActionView>,
    pub end: Option<Result<BBIOConn, ErrorView>>,
}

/// Feeds `events` one by one to the machine that is in `state`. Events after
/// the end are not looked at.
pub open spec fn resync_run(state: ResyncView, events: Seq<EventView>) -> Run
    decreases events.len(),
{
    if events.len() == 0 {
        Run { actions: Seq::empty(), end: None }
    } else {
        match resync_step(state, events[0]) {
            StepView::Next(next, action) => {
                let rest = resync_run(next, events.drop_first());
                Run { actions: seq![action] + rest.actions, end: rest.end }
            },
            StepView::Done(conn) => Run { actions: Seq::empty(), end: Some(Ok(conn)) },
            StepView::Failed(error) => Run { actions: Seq::empty(), end: Some(Err(error)) },
        }
    }
}

/// The events of `n` attempts that the device does not answer: each zero
/// byte is written and each read times out.
pub open spec fn silent_attempts(n: nat) -> Seq<EventView>
    decreases n,
{
    if n == 0 {
        Seq::empty()
    } else {
        seq![EventView::Written, EventView::TimedOut] + silent_attempts((n - 1) as nat)
    }
}

/// What the machine asks for while `n` attempts go unanswered and another is
/// left: each time the read, then the next zero byte.
pub open spec fn retries(n: nat) -> Seq<ActionView>
    decreases n,
{
    if n == 0 {
        Seq::empty()
    } else {
        seq![ActionView::ReadExact(5), ActionView::Write(poke())] + retries((n - 1) as nat)
    }
}

/// How many of `actions` write the zero byte of an attempt.
pub open spec fn pokes(actions: Seq<ActionView>) -> nat
    decreases actions.len(),
{
    if actions.len() == 0 {
        0
    } else {
        pokes(actions.drop_last()) + if actions.last() == ActionView::Write(poke()) {
            1nat
        } else {
            0nat
        }
    }
}

/// The events up to the first attempt: the escape sequence is written, the
/// drain ends (`drained` is `Drained` or `TimedOut`), the link reports
/// `saved` as its timeout and takes the per-attempt one.
pub open spec fn opening(saved: Timeout, drained: EventView) -> Seq<EventView> {
    seq![EventView::Written, drained, EventView::TimeoutIs(saved), EventView::TimeoutSet]
}

/// What the machine asks for over the opening, the first zero byte included.
pub open spec fn opening_actions() -> Seq<ActionView> {
    seq![
        ActionView::Drain,
        ActionView::QueryTimeout,
        ActionView::SetTimeout(attempt_timeout()),
        ActionView::Write(poke()),
    ]
}

proof fn lemma_pokes_concat(a: Seq<ActionView>, b: Seq<ActionView>)
    ensures
        pokes(a + b) == pokes(a) + pokes(b),
    decreases b.len(),
{
    if b.len() == 0 {
        assert(a + b =~= a);
    } else {
        assert((a + b).drop_last() =~= a + b.drop_last());
        assert((a + b).last() == b.last());
        lemma_pokes_concat(a, b.drop_last());
    }
}

proof fn lemma_pokes_of_two(x: ActionView, y: ActionView)
    ensures
        pokes(seq![x, y]) == (if x == ActionView::Write(poke()) {
            1nat
        } else {
            0nat
        }) + (if y == ActionView::Write(poke()) {
            1nat
        } else {
            0nat
        }),
{
    let s = seq![x, y];
    assert(s.drop_last() =~= seq![x]);
    assert(seq![x].drop_last() =~= Seq::<ActionView>::empty());
    assert(pokes(seq![x].drop_last()) == 0);
    assert(seq![x].last() == x);
    assert(s.last() == y);
    reveal_with_fuel(pokes, 3);
}

proof fn lemma_pokes_of_retries(n: nat)
    ensures
        pokes(retries(n)) == n,
    decreases n,
{
    if n > 0 {
        lemma_pokes_of_retries((n - 1) as nat);
        lemma_pokes_concat(
            seq![ActionView::ReadExact(5), ActionView::Write(poke())],
            retries((n - 1) as nat),
        );
        lemma_pokes_of_two(ActionView::ReadExact(5), ActionView::Write(poke()));
    }
}

proof fn lemma_silent_attempts_grow(n: nat)
    ensures
        silent_attempts(n + 1) == silent_attempts(n) + seq![
            EventView::Written,
            EventView::TimedOut,
        ],
    decreases n,
{
    let round = seq![EventView::Written, EventView::TimedOut];
    if n == 0 {
        assert(silent_attempts(1) =~= round + silent_attempts(0));
        assert(silent_attempts(0) + round =~= round);
        assert(round + silent_attempts(0) =~= round);
    } else {
        lemma_silent_attempts_grow((n - 1) as nat);
        assert(silent_attempts(n + 1) == round + silent_attempts(n));
        assert(round + (silent_attempts((n - 1) as nat) + round) =~= (round + silent_attempts(
            (n - 1) as nat,
        )) + round);
    }
}

/// Over the opening the machine asks for the drain, the link's timeout, the
/// per-attempt timeout and the first zero byte, and then stands in the
/// first attempt.
proof fn lemma_run_opening(saved: Timeout, drained: EventView, rest: Seq<EventView>)
    requires
        drained == EventView::Drained || drained == EventView::TimedOut,
    ensures
        resync_run(ResyncView::Escaping, opening(saved, drained) + rest).actions
            == opening_actions() + resync_run(
            ResyncView::Poking { saved, attempt: 1 },
            rest,
        ).actions,
        resync_run(ResyncView::Escaping, opening(saved, drained) + rest).end == resync_run(
            ResyncView::Poking { saved, attempt: 1 },
            rest,
        ).end,
{
    let e0 = opening(saved, drained) + rest;
    let e1 = seq![drained, EventView::TimeoutIs(saved), EventView::TimeoutSet] + rest;
    let e2 = seq![EventView::TimeoutIs(saved), EventView::TimeoutSet] + rest;
    let e3 = seq![EventView::TimeoutSet] + rest;
    assert(e0.drop_first() =~= e1);
    assert(e1.drop_first() =~= e2);
    assert(e2.drop_first() =~= e3);
    assert(e3.drop_first() =~= rest);
    let r4 = resync_run(ResyncView::Poking { saved, attempt: 1 }, rest);
    let r3 = resync_run(ResyncView::Shortening { saved }, e3);
    let r2 = resync_run(ResyncView::Querying, e2);
    let r1 = resync_run(ResyncView::Draining, e1);
    let r0 = resync_run(ResyncView::Escaping, e0);
    assert(r3.actions == seq![ActionView::Write(poke())] + r4.actions && r3.end == r4.end);
    assert(r2.actions == seq![ActionView::SetTimeout(attempt_timeout())] + r3.actions && r2.end
        == r3.end);
    assert(r1.actions == seq![ActionView::QueryTimeout] + r2.actions && r1.end == r2.end);
    assert(r0.actions == seq![ActionView::Drain] + r1.actions && r0.end == r1.end);
    assert(r0.actions =~= opening_actions() + r4.actions);
}

/// While attempts are left, each unanswered one makes the machine read,
/// then write the next zero byte, and leaves it in the following attempt.
proof fn lemma_run_silent_attempts(saved: Timeout, attempt: u8, n: nat, rest: Seq<EventView>)
    requires
        attempt + n <= RESYNC_ATTEMPTS,
    ensures
        resync_run(ResyncView::Poking { saved, attempt }, silent_attempts(n) + rest).actions
            == retries(n) + resync_run(
            ResyncView::Poking { saved, attempt: (attempt + n) as u8 },
            rest,
        ).actions,
        resync_run(ResyncView::Poking { saved, attempt }, silent_attempts(n) + rest).end
            == resync_run(ResyncView::Poking { saved, attempt: (attempt + n) as u8 }, rest).end,
    decreases n,
{
    if n == 0 {
        assert(silent_attempts(0) + rest =~= rest);
        assert(retries(0) + resync_run(ResyncView::Poking { saved, attempt }, rest).actions
            =~= resync_run(ResyncView::Poking { saved, attempt }, rest).actions);
    } else {
        let m = (n - 1) as nat;
        let e0 = silent_attempts(n) + rest;
        let e1 = seq![EventView::TimedOut] + (silent_attempts(m) + rest);
        let e2 = silent_attempts(m) + rest;
        assert(e0.drop_first() =~= e1);
        assert(e1.drop_first() =~= e2);
        assert(e0[0] == EventView::Written);
        assert(e1[0] == EventView::TimedOut);
        let next: u8 = (attempt + 1) as u8;
        lemma_run_silent_attempts(saved, next, m, rest);
        let r2 = resync_run(ResyncView::Poking { saved, attempt: next }, e2);
        let r1 = resync_run(ResyncView::Listening { saved, attempt }, e1);
        let r0 = resync_run(ResyncView::Poking { saved, attempt }, e0);
        assert(r1.actions == seq![ActionView::Write(poke())] + r2.actions && r1.end == r2.end);
        assert(r0.actions == seq![ActionView::ReadExact(5)] + r1.actions && r0.end == r1.end);
        let end_run = resync_run(
            ResyncView::Poking { saved, attempt: (attempt + n) as u8 },
            rest,
        );
        assert((next + m) as u8 == (attempt + n) as u8);
        assert(r0.actions =~= retries(n) + end_run.actions);
    }
}

/// An attempt whose read returns `reply` is the last: the machine reads,
/// puts the link's timeout back and ends, with the session where `reply` is
/// the magic and with the mismatch where it is not.
proof fn lemma_run_answered_attempt(saved: Timeout, attempt: u8, reply: Seq<u8>)
    ensures
        resync_run(
            ResyncView::Poking { saved, attempt },
            seq![EventView::Written, EventView::Data(reply), EventView::TimeoutSet],
        ) == (Run {
            actions: seq![ActionView::ReadExact(5), ActionView::SetTimeout(saved)],
            end: Some(
                if reply == bitbang_magic() {
                    Ok(BBIOConn { vsn: BinModeVSN::One })
                } else {
                    Err(ErrorView::ProtocolMismatch(reply))
                },
            ),
        }),
{
    let e0 = seq![EventView::Written, EventView::Data(reply), EventView::TimeoutSet];
    let e1 = seq![EventView::Data(reply), EventView::TimeoutSet];
    let e2 = seq![EventView::TimeoutSet];
    assert(e0.drop_first() =~= e1);
    assert(e1.drop_first() =~= e2);
    let outcome: Result<BinModeVSN, ErrorView> = if reply == bitbang_magic() {
        Ok(BinModeVSN::One)
    } else {
        Err(ErrorView::ProtocolMismatch(reply))
    };
    let r2 = resync_run(ResyncView::Restoring { outcome }, e2);
    let r1 = resync_run(ResyncView::Listening { saved, attempt }, e1);
    let r0 = resync_run(ResyncView::Poking { saved, attempt }, e0);
    assert(r2.actions =~= Seq::<ActionView>::empty());
    assert(r1.actions =~= seq![ActionView::SetTimeout(saved)]);
    assert(r0.actions =~= seq![ActionView::ReadExact(5), ActionView::SetTimeout(saved)]);
}

/// The last attempt, unanswered: the machine reads, puts the link's timeout
/// back and ends with `ResyncExhausted`.
proof fn lemma_run_last_attempt_silent(saved: Timeout)
    ensures
        resync_run(
            ResyncView::Poking { saved, attempt: RESYNC_ATTEMPTS },
            seq![EventView::Written, EventView::TimedOut, EventView::TimeoutSet],
        ) == (Run {
            actions: seq![ActionView::ReadExact(5), ActionView::SetTimeout(saved)],
            end: Some(Err(ErrorView::ResyncExhausted)),
        }),
{
    let e0 = seq![EventView::Written, EventView::TimedOut, EventView::TimeoutSet];
    let e1 = seq![EventView::TimedOut, EventView::TimeoutSet];
    let e2 = seq![EventView::TimeoutSet];
    assert(e0.drop_first() =~= e1);
    assert(e1.drop_first() =~= e2);
    let r2 = resync_run(
        ResyncView::Restoring { outcome: Err(ErrorView::ResyncExhausted) },
        e2,
    );
    let r1 = resync_run(ResyncView::Listening { saved, attempt: RESYNC_ATTEMPTS }, e1);
    let r0 = resync_run(ResyncView::Poking { saved, attempt: RESYNC_ATTEMPTS }, e0);
    assert(r2.actions =~= Seq::<ActionView>::empty());
    assert(r1.actions =~= seq![ActionView::SetTimeout(saved)]);
    assert(r0.actions =~= seq![ActionView::ReadExact(5), ActionView::SetTimeout(saved)]);
}

/// The events of a run in which the device stays silent for `k - 1` attempts
/// and answers attempt `k` with `reply`, after which the link takes its own
/// timeout back.
pub open spec fn answered_at(k: nat, saved: Timeout, drained: EventView, reply: Seq<u8>) -> Seq<
    EventView,
> {
    opening(saved, drained) + (silent_attempts((k - 1) as nat) + seq![
        EventView::Written,
        EventView::Data(reply),
        EventView::TimeoutSet,
    ])
}

/// The events of a run in which the device never answers: every one of the
/// forty reads times out, and the link takes its own timeout back.
pub open spec fn never_answered(saved: Timeout, drained: EventView) -> Seq<EventView> {
    opening(saved, drained) + (silent_attempts(RESYNC_ATTEMPTS as nat) + seq![
        EventView::TimeoutSet,
    ])
}

/// What the machine asks for in a run that ends in its attempt `k`: the
/// opening, `k` zero bytes with a read after each, and the link's own
/// timeout at the end.
pub open spec fn actions_through(k: nat, saved: Timeout) -> Seq<ActionView> {
    opening_actions() + (retries((k - 1) as nat) + seq![
        ActionView::ReadExact(5),
        ActionView::SetTimeout(saved),
    ])
}

proof fn lemma_pokes_through(k: nat, saved: Timeout)
    requires
        1 <= k,
    ensures
        pokes(actions_through(k, saved)) == k,
{
    let closing = seq![ActionView::ReadExact(5), ActionView::SetTimeout(saved)];
    let first = seq![ActionView::Drain, ActionView::QueryTimeout];
    let second = seq![ActionView::SetTimeout(attempt_timeout()), ActionView::Write(poke())];
    assert(opening_actions() =~= first + second);
    lemma_pokes_of_two(ActionView::Drain, ActionView::QueryTimeout);
    lemma_pokes_of_two(ActionView::SetTimeout(attempt_timeout()), ActionView::Write(poke()));
    lemma_pokes_concat(first, second);
    lemma_pokes_of_two(ActionView::ReadExact(5), ActionView::SetTimeout(saved));
    lemma_pokes_of_retries((k - 1) as nat);
    lemma_pokes_concat(retries((k - 1) as nat), closing);
    lemma_pokes_concat(opening_actions(), retries((k - 1) as nat) + closing);
}

proof fn lemma_run_answered_at(k: nat, saved: Timeout, drained: EventView, reply: Seq<u8>)
    requires
        1 <= k <= RESYNC_ATTEMPTS,
        drained == EventView::Drained || drained == EventView::TimedOut,
    ensures
        resync_run(ResyncView::Escaping, answered_at(k, saved, drained, reply)) == (Run {
            actions: actions_through(k, saved),
            end: Some(
                if reply == bitbang_magic() {
                    Ok(BBIOConn { vsn: BinModeVSN::One })
                } else {
                    Err(ErrorView::ProtocolMismatch(reply))
                },
            ),
        }),
{
    let closing = seq![EventView::Written, EventView::Data(reply), EventView::TimeoutSet];
    let attempts = silent_attempts((k - 1) as nat) + closing;
    lemma_run_opening(saved, drained, attempts);
    lemma_run_silent_attempts(saved, 1, (k - 1) as nat, closing);
    lemma_run_answered_attempt(saved, k as u8, reply);
    let run = resync_run(ResyncView::Escaping, answered_at(k, saved, drained, reply));
    assert(run.actions =~= actions_through(k, saved));
}

/// Where the device answers attempt `k` of the forty with the magic `BBIO1`,
/// having let every read before it time out, the resynchronisation ends with
/// a session of protocol version one. The machine has then written exactly
/// `k` zero bytes, read after each, and put the link's own timeout back as
/// its last action.
pub proof fn resync_enters_at_first_answer(k: nat, saved: Timeout, drained: EventView)
    requires
        1 <= k <= RESYNC_ATTEMPTS,
        drained == EventView::Drained || drained == EventView::TimedOut,
    ensures
        resync_run(ResyncView::Escaping, answered_at(k, saved, drained, bitbang_magic())) == (Run {
            actions: actions_through(k, saved),
            end: Some(Ok(BBIOConn { vsn: BinModeVSN::One })),
        }),
        pokes(actions_through(k, saved)) == k,
{
    lemma_run_answered_at(k, saved, drained, bitbang_magic());
    lemma_pokes_through(k, saved);
}

/// Where the device never answers, the resynchronisation ends with
/// `ResyncExhausted`, after exactly forty zero bytes, and with the link's
/// own timeout put back as the last action.
pub proof fn resync_exhausts_when_never_answered(saved: Timeout, drained: EventView)
    requires
        drained == EventView::Drained || drained == EventView::TimedOut,
    ensures
        resync_run(ResyncView::Escaping, never_answered(saved, drained)) == (Run {
            actions: actions_through(RESYNC_ATTEMPTS as nat, saved),
            end: Some(Err(ErrorView::ResyncExhausted)),
        }),
        pokes(actions_through(RESYNC_ATTEMPTS as nat, saved)) == RESYNC_ATTEMPTS,
{
    let last = seq![EventView::Written, EventView::TimedOut, EventView::TimeoutSet];
    let round = seq![EventView::Written, EventView::TimedOut];
    let before = silent_attempts(39);
    lemma_silent_attempts_grow(39);
    assert(silent_attempts(40) + seq![EventView::TimeoutSet] =~= before + last);
    lemma_run_opening(saved, drained, before + last);
    lemma_run_silent_attempts(saved, 1, 39, last);
    lemma_run_last_attempt_silent(saved);
    let run = resync_run(ResyncView::Escaping, never_answered(saved, drained));
    assert(run.actions =~= actions_through(40, saved));
    lemma_pokes_through(40, saved);
}

/// Where the first reply that is not a timeout comes at attempt `k` and is
/// not the magic, the resynchronisation ends with `ProtocolMismatch` and
/// that reply. The machine has then written exactly `k` zero bytes: it makes
/// no further attempt, and only puts the link's own timeout back.
pub proof fn resync_stops_at_wrong_answer(
    k: nat,
    saved: Timeout,
    drained: EventView,
    reply: Seq<u8>,
)
    requires
        1 <= k <= RESYNC_ATTEMPTS,
        drained == EventView::Drained || drained == EventView::TimedOut,
        reply != bitbang_magic(),
    ensures
        resync_run(ResyncView::Escaping, answered_at(k, saved, drained, reply)) == (Run {
            actions: actions_through(k, saved),
            end: Some(Err(ErrorView::ProtocolMismatch(reply))),
        }),
        pokes(actions_through(k, saved)) == k,
{
    lemma_run_answered_at(k, saved, drained, reply);
    lemma_pokes_through(k, saved);
}

} // verus!
