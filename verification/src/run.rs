//! Runs of the driver, and what holds of every run.
//!
//! A run starts in the driver's initial state and takes one step per event.
//! Its log pairs each action with the number of the cycle that was under way
//! when the driver asked for it.

use vstd::prelude::*;
use crate::header_source::MAX_ATTEMPTS;
use crate::relay::{ActionView, Event, HaltReason, ReceiptStatus, RelayConfig, RelayView, StageView};
use crate::canonical::TmHeaderView;
use crate::trust::Phase;

verus! {

/// One line of a run's log.
pub struct Entry {
    /// The cycle that was under way, counted from zero.
    pub cycle: u64,
    /// What the driver asked for.
    pub action: ActionView,
}

/// The state a run ends in and the log of the run.
pub open spec fn run(start: RelayView, events: Seq<Event>) -> (RelayView, Seq<Entry>)
    decreases events.len(),
{
    if events.len() == 0 {
        (start, Seq::empty())
    } else {
        let (before, log) = run(start, events.drop_last());
        let (after, action) = before.step(events.last());
        (after, log.push(Entry { cycle: before.done, action }))
    }
}

/// How many clients the log creates in a cycle.
pub open spec fn creates_in(log: Seq<Entry>, cycle: u64) -> nat
    decreases log.len(),
{
    if log.len() == 0 {
        0
    } else {
        creates_in(log.drop_last(), cycle) + if log.last().cycle == cycle
            && log.last().action is CreateClient {
            1nat
        } else {
            0nat
        }
    }
}

/// How many updates the log hands in in a cycle.
pub open spec fn updates_in(log: Seq<Entry>, cycle: u64) -> nat
    decreases log.len(),
{
    if log.len() == 0 {
        0
    } else {
        updates_in(log.drop_last(), cycle) + if log.last().cycle == cycle
            && log.last().action is UpdateClient {
            1nat
        } else {
            0nat
        }
    }
}

/// How many submissions of any kind the log makes in a cycle.
pub open spec fn submissions_in(log: Seq<Entry>, cycle: u64) -> nat
    decreases log.len(),
{
    if log.len() == 0 {
        0
    } else {
        submissions_in(log.drop_last(), cycle) + if log.last().cycle == cycle
            && log.last().action.is_submission() {
            1nat
        } else {
            0nat
        }
    }
}

/// How many submissions of any kind the log makes.
pub open spec fn submissions(log: Seq<Entry>) -> nat
    decreases log.len(),
{
    if log.len() == 0 {
        0
    } else {
        submissions(log.drop_last()) + if log.last().action.is_submission() {
            1nat
        } else {
            0nat
        }
    }
}

/// The height at which the log creates a client, if it creates one.
pub open spec fn created_height(log: Seq<Entry>) -> Option<u64>
    decreases log.len(),
{
    if log.len() == 0 {
        None
    } else {
        match log.last().action {
            ActionView::CreateClient { height, .. } => Some(height),
            _ => created_height(log.drop_last()),
        }
    }
}

/// Every receipt among the events reports an executed transaction.
pub open spec fn all_accepted(events: Seq<Event>) -> bool {
    forall|i: int|
        0 <= i < events.len() ==> (#[trigger] events[i] matches Event::Receipt { status }
            ==> status == ReceiptStatus::Success)
}

/// The driver waits for something within a cycle.
pub open spec fn in_cycle(stage: StageView) -> bool {
    !(stage is Idle || stage is AwaitHead || stage is Finished || stage is Halted)
}

/// The driver has yet to hand in the creation of the client.
pub open spec fn before_create(s: RelayView) -> bool {
    s.done == 0 && !(s.stage is AwaitCreateReceipt) && !(s.stage is Finished && s.max_headers > 0)
        && !(s.stage is Halted)
}

/// The height a stage speaks of, where it speaks of one.
pub open spec fn stage_height(stage: StageView) -> Option<u64> {
    match stage {
        StageView::AwaitRegisterReceipt { block } => Some(block.signed_header.header.height),
        StageView::AwaitCreateReceipt { height } => Some(height),
        StageView::AwaitClientIds { block } => Some(block.signed_header.header.height),
        StageView::AwaitTrustedValidators { block, .. } => Some(block.signed_header.header.height),
        StageView::AwaitUpdateReceipt { height, .. } => Some(height),
        _ => None,
    }
}

/// What a log line must meet whatever the run.
pub open spec fn entry_sound(non_adjacent_test: bool, done: u64, e: Entry) -> bool {
    &&& e.cycle <= done
    &&& e.action is RegisterClient || e.action is CreateClient ==> e.cycle == 0
    &&& e.action is UpdateClient ==> e.cycle >= 1
    &&& e.action matches ActionView::UpdateClient { message, .. }
        ==> message.signed_header.heights_agree()
    &&& e.action.is_submission() && non_adjacent_test ==> e.cycle != 1
}

/// The block a stage holds, where it holds one.
pub open spec fn stage_block(stage: StageView) -> Option<TmHeaderView> {
    match stage {
        StageView::AwaitRegisterReceipt { block } => Some(block),
        StageView::AwaitClientIds { block } => Some(block),
        StageView::AwaitTrustedValidators { block, .. } => Some(block),
        _ => None,
    }
}

/// What holds of the state and the log of every run.
pub open spec fn sound(s: RelayView, log: Seq<Entry>) -> bool {
    &&& stage_block(s.stage) matches Some(block) ==> block.signed_header.heights_agree()
    &&& s.phase == Phase::at(s.done as nat, s.non_adjacent_test)
    &&& s.stage is AwaitRegisterReceipt || s.stage is AwaitCreateReceipt ==> s.phase
        == Phase::CreatePending
    &&& s.stage is AwaitClientIds || s.stage is AwaitTrustedValidators || s.stage
        is AwaitUpdateReceipt ==> s.phase == Phase::Updating
    &&& s.stage is Idle || s.stage is AwaitHead ==> s.done == 0
    &&& s.stage is AwaitHead ==> s.max_headers > 0
    &&& s.stage is Finished ==> s.done == s.max_headers
    &&& in_cycle(s.stage) ==> s.done < s.max_headers
    &&& forall|i: int| 0 <= i < log.len() ==> entry_sound(s.non_adjacent_test, s.done, #[trigger] log[i])
    &&& creates_in(log, 0) <= 1
    &&& before_create(s) ==> creates_in(log, 0) == 0
    &&& s.done >= 1 || s.stage is AwaitCreateReceipt ==> creates_in(log, 0) == 1
}

/// The gap between the trusted height and the height of a cycle, when every
/// submission so far was accepted: two after the cycle that was passed over,
/// else one.
pub open spec fn gap(done: u64, non_adjacent_test: bool) -> int {
    if non_adjacent_test && done == 2 {
        2
    } else {
        1
    }
}

/// What an update in the log must meet when every submission before it was
/// accepted.
pub open spec fn update_sound(non_adjacent_test: bool, created: Option<u64>, e: Entry) -> bool {
    e.action matches ActionView::UpdateClient { message, .. } ==> {
        let header_height = message.signed_header.header.height;
        &&& message.trusted_height + gap(e.cycle, non_adjacent_test) == header_height
        &&& gap(e.cycle, non_adjacent_test) == 1 ==> message.trusted_validators is None
        &&& gap(e.cycle, non_adjacent_test) == 2 ==> {
            &&& message.trusted_validators is Some
            &&& created == Some(message.trusted_height)
        }
    }
}

/// What holds of the state and the log of a run in which every submission
/// was accepted.
pub open spec fn trust_sound(s: RelayView, log: Seq<Entry>) -> bool {
    &&& stage_height(s.stage) matches Some(h) ==> h == s.source.target
    &&& in_cycle(s.stage) && s.done >= 1 ==> s.trust.trusted_height + gap(
        s.done,
        s.non_adjacent_test,
    ) == s.source.target
    &&& in_cycle(s.stage) && s.done >= 1 ==> (created_height(log) matches Some(h) && h + s.done
        == s.source.target)
    &&& s.stage matches StageView::AwaitCreateReceipt { height } ==> created_height(log) == Some(
        height,
    )
    &&& s.stage is AwaitTrustedValidators ==> gap(s.done, s.non_adjacent_test) == 2
    &&& forall|i: int|
        0 <= i < log.len() ==> update_sound(
            s.non_adjacent_test,
            created_height(log),
            #[trigger] log[i],
        )
}

/// The log after one more line.
pub open spec fn logged(s: RelayView, log: Seq<Entry>, event: Event) -> Seq<Entry> {
    log.push(Entry { cycle: s.done, action: s.step(event).1 })
}

/// What one more line does to the counts.
proof fn lemma_push(log: Seq<Entry>, e: Entry)
    ensures
        log.push(e).drop_last() == log,
        log.push(e).last() == e,
        creates_in(log.push(e), 0) == creates_in(log, 0) + if e.cycle == 0 && e.action
            is CreateClient {
            1nat
        } else {
            0nat
        },
        created_height(log.push(e)) == match e.action {
            ActionView::CreateClient { height, .. } => Some(height),
            _ => created_height(log),
        },
{
    assert(log.push(e).drop_last() =~= log);
}

/// The lines of a log stay sound when the cycle count does not fall.
proof fn lemma_entries_sound(s: RelayView, log: Seq<Entry>, after: RelayView, e: Entry)
    requires
        forall|i: int| 0 <= i < log.len() ==> entry_sound(s.non_adjacent_test, s.done, #[trigger] log[i]),
        s.non_adjacent_test == after.non_adjacent_test,
        s.done <= after.done,
        entry_sound(after.non_adjacent_test, after.done, e),
    ensures
        forall|i: int|
            0 <= i < log.push(e).len() ==> entry_sound(
                after.non_adjacent_test,
                after.done,
                #[trigger] log.push(e)[i],
            ),
{
    assert forall|i: int| 0 <= i < log.push(e).len() implies entry_sound(
        after.non_adjacent_test,
        after.done,
        #[trigger] log.push(e)[i],
    ) by {
        if i < log.len() {
            assert(entry_sound(s.non_adjacent_test, s.done, log[i]));
        }
    }
}

/// A step keeps what holds of every run.
#[verifier::rlimit(100)]
pub proof fn lemma_step_sound(s: RelayView, log: Seq<Entry>, event: Event)
    requires
        sound(s, log),
    ensures
        sound(s.step(event).0, logged(s, log, event)),
{
    let (after, action) = s.step(event);
    let entry = Entry { cycle: s.done, action };
    lemma_push(log, entry);
    lemma_entries_sound(s, log, after, entry);
}

/// The event reports no rejected transaction.
pub open spec fn accepted(event: Event) -> bool {
    event matches Event::Receipt { status } ==> status == ReceiptStatus::Success
}

/// The updates of a log stay sound under one more line that is sound.
proof fn lemma_updates_sound(flag: bool, log: Seq<Entry>, e: Entry)
    requires
        forall|i: int| 0 <= i < log.len() ==> update_sound(flag, created_height(log), #[trigger] log[i]),
        created_height(log.push(e)) == created_height(log) || forall|i: int|
            0 <= i < log.len() ==> !((#[trigger] log[i]).action is UpdateClient),
        update_sound(flag, created_height(log.push(e)), e),
    ensures
        forall|i: int|
            0 <= i < log.push(e).len() ==> update_sound(
                flag,
                created_height(log.push(e)),
                #[trigger] log.push(e)[i],
            ),
{
    assert forall|i: int| 0 <= i < log.push(e).len() implies update_sound(
        flag,
        created_height(log.push(e)),
        #[trigger] log.push(e)[i],
    ) by {
        if i < log.len() {
            assert(update_sound(flag, created_height(log), log[i]));
        }
    }
}

/// While the first cycle is under way the log holds no update.
proof fn lemma_no_update_in_first_cycle(s: RelayView, log: Seq<Entry>)
    requires
        sound(s, log),
        s.done == 0,
    ensures
        forall|i: int| 0 <= i < log.len() ==> !((#[trigger] log[i]).action is UpdateClient),
{
    assert forall|i: int| 0 <= i < log.len() implies !((#[trigger] log[i]).action
        is UpdateClient) by {
        assert(entry_sound(s.non_adjacent_test, s.done, log[i]));
    }
}

/// A step that reports no rejected transaction keeps what holds of a run
/// in which every submission was accepted.
#[verifier::rlimit(100)]
pub proof fn lemma_step_trust(s: RelayView, log: Seq<Entry>, event: Event)
    requires
        sound(s, log),
        trust_sound(s, log),
        accepted(event),
    ensures
        trust_sound(s.step(event).0, logged(s, log, event)),
{
    let (after, action) = s.step(event);
    let entry = Entry { cycle: s.done, action };
    lemma_push(log, entry);
    if s.done == 0 {
        lemma_no_update_in_first_cycle(s, log);
    }
    lemma_updates_sound(s.non_adjacent_test, log, entry);
}

/// What holds of every run holds of the run from the initial state.
pub proof fn lemma_run_sound(config: RelayConfig, events: Seq<Event>)
    ensures
        sound(run(RelayView::initial(config), events).0, run(RelayView::initial(config), events).1),
    decreases events.len(),
{
    let start = RelayView::initial(config);
    if events.len() == 0 {
        assert(creates_in(Seq::<Entry>::empty(), 0) == 0);
    } else {
        lemma_run_sound(config, events.drop_last());
        let (before, log) = run(start, events.drop_last());
        lemma_step_sound(before, log, events.last());
    }
}

/// What holds when every submission is accepted holds of the run from the
/// initial state on events without a rejection.
pub proof fn lemma_run_trust(config: RelayConfig, events: Seq<Event>)
    requires
        all_accepted(events),
    ensures
        trust_sound(
            run(RelayView::initial(config), events).0,
            run(RelayView::initial(config), events).1,
        ),
    decreases events.len(),
{
    let start = RelayView::initial(config);
    if events.len() == 0 {
    } else {
        let earlier = events.drop_last();
        assert forall|i: int| 0 <= i < earlier.len() implies accepted(#[trigger] earlier[i]) by {
            assert(earlier[i] == events[i]);
        }
        lemma_run_trust(config, earlier);
        lemma_run_sound(config, earlier);
        let (before, log) = run(start, earlier);
        assert(accepted(events[events.len() - 1]));
        lemma_step_trust(before, log, events.last());
    }
}

/// A log whose lines are sound holds no update in the first cycle, no
/// creation in a later one, and with the test of non-adjacent updates on no
/// submission in the second.
proof fn lemma_counts(flag: bool, done: u64, log: Seq<Entry>, cycle: u64)
    requires
        forall|i: int| 0 <= i < log.len() ==> entry_sound(flag, done, #[trigger] log[i]),
    ensures
        updates_in(log, 0) == 0,
        cycle >= 1 ==> creates_in(log, cycle) == 0,
        flag ==> submissions_in(log, 1) == 0,
    decreases log.len(),
{
    if log.len() > 0 {
        let earlier = log.drop_last();
        assert forall|i: int| 0 <= i < earlier.len() implies entry_sound(
            flag,
            done,
            #[trigger] earlier[i],
        ) by {
            assert(earlier[i] == log[i]);
        }
        lemma_counts(flag, done, earlier, cycle);
        assert(entry_sound(flag, done, log[log.len() - 1]));
    }
}

/// The first cycle hands in the creation of the client once and no update:
/// a run never creates twice, never creates after the first cycle, never
/// updates within it, and has created exactly once when the first cycle is
/// over.
pub proof fn theorem_first_cycle_creates_once(config: RelayConfig, events: Seq<Event>, cycle: u64)
    ensures
        ({
            let (end, log) = run(RelayView::initial(config), events);
            &&& updates_in(log, 0) == 0
            &&& creates_in(log, 0) <= 1
            &&& end.done >= 1 ==> creates_in(log, 0) == 1
            &&& cycle >= 1 ==> creates_in(log, cycle) == 0
        }),
{
    lemma_run_sound(config, events);
    let (end, log) = run(RelayView::initial(config), events);
    lemma_counts(end.non_adjacent_test, end.done, log, cycle);
}

/// The flag of the initial state is the flag of every state of the run.
proof fn lemma_flag_kept(s: RelayView, events: Seq<Event>)
    ensures
        run(s, events).0.non_adjacent_test == s.non_adjacent_test,
    decreases events.len(),
{
    if events.len() > 0 {
        lemma_flag_kept(s, events.drop_last());
    }
}

/// With the test of non-adjacent updates on, the second cycle hands in nothing.
pub proof fn theorem_skipped_cycle_is_silent(config: RelayConfig, events: Seq<Event>)
    requires
        config.non_adjacent_test,
    ensures
        submissions_in(run(RelayView::initial(config), events).1, 1) == 0,
{
    lemma_run_sound(config, events);
    lemma_flag_kept(RelayView::initial(config), events);
    let (end, log) = run(RelayView::initial(config), events);
    lemma_counts(end.non_adjacent_test, end.done, log, 1);
}

/// With the test of non-adjacent updates on and every submission accepted,
/// an update handed in in the third cycle names trusted validators, trusts
/// the height at which the client was created, and reaches two heights
/// beyond it.
pub proof fn theorem_update_after_skip(config: RelayConfig, events: Seq<Event>, i: int)
    requires
        config.non_adjacent_test,
        all_accepted(events),
        0 <= i < run(RelayView::initial(config), events).1.len(),
        run(RelayView::initial(config), events).1[i].cycle == 2,
        run(RelayView::initial(config), events).1[i].action is UpdateClient,
    ensures
        ({
            let log = run(RelayView::initial(config), events).1;
            let message = log[i].action->message;
            &&& message.trusted_validators is Some
            &&& created_height(log) == Some(message.trusted_height)
            &&& message.signed_header.header.height == message.trusted_height + 2
        }),
{
    lemma_run_trust(config, events);
    lemma_flag_kept(RelayView::initial(config), events);
    let (end, log) = run(RelayView::initial(config), events);
    assert(update_sound(end.non_adjacent_test, created_height(log), log[i]));
}

/// Without the test of non-adjacent updates and with every submission
/// accepted, every update names no trusted validators and trusts the height
/// right below that of its header.
pub proof fn theorem_adjacent_updates(config: RelayConfig, events: Seq<Event>, i: int)
    requires
        !config.non_adjacent_test,
        all_accepted(events),
        0 <= i < run(RelayView::initial(config), events).1.len(),
        run(RelayView::initial(config), events).1[i].action is UpdateClient,
    ensures
        ({
            let log = run(RelayView::initial(config), events).1;
            let message = log[i].action->message;
            &&& message.trusted_validators is None
            &&& message.signed_header.header.height == message.trusted_height + 1
        }),
{
    lemma_run_trust(config, events);
    lemma_flag_kept(RelayView::initial(config), events);
    let (end, log) = run(RelayView::initial(config), events);
    assert(update_sound(end.non_adjacent_test, created_height(log), log[i]));
}

/// A run in two parts is the first part followed by the second.
pub proof fn lemma_run_split(s: RelayView, first: Seq<Event>, second: Seq<Event>)
    ensures
        run(s, first + second).0 == run(run(s, first).0, second).0,
        run(s, first + second).1 == run(s, first).1 + run(run(s, first).0, second).1,
    decreases second.len(),
{
    if second.len() == 0 {
        assert(first + second =~= first);
        assert(run(s, first).1 + Seq::<Entry>::empty() =~= run(s, first).1);
    } else {
        lemma_run_split(s, first, second.drop_last());
        assert((first + second).drop_last() =~= first + second.drop_last());
        assert((first + second).last() == second.last());
        let mid = run(s, first).0;
        let (before, log) = run(mid, second.drop_last());
        let (after, action) = before.step(second.last());
        assert(run(s, first).1 + log.push(Entry { cycle: before.done, action }) =~= (run(
            s,
            first,
        ).1 + log).push(Entry { cycle: before.done, action }));
    }
}

/// Once a run is halted it stays as it is: the state, and with it the trust
/// state, does not change, and nothing more is handed in.
pub proof fn theorem_halt_is_final(s: RelayView, events: Seq<Event>)
    requires
        s.stage is Halted,
    ensures
        run(s, events).0 == s,
        submissions(run(s, events).1) == 0,
    decreases events.len(),
{
    if events.len() > 0 {
        theorem_halt_is_final(s, events.drop_last());
        let (before, log) = run(s, events.drop_last());
        let entry = Entry { cycle: before.done, action: before.step(events.last()).1 };
        assert(log.push(entry).drop_last() =~= log);
    }
}

/// When the last attempt allowed for a height fails the run halts; whatever
/// comes after, nothing is handed in and the trust state stays as it was.
pub proof fn theorem_exhausted_retries_halt(s: RelayView, later: Seq<Event>)
    requires
        s.stage is AwaitBlock,
        s.source.attempts >= MAX_ATTEMPTS,
    ensures
        ({
            let (end, log) = run(s, seq![Event::Failed] + later);
            &&& end.stage == StageView::Halted { reason: HaltReason::RetriesExhausted }
            &&& end.trust == s.trust
            &&& submissions(log) == 0
        }),
{
    let first = seq![Event::Failed];
    assert(first.drop_last() =~= Seq::<Event>::empty());
    assert(first.last() == Event::Failed);
    let (halted, action) = s.step(Event::Failed);
    assert(run(s, first.drop_last()) == (s, Seq::<Entry>::empty()));
    assert(run(s, first).0 == halted);
    let log = run(s, first).1;
    assert(log =~= seq![Entry { cycle: s.done, action }]);
    assert(log.drop_last() =~= Seq::<Entry>::empty());
    assert(submissions(log.drop_last()) == 0);
    assert(submissions(log) == 0);
    theorem_halt_is_final(halted, later);
    lemma_run_split(s, first, later);
    lemma_submissions_concat(log, run(halted, later).1);
}

/// The submissions of two logs one after the other add up.
pub proof fn lemma_submissions_concat(a: Seq<Entry>, b: Seq<Entry>)
    ensures
        submissions(a + b) == submissions(a) + submissions(b),
    decreases b.len(),
{
    if b.len() == 0 {
        assert(a + b =~= a);
    } else {
        lemma_submissions_concat(a, b.drop_last());
        assert((a + b).drop_last() =~= a + b.drop_last());
        assert((a + b).last() == b.last());
    }
}

/// The events of a block that cannot be had: a failure, and after each pause
/// another, `pauses` times over.
pub open spec fn failures(pauses: nat) -> Seq<Event>
    decreases pauses,
{
    if pauses == 0 {
        seq![Event::Failed]
    } else {
        seq![Event::Failed, Event::Elapsed] + failures((pauses - 1) as nat)
    }
}

/// Failure after failure uses up the attempts: from any attempt under way,
/// the failures that the bound allows end the run, with nothing handed in
/// and the trust state as it was.
pub proof fn theorem_failures_exhaust(s: RelayView)
    requires
        s.stage is AwaitBlock,
        1 <= s.source.attempts <= MAX_ATTEMPTS,
    ensures
        ({
            let (end, log) = run(s, failures((MAX_ATTEMPTS - s.source.attempts) as nat));
            &&& end.stage == StageView::Halted { reason: HaltReason::RetriesExhausted }
            &&& end.trust == s.trust
            &&& submissions(log) == 0
        }),
    decreases MAX_ATTEMPTS - s.source.attempts,
{
    let pauses = (MAX_ATTEMPTS - s.source.attempts) as nat;
    if pauses == 0 {
        theorem_exhausted_retries_halt(s, Seq::empty());
        assert(seq![Event::Failed] + Seq::<Event>::empty() =~= failures(0));
    } else {
        let first = seq![Event::Failed, Event::Elapsed];
        let paused = s.step(Event::Failed);
        let again = paused.0.step(Event::Elapsed);
        assert(first.drop_last() =~= seq![Event::Failed]);
        assert(first.drop_last().drop_last() =~= Seq::<Event>::empty());
        reveal_with_fuel(run, 3);
        assert(run(s, first).0 == again.0);
        let log = run(s, first).1;
        assert(log =~= seq![
            Entry { cycle: s.done, action: paused.1 },
            Entry { cycle: paused.0.done, action: again.1 },
        ]);
        assert(log.drop_last() =~= seq![Entry { cycle: s.done, action: paused.1 }]);
        assert(log.drop_last().drop_last() =~= Seq::<Entry>::empty());
        reveal_with_fuel(submissions, 3);
        assert(submissions(log) == 0);
        theorem_failures_exhaust(again.0);
        lemma_run_split(s, first, failures((pauses - 1) as nat));
        lemma_submissions_concat(log, run(again.0, failures((pauses - 1) as nat)).1);
    }
}

/// Every header that a run hands to the destination is signed by a commit
/// of its own height.
pub proof fn theorem_relayed_headers_agree(config: RelayConfig, events: Seq<Event>, i: int)
    requires
        0 <= i < run(RelayView::initial(config), events).1.len(),
        run(RelayView::initial(config), events).1[i].action is UpdateClient,
    ensures
        run(RelayView::initial(config), events).1[i].action->message.signed_header.heights_agree(),
{
    lemma_run_sound(config, events);
    let (end, log) = run(RelayView::initial(config), events);
    assert(entry_sound(end.non_adjacent_test, end.done, log[i]));
}

} // verus!
