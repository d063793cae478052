//! Properties of the distribution engine as a whole, each stated over the
//! transition functions that the executable state machines follow.
use vstd::prelude::*;
use vstd::relations::*;
use vstd::seq_lib::*;
use crate::encoder::{
    Failure, encoder_accepts, encoder_next, encoder_wf, encode_command_of, EncoderEvent, EncoderOrder,
    EncoderPhase, EncoderView,
};
use crate::manager::{
    lemma_manager_next_wf, manager_accepts, manager_next, manager_wf, ManagerEventView,
    ManagerOrder, ManagerPhase, ManagerView,
};
use crate::naming::{
    chunk_path_of, encoded_name_of, lemma_encoded_name_of_chunk, plain_name, ENCODED_PREFIX,
};
use crate::order::{lemma_lex_common_prefix, lemma_lex_tail_swap, lemma_name_order_total, name_order};
use crate::queue::{pull_spec, JobUnit, Pull, QueueView};
use crate::run::{
    all_records, manifest_of, run_accepts, run_next, CoordinatorView, RunEventView,
    RunOrder, RunPlan, RunStage,
};

verus! {

/// The queue after `k` pulls.
pub open spec fn after_pulls(q: QueueView, k: nat) -> QueueView
    decreases k,
{
    if k == 0 {
        q
    } else {
        pull_spec(after_pulls(q, (k - 1) as nat)).0
    }
}

/// What each of `k` successive pulls returned, whoever made them.
pub open spec fn pulls(q: QueueView, k: nat) -> Seq<Option<JobUnit>>
    decreases k,
{
    if k == 0 {
        Seq::empty()
    } else {
        pulls(q, (k - 1) as nat).push(pull_spec(after_pulls(q, (k - 1) as nat)).1)
    }
}

/// Pulls from a freshly loaded queue hand out the units one by one, in the
/// order loaded: the i-th pull, made by whichever host, gets the i-th unit,
/// and every pull after the last unit gets nothing. So each unit goes to
/// exactly one host, none is lost, and once the queue is drained as many
/// units have been handed out as were loaded.
pub proof fn lemma_each_unit_pulled_once(q: QueueView, k: nat)
    requires
        q.next == 0,
    ensures
        pulls(q, k).len() == k,
        forall|i: int|
            0 <= i < k ==> #[trigger] pulls(q, k)[i] == if i < q.units.len() {
                Some(q.units[i])
            } else {
                None::<JobUnit>
            },
        after_pulls(q, k).next == if k < q.units.len() {
            k as nat
        } else {
            q.units.len()
        },
        after_pulls(q, k).units == q.units,
    decreases k,
{
    if k > 0 {
        lemma_each_unit_pulled_once(q, (k - 1) as nat);
    }
}

/// How many of the pulls, listed by the host that made each, host `h` made.
pub open spec fn pulls_by(owners: Seq<nat>, h: nat) -> nat
    decreases owners.len(),
{
    if owners.len() == 0 {
        0
    } else {
        pulls_by(owners.drop_last(), h) + if owners.last() == h {
            1nat
        } else {
            0nat
        }
    }
}

/// The pulls made by hosts `0..m`, host by host.
pub open spec fn pulls_by_hosts(owners: Seq<nat>, m: nat) -> nat
    decreases m,
{
    if m == 0 {
        0
    } else {
        pulls_by_hosts(owners, (m - 1) as nat) + pulls_by(owners, (m - 1) as nat)
    }
}

proof fn lemma_pulls_by_hosts_push(owners: Seq<nat>, x: nat, m: nat)
    ensures
        pulls_by_hosts(owners.push(x), m) == pulls_by_hosts(owners, m) + if x < m {
            1nat
        } else {
            0nat
        },
    decreases m,
{
    assert(owners.push(x).drop_last() =~= owners);
    if m > 0 {
        lemma_pulls_by_hosts_push(owners, x, (m - 1) as nat);
    }
}

/// Whichever of `m` hosts makes each pull, as many pulls are counted over
/// the hosts as were made.
pub proof fn lemma_pulls_add_up(owners: Seq<nat>, m: nat)
    requires
        forall|i: int| 0 <= i < owners.len() ==> #[trigger] owners[i] < m,
    ensures
        pulls_by_hosts(owners, m) == owners.len(),
    decreases owners.len(),
{
    if owners.len() == 0 {
        assert(owners =~= Seq::<nat>::empty());
        lemma_pulls_add_up_empty(m);
    } else {
        assert(owners[owners.len() - 1] < m);
        let rest = owners.drop_last();
        lemma_pulls_add_up(rest, m);
        assert(owners =~= rest.push(owners.last()));
        lemma_pulls_by_hosts_push(rest, owners.last(), m);
    }
}

proof fn lemma_pulls_add_up_empty(m: nat)
    ensures
        pulls_by_hosts(Seq::empty(), m) == 0,
    decreases m,
{
    if m > 0 {
        lemma_pulls_add_up_empty((m - 1) as nat);
    }
}

/// Every unit is claimed by exactly one host, and the hosts' shares add up to
/// all units: when `m` hosts drain a freshly loaded queue of `n` units, the
/// pull that gets unit `i` is made by one host alone (`owners[i]`), and the
/// numbers of units the hosts got sum to `n`.
pub proof fn lemma_every_unit_claimed_once(q: QueueView, owners: Seq<nat>, m: nat)
    requires
        q.next == 0,
        owners.len() == q.units.len(),
        forall|i: int| 0 <= i < owners.len() ==> #[trigger] owners[i] < m,
    ensures
        forall|i: int|
            0 <= i < q.units.len() ==> #[trigger] pulls(q, q.units.len())[i] == Some(q.units[i]),
        pull_spec(after_pulls(q, q.units.len())).1 is None,
        pulls_by_hosts(owners, m) == q.units.len(),
{
    lemma_each_unit_pulled_once(q, q.units.len());
    lemma_pulls_add_up(owners, m);
}

/// An encoder stage that lost no unit to a cancelled encoding holds exactly
/// one record per unit it has finished, in the order received: the name of
/// that unit's encoded chunk.
pub proof fn lemma_encoder_records_every_unit(e: EncoderView)
    requires
        encoder_wf(e),
        e.skipped == 0,
        e.phase != EncoderPhase::Encoding,
    ensures
        e.records == e.received.map_values(|u: JobUnit| encoded_name_of(u.path@, e.ext)),
{
    assert(e.records =~= e.received.map_values(|u: JobUnit| encoded_name_of(u.path@, e.ext)));
}

/// Every encoder step keeps the encoder well-formed.
pub proof fn lemma_encoder_next_wf(e: EncoderView, ev: EncoderEvent, cancelled: bool)
    requires
        encoder_wf(e),
        encoder_accepts(e.phase, ev),
    ensures
        encoder_wf(encoder_next(e, ev, cancelled).0),
{
    let n = encoder_next(e, ev, cancelled).0;
    if let EncoderEvent::Ran(true) = ev {
        assert forall|i: int| 0 <= i < n.records.len() && n.skipped == 0 implies #[trigger] n.records[i]
            == encoded_name_of(n.received[i].path@, n.ext) by {
            if i == e.records.len() {
                assert(e.received.last() == e.received[i]);
            }
        }
    }
}

/// A manager that finishes successfully has handed to its encoder every unit
/// it pulled.
pub proof fn lemma_manager_loses_no_unit(m: ManagerView, e: ManagerEventView, cancelled: bool)
    requires
        manager_wf(m),
        manager_accepts(m.phase, e),
        manager_next(m, e, cancelled).1 matches ManagerOrder::Finish(Ok(_)),
    ensures
        manager_next(m, e, cancelled).0.taken == manager_next(m, e, cancelled).0.handed,
{
    lemma_manager_next_wf(m, e, cancelled);
}

/// A host keeps asking for work for as long as it is healthy and the run is
/// not cancelled: once its encoder has taken a unit, or the queue had nothing
/// yet, it pulls again; and a pull from a queue that still holds units gets
/// one.
pub proof fn lemma_keeps_pulling(m: ManagerView, e: ManagerEventView, q: QueueView)
    requires
        manager_wf(m),
        (m.phase == ManagerPhase::AwaitHandOff && e == ManagerEventView::Accepted(true)) || (
        m.phase == ManagerPhase::AwaitPull && e == ManagerEventView::Pulled(Pull::Pending)),
    ensures
        manager_next(m, e, false).1 is Dequeue,
        q.next < q.units.len() ==> pull_spec(q).1 == Some(q.units[q.next as int]),
{
}

/// Once a manager sees the run cancelled it pulls no further unit, while a
/// unit it already holds still goes to the encoder, and what its encoder
/// finished is still brought back.
pub proof fn lemma_no_pull_after_cancel(m: ManagerView, e: ManagerEventView, list: Seq<Seq<char>>)
    requires
        manager_wf(m),
        manager_accepts(m.phase, e),
    ensures
        !(manager_next(m, e, true).1 is Dequeue),
        m.phase == ManagerPhase::AwaitUpload ==> manager_next(m, e, true).1 == ManagerOrder::HandOff(
            m.held.unwrap(),
        ),
        (m.phase == ManagerPhase::AwaitEncoder && m.failure is None && !m.refused && e
            == ManagerEventView::EncoderDone(Ok(list)) && list.len() > 0) ==> manager_next(
            m,
            e,
            true,
        ).1 is Remote,
{
}

/// An encoder encodes every unit it is given, cancelled or not.
pub proof fn lemma_encoder_finishes_held_unit(enc: EncoderView, u: JobUnit, cancelled: bool)
    ensures
        encoder_next(enc, EncoderEvent::Received(Some(u)), cancelled).1 == EncoderOrder::Run(
            encode_command_of(u.path@, enc.ext, enc.options),
        ),
{
}

/// Once the run is cancelled, no later stage starts, and the run ends without
/// error unless a host reported a failure of its own. The working
/// directories are then removed, unless the plan keeps them.
pub proof fn lemma_cancelled_run_ends_quietly(plan: RunPlan, c: CoordinatorView, e: RunEventView)
    requires
        run_accepts(c.stage, e),
        c.stage != RunStage::Teardown,
    ensures
        !(run_next(plan, c, e, true).1 is Split),
        !(run_next(plan, c, e, true).1 is Distribute),
        !(run_next(plan, c, e, true).1 is Combine),
        !(e is HostsDone) ==> run_next(plan, c, e, true).0.pending == Ok::<(), crate::run::RunFault>(()),
        run_next(plan, c, e, true).1 == if plan.keep {
            RunOrder::Finish(run_next(plan, c, e, true).0.pending)
        } else {
            RunOrder::Teardown
        },
{
}

/// Cleanup happens exactly once per run: every way a run ends passes through
/// a single teardown, unless the plan keeps the working directories; after
/// the teardown the run is over and expects nothing more.
pub proof fn lemma_teardown_once(plan: RunPlan, c: CoordinatorView, e: RunEventView, cancelled: bool)
    requires
        run_accepts(c.stage, e),
    ensures
        (c.stage == RunStage::Teardown) ==> run_next(plan, c, e, cancelled).0.stage == RunStage::Done,
        run_next(plan, c, e, cancelled).1 is Teardown ==> {
            &&& !plan.keep
            &&& run_next(plan, c, e, cancelled).0.stage == RunStage::Teardown
            &&& c.stage != RunStage::Teardown
        },
        run_next(plan, c, e, cancelled).1 is Finish ==> run_next(plan, c, e, cancelled).0.stage
            == RunStage::Done,
        forall|e2: RunEventView| !run_accepts(RunStage::Done, e2),
{
}

/// A failed cleanup is never an error: removing what an earlier run left on a
/// host leads on the same way whether it succeeded or not, and the result of
/// a run does not depend on how its own teardown went.
pub proof fn lemma_cleanup_never_fatal(
    m: ManagerView,
    cancelled: bool,
    plan: RunPlan,
    c: CoordinatorView,
    ok: bool,
)
    requires
        m.phase == ManagerPhase::AwaitCleanup,
        c.stage == RunStage::Teardown,
    ensures
        manager_next(m, ManagerEventView::Status(ok), cancelled) == manager_next(
            m,
            ManagerEventView::Status(true),
            cancelled,
        ),
        !(manager_next(m, ManagerEventView::Status(ok), cancelled).1 matches ManagerOrder::Finish(
            Err(_),
        )),
        run_next(plan, c, RunEventView::TornDown(ok), cancelled).1 == RunOrder::Finish(c.pending),
{
}

/// The final order of the encoded chunks depends only on which chunks were
/// encoded, not on which host encoded which: any two ways of spreading the
/// same records over the hosts give the same manifest.
pub proof fn lemma_manifest_independent_of_hosts(
    a: Seq<(Seq<char>, Result<Seq<Seq<char>>, Failure>)>,
    b: Seq<(Seq<char>, Result<Seq<Seq<char>>, Failure>)>,
)
    requires
        all_records(a).to_multiset() == all_records(b).to_multiset(),
    ensures
        manifest_of(a) == manifest_of(b),
{
    lemma_name_order_total();
    all_records(a).lemma_sort_by_ensures(name_order());
    all_records(b).lemma_sort_by_ensures(name_order());
    lemma_sorted_unique(manifest_of(a), manifest_of(b), name_order());
}

/// The manifest holds every record of every host, each as often as it was
/// reported, and no other.
pub proof fn lemma_manifest_counts(outs: Seq<(Seq<char>, Result<Seq<Seq<char>>, Failure>)>)
    ensures
        manifest_of(outs).to_multiset() == all_records(outs).to_multiset(),
        manifest_of(outs).len() == all_records(outs).len(),
{
    lemma_name_order_total();
    all_records(outs).lemma_sort_by_ensures(name_order());
    all_records(outs).to_multiset_ensures();
    manifest_of(outs).to_multiset_ensures();
}

/// The encoded names of the chunks `dir/stem.in_ext`, one per stem.
pub open spec fn encoded_chunks(
    dir: Seq<char>,
    stems: Seq<Seq<char>>,
    in_ext: Seq<char>,
    ext: Seq<char>,
) -> Seq<Seq<char>> {
    stems.map_values(|st: Seq<char>| encoded_name_of(chunk_path_of(dir, st, in_ext), ext))
}

/// The final order of the encoded chunks is the order of the split, whoever
/// encoded which: where the split wrote the chunks `dir/stem.in_ext` (stems
/// and extension free of `.` and `/`) in lexical order, and the hosts
/// together encoded each of them once, the manifest lists their encoded
/// names in that same order.
pub proof fn lemma_manifest_follows_split_order(
    dir: Seq<char>,
    stems: Seq<Seq<char>>,
    in_ext: Seq<char>,
    ext: Seq<char>,
    outs: Seq<(Seq<char>, Result<Seq<Seq<char>>, Failure>)>,
)
    requires
        forall|i: int| 0 <= i < stems.len() ==> #[trigger] stems[i].len() > 0 && plain_name(stems[i]),
        plain_name(in_ext),
        plain_name(ext),
        sorted_by(stems.map_values(|st: Seq<char>| chunk_path_of(dir, st, in_ext)), name_order()),
        all_records(outs).to_multiset() == encoded_chunks(dir, stems, in_ext, ext).to_multiset(),
    ensures
        manifest_of(outs) == encoded_chunks(dir, stems, in_ext, ext),
{
    reveal_strlit("/");
    reveal_strlit(".");
    let paths = stems.map_values(|st: Seq<char>| chunk_path_of(dir, st, in_ext));
    let encs = encoded_chunks(dir, stems, in_ext, ext);
    let head = dir + seq!['/'];
    let tail_in = seq!['.'] + in_ext;
    let tail_out = seq!['.'] + ext;
    assert forall|i: int, j: int| 0 <= i < j < encs.len() implies #[trigger] name_order()(
        encs[i],
        encs[j],
    ) by {
        let a = stems[i];
        let b = stems[j];
        assert(name_order()(paths[i], paths[j]));
        assert(paths[i] =~= head + (a + tail_in));
        assert(paths[j] =~= head + (b + tail_in));
        lemma_lex_common_prefix(head, a + tail_in, b + tail_in);
        assert forall|k: int| 0 <= k < a.len() implies a[k] != '.' by {}
        assert forall|k: int| 0 <= k < b.len() implies b[k] != '.' by {}
        lemma_lex_tail_swap(a, b, tail_in, tail_out, '.');
        lemma_encoded_name_of_chunk(dir, a, in_ext, ext);
        lemma_encoded_name_of_chunk(dir, b, in_ext, ext);
        assert(encs[i] =~= ENCODED_PREFIX@ + (a + tail_out));
        assert(encs[j] =~= ENCODED_PREFIX@ + (b + tail_out));
        lemma_lex_common_prefix(ENCODED_PREFIX@, a + tail_out, b + tail_out);
    }
    lemma_name_order_total();
    all_records(outs).lemma_sort_by_ensures(name_order());
    lemma_sorted_unique(manifest_of(outs), encs, name_order());
}

/// One host: its manager and its encoder, joined by the relay.
pub struct HostView {
    pub manager: ManagerView,
    pub encoder: EncoderView,
}

/// The host's invariant: both halves are well-formed, and the encoder has
/// received exactly the units the manager handed over.
pub open spec fn host_inv(h: HostView) -> bool {
    &&& manager_wf(h.manager)
    &&& encoder_wf(h.encoder)
    &&& h.manager.handed == h.encoder.received.len()
}

/// A host starts with nothing handed over.
pub proof fn lemma_host_start(local_dir: Seq<char>, enc: EncoderView)
    requires
        encoder_wf(enc),
        enc.received.len() == 0,
    ensures
        host_inv(HostView { manager: crate::manager::manager_start(local_dir).0, encoder: enc }),
{
}

/// A step of the manager alone (a remote operation or a pull) keeps the
/// host's invariant.
pub proof fn lemma_host_manager_step(h: HostView, e: ManagerEventView, cancelled: bool)
    requires
        host_inv(h),
        manager_accepts(h.manager.phase, e),
        e is Status || e is Pulled,
    ensures
        host_inv(HostView { manager: manager_next(h.manager, e, cancelled).0, encoder: h.encoder }),
{
    lemma_manager_next_wf(h.manager, e, cancelled);
}

/// An encoding that ends keeps the host's invariant.
pub proof fn lemma_host_encoder_step(h: HostView, ok: bool, cancelled: bool)
    requires
        host_inv(h),
        h.encoder.phase == EncoderPhase::Encoding,
    ensures
        host_inv(
            HostView {
                manager: h.manager,
                encoder: encoder_next(h.encoder, EncoderEvent::Ran(ok), cancelled).0,
            },
        ),
{
    lemma_encoder_next_wf(h.encoder, EncoderEvent::Ran(ok), cancelled);
}

/// A hand-off through the relay, which happens only when the encoder is
/// waiting, keeps the host's invariant: the unit the manager held is the
/// one the encoder received.
pub proof fn lemma_host_hand_off(h: HostView, cancelled: bool)
    requires
        host_inv(h),
        h.manager.phase == ManagerPhase::AwaitHandOff,
        h.encoder.phase == EncoderPhase::Waiting,
    ensures
        ({
            let m2 = manager_next(h.manager, ManagerEventView::Accepted(true), cancelled).0;
            let e2 = encoder_next(
                h.encoder,
                EncoderEvent::Received(Some(h.manager.held.unwrap())),
                cancelled,
            ).0;
            &&& host_inv(HostView { manager: m2, encoder: e2 })
            &&& e2.received.last() == h.manager.held.unwrap()
        }),
{
    lemma_manager_next_wf(h.manager, ManagerEventView::Accepted(true), cancelled);
    lemma_encoder_next_wf(
        h.encoder,
        EncoderEvent::Received(Some(h.manager.held.unwrap())),
        cancelled,
    );
}

/// When the relay closes on a host that met no failure and lost no encoding
/// to a cancellation, the encoder reports one record per unit the manager
/// pulled from the queue, each the encoded name of that unit, and the manager
/// goes on with exactly those records.
pub proof fn lemma_host_accounts_for_every_unit(h: HostView, cancelled: bool)
    requires
        host_inv(h),
        h.manager.phase == ManagerPhase::AwaitEncoder,
        h.manager.failure is None,
        !h.manager.refused,
        h.encoder.phase == EncoderPhase::Waiting,
        h.encoder.skipped == 0,
    ensures
        ({
            let (e2, out) = encoder_next(h.encoder, EncoderEvent::Received(None), cancelled);
            &&& out == EncoderOrder::Return(Ok(h.encoder.records))
            &&& h.encoder.records.len() == h.manager.taken
            &&& h.encoder.records == h.encoder.received.map_values(
                |u: JobUnit| encoded_name_of(u.path@, h.encoder.ext),
            )
            &&& manager_next(
                h.manager,
                ManagerEventView::EncoderDone(Ok(h.encoder.records)),
                cancelled,
            ).0.encoded == h.encoder.records
        }),
{
    lemma_encoder_records_every_unit(h.encoder);
}

/// The units a host has pulled and not finished: the one its manager may
/// hold, and the one its encoder may be encoding.
pub open spec fn in_flight(h: HostView) -> int {
    (h.manager.taken - h.manager.handed) + if h.encoder.phase == EncoderPhase::Encoding {
        1int
    } else {
        0int
    }
}

/// A host never has more than two units in flight: one its manager holds,
/// one its encoder encodes. The manager pulls a new unit only once the
/// encoder has taken the last one, and offers the encoder only the unit it
/// holds.
pub proof fn lemma_pipeline_depth(h: HostView, e: ManagerEventView, cancelled: bool)
    requires
        host_inv(h),
        manager_accepts(h.manager.phase, e),
    ensures
        0 <= in_flight(h) <= 2,
        manager_next(h.manager, e, cancelled).1 is Dequeue ==> {
            &&& manager_next(h.manager, e, cancelled).0.held is None
            &&& manager_next(h.manager, e, cancelled).0.taken == manager_next(
                h.manager,
                e,
                cancelled,
            ).0.handed
        },
        manager_next(h.manager, e, cancelled).1 matches ManagerOrder::HandOff(v) ==> manager_next(
            h.manager,
            e,
            cancelled,
        ).0.held == Some(v),
{
    lemma_manager_next_wf(h.manager, e, cancelled);
}

} // verus!
