//! The reconciliation loop: runs the handlers phase after phase until one issues a tx, gives up, or the last phase
//! is done; and what happens when a tx failed.
use vstd::prelude::*;

use super::machine::{
    cache_apply, cache_apply_all, cache_cmds, cache_cmds_first, cache_cmds_second, empty_cache, is_cache_cmd, overlay, CacheView, Config, ConfigView,
    Env, EnvView, IntermediateRepo, Repository, Stored, Cache,
};
use super::phases::{
    delegate_force_next, undelegate_force_next, delegate_force_next_ok, handle, handler_ok, spec_delegate_force_next, spec_handler, spec_undelegate_force_next,
    undelegate_force_next_ok, KindView, Transition, TransitionKind, TransitionView,
};
use super::types::{
    phase_index, spec_phase_next, spec_sequence_tx_count, spec_tx_count, LastReconcileHeight, MsgIssuedCount,
    MsgSuccessCount, Phase, State,
};
use super::{cmds_view, events_view, msgs_view, Cmd, CmdView, Event, EventView, Response, TxMsgView};

verus! {

/// A response, as values.
pub struct ResponseView {
    pub cmds: Seq<CmdView>,
    pub events: Seq<EventView>,
    pub tx_msgs: Option<Seq<TxMsgView>>,
    pub tx_skip_count: nat,
}

impl View for Response {
    type V = ResponseView;

    open spec fn view(&self) -> ResponseView {
        ResponseView {
            cmds: cmds_view(self.cmds@),
            events: events_view(self.events@),
            tx_msgs: match self.tx_msgs {
                Some(m) => Some(msgs_view(m.msgs@)),
                None => None,
            },
            tx_skip_count: self.tx_skip_count as nat,
        }
    }
}

/// Every command can go to the cache.
pub open spec fn all_cache_cmds(cmds: Seq<CmdView>) -> bool {
    forall|i: int| 0 <= i < cmds.len() ==> is_cache_cmd(#[trigger] cmds[i])
}

/// The cache after moving to the next phase: no message of the next phase is issued or sent yet.
pub open spec fn cache_for_next_phase(c: CacheView) -> CacheView {
    cache_apply(cache_apply(c, CmdView::MsgIssuedCount(MsgIssuedCount(0))), CmdView::MsgSuccessCount(MsgSuccessCount(0)))
}

/// The commands that end a reconciliation: the current height is the last reconciliation's, and the next one
/// starts idle at the start reconcile phase.
pub open spec fn end_cmds(e: EnvView) -> Seq<CmdView> {
    seq![
        CmdView::LastReconcileHeight(LastReconcileHeight(e.current_height.0)),
        CmdView::Phase(Phase::StartReconcile),
        CmdView::State(State::Idle),
    ]
}

/// Runs the handlers from `phase` in `state` on, over the stored state `inner` seen through `cache`, until one
/// issues a tx (which leaves the phase pending), gives up (which changes nothing), or the last phase is done (which
/// ends the reconciliation). Moving on from an idle phase counts its txs as skipped.
#[verifier::opaque]
pub open spec fn spec_reconcile(
    c: ConfigView,
    inner: Stored,
    e: EnvView,
    phase: Phase,
    state: State,
    cache: CacheView,
    events: Seq<EventView>,
    skip: nat,
) -> ResponseView
    decreases 8 - phase_index(phase),
{
    let t = spec_handler(phase, state, c, overlay(cache, inner), e);
    let all_events = events + t.events;
    let applied = cache_apply_all(cache, t.cmds);
    match t.kind {
        KindView::Next => {
            let next_cache = cache_for_next_phase(applied);
            let next_skip = if state == State::Idle {
                skip + spec_tx_count(phase, c.validator_set_size.0 as nat, c.max_msg_count.0 as nat)
            } else {
                skip
            };
            match spec_phase_next(phase) {
                Some(n) => spec_reconcile(c, inner, e, n, State::Idle, next_cache, all_events, next_skip),
                None => ResponseView {
                    cmds: cache_cmds(next_cache) + end_cmds(e),
                    events: all_events,
                    tx_msgs: None,
                    tx_skip_count: next_skip,
                },
            }
        },
        KindView::Tx(m) => ResponseView {
            cmds: cache_cmds(cache_apply(applied, CmdView::MsgIssuedCount(MsgIssuedCount(m.len() as usize)))) + seq![
                CmdView::Phase(phase),
                CmdView::State(State::Pending),
            ],
            events: all_events,
            tx_msgs: Some(m),
            tx_skip_count: skip,
        },
        KindView::Abort => ResponseView {
            cmds: Seq::empty(),
            events: all_events,
            tx_msgs: None,
            tx_skip_count: if state == State::Pending {
                0
            } else {
                spec_sequence_tx_count(phase, c.validator_set_size.0 as nat, c.max_msg_count.0 as nat)
            },
        },
    }
}

/// Counting txs is possible: at least one message fits a tx and the counts fit `usize`.
pub open spec fn counts_ok(c: ConfigView) -> bool {
    c.max_msg_count.0 > 0 && c.validator_set_size.0 + 2 <= usize::MAX
}

/// No handler run by the reconciliation from `phase` on panics, and no count overflows.
#[verifier::opaque]
pub open spec fn reconcile_ok(
    c: ConfigView,
    inner: Stored,
    e: EnvView,
    phase: Phase,
    state: State,
    cache: CacheView,
    skip: nat,
) -> bool
    decreases 8 - phase_index(phase),
{
    let t = spec_handler(phase, state, c, overlay(cache, inner), e);
    let applied = cache_apply_all(cache, t.cmds);
    &&& handler_ok(phase, state, c, overlay(cache, inner), e)
    &&& match t.kind {
        KindView::Next => {
            let next_skip = if state == State::Idle {
                skip + spec_tx_count(phase, c.validator_set_size.0 as nat, c.max_msg_count.0 as nat)
            } else {
                skip
            };
            &&& state == State::Idle ==> counts_ok(c) && next_skip <= usize::MAX
            &&& match spec_phase_next(phase) {
                Some(n) => reconcile_ok(c, inner, e, n, State::Idle, cache_for_next_phase(applied), next_skip),
                None => true,
            }
        },
        KindView::Tx(_) => true,
        KindView::Abort => state != State::Pending ==> counts_ok(c) && spec_sequence_tx_count(
            phase,
            c.validator_set_size.0 as nat,
            c.max_msg_count.0 as nat,
        ) <= usize::MAX,
    }
}

/// One step of the reconciliation: what the handler of `phase` decides settles the response, or moves on to the
/// next phase.
pub proof fn lemma_reconcile_unfold(
    c: ConfigView,
    inner: Stored,
    e: EnvView,
    phase: Phase,
    state: State,
    cache: CacheView,
    events: Seq<EventView>,
    skip: nat,
)
    ensures
        ({
            let t = spec_handler(phase, state, c, overlay(cache, inner), e);
            let r = spec_reconcile(c, inner, e, phase, state, cache, events, skip);
            let applied = cache_apply_all(cache, t.cmds);
            let all_events = events + t.events;
            let next_skip = if state == State::Idle {
                skip + spec_tx_count(phase, c.validator_set_size.0 as nat, c.max_msg_count.0 as nat)
            } else {
                skip
            };
            &&& reconcile_ok(c, inner, e, phase, state, cache, skip) ==> handler_ok(
                phase,
                state,
                c,
                overlay(cache, inner),
                e,
            )
            &&& t.kind matches KindView::Tx(m) ==> r == ResponseView {
                cmds: cache_cmds(cache_apply(applied, CmdView::MsgIssuedCount(MsgIssuedCount(m.len() as usize))))
                    + seq![CmdView::Phase(phase), CmdView::State(State::Pending)],
                events: all_events,
                tx_msgs: Some(m),
                tx_skip_count: skip,
            }
            &&& t.kind is Abort ==> r == ResponseView {
                cmds: Seq::empty(),
                events: all_events,
                tx_msgs: None,
                tx_skip_count: if state == State::Pending {
                    0
                } else {
                    spec_sequence_tx_count(phase, c.validator_set_size.0 as nat, c.max_msg_count.0 as nat)
                },
            }
            &&& t.kind is Abort && reconcile_ok(c, inner, e, phase, state, cache, skip) && state != State::Pending
                ==> counts_ok(c) && spec_sequence_tx_count(
                phase,
                c.validator_set_size.0 as nat,
                c.max_msg_count.0 as nat,
            ) <= usize::MAX
            &&& t.kind is Next && reconcile_ok(c, inner, e, phase, state, cache, skip) && state == State::Idle
                ==> counts_ok(c) && next_skip <= usize::MAX
            &&& t.kind is Next && spec_phase_next(phase) is None ==> r == ResponseView {
                cmds: cache_cmds(cache_for_next_phase(applied)) + end_cmds(e),
                events: all_events,
                tx_msgs: None,
                tx_skip_count: next_skip,
            }
            &&& (t.kind is Next && spec_phase_next(phase) is Some) ==> {
                let n = spec_phase_next(phase)->0;
                &&& r == spec_reconcile(c, inner, e, n, State::Idle, cache_for_next_phase(applied), all_events, next_skip)
                &&& reconcile_ok(c, inner, e, phase, state, cache, skip) ==> reconcile_ok(
                    c,
                    inner,
                    e,
                    n,
                    State::Idle,
                    cache_for_next_phase(applied),
                    next_skip,
                )
            }
        }),
{
    reveal(spec_reconcile);
    reveal(reconcile_ok);
}

/// Every command a handler gives can go to the cache.
pub proof fn lemma_handler_cmds(phase: Phase, state: State, c: ConfigView, s: Stored, e: EnvView)
    ensures
        all_cache_cmds(spec_handler(phase, state, c, s, e).cmds),
{
    reveal(spec_handler);
    let t = spec_handler(phase, state, c, s, e);
    assert forall|i: int| 0 <= i < t.cmds.len() implies is_cache_cmd(#[trigger] t.cmds[i]) by {
    }
}

/// Appends events.
fn append_events(all: &mut Vec<Event>, events: Vec<Event>)
    ensures
        events_view(final(all)@) == events_view(old(all)@) + events_view(events@),
{
    let ghost start = events_view(all@);
    let mut i: usize = 0;
    while i < events.len()
        invariant
            i <= events@.len(),
            events_view(all@) == start + events_view(events@).take(i as int),
        decreases events@.len() - i,
    {
        let ghost before = all@;
        all.push(events[i]);
        assert(events_view(all@) =~= events_view(before).push(events@[i as int]@));
        assert(events_view(events@).take(i + 1) =~= events_view(events@).take(i as int).push(events@[i as int]@));
        i = i + 1;
    }
    assert(events_view(events@).take(events@.len() as int) =~= events_view(events@));
}

/// Applies commands to the cache, in order.
fn apply_cmds<'a, R: Repository>(repo: &mut IntermediateRepo<'a, R>, cmds: Vec<Cmd>)
    requires
        all_cache_cmds(cmds_view(cmds@)),
    ensures
        final(repo).repo == old(repo).repo,
        final(repo).cache@ == cache_apply_all(old(repo).cache@, cmds_view(cmds@)),
{
    let ghost all = cmds_view(cmds@);
    let ghost start = repo.cache@;
    let n = cmds.len();
    let mut cmds = cmds;
    let mut k: usize = 0;
    assert(all.take(0) =~= Seq::<CmdView>::empty());
    while cmds.len() > 0
        invariant
            k <= all.len(),
            all.len() == n,
            cmds_view(cmds@) == all.skip(k as int),
            all_cache_cmds(all),
            repo.repo == old(repo).repo,
            repo.cache@ == cache_apply_all(start, all.take(k as int)),
        decreases cmds@.len(),
    {
        let ghost before = cmds@;
        proof {
            assert(cmds_view(before).len() == all.len() - k);
            assert(cmds_view(before)[0] == before[0]@);
        }
        let cmd = cmds.remove(0);
        proof {
            assert(cmds@ =~= before.subrange(1, before.len() as int));
            assert(cmd@ == all[k as int]);
            assert forall|j: int| 0 <= j < cmds@.len() implies #[trigger] cmds_view(cmds@)[j] == all.skip(k + 1)[j] by {
                assert(cmds_view(cmds@)[j] == cmds@[j]@);
                assert(cmds@[j] == before[j + 1]);
                assert(cmds_view(before)[j + 1] == before[j + 1]@);
                assert(all.skip(k as int)[j + 1] == all[k + 1 + j]);
            }
            assert(cmds_view(cmds@) =~= all.skip(k + 1));
            assert(all.take(k + 1).drop_last() =~= all.take(k as int));
            assert(is_cache_cmd(all[k as int]));
        }
        repo.handle_cmd(cmd);
        k = k + 1;
    }
    assert(all.take(k as int) =~= all);
}

/// Runs the handlers from `phase` in `state` on, until one issues a tx, gives up, or the last phase is done.
#[verifier::loop_isolation(false)]
pub fn reconcile<'a, C: Config, R: Repository, E: Env>(
    config: &C,
    env: &E,
    phase: Phase,
    state: State,
    intermediate_repo: IntermediateRepo<'a, R>,
    all_events: Vec<Event>,
) -> (r: Response)
    requires
        reconcile_ok(
            config.config_view(),
            intermediate_repo.repo.stored(),
            env.env_view(),
            phase,
            state,
            intermediate_repo.cache@,
            0,
        ),
    ensures
        r@ == spec_reconcile(
            config.config_view(),
            intermediate_repo.repo.stored(),
            env.env_view(),
            phase,
            state,
            intermediate_repo.cache@,
            events_view(all_events@),
            0,
        ),
{
    let ghost c = config.config_view();
    let ghost e = env.env_view();
    let ghost inner = intermediate_repo.repo.stored();
    let ghost target = spec_reconcile(c, inner, e, phase, state, intermediate_repo.cache@, events_view(all_events@), 0);
    let mut phase = phase;
    let mut state = state;
    let mut intermediate_repo = intermediate_repo;
    let mut all_events = all_events;
    let mut tx_skip_count: usize = 0;
    loop
        invariant
            c == config.config_view(),
            e == env.env_view(),
            intermediate_repo.repo.stored() == inner,
            reconcile_ok(c, inner, e, phase, state, intermediate_repo.cache@, tx_skip_count as nat),
            spec_reconcile(c, inner, e, phase, state, intermediate_repo.cache@, events_view(all_events@), tx_skip_count as nat)
                == target,
        decreases 8 - phase_index(phase),
    {
        let ghost cache0 = intermediate_repo.cache@;
        let ghost events0 = events_view(all_events@);
        let ghost t = spec_handler(phase, state, c, overlay(cache0, inner), e);
        proof {
            lemma_handler_cmds(phase, state, c, overlay(cache0, inner), e);
            lemma_reconcile_unfold(c, inner, e, phase, state, cache0, events0, tx_skip_count as nat);
        }
        let transition = handle(phase, state, config, &intermediate_repo, env);
        assert(transition@ == t);
        let Transition { kind, cmds, events } = transition;
        append_events(&mut all_events, events);
        apply_cmds(&mut intermediate_repo, cmds);
        let ghost applied = intermediate_repo.cache@;
        let ghost skip0 = tx_skip_count as nat;
        proof {
            assert(applied == cache_apply_all(cache0, t.cmds));
            assert(events_view(all_events@) == events0 + t.events);
            assert(target == spec_reconcile(c, inner, e, phase, state, cache0, events0, skip0));
        }
        match kind {
            TransitionKind::Next => {
                intermediate_repo.handle_cmd(Cmd::MsgIssuedCount(MsgIssuedCount(0)));
                intermediate_repo.handle_cmd(Cmd::MsgSuccessCount(MsgSuccessCount(0)));
                // Possible Txs skipped
                if state.is_idle() {
                    let phase_tx_count = phase.tx_count(config.validator_set_size(), config.max_msg_count());
                    tx_skip_count = tx_skip_count + phase_tx_count;
                }
                match phase.next() {
                    Some(next_phase) => {
                        phase = next_phase;
                        state = State::Idle;
                    },
                    None => {
                        let mut cmds = intermediate_repo.cache.into_cmds();
                        let current_height = env.current_height().0;
                        let ghost before = cmds@;
                        cmds.push(Cmd::LastReconcileHeight(LastReconcileHeight(current_height)));
                        cmds.push(Cmd::Phase(Phase::StartReconcile));
                        cmds.push(Cmd::State(State::Idle));
                        assert(cmds_view(cmds@) =~= cmds_view(before) + end_cmds(e));
                        return Response { cmds, events: all_events, tx_msgs: None, tx_skip_count };
                    },
                }
            },
            TransitionKind::Tx(tx_msgs) => {
                intermediate_repo.handle_cmd(Cmd::MsgIssuedCount(MsgIssuedCount(tx_msgs.msgs.len())));
                let mut cmds = intermediate_repo.cache.into_cmds();
                let ghost before = cmds@;
                cmds.push(Cmd::Phase(phase));
                cmds.push(Cmd::State(State::Pending));
                assert(cmds_view(cmds@) =~= cmds_view(before) + seq![CmdView::Phase(phase), CmdView::State(State::Pending)]);
                proof {
                    let m = msgs_view(tx_msgs.msgs@);
                    assert(t.kind == KindView::Tx(m));
                    assert(target == ResponseView {
                        cmds: cache_cmds(cache_apply(applied, CmdView::MsgIssuedCount(MsgIssuedCount(m.len() as usize)))) + seq![
                            CmdView::Phase(phase),
                            CmdView::State(State::Pending),
                        ],
                        events: events0 + t.events,
                        tx_msgs: Some(m),
                        tx_skip_count: skip0,
                    });
                }
                return Response { cmds, events: all_events, tx_msgs: Some(tx_msgs), tx_skip_count };
            },
            TransitionKind::Abort => {
                let tx_skip_count = phase.sequence_tx_count(state, config.validator_set_size(), config.max_msg_count());
                let cmds: Vec<Cmd> = Vec::new();
                assert(cmds_view(cmds@) =~= Seq::<CmdView>::empty());
                return Response { cmds, events: all_events, tx_msgs: None, tx_skip_count };
            },
        }
    }
}

/// The state machine over a configuration, a repository and an environment.
pub struct FsmImpl<'a, C: Config, R: Repository, E: Env> {
    pub config: &'a C,
    pub repo: &'a R,
    pub env: &'a E,
}

/// The state machine over a configuration, a repository and an environment.
pub fn fsm<'a, C: Config, R: Repository, E: Env>(config: &'a C, repo: &'a R, env: &'a E) -> (r: FsmImpl<'a, C, R, E>)
    ensures
        r.config == config,
        r.repo == repo,
        r.env == env,
{
    FsmImpl { config, repo, env }
}

/// The cache a reconciliation starts with: when a tx was pending, its messages count as sent successfully.
pub open spec fn start_cache(s: Stored) -> CacheView {
    if s.state == State::Pending {
        cache_apply(
            empty_cache(),
            CmdView::MsgSuccessCount(MsgSuccessCount((s.msg_success_count.0 + s.msg_issued_count.0) as usize)),
        )
    } else {
        empty_cache()
    }
}

/// What a reconciliation responds: run the handlers from the stored phase and state on.
pub open spec fn spec_fsm_reconcile(c: ConfigView, s: Stored, e: EnvView) -> ResponseView {
    spec_reconcile(c, s, e, s.phase, s.state, start_cache(s), Seq::empty(), 0)
}

/// A reconciliation neither panics nor overflows.
pub open spec fn fsm_reconcile_ok(c: ConfigView, s: Stored, e: EnvView) -> bool {
    &&& s.state == State::Pending ==> s.msg_success_count.0 + s.msg_issued_count.0 <= usize::MAX
    &&& reconcile_ok(c, s, e, s.phase, s.state, start_cache(s), 0)
}

/// What marking the pending tx as failed responds.
pub open spec fn failed_response() -> ResponseView {
    ResponseView {
        cmds: seq![CmdView::State(State::Failed), CmdView::MsgIssuedCount(MsgIssuedCount(0))],
        events: Seq::empty(),
        tx_msgs: None,
        tx_skip_count: 0,
    }
}

/// The commands of moving past a failed phase, with the message counts cleared.
pub open spec fn force_next_cmds(cmds: Seq<CmdView>) -> Seq<CmdView> {
    cmds + seq![CmdView::MsgIssuedCount(MsgIssuedCount(0)), CmdView::MsgSuccessCount(MsgSuccessCount(0))]
}

/// Moving past a failed phase: only undelegations and delegations can be forced; a forced undelegation carries
/// on reconciling from the next phase, a forced delegation ends the reconciliation.
pub open spec fn spec_force_next(c: ConfigView, s: Stored, e: EnvView) -> Option<ResponseView> {
    if s.state != State::Failed {
        None
    } else {
        match s.phase {
            Phase::Undelegate => {
                let forced = spec_undelegate_force_next(c, s);
                Some(
                    spec_reconcile(
                        c,
                        s,
                        e,
                        Phase::TransferUndelegated,
                        State::Idle,
                        cache_apply_all(empty_cache(), force_next_cmds(forced.1)),
                        forced.0,
                        0,
                    ),
                )
            },
            Phase::Delegate => {
                let forced = spec_delegate_force_next(s);
                Some(
                    ResponseView {
                        cmds: force_next_cmds(forced.1) + end_cmds(e),
                        events: forced.0,
                        tx_msgs: None,
                        tx_skip_count: 0,
                    },
                )
            },
            _ => None,
        }
    }
}

/// Moving past a failed phase neither panics nor overflows.
pub open spec fn force_next_ok(c: ConfigView, s: Stored, e: EnvView) -> bool {
    s.state == State::Failed ==> match s.phase {
        Phase::Undelegate => undelegate_force_next_ok(s) && reconcile_ok(
            c,
            s,
            e,
            Phase::TransferUndelegated,
            State::Idle,
            cache_apply_all(empty_cache(), force_next_cmds(spec_undelegate_force_next(c, s).1)),
            0,
        ),
        Phase::Delegate => delegate_force_next_ok(s),
        _ => true,
    }
}

/// The commands of moving past a failed undelegation can go to the cache.
pub proof fn lemma_force_next_cmds(c: ConfigView, s: Stored)
    ensures
        all_cache_cmds(force_next_cmds(spec_undelegate_force_next(c, s).1)),
{
    let cmds = force_next_cmds(spec_undelegate_force_next(c, s).1);
    assert forall|i: int| 0 <= i < cmds.len() implies is_cache_cmd(#[trigger] cmds[i]) by {
    }
}

impl<'a, C: Config, R: Repository, E: Env> FsmImpl<'a, C, R, E> {
    /// Reconciles: runs the phases from the stored one on (counting a pending tx's messages as sent), until one
    /// issues a tx, gives up, or the last phase is done.
    pub fn reconcile(&self) -> (r: Response)
        requires
            fsm_reconcile_ok(self.config.config_view(), self.repo.stored(), self.env.env_view()),
        ensures
            r@ == spec_fsm_reconcile(self.config.config_view(), self.repo.stored(), self.env.env_view()),
    {
        let state = self.repo.state();
        let mut intermediate_repo = IntermediateRepo { repo: self.repo, cache: Cache::default() };
        // issued messages were successful, adjust counts accordingly
        if state.is_pending() {
            let msg_issued_count = intermediate_repo.msg_issued_count().0;
            let msg_success_count = intermediate_repo.msg_success_count().0;
            intermediate_repo.handle_cmd(Cmd::MsgSuccessCount(MsgSuccessCount(msg_success_count + msg_issued_count)));
        }
        let no_events: Vec<Event> = Vec::new();
        assert(events_view(no_events@) =~= Seq::<EventView>::empty());
        reconcile(self.config, self.env, self.repo.phase(), state, intermediate_repo, no_events)
    }

    /// Marks the pending tx as failed.
    pub fn failed(&self) -> (r: Response)
        requires
            self.repo.stored().state == State::Pending,
        ensures
            r@ == failed_response(),
    {
        let mut cmds: Vec<Cmd> = Vec::new();
        cmds.push(Cmd::State(State::Failed));
        cmds.push(Cmd::MsgIssuedCount(MsgIssuedCount(0)));
        assert(cmds_view(cmds@) =~= failed_response().cmds);
        let events: Vec<Event> = Vec::new();
        assert(events_view(events@) =~= Seq::<EventView>::empty());
        Response { cmds, events, tx_msgs: None, tx_skip_count: 0 }
    }

    /// Moves past a failed undelegation or delegation, accounting for the messages that succeeded; `None` when
    /// no tx failed or the failed phase cannot be forced.
    pub fn force_next(&self) -> (r: Option<Response>)
        requires
            force_next_ok(self.config.config_view(), self.repo.stored(), self.env.env_view()),
        ensures
            match r {
                Some(resp) => spec_force_next(self.config.config_view(), self.repo.stored(), self.env.env_view())
                    == Some(resp@),
                None => spec_force_next(self.config.config_view(), self.repo.stored(), self.env.env_view()) is None,
            },
    {
        let phase = self.repo.phase();
        if !self.repo.state().is_failed() {
            return None;
        }
        let (events, mut cmds) = match phase {
            Phase::Undelegate => undelegate_force_next(self.config, self.repo),
            Phase::Delegate => delegate_force_next(self.repo),
            _ => {
                return None;
            },
        };
        // ensure message counts are cleared
        let ghost forced = cmds_view(cmds@);
        cmds.push(Cmd::MsgIssuedCount(MsgIssuedCount(0)));
        cmds.push(Cmd::MsgSuccessCount(MsgSuccessCount(0)));
        assert(cmds_view(cmds@) =~= force_next_cmds(forced));
        match phase.next() {
            None => {
                let current_height = self.env.current_height().0;
                let ghost before = cmds@;
                cmds.push(Cmd::LastReconcileHeight(LastReconcileHeight(current_height)));
                cmds.push(Cmd::Phase(Phase::StartReconcile));
                cmds.push(Cmd::State(State::Idle));
                assert(cmds_view(cmds@) =~= cmds_view(before) + end_cmds(self.env.env_view()));
                Some(Response { cmds, events, tx_msgs: None, tx_skip_count: 0 })
            },
            Some(next_phase) => {
                proof {
                    lemma_force_next_cmds(self.config.config_view(), self.repo.stored());
                }
                let mut intermediate_repo = IntermediateRepo { repo: self.repo, cache: Cache::default() };
                apply_cmds(&mut intermediate_repo, cmds);
                Some(reconcile(self.config, self.env, next_phase, State::Idle, intermediate_repo, events))
            },
        }
    }
}

/// A tx a handler issues holds at least one message.
pub proof fn lemma_handler_tx_nonempty(phase: Phase, state: State, c: ConfigView, s: Stored, e: EnvView)
    requires
        handler_ok(phase, state, c, s, e),
    ensures
        spec_handler(phase, state, c, s, e).kind matches KindView::Tx(m) ==> m.len() > 0,
{
    reveal(spec_handler);
    reveal(handler_ok);
}

/// The shape of a reconciliation's response: a tx holds at least one message and leaves its phase pending (the
/// last two commands set the phase and the pending state); without a tx, either nothing changes (the
/// reconciliation gave up) or the reconciliation ended (the last commands set the height of this reconciliation and
/// the next one to start idle at the start reconcile phase).
pub open spec fn response_shape(r: ResponseView, e: EnvView) -> bool {
    match r.tx_msgs {
        Some(m) => {
            &&& m.len() > 0
            &&& r.cmds.len() >= 2
            &&& r.cmds[r.cmds.len() - 2] is Phase
            &&& r.cmds[r.cmds.len() - 1] == CmdView::State(State::Pending)
        },
        None => r.cmds.len() == 0 || (r.cmds.len() >= 3 && r.cmds.subrange(r.cmds.len() - 3, r.cmds.len() as int)
            == end_cmds(e)),
    }
}

/// Every reconciliation that does not panic responds in one of the shapes above, from any phase and state on.
pub proof fn law_reconcile_response_shape(
    c: ConfigView,
    inner: Stored,
    e: EnvView,
    phase: Phase,
    state: State,
    cache: CacheView,
    events: Seq<EventView>,
    skip: nat,
)
    requires
        reconcile_ok(c, inner, e, phase, state, cache, skip),
    ensures
        response_shape(spec_reconcile(c, inner, e, phase, state, cache, events, skip), e),
    decreases 8 - phase_index(phase),
{
    lemma_reconcile_unfold(c, inner, e, phase, state, cache, events, skip);
    let t = spec_handler(phase, state, c, overlay(cache, inner), e);
    lemma_handler_tx_nonempty(phase, state, c, overlay(cache, inner), e);
    let r = spec_reconcile(c, inner, e, phase, state, cache, events, skip);
    let applied = cache_apply_all(cache, t.cmds);
    let next_skip = if state == State::Idle {
        skip + spec_tx_count(phase, c.validator_set_size.0 as nat, c.max_msg_count.0 as nat)
    } else {
        skip
    };
    match t.kind {
        KindView::Next => {
            match spec_phase_next(phase) {
                Some(n) => {
                    law_reconcile_response_shape(
                        c,
                        inner,
                        e,
                        n,
                        State::Idle,
                        cache_for_next_phase(applied),
                        events + t.events,
                        next_skip,
                    );
                },
                None => {
                    let front = cache_cmds(cache_for_next_phase(applied));
                    assert((front + end_cmds(e)).subrange(front.len() as int, (front.len() + 3) as int) =~= end_cmds(e));
                },
            }
        },
        KindView::Tx(m) => {
        },
        KindView::Abort => {
        },
    }
}

/// A reconciliation of the stored state responds in one of the shapes above.
pub proof fn law_fsm_reconcile_response_shape(c: ConfigView, s: Stored, e: EnvView)
    requires
        fsm_reconcile_ok(c, s, e),
    ensures
        response_shape(spec_fsm_reconcile(c, s, e), e),
{
    law_reconcile_response_shape(c, s, e, s.phase, s.state, start_cache(s), Seq::empty(), 0);
}

/// A tx a handler issues holds no more messages than fit in one.
pub proof fn lemma_handler_tx_bounded(phase: Phase, state: State, c: ConfigView, s: Stored, e: EnvView)
    requires
        handler_ok(phase, state, c, s, e),
        c.max_msg_count.0 > 0,
    ensures
        spec_handler(phase, state, c, s, e).kind matches KindView::Tx(m) ==> m.len() <= c.max_msg_count.0,
{
    reveal(spec_handler);
    reveal(handler_ok);
}

/// A tx in a response holds between one and `max_msg_count` messages, and the response's commands record that
/// many messages as issued.
pub open spec fn tx_accounted(r: ResponseView, c: ConfigView) -> bool {
    r.tx_msgs matches Some(m) ==> {
        &&& 1 <= m.len() <= c.max_msg_count.0
        &&& r.cmds.contains(CmdView::MsgIssuedCount(MsgIssuedCount(m.len() as usize)))
    }
}

/// Every reconciliation that does not panic issues a tx of at most `max_msg_count` messages, and records how many
/// it issued, from any phase and state on.
pub proof fn law_reconcile_tx_accounted(
    c: ConfigView,
    inner: Stored,
    e: EnvView,
    phase: Phase,
    state: State,
    cache: CacheView,
    events: Seq<EventView>,
    skip: nat,
)
    requires
        reconcile_ok(c, inner, e, phase, state, cache, skip),
        c.max_msg_count.0 > 0,
    ensures
        tx_accounted(spec_reconcile(c, inner, e, phase, state, cache, events, skip), c),
    decreases 8 - phase_index(phase),
{
    lemma_reconcile_unfold(c, inner, e, phase, state, cache, events, skip);
    let t = spec_handler(phase, state, c, overlay(cache, inner), e);
    lemma_handler_tx_nonempty(phase, state, c, overlay(cache, inner), e);
    lemma_handler_tx_bounded(phase, state, c, overlay(cache, inner), e);
    let applied = cache_apply_all(cache, t.cmds);
    let next_skip = if state == State::Idle {
        skip + spec_tx_count(phase, c.validator_set_size.0 as nat, c.max_msg_count.0 as nat)
    } else {
        skip
    };
    match t.kind {
        KindView::Next => {
            match spec_phase_next(phase) {
                Some(n) => {
                    law_reconcile_tx_accounted(
                        c,
                        inner,
                        e,
                        n,
                        State::Idle,
                        cache_for_next_phase(applied),
                        events + t.events,
                        next_skip,
                    );
                },
                None => {},
            }
        },
        KindView::Tx(m) => {
            let issued = CmdView::MsgIssuedCount(MsgIssuedCount(m.len() as usize));
            let c2 = cache_apply(applied, issued);
            let cmds = cache_cmds(c2) + seq![CmdView::Phase(phase), CmdView::State(State::Pending)];
            let first = cache_cmds_first(c2);
            let second = cache_cmds_second(c2);
            assert(second[second.len() - 1] == issued);
            let idx = first.len() + second.len() - 1;
            assert(cmds[idx] == issued);
            assert(spec_reconcile(c, inner, e, phase, state, cache, events, skip).cmds == cmds);
        },
        KindView::Abort => {},
    }
}

/// A reconciliation of the stored state issues a tx of at most `max_msg_count` messages and records how many it
/// issued.
pub proof fn law_fsm_reconcile_tx_accounted(c: ConfigView, s: Stored, e: EnvView)
    requires
        fsm_reconcile_ok(c, s, e),
        c.max_msg_count.0 > 0,
    ensures
        tx_accounted(spec_fsm_reconcile(c, s, e), c),
{
    law_reconcile_tx_accounted(c, s, e, s.phase, s.state, start_cache(s), Seq::empty(), 0);
}

} // verus!
