//! Filling up all workers of a process at once.
use super::dto::{
    AutoAllocateMode, AutoAllocateRequest, AutoAllocateResult, WorkTypeMaxHeld, WorkerBrief,
    WorkerFillItem,
};
use super::model::TakenItem;
use super::service::{
    notes_logged, notes_synced, notes_taken, Haul, PoolAsk, WorkerPoolService,
};
use crate::auth::{forbidden_text, CurrentUser, Role};
use crate::error::{about, fail_about, AppError, ErrorCode, Problem};
use crate::flow::Next;
use crate::mapping::copy_ids;
use crate::text::{join2, opt_view};
use crate::worker::model::TWorker;
use vstd::prelude::*;
use vstd::string::*;

verus! {

/// What is known of one worker while workers are filled up.
pub struct Visit {
    pub worker: Option<Option<TWorker>>,
    pub target: Option<i32>,
    pub process_ids: Option<Vec<i64>>,
    pub haul: Haul,
    /// The estimated minutes of the first batches taken, in order.
    pub minutes: Vec<i32>,
}

impl Visit {
    /// Nothing known yet.
    pub open spec fn is_fresh(&self) -> bool {
        &&& self.worker is None && self.target is None && self.process_ids is None
        &&& self.haul.taken@.len() == 0 && self.haul.logged == 0 && self.haul.synced == 0
        &&& !self.haul.dry && self.minutes@.len() == 0
    }

    /// Nothing known yet.
    pub fn new() -> (r: Visit)
        ensures
            r.is_fresh(),
    {
        Visit {
            worker: None,
            target: None,
            process_ids: None,
            haul: Haul::new(),
            minutes: Vec::new(),
        }
    }
}

/// What is known while all workers of a process are filled up. The visits are
/// those of the first workers, in order.
pub struct AllocateFacts {
    pub process_exists: Option<bool>,
    pub work_types: Option<Vec<WorkTypeMaxHeld>>,
    /// The limits in minutes of the first work types, in order.
    pub minutes: Vec<Option<i32>>,
    pub workers: Option<Vec<WorkerBrief>>,
    pub visits: Vec<Visit>,
}

/// What filling up all workers asks for: something of the whole, or something of
/// the worker at an index.
pub enum AllocateAsk {
    Whole { ask: PoolAsk },
    Worker { index: usize, ask: PoolAsk },
}

/// The limits of a work type: batches and minutes.
pub type Limits = (Option<i32>, Option<i32>);

/// The limits of a work type; of two rows for one work type the later counts.
pub open spec fn limits_of(
    work_types: Seq<WorkTypeMaxHeld>,
    minutes: Seq<Option<i32>>,
    work_type_id: i64,
) -> Option<Limits>
    decreases work_types.len(),
{
    if work_types.len() == 0 {
        None
    } else if work_types.last().work_type_id == work_type_id {
        Some((work_types.last().max_held_batches, minutes[work_types.len() - 1]))
    } else {
        limits_of(work_types.drop_last(), minutes, work_type_id)
    }
}

/// How it stands with one worker.
pub enum Standing {
    /// Something is to be asked first.
    Asks(PoolAsk),
    /// Another batch is to be taken.
    TakesOne(Seq<i64>),
    /// The whole request is refused.
    Fails(Problem),
    /// The worker is passed over without a word.
    Passed,
    /// The worker has no work type.
    NoWorkType,
    /// The worker got so much towards a target; and whether the pool ran out over
    /// it.
    Filled { target: i32, count: int, ran_dry: bool },
}

/// The limit that counts in a mode, or why there is none.
pub open spec fn limit_in(
    mode: AutoAllocateMode,
    limits: Limits,
    work_type_id: i64,
) -> Result<i32, Problem> {
    match mode {
        AutoAllocateMode::Count => match limits.0 {
            Some(max) => Ok(max),
            None => Err(
                (
                    ErrorCode::BizWorkTypeMaxHeldNotSet,
                    about("work_type "@, work_type_id, " max_held_batches 未设置（COUNT 模式）"@),
                ),
            ),
        },
        AutoAllocateMode::Time => match limits.1 {
            Some(max) => Ok(max),
            None => Err(
                (
                    ErrorCode::BizWorkTypeMaxHeldMinutesNotSet,
                    about("work_type "@, work_type_id, " max_held_minutes 未设置（TIME 模式）"@),
                ),
            ),
        },
    }
}

/// So many minutes in all.
pub open spec fn total(minutes: Seq<i32>) -> int
    decreases minutes.len(),
{
    if minutes.len() == 0 {
        0
    } else {
        total(minutes.drop_last()) + minutes.last()
    }
}

/// What a worker got so far, as a mode counts it: batches, or the estimated
/// minutes of those batches.
pub open spec fn load(mode: AutoAllocateMode, v: Visit) -> int {
    match mode {
        AutoAllocateMode::Count => v.haul.taken@.len() as int,
        AutoAllocateMode::Time => total(v.minutes@),
    }
}

/// The batch whose minutes are to be estimated next, where minutes count.
pub open spec fn to_estimate(mode: AutoAllocateMode, v: Visit) -> Option<i64> {
    match mode {
        AutoAllocateMode::Count => None,
        AutoAllocateMode::Time => if v.minutes@.len() < v.haul.taken@.len() {
            Some(v.haul.taken@[v.minutes@.len() as int].batch_id)
        } else {
            None
        },
    }
}

/// How it stands with a worker whose limit is known.
pub open spec fn standing_below(
    mode: AutoAllocateMode,
    max: i32,
    row: WorkerBrief,
    worker: TWorker,
    v: Visit,
    operator: i64,
) -> Standing {
    match (v.target, v.process_ids) {
        (None, _) => Standing::Asks(PoolAsk::Target { max }),
        (Some(_), None) => Standing::Asks(PoolAsk::ProcessIds { work_type_id: row.work_type_id }),
        (Some(target), Some(ids)) => if ids@.len() == 0 {
            Standing::Passed
        } else {
            match v.haul.chore(worker.badge_code, Some("auto_allocate"), operator) {
                Some(ask) => Standing::Asks(ask),
                None => match to_estimate(mode, v) {
                    Some(batch_id) => Standing::Asks(PoolAsk::EstimatedMinutes { batch_id }),
                    None => if load(mode, v) < target && !v.haul.dry {
                        Standing::TakesOne(ids@)
                    } else {
                        Standing::Filled { target, count: load(mode, v), ran_dry: v.haul.dry }
                    },
                },
            }
        },
    }
}

/// How it stands with one worker.
pub open spec fn standing(
    mode: AutoAllocateMode,
    limits: Option<Limits>,
    row: WorkerBrief,
    v: Visit,
    operator: i64,
) -> Standing {
    if row.work_type_id == 0 {
        Standing::NoWorkType
    } else {
        match limits {
            None => Standing::Passed,
            Some(limits) => match v.worker {
                None => Standing::Asks(PoolAsk::Worker { worker_id: row.worker_id }),
                Some(None) => Standing::Passed,
                Some(Some(w)) => if !w.is_active {
                    Standing::Passed
                } else {
                    match limit_in(mode, limits, row.work_type_id) {
                        Err(p) => Standing::Fails(p),
                        Ok(max) => standing_below(mode, max, row, w, v, operator),
                    }
                },
            },
        }
    }
}

/// Nothing is left to do for this worker.
pub open spec fn is_through(s: Standing) -> bool {
    s is Passed || s is NoWorkType || s is Filled
}

/// One line of the result: worker, target, what the worker got, and reason.
pub struct FillLine {
    pub worker_id: i64,
    pub target: i32,
    pub filled_count: int,
    pub skipped_reason: Option<Seq<char>>,
}

/// The line of a worker that is through, where the worker gets one.
pub open spec fn line_of(row: WorkerBrief, s: Standing) -> Option<FillLine> {
    match s {
        Standing::NoWorkType => Some(
            FillLine {
                worker_id: row.worker_id,
                target: 0,
                filled_count: 0,
                skipped_reason: Some("worker 无 work_type"@),
            },
        ),
        Standing::Filled { target, count, ran_dry } => Some(
            FillLine {
                worker_id: row.worker_id,
                target,
                filled_count: count,
                skipped_reason: None,
            },
        ),
        _ => None,
    }
}

/// The lines of the first workers, in order.
pub open spec fn lines(rows: Seq<WorkerBrief>, standings: Seq<Standing>) -> Seq<FillLine>
    decreases rows.len(),
{
    if rows.len() == 0 {
        Seq::empty()
    } else {
        let before = lines(rows.drop_last(), standings);
        match line_of(rows.last(), standings[rows.len() - 1]) {
            Some(line) => before.push(line),
            None => before,
        }
    }
}

/// What the result says, as lines.
pub open spec fn items_view(items: Seq<WorkerFillItem>) -> Seq<FillLine> {
    items.map_values(
        |i: WorkerFillItem|
            FillLine {
                worker_id: i.worker_id,
                target: i.target,
                filled_count: i.filled_count as int,
                skipped_reason: opt_view(i.skipped_reason),
            },
    )
}

/// How it stands with the worker at an index.
pub open spec fn standing_at(
    mode: AutoAllocateMode,
    work_types: Seq<WorkTypeMaxHeld>,
    workers: Seq<WorkerBrief>,
    operator: i64,
    f: AllocateFacts,
    i: int,
) -> Standing {
    let limits = limits_of(work_types, f.minutes@, workers[i].work_type_id);
    if i < f.visits@.len() {
        standing(mode, limits, workers[i], f.visits@[i], operator)
    } else {
        standing_unvisited(limits, workers[i])
    }
}

/// How it stands with a worker of whom nothing is known yet.
pub open spec fn standing_unvisited(limits: Option<Limits>, row: WorkerBrief) -> Standing {
    if row.work_type_id == 0 {
        Standing::NoWorkType
    } else if limits is None {
        Standing::Passed
    } else {
        Standing::Asks(PoolAsk::Worker { worker_id: row.worker_id })
    }
}

/// How it stands with the workers, in order.
pub open spec fn standings(
    mode: AutoAllocateMode,
    work_types: Seq<WorkTypeMaxHeld>,
    workers: Seq<WorkerBrief>,
    operator: i64,
    f: AllocateFacts,
) -> Seq<Standing> {
    Seq::new(
        workers.len(),
        |i: int| standing_at(mode, work_types, workers, operator, f, i),
    )
}

/// `n` does what the standing of the worker at `i` calls for.
pub open spec fn serves<R>(
    n: Next<AllocateAsk, AutoAllocateResult<R>>,
    s: Standing,
    i: int,
    worker: i64,
    shelf: i64,
    by: i64,
) -> bool {
    match s {
        Standing::Asks(ask) => n matches Next::Ask(AllocateAsk::Worker { index, ask: a }) && index
            == i && a == ask,
        Standing::TakesOne(ids) => {
            &&& n matches Next::Ask(AllocateAsk::Worker { index, ask })
            &&& index == i
            &&& ask matches PoolAsk::TakeOne { worker_id, shelf_id, process_ids, operator }
            &&& worker_id == worker && shelf_id == shelf && operator == by
            &&& process_ids@ == ids
        },
        Standing::Fails(p) => n.fails(p.0, p.1),
        _ => false,
    }
}

/// How the workers are filled up one after the other: the first who is not
/// through decides; where all are, the result is told.
pub open spec fn fills<R>(
    req: AutoAllocateRequest<R>,
    workers: Seq<WorkerBrief>,
    operator: i64,
    standings: Seq<Standing>,
    n: Next<AllocateAsk, AutoAllocateResult<R>>,
) -> bool {
    ||| exists|i: int|
        {
            &&& 0 <= i < workers.len()
            &&& forall|j: int| 0 <= j < i ==> is_through(#[trigger] standings[j])
            &&& !is_through(#[trigger] standings[i])
            &&& serves(n, standings[i], i, workers[i].worker_id, req.shelf_id, operator)
        }
    ||| {
        &&& forall|j: int| 0 <= j < workers.len() ==> is_through(#[trigger] standings[j])
        &&& n matches Next::Done(Ok(r))
        &&& r.process_id == req.process_id
        &&& r.shelf_id == req.shelf_id
        &&& r.mode == req.mode
        &&& r.fill_ratio == req.fill_ratio
        &&& items_view(r.filled@) == lines(workers, standings)
        &&& r.pool_empty == ran_dry(standings)
    }
}

/// The pool ran out over some worker.
pub open spec fn ran_dry(standings: Seq<Standing>) -> bool {
    exists|i: int|
        0 <= i < standings.len() && (#[trigger] standings[i] matches Standing::Filled {
            target,
            count,
            ran_dry,
        } && ran_dry)
}

/// `n` asks for something of the whole.
pub open spec fn asks_whole<R>(
    n: Next<AllocateAsk, AutoAllocateResult<R>>,
    ask: PoolAsk,
) -> bool {
    n matches Next::Ask(AllocateAsk::Whole { ask: a }) && a == ask
}

/// How all workers of a process are filled up. `ratio_ok` says whether the share
/// lies between nothing and everything, and `ratio_text` is the share as text.
pub open spec fn allocates_all<R>(
    req: AutoAllocateRequest<R>,
    ratio_ok: bool,
    ratio_text: Seq<char>,
    current: CurrentUser,
    f: AllocateFacts,
    n: Next<AllocateAsk, AutoAllocateResult<R>>,
) -> bool {
    if !current.is(Role::Manager) {
        n.fails(ErrorCode::Forbidden, forbidden_text())
    } else if !ratio_ok {
        n.fails(
            ErrorCode::BizAutoAllocateInvalidRatio,
            "fill_ratio 必须在 [0.0, 1.0]，当前 "@ + ratio_text,
        )
    } else {
        match (f.process_exists, f.work_types) {
            (None, _) => asks_whole(n, PoolAsk::Process { process_id: req.process_id }),
            (Some(false), _) => n.fails(
                ErrorCode::BizProcessNotFound,
                about("process "@, req.process_id, " 不存在"@),
            ),
            (Some(true), None) => asks_whole(
                n,
                PoolAsk::WorkTypesOfProcess { process_id: req.process_id },
            ),
            (Some(true), Some(work_types)) => if work_types@.len() == 0 {
                n.fails(
                    ErrorCode::BizWorkTypeNoProcessMapping,
                    about("process "@, req.process_id, " 未映射工种"@),
                )
            } else if f.minutes@.len() < work_types@.len() {
                asks_whole(
                    n,
                    PoolAsk::MaxHeldMinutes {
                        work_type_id: work_types@[f.minutes@.len() as int].work_type_id,
                    },
                )
            } else {
                match f.workers {
                    None => asks_whole(
                        n,
                        PoolAsk::WorkersOfProcess { process_id: req.process_id },
                    ),
                    Some(workers) => fills(
                        req,
                        workers@,
                        current.id,
                        standings(req.mode, work_types@, workers@, current.id, f),
                        n,
                    ),
                }
            },
        }
    }
}

fn find_limits(
    work_types: &Vec<WorkTypeMaxHeld>,
    minutes: &Vec<Option<i32>>,
    work_type_id: i64,
) -> (r: Option<Limits>)
    requires
        work_types@.len() <= minutes@.len(),
    ensures
        r == limits_of(work_types@, minutes@, work_type_id),
{
    let mut k: usize = work_types.len();
    assert(work_types@.take(k as int) =~= work_types@);
    while k > 0
        invariant
            k <= work_types@.len() <= minutes@.len(),
            limits_of(work_types@.take(k as int), minutes@, work_type_id) == limits_of(
                work_types@,
                minutes@,
                work_type_id,
            ),
        decreases k,
    {
        assert(work_types@.take(k as int).last() == work_types@[k - 1]);
        assert(work_types@.take(k as int).drop_last() =~= work_types@.take(k - 1));
        if work_types[k - 1].work_type_id == work_type_id {
            return Some((work_types[k - 1].max_held_batches, minutes[k - 1]));
        }
        k = k - 1;
    }
    None
}

/// How it stands with one worker, in code.
enum Step {
    Ask(PoolAsk),
    TakeOne(Vec<i64>),
    Fail(AppError),
    Pass,
    NoWorkType,
    Filled { target: i32, count: i32, ran_dry: bool },
}

/// The step is the standing.
spec fn step_is(step: Step, s: Standing) -> bool {
    match step {
        Step::Ask(a) => s == Standing::Asks(a),
        Step::TakeOne(ids) => s matches Standing::TakesOne(x) && x == ids@,
        Step::Fail(e) => s matches Standing::Fails(p) && e.says(p.0, p.1),
        Step::Pass => s is Passed,
        Step::NoWorkType => s is NoWorkType,
        Step::Filled { target, count, ran_dry } => s == (Standing::Filled {
            target,
            count: count as int,
            ran_dry,
        }),
    }
}

fn check_limit(mode: AutoAllocateMode, limits: Limits, work_type_id: i64) -> (r: Result<
    i32,
    AppError,
>)
    ensures
        match limit_in(mode, limits, work_type_id) {
            Ok(max) => r == Ok::<i32, AppError>(max),
            Err(p) => r matches Err(e) && e.says(p.0, p.1),
        },
{
    match mode {
        AutoAllocateMode::Count => match limits.0 {
            Some(max) => Ok(max),
            None => Err(
                fail_about(
                    ErrorCode::BizWorkTypeMaxHeldNotSet,
                    "work_type ",
                    work_type_id,
                    " max_held_batches 未设置（COUNT 模式）",
                ),
            ),
        },
        AutoAllocateMode::Time => match limits.1 {
            Some(max) => Ok(max),
            None => Err(
                fail_about(
                    ErrorCode::BizWorkTypeMaxHeldMinutesNotSet,
                    "work_type ",
                    work_type_id,
                    " max_held_minutes 未设置（TIME 模式）",
                ),
            ),
        },
    }
}

/// What is estimated to take no less than nothing comes to no less with every
/// batch.
proof fn lemma_total_grows(minutes: Seq<i32>, i: int)
    requires
        forall|j: int| 0 <= j < minutes.len() ==> #[trigger] minutes[j] >= 0,
        0 <= i <= minutes.len(),
    ensures
        0 <= total(minutes.take(i)) <= total(minutes),
    decreases minutes.len(),
{
    if i == minutes.len() {
        assert(minutes.take(i) =~= minutes);
        if i > 0 {
            lemma_total_grows(minutes.drop_last(), i - 1);
        }
    } else {
        lemma_total_grows(minutes.drop_last(), i);
        assert(minutes.drop_last().take(i) =~= minutes.take(i));
    }
}

fn add_up(minutes: &Vec<i32>) -> (r: i32)
    requires
        minutes_fit(minutes@),
    ensures
        r == total(minutes@),
{
    let mut sum: i32 = 0;
    let mut i: usize = 0;
    assert(minutes@.take(0) =~= Seq::<i32>::empty());
    while i < minutes.len()
        invariant
            i <= minutes@.len(),
            minutes_fit(minutes@),
            sum == total(minutes@.take(i as int)),
        decreases minutes@.len() - i,
    {
        proof {
            let now = minutes@.take(i + 1);
            assert(now.drop_last() =~= minutes@.take(i as int));
            assert(now.last() == minutes@[i as int]);
            lemma_total_grows(minutes@, i as int);
            lemma_total_grows(minutes@, i + 1);
        }
        sum = sum + minutes[i];
        i = i + 1;
    }
    assert(minutes@.take(i as int) =~= minutes@);
    sum
}

fn look_at(
    mode: AutoAllocateMode,
    limits: Option<Limits>,
    row: &WorkerBrief,
    v: &Visit,
    operator: i64,
) -> (r: Step)
    requires
        visit_fits(*v),
    ensures
        step_is(r, standing(mode, limits, *row, *v, operator)),
{
    if row.work_type_id == 0 {
        return Step::NoWorkType;
    }
    let limits: Limits = match limits {
        None => {
            return Step::Pass;
        },
        Some(l) => l,
    };
    let worker = match &v.worker {
        None => {
            return Step::Ask(PoolAsk::Worker { worker_id: row.worker_id });
        },
        Some(None) => {
            return Step::Pass;
        },
        Some(Some(w)) => w,
    };
    if !worker.is_active {
        return Step::Pass;
    }
    let max: i32 = match check_limit(mode, limits, row.work_type_id) {
        Err(e) => {
            return Step::Fail(e);
        },
        Ok(m) => m,
    };
    let target: i32 = match v.target {
        None => {
            return Step::Ask(PoolAsk::Target { max });
        },
        Some(t) => t,
    };
    let ids = match &v.process_ids {
        None => {
            return Step::Ask(PoolAsk::ProcessIds { work_type_id: row.work_type_id });
        },
        Some(ids) => ids,
    };
    if ids.len() == 0 {
        return Step::Pass;
    }
    match v.haul.next_chore(&worker.badge_code, Some("auto_allocate"), operator) {
        Some(ask) => Step::Ask(ask),
        None => {
            let count: i32 = match mode {
                AutoAllocateMode::Count => v.haul.taken.len() as i32,
                AutoAllocateMode::Time => {
                    if v.minutes.len() < v.haul.taken.len() {
                        return Step::Ask(
                            PoolAsk::EstimatedMinutes {
                                batch_id: v.haul.taken[v.minutes.len()].batch_id,
                            },
                        );
                    }
                    add_up(&v.minutes)
                },
            };
            if count < target && !v.haul.dry {
                Step::TakeOne(copy_ids(ids))
            } else {
                Step::Filled { target, count, ran_dry: v.haul.dry }
            }
        },
    }
}

fn look_unvisited(limits: Option<Limits>, row: &WorkerBrief) -> (r: Step)
    ensures
        step_is(r, standing_unvisited(limits, *row)),
{
    if row.work_type_id == 0 {
        Step::NoWorkType
    } else if limits.is_none() {
        Step::Pass
    } else {
        Step::Ask(PoolAsk::Worker { worker_id: row.worker_id })
    }
}

/// No estimate is below nothing, and all of them together can be told.
pub open spec fn minutes_fit(minutes: Seq<i32>) -> bool {
    &&& forall|j: int| 0 <= j < minutes.len() ==> #[trigger] minutes[j] >= 0
    &&& total(minutes) <= i32::MAX
}

/// The visit is of a size that its result can tell.
pub open spec fn visit_fits(v: Visit) -> bool {
    v.haul.taken@.len() <= i32::MAX && minutes_fit(v.minutes@)
}

/// The visits are of a size that their result can tell.
pub open spec fn visits_fit(visits: Seq<Visit>) -> bool {
    forall|i: int| 0 <= i < visits.len() ==> visit_fits(#[trigger] visits[i])
}

fn fill<R: Copy>(
    req: &AutoAllocateRequest<R>,
    work_types: &Vec<WorkTypeMaxHeld>,
    workers: &Vec<WorkerBrief>,
    operator: i64,
    f: &AllocateFacts,
) -> (n: Next<AllocateAsk, AutoAllocateResult<R>>)
    requires
        visits_fit(f.visits@),
        work_types@.len() <= f.minutes@.len(),
    ensures
        fills(
            *req,
            workers@,
            operator,
            standings(req.mode, work_types@, workers@, operator, *f),
            n,
        ),
{
    let ghost all = standings(req.mode, work_types@, workers@, operator, *f);
    let mut filled: Vec<WorkerFillItem> = Vec::new();
    let mut pool_empty: bool = false;
    let mut i: usize = 0;
    assert(workers@.take(0) =~= Seq::<WorkerBrief>::empty());
    assert(items_view(filled@) =~= Seq::<FillLine>::empty());
    while i < workers.len()
        invariant
            i <= workers@.len(),
            visits_fit(f.visits@),
            work_types@.len() <= f.minutes@.len(),
            all == standings(req.mode, work_types@, workers@, operator, *f),
            forall|j: int| 0 <= j < i ==> is_through(#[trigger] all[j]),
            items_view(filled@) == lines(workers@.take(i as int), all),
            pool_empty <==> ran_dry(all.take(i as int)),
        decreases workers@.len() - i,
    {
        let row = &workers[i];
        let limits = find_limits(work_types, &f.minutes, row.work_type_id);
        let step = if i < f.visits.len() {
            assert(visit_fits(f.visits@[i as int]));
            look_at(req.mode, limits, row, &f.visits[i], operator)
        } else {
            look_unvisited(limits, row)
        };
        assert(step_is(step, all[i as int]));
        let ghost before = filled@;
        proof {
            assert(workers@.take(i + 1).drop_last() =~= workers@.take(i as int));
            assert(workers@.take(i + 1).last() == *row);
            lemma_dry_step(all, i as int);
        }
        match step {
            Step::Ask(ask) => {
                return Next::Ask(AllocateAsk::Worker { index: i, ask });
            },
            Step::TakeOne(ids) => {
                return Next::Ask(
                    AllocateAsk::Worker {
                        index: i,
                        ask: PoolAsk::TakeOne {
                            worker_id: row.worker_id,
                            shelf_id: req.shelf_id,
                            process_ids: ids,
                            operator,
                        },
                    },
                );
            },
            Step::Fail(e) => {
                return Next::Done(Err(e));
            },
            Step::Pass => {},
            Step::NoWorkType => {
                let item = WorkerFillItem {
                    worker_id: row.worker_id,
                    target: 0,
                    filled_count: 0,
                    skipped_reason: Some("worker 无 work_type".to_owned()),
                };
                filled.push(item);
                assert(items_view(filled@) =~= items_view(before).push(
                    line_of(*row, all[i as int])->0,
                ));
            },
            Step::Filled { target, count, ran_dry } => {
                let item = WorkerFillItem {
                    worker_id: row.worker_id,
                    target,
                    filled_count: count,
                    skipped_reason: None,
                };
                filled.push(item);
                pool_empty = pool_empty || ran_dry;
                assert(items_view(filled@) =~= items_view(before).push(
                    line_of(*row, all[i as int])->0,
                ));
            },
        }
        i = i + 1;
    }
    assert(workers@.take(i as int) =~= workers@);
    assert(all.take(i as int) =~= all);
    Next::Done(
        Ok(
            AutoAllocateResult {
                process_id: req.process_id,
                shelf_id: req.shelf_id,
                mode: req.mode,
                fill_ratio: req.fill_ratio,
                filled,
                pool_empty,
            },
        ),
    )
}

proof fn lemma_dry_step(all: Seq<Standing>, i: int)
    requires
        0 <= i < all.len(),
    ensures
        ran_dry(all.take(i + 1)) <==> ran_dry(all.take(i)) || (all[i] matches Standing::Filled {
            target,
            count,
            ran_dry,
        } && ran_dry),
{
    let now = all.take(i + 1);
    let before = all.take(i);
    if ran_dry(before) {
        let j = choose|j: int|
            0 <= j < before.len() && (#[trigger] before[j] matches Standing::Filled {
                target,
                count,
                ran_dry,
            } && ran_dry);
        assert(now[j] == before[j]);
    }
    assert(now[i] == all[i]);
    if ran_dry(now) {
        let j = choose|j: int|
            0 <= j < now.len() && (#[trigger] now[j] matches Standing::Filled {
                target,
                count,
                ran_dry,
            } && ran_dry);
        if j < i {
            assert(before[j] == now[j]);
        }
    }
}

impl WorkerPoolService {
    /// Fills up every worker of a process from a shelf, to a share of the
    /// worker's limit. The share itself and the rounding are the caller's: the
    /// target of a limit is asked for. So are, where minutes count, the estimated
    /// minutes of every batch that was taken.
    pub fn auto_allocate_for_process<R: Copy>(
        req: &AutoAllocateRequest<R>,
        ratio_ok: bool,
        ratio_text: &str,
        current: &CurrentUser,
        f: &AllocateFacts,
    ) -> (n: Next<AllocateAsk, AutoAllocateResult<R>>)
        requires
            visits_fit(f.visits@),
        ensures
            allocates_all(*req, ratio_ok, ratio_text@, *current, *f, n),
    {
        match current.require_role(Role::Manager) {
            Err(e) => {
                return Next::Done(Err(e));
            },
            Ok(()) => {},
        }
        if !ratio_ok {
            let message = join2("fill_ratio 必须在 [0.0, 1.0]，当前 ", ratio_text);
            return Next::Done(
                Err(AppError::biz(ErrorCode::BizAutoAllocateInvalidRatio, message.as_str())),
            );
        }
        match f.process_exists {
            None => {
                return Next::Ask(
                    AllocateAsk::Whole { ask: PoolAsk::Process { process_id: req.process_id } },
                );
            },
            Some(false) => {
                return Next::Done(
                    Err(
                        fail_about(
                            ErrorCode::BizProcessNotFound,
                            "process ",
                            req.process_id,
                            " 不存在",
                        ),
                    ),
                );
            },
            Some(true) => {},
        }
        let work_types = match &f.work_types {
            None => {
                return Next::Ask(
                    AllocateAsk::Whole {
                        ask: PoolAsk::WorkTypesOfProcess { process_id: req.process_id },
                    },
                );
            },
            Some(v) => v,
        };
        if work_types.len() == 0 {
            return Next::Done(
                Err(
                    fail_about(
                        ErrorCode::BizWorkTypeNoProcessMapping,
                        "process ",
                        req.process_id,
                        " 未映射工种",
                    ),
                ),
            );
        }
        if f.minutes.len() < work_types.len() {
            return Next::Ask(
                AllocateAsk::Whole {
                    ask: PoolAsk::MaxHeldMinutes {
                        work_type_id: work_types[f.minutes.len()].work_type_id,
                    },
                },
            );
        }
        match &f.workers {
            None => Next::Ask(
                AllocateAsk::Whole {
                    ask: PoolAsk::WorkersOfProcess { process_id: req.process_id },
                },
            ),
            Some(workers) => fill(req, work_types, workers, current.id, f),
        }
    }
}

// ---------------------------------------------------------------------------
// Laws
// ---------------------------------------------------------------------------

/// Another batch is taken for a worker only while the target is not reached, the
/// pool had one at the last try, and every batch taken before is settled and,
/// where minutes count, estimated; a worker that is through has reached the
/// target, or the pool ran out.
pub proof fn allocation_stops_at_the_target(
    mode: AutoAllocateMode,
    limits: Option<Limits>,
    row: WorkerBrief,
    v: Visit,
    operator: i64,
)
    ensures
        standing(mode, limits, row, v, operator) is TakesOne ==> v.haul.settled() && !v.haul.dry
            && to_estimate(mode, v) is None && load(mode, v) < v.target->0,
        standing(mode, limits, row, v, operator) matches Standing::Filled {
            target,
            count,
            ran_dry,
        } ==> v.haul.settled() && to_estimate(mode, v) is None && count == load(mode, v) && (
        ran_dry || count >= target),
{
}

/// The lines of the result follow the order of the workers, at most one each.
pub proof fn result_has_one_line_per_worker(rows: Seq<WorkerBrief>, standings: Seq<Standing>)
    requires
        rows.len() <= standings.len(),
    ensures
        lines(rows, standings).len() <= rows.len(),
        forall|k: int|
            0 <= k < lines(rows, standings).len() ==> exists|i: int|
                0 <= i < rows.len() && line_of(rows[i], #[trigger] standings[i]) == Some(
                    #[trigger] lines(rows, standings)[k],
                ),
    decreases rows.len(),
{
    if rows.len() > 0 {
        let front = rows.drop_last();
        result_has_one_line_per_worker(front, standings);
        let out = lines(rows, standings);
        assert forall|k: int| 0 <= k < out.len() implies exists|i: int|
            0 <= i < rows.len() && line_of(rows[i], #[trigger] standings[i]) == Some(
                #[trigger] out[k],
            ) by {
            if k < lines(front, standings).len() {
                assert(out[k] == lines(front, standings)[k]);
                let i = choose|i: int|
                    0 <= i < front.len() && line_of(front[i], #[trigger] standings[i]) == Some(
                        lines(front, standings)[k],
                    );
                assert(line_of(rows[i], standings[i]) == Some(out[k]));
            } else {
                assert(line_of(rows[rows.len() - 1], standings[rows.len() - 1]) == Some(out[k]));
            }
        }
    }
}

/// Every worker with a line has it among the lines.
proof fn lemma_line_is_listed(rows: Seq<WorkerBrief>, standings: Seq<Standing>, i: int)
    requires
        rows.len() <= standings.len(),
        0 <= i < rows.len(),
        line_of(rows[i], standings[i]) is Some,
    ensures
        exists|k: int|
            0 <= k < lines(rows, standings).len() && #[trigger] lines(rows, standings)[k]
                == line_of(rows[i], standings[i])->0,
    decreases rows.len(),
{
    let front = rows.drop_last();
    let out = lines(rows, standings);
    if i == rows.len() - 1 {
        assert(out[out.len() - 1] == line_of(rows[i], standings[i])->0);
    } else {
        lemma_line_is_listed(front, standings, i);
        let k = choose|k: int|
            0 <= k < lines(front, standings).len() && #[trigger] lines(front, standings)[k]
                == line_of(front[i], standings[i])->0;
        assert(out[k] == lines(front, standings)[k]);
    }
}

/// Nothing is known yet.
pub open spec fn nothing_known(f: AllocateFacts) -> bool {
    &&& f.process_exists is None && f.work_types is None && f.workers is None
    &&& f.minutes@.len() == 0 && f.visits@.len() == 0
}

/// `w` is the visit `v` with the reply to `ask` noted, whatever the reply was.
pub open spec fn notes_of_worker(ask: PoolAsk, v: Visit, w: Visit) -> bool {
    match ask {
        PoolAsk::Worker { worker_id } => w.worker is Some && w == (Visit { worker: w.worker, ..v }),
        PoolAsk::Target { max } => w.target is Some && w == (Visit { target: w.target, ..v }),
        PoolAsk::ProcessIds { work_type_id } => w.process_ids is Some && w == (Visit {
            process_ids: w.process_ids,
            ..v
        }),
        PoolAsk::EstimatedMinutes { batch_id } => w.minutes@ == v.minutes@.push(w.minutes@.last())
            && w == (Visit { minutes: w.minutes, ..v }),
        _ => {
            &&& w == (Visit { haul: w.haul, ..v })
            &&& match ask {
                PoolAsk::TakeOne { worker_id, shelf_id, process_ids, operator } => exists|
                    given: Option<TakenItem>,
                | #[trigger]
                    notes_taken(v.haul, given, w.haul),
                PoolAsk::InsertEvent { event } => notes_logged(v.haul, w.haul),
                PoolAsk::SyncPart { part_id } => notes_synced(v.haul, w.haul),
                _ => false,
            }
        },
    }
}

/// `after` are the visits `before` with the reply to `ask` noted for the worker
/// at `index`. Visits up to that worker that were not begun are begun.
pub open spec fn notes_of_visits(
    before: Seq<Visit>,
    index: int,
    ask: PoolAsk,
    after: Seq<Visit>,
) -> bool {
    &&& after.len() == if index < before.len() {
        before.len() as int
    } else {
        index + 1
    }
    &&& forall|j: int|
        0 <= j < after.len() && j != index ==> if j < before.len() {
            #[trigger] after[j] == before[j]
        } else {
            after[j].is_fresh()
        }
    &&& if index < before.len() {
        notes_of_worker(ask, before[index], after[index])
    } else {
        exists|v: Visit| v.is_fresh() && #[trigger] notes_of_worker(ask, v, after[index])
    }
}

/// `g` is what is known once the reply to what `n` asks for is noted in `f`.
pub open spec fn notes_reply<R>(
    f: AllocateFacts,
    n: Next<AllocateAsk, AutoAllocateResult<R>>,
    g: AllocateFacts,
) -> bool {
    match n {
        Next::Ask(AllocateAsk::Worker { index, ask }) => g == (AllocateFacts {
            visits: g.visits,
            ..f
        }) && notes_of_visits(f.visits@, index as int, ask, g.visits@),
        Next::Ask(AllocateAsk::Whole { ask }) => match ask {
            PoolAsk::Process { process_id } => g.process_exists is Some && g == (AllocateFacts {
                process_exists: g.process_exists,
                ..f
            }),
            PoolAsk::WorkTypesOfProcess { process_id } => g.work_types is Some && g == (
            AllocateFacts { work_types: g.work_types, ..f }),
            PoolAsk::MaxHeldMinutes { work_type_id } => g.minutes@ == f.minutes@.push(
                g.minutes@.last(),
            ) && g == (AllocateFacts { minutes: g.minutes, ..f }),
            PoolAsk::WorkersOfProcess { process_id } => g.workers is Some && g == (AllocateFacts {
                workers: g.workers,
                ..f
            }),
            _ => false,
        },
        Next::Done(_) => false,
    }
}

/// A run of filling up all workers of a process: it begins with nothing known,
/// and what is known next is what was known with the reply to the answer noted.
pub open spec fn is_run<R>(
    req: AutoAllocateRequest<R>,
    ratio_ok: bool,
    ratio_text: Seq<char>,
    current: CurrentUser,
    known: Seq<AllocateFacts>,
    answers: Seq<Next<AllocateAsk, AutoAllocateResult<R>>>,
) -> bool {
    &&& known.len() == answers.len() && known.len() > 0
    &&& nothing_known(known[0])
    &&& forall|i: int|
        0 <= i < known.len() ==> allocates_all(
            req,
            ratio_ok,
            ratio_text,
            current,
            known[i],
            #[trigger] answers[i],
        )
    &&& forall|i: int|
        0 <= i < known.len() - 1 ==> notes_reply(known[i], #[trigger] answers[i], known[i + 1])
}

/// No batch was taken once the target was reached, and the pool had none left
/// only where it was not reached. Of batches, so, there are never more than the
/// target; of minutes there are fewer without those of the last batch.
pub open spec fn within_target(mode: AutoAllocateMode, v: Visit) -> bool {
    let taken = v.haul.taken@.len();
    let minutes = v.minutes@;
    match (v.target, mode) {
        (None, _) => taken == 0 && !v.haul.dry && minutes.len() == 0,
        (Some(target), AutoAllocateMode::Count) => {
            &&& taken <= target || taken == 0
            &&& v.haul.dry ==> taken < target
        },
        (Some(target), AutoAllocateMode::Time) => {
            &&& minutes.len() <= taken
            &&& minutes.len() > 0 ==> total(minutes.drop_last()) < target
            &&& minutes.len() < taken ==> minutes.len() + 1 == taken && total(minutes) < target
            &&& v.haul.dry ==> minutes.len() == taken && total(minutes) < target
        },
    }
}

/// Noting the reply to what a worker's standing calls for keeps the visit within
/// the target.
proof fn lemma_note_stays_within_target(
    mode: AutoAllocateMode,
    limits: Option<Limits>,
    row: WorkerBrief,
    v: Visit,
    operator: i64,
    ask: PoolAsk,
    w: Visit,
)
    requires
        within_target(mode, v),
        match standing(mode, limits, row, v, operator) {
            Standing::Asks(a) => ask == a,
            Standing::TakesOne(_) => ask is TakeOne,
            _ => false,
        },
        notes_of_worker(ask, v, w),
    ensures
        within_target(mode, w),
{
    if ask is EstimatedMinutes {
        assert(w.minutes@.drop_last() =~= v.minutes@);
    }
}

/// At every point of a run no worker got a batch once the target was reached,
/// and the pool had none left over a worker only where it was not.
pub proof fn run_stays_within_targets<R>(
    req: AutoAllocateRequest<R>,
    ratio_ok: bool,
    ratio_text: Seq<char>,
    current: CurrentUser,
    known: Seq<AllocateFacts>,
    answers: Seq<Next<AllocateAsk, AutoAllocateResult<R>>>,
    k: int,
)
    requires
        is_run(req, ratio_ok, ratio_text, current, known, answers),
        0 <= k < known.len(),
    ensures
        forall|j: int|
            0 <= j < known[k].visits@.len() ==> within_target(
                req.mode,
                #[trigger] known[k].visits@[j],
            ),
    decreases k,
{
    if k > 0 {
        run_stays_within_targets(req, ratio_ok, ratio_text, current, known, answers, k - 1);
        let f = known[k - 1];
        let g = known[k];
        let n = answers[k - 1];
        assert(allocates_all(req, ratio_ok, ratio_text, current, f, n));
        assert(notes_reply(f, n, known[k - 1 + 1]));
        if let Next::Ask(AllocateAsk::Worker { index, ask }) = n {
            let work_types = f.work_types->0@;
            let workers = f.workers->0@;
            let all = standings(req.mode, work_types, workers, current.id, f);
            let limits = limits_of(work_types, f.minutes@, workers[index as int].work_type_id);
            let i = choose|i: int|
                {
                    &&& 0 <= i < workers.len()
                    &&& forall|j: int| 0 <= j < i ==> is_through(#[trigger] all[j])
                    &&& !is_through(#[trigger] all[i])
                    &&& serves(n, all[i], i, workers[i].worker_id, req.shelf_id, current.id)
                };
            assert(i == index);
            assert forall|j: int| 0 <= j < g.visits@.len() implies within_target(
                req.mode,
                #[trigger] g.visits@[j],
            ) by {
                if j == index {
                    if index < f.visits@.len() {
                        lemma_note_stays_within_target(
                            req.mode,
                            limits,
                            workers[i],
                            f.visits@[i],
                            current.id,
                            ask,
                            g.visits@[i],
                        );
                    } else {
                        let v = choose|v: Visit|
                            v.is_fresh() && #[trigger] notes_of_worker(ask, v, g.visits@[i]);
                        assert(within_target(req.mode, v));
                    }
                }
            }
        }
    }
}

/// `item` tells of this visit: it is complete, each batch taken has its estimate
/// where minutes count, and the item's count is the visit's load, which without
/// the last batch is below the target.
pub open spec fn tells_of_visit(item: WorkerFillItem, mode: AutoAllocateMode, v: Visit) -> bool {
    &&& v.target == Some(item.target)
    &&& v.haul.settled()
    &&& item.filled_count == load(mode, v)
    &&& match mode {
        AutoAllocateMode::Count => v.haul.taken@.len() > 0 ==> v.haul.taken@.len() - 1
            < item.target,
        AutoAllocateMode::Time => v.minutes@.len() == v.haul.taken@.len() && (v.minutes@.len() > 0
            ==> total(v.minutes@.drop_last()) < item.target),
    }
}

/// `item` tells of the worker at `i`.
pub open spec fn tells_of_worker(
    item: WorkerFillItem,
    mode: AutoAllocateMode,
    f: AllocateFacts,
    i: int,
) -> bool {
    &&& 0 <= i < f.workers->0@.len() && i < f.visits@.len()
    &&& item.worker_id == f.workers->0@[i].worker_id
    &&& tells_of_visit(item, mode, f.visits@[i])
}

/// The result of a run, line by line: what it tells of a worker, unless the
/// worker has no work type, is what the run did for that worker.
proof fn lemma_result_tells_of_visits<R>(
    req: AutoAllocateRequest<R>,
    ratio_ok: bool,
    ratio_text: Seq<char>,
    current: CurrentUser,
    known: Seq<AllocateFacts>,
    answers: Seq<Next<AllocateAsk, AutoAllocateResult<R>>>,
    k: int,
)
    requires
        is_run(req, ratio_ok, ratio_text, current, known, answers),
        answers.last() matches Next::Done(Ok(_)),
        0 <= k < answers.last()->Done_0->Ok_0.filled@.len(),
    ensures
        ({
            let item = answers.last()->Done_0->Ok_0.filled@[k];
            if item.skipped_reason is Some {
                item.target == 0 && item.filled_count == 0
            } else {
                exists|i: int| #[trigger] tells_of_worker(item, req.mode, known.last(), i)
            }
        }),
{
    let last = known.len() - 1;
    let f = known[last];
    let n = answers[last];
    let r = n->Done_0->Ok_0;
    assert(allocates_all(req, ratio_ok, ratio_text, current, f, n));
    run_stays_within_targets(req, ratio_ok, ratio_text, current, known, answers, last);
    let workers = f.workers->0@;
    let all = standings(req.mode, f.work_types->0@, workers, current.id, f);
    let told = lines(workers, all);
    result_has_one_line_per_worker(workers, all);
    assert(items_view(r.filled@)[k] == told[k]);
    let i = choose|i: int|
        0 <= i < workers.len() && line_of(workers[i], #[trigger] all[i]) == Some(told[k]);
    assert(opt_view(r.filled@[k].skipped_reason) == told[k].skipped_reason);
    if all[i] is Filled {
        assert(i < f.visits@.len());
        assert(within_target(req.mode, f.visits@[i]));
        assert(tells_of_worker(r.filled@[k], req.mode, known.last(), i));
    }
}

/// When a run is done, no worker got a batch once the target was reached. So a
/// worker got no more batches than the target, where batches count; where minutes
/// count, the batches but for the last come to less than the target. And the pool
/// is told to be empty exactly where some worker stayed below the target. A
/// target below nothing gives nothing.
pub proof fn run_fills_up_to_the_target_or_the_pool_is_empty<R>(
    req: AutoAllocateRequest<R>,
    ratio_ok: bool,
    ratio_text: Seq<char>,
    current: CurrentUser,
    known: Seq<AllocateFacts>,
    answers: Seq<Next<AllocateAsk, AutoAllocateResult<R>>>,
)
    requires
        is_run(req, ratio_ok, ratio_text, current, known, answers),
        answers.last() matches Next::Done(Ok(_)),
    ensures
        ({
            let r = answers.last()->Done_0->Ok_0;
            &&& forall|k: int|
                0 <= k < r.filled@.len() ==> (#[trigger] r.filled@[k]).skipped_reason is Some || (
                exists|i: int| #[trigger] tells_of_worker(r.filled@[k], req.mode, known.last(), i))
            &&& req.mode is Count ==> forall|k: int|
                0 <= k < r.filled@.len() ==> if (#[trigger] r.filled@[k]).target >= 0 {
                    0 <= r.filled@[k].filled_count <= r.filled@[k].target
                } else {
                    r.filled@[k].filled_count == 0
                }
            &&& r.pool_empty <==> exists|k: int|
                0 <= k < r.filled@.len() && (#[trigger] r.filled@[k]).filled_count
                    < r.filled@[k].target
        }),
{
    let last = known.len() - 1;
    let f = known[last];
    let n = answers[last];
    let r = n->Done_0->Ok_0;
    assert(allocates_all(req, ratio_ok, ratio_text, current, f, n));
    run_stays_within_targets(req, ratio_ok, ratio_text, current, known, answers, last);
    let workers = f.workers->0@;
    let all = standings(req.mode, f.work_types->0@, workers, current.id, f);
    let told = lines(workers, all);
    assert forall|i: int| 0 <= i < workers.len() implies (#[trigger] all[i] matches Standing::Filled {
        target,
        count,
        ran_dry,
    } ==> (ran_dry <==> count < target)) by {
        if all[i] is Filled {
            assert(i < f.visits@.len());
            assert(within_target(req.mode, f.visits@[i]));
        }
    }
    assert forall|k: int| 0 <= k < r.filled@.len() implies (
    #[trigger] r.filled@[k]).skipped_reason is Some || (exists|i: int| #[trigger]
        tells_of_worker(r.filled@[k], req.mode, known.last(), i)) by {
        lemma_result_tells_of_visits(req, ratio_ok, ratio_text, current, known, answers, k);
    }
    if req.mode is Count {
        assert forall|k: int| 0 <= k < r.filled@.len() implies if (
        #[trigger] r.filled@[k]).target >= 0 {
            0 <= r.filled@[k].filled_count <= r.filled@[k].target
        } else {
            r.filled@[k].filled_count == 0
        } by {
            lemma_result_tells_of_visits(req, ratio_ok, ratio_text, current, known, answers, k);
        }
    }
    result_has_one_line_per_worker(workers, all);
    assert forall|k: int| 0 <= k < r.filled@.len() implies exists|i: int|
        0 <= i < workers.len() && line_of(workers[i], #[trigger] all[i]) == Some(told[k])
            && told[k].target == (#[trigger] r.filled@[k]).target && told[k].filled_count
            == r.filled@[k].filled_count by {
        assert(items_view(r.filled@)[k] == told[k]);
    }
    if r.pool_empty {
        let i = choose|i: int|
            0 <= i < all.len() && (#[trigger] all[i] matches Standing::Filled {
                target,
                count,
                ran_dry,
            } && ran_dry);
        lemma_line_is_listed(workers, all, i);
        let k = choose|k: int|
            0 <= k < told.len() && #[trigger] told[k] == line_of(workers[i], all[i])->0;
        assert(items_view(r.filled@)[k] == told[k]);
        assert(r.filled@[k].filled_count < r.filled@[k].target);
    }
}

/// The estimated minutes of these batches, in order.
pub open spec fn estimates(taken: Seq<TakenItem>, estimate: spec_fn(i64) -> i32) -> Seq<i32> {
    taken.map_values(|t: TakenItem| estimate(t.batch_id))
}

/// Wherever the minutes of a batch are asked for in a run, the reply is the
/// estimate of that batch.
pub open spec fn replies_with<R>(
    estimate: spec_fn(i64) -> i32,
    known: Seq<AllocateFacts>,
    answers: Seq<Next<AllocateAsk, AutoAllocateResult<R>>>,
) -> bool {
    forall|i: int|
        0 <= i < known.len() - 1 ==> (#[trigger] answers[i] matches Next::Ask(
            AllocateAsk::Worker { index, ask: PoolAsk::EstimatedMinutes { batch_id } },
        ) ==> known[i + 1].visits@[index as int].minutes@.last() == estimate(batch_id))
}

/// The minutes noted are those of the first batches taken.
pub open spec fn follows(v: Visit, estimate: spec_fn(i64) -> i32) -> bool {
    &&& v.minutes@.len() <= v.haul.taken@.len()
    &&& v.minutes@ == estimates(v.haul.taken@.take(v.minutes@.len() as int), estimate)
}

proof fn lemma_note_follows(
    mode: AutoAllocateMode,
    limits: Option<Limits>,
    row: WorkerBrief,
    v: Visit,
    operator: i64,
    ask: PoolAsk,
    w: Visit,
    estimate: spec_fn(i64) -> i32,
)
    requires
        follows(v, estimate),
        match standing(mode, limits, row, v, operator) {
            Standing::Asks(a) => ask == a,
            Standing::TakesOne(_) => ask is TakeOne,
            _ => false,
        },
        notes_of_worker(ask, v, w),
        ask matches PoolAsk::EstimatedMinutes { batch_id } ==> w.minutes@.last() == estimate(
            batch_id,
        ),
    ensures
        follows(w, estimate),
{
    assert(w.minutes@ =~= estimates(w.haul.taken@.take(w.minutes@.len() as int), estimate));
}

proof fn lemma_run_follows<R>(
    req: AutoAllocateRequest<R>,
    ratio_ok: bool,
    ratio_text: Seq<char>,
    current: CurrentUser,
    known: Seq<AllocateFacts>,
    answers: Seq<Next<AllocateAsk, AutoAllocateResult<R>>>,
    estimate: spec_fn(i64) -> i32,
    k: int,
)
    requires
        is_run(req, ratio_ok, ratio_text, current, known, answers),
        replies_with(estimate, known, answers),
        0 <= k < known.len(),
    ensures
        forall|j: int|
            0 <= j < known[k].visits@.len() ==> follows(#[trigger] known[k].visits@[j], estimate),
    decreases k,
{
    if k > 0 {
        lemma_run_follows(req, ratio_ok, ratio_text, current, known, answers, estimate, k - 1);
        let f = known[k - 1];
        let g = known[k];
        let n = answers[k - 1];
        assert(allocates_all(req, ratio_ok, ratio_text, current, f, n));
        assert(notes_reply(f, n, known[k - 1 + 1]));
        if let Next::Ask(AllocateAsk::Worker { index, ask }) = n {
            let work_types = f.work_types->0@;
            let workers = f.workers->0@;
            let all = standings(req.mode, work_types, workers, current.id, f);
            let limits = limits_of(work_types, f.minutes@, workers[index as int].work_type_id);
            let i = choose|i: int|
                {
                    &&& 0 <= i < workers.len()
                    &&& forall|j: int| 0 <= j < i ==> is_through(#[trigger] all[j])
                    &&& !is_through(#[trigger] all[i])
                    &&& serves(n, all[i], i, workers[i].worker_id, req.shelf_id, current.id)
                };
            assert(i == index);
            assert forall|j: int| 0 <= j < g.visits@.len() implies follows(
                #[trigger] g.visits@[j],
                estimate,
            ) by {
                if j != index && j >= f.visits@.len() {
                    assert(g.visits@[j].is_fresh());
                    assert(g.visits@[j].minutes@ =~= estimates(
                        g.visits@[j].haul.taken@.take(0),
                        estimate,
                    ));
                }
                if j == index {
                    if index < f.visits@.len() {
                        lemma_note_follows(
                            req.mode,
                            limits,
                            workers[i],
                            f.visits@[i],
                            current.id,
                            ask,
                            g.visits@[i],
                            estimate,
                        );
                    } else {
                        assert(g.visits@[i].minutes@ =~= estimates(
                            g.visits@[i].haul.taken@.take(0),
                            estimate,
                        ));
                    }
                }
            }
        }
    }
}

/// Where minutes count, what a worker is told to have got is the estimated
/// minutes of the batches that the worker took in the run, all together.
pub proof fn time_is_counted_in_estimated_minutes<R>(
    req: AutoAllocateRequest<R>,
    ratio_ok: bool,
    ratio_text: Seq<char>,
    current: CurrentUser,
    known: Seq<AllocateFacts>,
    answers: Seq<Next<AllocateAsk, AutoAllocateResult<R>>>,
    estimate: spec_fn(i64) -> i32,
    k: int,
)
    requires
        req.mode is Time,
        is_run(req, ratio_ok, ratio_text, current, known, answers),
        replies_with(estimate, known, answers),
        answers.last() matches Next::Done(Ok(_)),
        0 <= k < answers.last()->Done_0->Ok_0.filled@.len(),
    ensures
        ({
            let item = answers.last()->Done_0->Ok_0.filled@[k];
            let f = known.last();
            item.skipped_reason is Some || exists|i: int| #[trigger]
                tells_of_worker(item, req.mode, f, i) && item.filled_count == total(
                    estimates(f.visits@[i].haul.taken@, estimate),
                )
        }),
{
    let item = answers.last()->Done_0->Ok_0.filled@[k];
    let f = known.last();
    lemma_result_tells_of_visits(req, ratio_ok, ratio_text, current, known, answers, k);
    lemma_run_follows(
        req,
        ratio_ok,
        ratio_text,
        current,
        known,
        answers,
        estimate,
        known.len() - 1,
    );
    if item.skipped_reason is None {
        let i = choose|i: int| #[trigger] tells_of_worker(item, req.mode, f, i);
        let v = f.visits@[i];
        assert(follows(v, estimate));
        assert(v.haul.taken@.take(v.minutes@.len() as int) =~= v.haul.taken@);
    }
}

} // verus!
