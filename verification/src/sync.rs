use vstd::prelude::*;
use crate::config::{configs_view, has_server, is_first_with_id, Config, ServerConfig, ServerConfigView};
use crate::json::same_text;
use crate::text::strings_view;

verus! {

/// What to do with one server of a changed configuration.
#[derive(Debug)]
pub enum SyncStep {
    /// A worker already runs for this id: hand it the new configuration.
    Reconfigure(ServerConfig),
    /// No worker runs for this id yet: start one.
    Start(ServerConfig),
}

/// How to bring the running workers in line with a changed configuration:
/// one step per configured server, in file order, then the ids of the
/// workers to stop.
#[derive(Debug)]
pub struct SyncPlan {
    pub steps: Vec<SyncStep>,
    pub removals: Vec<String>,
}

/// An earlier server of the list has the same id as server `i`.
pub open spec fn seen_before(servers: Seq<ServerConfigView>, i: int) -> bool {
    exists|j: int| 0 <= j < i && #[trigger] servers[j].id == servers[i].id
}

/// Server `i` needs a new worker: none runs for its id, and no earlier
/// server of the list started one.
pub open spec fn starts_worker(running: Seq<Seq<char>>, servers: Seq<ServerConfigView>, i: int) -> bool {
    !running.contains(servers[i].id) && !seen_before(servers, i)
}

/// The running ids that the configuration no longer lists, in their order.
pub open spec fn unlisted_ids(running: Seq<Seq<char>>, servers: Seq<ServerConfigView>) -> Seq<
    Seq<char>,
>
    decreases running.len(),
{
    if running.len() == 0 {
        Seq::empty()
    } else {
        let earlier = unlisted_ids(running.drop_last(), servers);
        if has_server(servers, running.last()) {
            earlier
        } else {
            earlier.push(running.last())
        }
    }
}

/// Step `step` is the one that the plan owes server `i`.
pub open spec fn step_for(
    step: SyncStep,
    running: Seq<Seq<char>>,
    servers: Seq<ServerConfigView>,
    i: int,
) -> bool {
    if starts_worker(running, servers, i) {
        step matches SyncStep::Start(c) && c@ == servers[i]
    } else {
        step matches SyncStep::Reconfigure(c) && c@ == servers[i]
    }
}

/// The plan for a configuration change, given the ids of the running
/// workers.
pub open spec fn is_sync_plan(plan: SyncPlan, running: Seq<Seq<char>>, servers: Seq<ServerConfigView>) -> bool {
    &&& plan.steps@.len() == servers.len()
    &&& forall|i: int| 0 <= i < servers.len() ==> #[trigger] step_for(plan.steps@[i], running, servers, i)
    &&& strings_view(plan.removals@) == unlisted_ids(running, servers)
}

/// Whether a list of strings holds a text.
pub fn contains_text(list: &Vec<String>, s: &str) -> (r: bool)
    ensures
        r == strings_view(list@).contains(s@),
{
    let ghost lv = strings_view(list@);
    let n = list.len();
    for k in 0..n
        invariant
            n == list@.len(),
            lv == strings_view(list@),
            forall|j: int| 0 <= j < k ==> #[trigger] lv[j] != s@,
    {
        if same_text(list[k].as_str(), s) {
            assert(lv[k as int] == s@);
            return true;
        }
    }
    false
}

/// Whether one of the first `upto` servers has this id.
fn listed_before(servers: &Vec<ServerConfig>, upto: usize, id: &str) -> (r: bool)
    requires
        upto <= servers@.len(),
    ensures
        r == exists|j: int| 0 <= j < upto && #[trigger] configs_view(servers@)[j].id == id@,
{
    let ghost cv = configs_view(servers@);
    for k in 0..upto
        invariant
            upto <= servers@.len(),
            cv == configs_view(servers@),
            forall|j: int| 0 <= j < k ==> #[trigger] cv[j].id != id@,
    {
        if same_text(servers[k].id.as_str(), id) {
            assert(cv[k as int].id == id@);
            return true;
        }
    }
    false
}

/// Plans the synchronisation of the running workers (by id) with a changed
/// configuration, as the configuration watcher carries it out.
pub fn plan_sync(running: &Vec<String>, config: &Config) -> (r: SyncPlan)
    ensures
        is_sync_plan(r, strings_view(running@), configs_view(config.servers@)),
{
    let ghost rv = strings_view(running@);
    let ghost cv = configs_view(config.servers@);
    let n = config.servers.len();
    let mut steps: Vec<SyncStep> = Vec::new();
    for k in 0..n
        invariant
            n == config.servers@.len(),
            cv == configs_view(config.servers@),
            rv == strings_view(running@),
            steps@.len() == k,
            forall|i: int| 0 <= i < k ==> #[trigger] step_for(steps@[i], rv, cv, i),
    {
        let server = &config.servers[k];
        let known = contains_text(running, server.id.as_str());
        let earlier = listed_before(&config.servers, k, server.id.as_str());
        proof {
            assert(earlier == seen_before(cv, k as int));
        }
        if known || earlier {
            steps.push(SyncStep::Reconfigure(server.clone()));
        } else {
            steps.push(SyncStep::Start(server.clone()));
        }
        proof {
            assert(step_for(steps@[k as int], rv, cv, k as int));
        }
    }
    let m = running.len();
    let mut removals: Vec<String> = Vec::new();
    for k in 0..m
        invariant
            m == running@.len(),
            n == config.servers@.len(),
            cv == configs_view(config.servers@),
            rv == strings_view(running@),
            strings_view(removals@) == unlisted_ids(rv.take(k as int), cv),
    {
        let id = &running[k];
        let listed = listed_before(&config.servers, n, id.as_str());
        let ghost before = removals@;
        proof {
            assert(rv.take(k + 1).drop_last() =~= rv.take(k as int));
            assert(rv.take(k + 1).last() == id@);
            assert(listed == has_server(cv, id@));
        }
        if !listed {
            removals.push(id.clone());
            proof {
                assert(strings_view(removals@) =~= strings_view(before).push(id@));
            }
        }
    }
    proof {
        assert(rv.take(m as int) =~= rv);
    }
    SyncPlan { steps, removals }
}

// ---------------------------------------------------------------------------
// Laws of the plan.
// ---------------------------------------------------------------------------

/// The ids that the configuration lists.
pub open spec fn configured_ids(servers: Seq<ServerConfigView>) -> Set<Seq<char>> {
    Set::new(|id: Seq<char>| has_server(servers, id))
}

/// The ids for which the plan starts a worker.
pub open spec fn started_ids(running: Seq<Seq<char>>, servers: Seq<ServerConfigView>) -> Set<Seq<char>> {
    Set::new(
        |id: Seq<char>|
            exists|i: int| 0 <= i < servers.len() && starts_worker(running, servers, i) && #[trigger] servers[i].id == id,
    )
}

/// The ids that run after the plan is carried out.
pub open spec fn ids_after_sync(running: Seq<Seq<char>>, servers: Seq<ServerConfigView>) -> Set<Seq<char>> {
    running.to_set().union(started_ids(running, servers)).difference(
        unlisted_ids(running, servers).to_set(),
    )
}

proof fn lemma_unlisted(running: Seq<Seq<char>>, servers: Seq<ServerConfigView>, id: Seq<char>)
    ensures
        unlisted_ids(running, servers).contains(id) <==> (running.contains(id) && !has_server(
            servers,
            id,
        )),
    decreases running.len(),
{
    if running.len() > 0 {
        let init = running.drop_last();
        lemma_unlisted(init, servers, id);
        if running.contains(id) {
            let i = choose|i: int| 0 <= i < running.len() && running[i] == id;
            if i < running.len() - 1 {
                assert(init[i] == id);
            }
        }
        if init.contains(id) {
            let i = choose|i: int| 0 <= i < init.len() && init[i] == id;
            assert(running[i] == id);
        }
        let earlier = unlisted_ids(init, servers);
        if !has_server(servers, running.last()) {
            if earlier.push(running.last()).contains(id) {
                let i = choose|i: int| 0 <= i < earlier.len() + 1 && earlier.push(running.last())[i] == id;
                if i < earlier.len() {
                    assert(earlier[i] == id);
                }
            }
            if earlier.contains(id) {
                let i = choose|i: int| 0 <= i < earlier.len() && earlier[i] == id;
                assert(earlier.push(running.last())[i] == id);
            }
            if id == running.last() {
                assert(earlier.push(running.last())[earlier.len() as int] == id);
            }
        }
    }
}

proof fn lemma_first_occurrence(servers: Seq<ServerConfigView>, id: Seq<char>)
    requires
        has_server(servers, id),
    ensures
        exists|i: int| is_first_with_id(servers, id, i),
    decreases servers.len(),
{
    let init = servers.drop_last();
    if has_server(init, id) {
        lemma_first_occurrence(init, id);
        let i = choose|i: int| is_first_with_id(init, id, i);
        assert forall|j: int| 0 <= j < i implies #[trigger] servers[j].id != id by {
            assert(init[j].id != id);
        }
        assert(servers[i] == init[i]);
        assert(is_first_with_id(servers, id, i));
    } else {
        let last = servers.len() - 1;
        let i = choose|i: int| 0 <= i < servers.len() && #[trigger] servers[i].id == id;
        if i < last {
            assert(init[i].id == id);
        }
        assert forall|j: int| 0 <= j < last implies #[trigger] servers[j].id != id by {
            if servers[j].id == id {
                assert(init[j].id == id);
            }
        }
        assert(is_first_with_id(servers, id, last));
    }
}

/// Law: once the plan is carried out, workers run for exactly the ids that
/// the new configuration lists.
pub proof fn lemma_sync_matches_config(running: Seq<Seq<char>>, servers: Seq<ServerConfigView>)
    ensures
        ids_after_sync(running, servers) == configured_ids(servers),
{
    assert forall|id: Seq<char>| #[trigger] ids_after_sync(running, servers).contains(id)
        <==> configured_ids(servers).contains(id) by {
        lemma_unlisted(running, servers, id);
        if has_server(servers, id) {
            if !running.contains(id) {
                lemma_first_occurrence(servers, id);
                let i = choose|i: int| is_first_with_id(servers, id, i);
                assert(starts_worker(running, servers, i));
                assert(started_ids(running, servers).contains(id));
            }
        }
        if started_ids(running, servers).contains(id) {
            let i = choose|i: int|
                0 <= i < servers.len() && starts_worker(running, servers, i) && #[trigger] servers[i].id == id;
            assert(has_server(servers, id));
        }
    }
    assert(ids_after_sync(running, servers) =~= configured_ids(servers));
}

/// Law: the plan starts at most one worker per id, never one for an id that
/// already runs, and hands every other configured server to a worker that
/// runs already or was started earlier in the plan.
pub proof fn lemma_sync_starts_once(running: Seq<Seq<char>>, servers: Seq<ServerConfigView>)
    ensures
        forall|i: int, j: int|
            0 <= i < j < servers.len() && starts_worker(running, servers, i) && starts_worker(
                running,
                servers,
                j,
            ) ==> #[trigger] servers[i].id != #[trigger] servers[j].id,
        forall|i: int|
            0 <= i < servers.len() && #[trigger] starts_worker(running, servers, i)
                ==> !running.contains(servers[i].id),
        forall|i: int|
            0 <= i < servers.len() && !#[trigger] starts_worker(running, servers, i) ==> (
            running.contains(servers[i].id) || exists|j: int|
                0 <= j < i && starts_worker(running, servers, j) && #[trigger] servers[j].id
                    == servers[i].id),
{
    assert forall|i: int|
        0 <= i < servers.len() && !#[trigger] starts_worker(running, servers, i) implies (
    running.contains(servers[i].id) || exists|j: int|
        0 <= j < i && starts_worker(running, servers, j) && #[trigger] servers[j].id
            == servers[i].id) by {
        if !running.contains(servers[i].id) {
            let id = servers[i].id;
            lemma_first_occurrence(servers, id);
            let f = choose|f: int| is_first_with_id(servers, id, f);
            assert(f < i);
            assert(starts_worker(running, servers, f));
        }
    }
}

// ---------------------------------------------------------------------------
// The workers as a map from id to the configuration each one holds.
// ---------------------------------------------------------------------------

/// Every worker holds a configuration with its own id.
pub open spec fn keyed_by_id(m: Map<Seq<char>, ServerConfigView>) -> bool {
    forall|k: Seq<char>| #[trigger] m.dom().contains(k) ==> m[k].id == k
}

/// The workers after one step of a plan: a started worker holds its
/// configuration; a reconfigured one, when it runs, holds the new one.
pub open spec fn after_step(m: Map<Seq<char>, ServerConfigView>, step: SyncStep) -> Map<
    Seq<char>,
    ServerConfigView,
> {
    match step {
        SyncStep::Start(c) => m.insert(c@.id, c@),
        SyncStep::Reconfigure(c) => if m.dom().contains(c@.id) {
            m.insert(c@.id, c@)
        } else {
            m
        },
    }
}

/// The workers after the steps of a plan, in order.
pub open spec fn apply_steps(m: Map<Seq<char>, ServerConfigView>, steps: Seq<SyncStep>) -> Map<
    Seq<char>,
    ServerConfigView,
>
    decreases steps.len(),
{
    if steps.len() == 0 {
        m
    } else {
        after_step(apply_steps(m, steps.drop_last()), steps.last())
    }
}

/// The workers once these ids are stopped.
pub open spec fn remove_ids(m: Map<Seq<char>, ServerConfigView>, ids: Seq<Seq<char>>) -> Map<
    Seq<char>,
    ServerConfigView,
>
    decreases ids.len(),
{
    if ids.len() == 0 {
        m
    } else {
        remove_ids(m, ids.drop_last()).remove(ids.last())
    }
}

/// The workers once a whole plan is carried out.
pub open spec fn registry_after(m: Map<Seq<char>, ServerConfigView>, plan: SyncPlan) -> Map<
    Seq<char>,
    ServerConfigView,
> {
    remove_ids(apply_steps(m, plan.steps@), strings_view(plan.removals@))
}

/// The workers started at launch: one per configured server, a later entry
/// with the same id taking the place of an earlier one.
pub open spec fn launch_registry(servers: Seq<ServerConfigView>) -> Map<Seq<char>, ServerConfigView>
    decreases servers.len(),
{
    if servers.len() == 0 {
        Map::empty()
    } else {
        launch_registry(servers.drop_last()).insert(servers.last().id, servers.last())
    }
}

/// The ids of the first `k` servers.
pub open spec fn prefix_ids(servers: Seq<ServerConfigView>, k: int) -> Set<Seq<char>> {
    Set::new(|id: Seq<char>| exists|j: int| 0 <= j < k && #[trigger] servers[j].id == id)
}

proof fn lemma_apply_prefix(
    m: Map<Seq<char>, ServerConfigView>,
    running: Seq<Seq<char>>,
    servers: Seq<ServerConfigView>,
    steps: Seq<SyncStep>,
    k: int,
)
    requires
        keyed_by_id(m),
        running.to_set() == m.dom(),
        0 <= k <= servers.len(),
        steps.len() == servers.len(),
        forall|i: int| 0 <= i < servers.len() ==> #[trigger] step_for(steps[i], running, servers, i),
    ensures
        keyed_by_id(apply_steps(m, steps.take(k))),
        apply_steps(m, steps.take(k)).dom() == m.dom().union(prefix_ids(servers, k)),
    decreases k,
{
    if k == 0 {
        assert(steps.take(0) =~= Seq::<SyncStep>::empty());
        assert(m.dom().union(prefix_ids(servers, 0)) =~= m.dom());
    } else {
        lemma_apply_prefix(m, running, servers, steps, k - 1);
        let before = apply_steps(m, steps.take(k - 1));
        assert(steps.take(k).drop_last() =~= steps.take(k - 1));
        assert(steps.take(k).last() == steps[k - 1]);
        let after = apply_steps(m, steps.take(k));
        assert(after == after_step(before, steps[k - 1]));
        assert(step_for(steps[k - 1], running, servers, k - 1));
        let id = servers[k - 1].id;
        assert(prefix_ids(servers, k).contains(id));
        if !starts_worker(running, servers, k - 1) {
            if running.contains(id) {
                assert(running.to_set().contains(id));
            } else {
                let j = choose|j: int| 0 <= j < k - 1 && #[trigger] servers[j].id == servers[k - 1].id;
                assert(prefix_ids(servers, k - 1).contains(id));
            }
            assert(before.dom().contains(id));
        }
        assert(after.dom() =~= m.dom().union(prefix_ids(servers, k))) by {
            assert forall|x: Seq<char>| prefix_ids(servers, k).contains(x) implies #[trigger] m.dom().union(
                prefix_ids(servers, k - 1),
            ).insert(id).contains(x) by {
                let j = choose|j: int| 0 <= j < k && #[trigger] servers[j].id == x;
                if j < k - 1 {
                    assert(prefix_ids(servers, k - 1).contains(x));
                }
            }
            assert forall|x: Seq<char>| prefix_ids(servers, k - 1).contains(x) implies #[trigger] prefix_ids(
                servers,
                k,
            ).contains(x) by {
                let j = choose|j: int| 0 <= j < k - 1 && #[trigger] servers[j].id == x;
            }
        }
    }
}

proof fn lemma_remove_ids(m: Map<Seq<char>, ServerConfigView>, ids: Seq<Seq<char>>)
    requires
        keyed_by_id(m),
    ensures
        keyed_by_id(remove_ids(m, ids)),
        remove_ids(m, ids).dom() == m.dom().difference(ids.to_set()),
    decreases ids.len(),
{
    if ids.len() == 0 {
        assert(m.dom().difference(ids.to_set()) =~= m.dom());
    } else {
        lemma_remove_ids(m, ids.drop_last());
        assert forall|x: Seq<char>| #[trigger] ids.to_set().contains(x) <==> (ids.drop_last().to_set().contains(x)
            || x == ids.last()) by {
            if ids.contains(x) {
                let i = choose|i: int| 0 <= i < ids.len() && ids[i] == x;
                if i < ids.len() - 1 {
                    assert(ids.drop_last()[i] == x);
                }
            }
            if ids.drop_last().contains(x) {
                let i = choose|i: int| 0 <= i < ids.drop_last().len() && ids.drop_last()[i] == x;
                assert(ids[i] == x);
            }
            if x == ids.last() {
                assert(ids[ids.len() - 1] == x);
            }
        }
        assert(remove_ids(m, ids).dom() =~= m.dom().difference(ids.to_set()));
    }
}

/// Law: after a configuration change is carried out, every worker holds a
/// configuration with its own id, and workers run for exactly the ids the
/// new configuration lists.
pub proof fn lemma_sync_registry(
    m: Map<Seq<char>, ServerConfigView>,
    running: Seq<Seq<char>>,
    servers: Seq<ServerConfigView>,
    plan: SyncPlan,
)
    requires
        keyed_by_id(m),
        running.to_set() == m.dom(),
        is_sync_plan(plan, running, servers),
    ensures
        keyed_by_id(registry_after(m, plan)),
        registry_after(m, plan).dom() == configured_ids(servers),
{
    let steps = plan.steps@;
    lemma_apply_prefix(m, running, servers, steps, servers.len() as int);
    assert(steps.take(servers.len() as int) =~= steps);
    let applied = apply_steps(m, steps);
    let removed = strings_view(plan.removals@);
    lemma_remove_ids(applied, removed);
    assert(prefix_ids(servers, servers.len() as int) =~= configured_ids(servers)) by {
        assert forall|x: Seq<char>| #[trigger] configured_ids(servers).contains(x) implies prefix_ids(
            servers,
            servers.len() as int,
        ).contains(x) by {
            let j = choose|j: int| 0 <= j < servers.len() && #[trigger] servers[j].id == x;
        }
    }
    assert forall|x: Seq<char>| #[trigger] registry_after(m, plan).dom().contains(x)
        <==> configured_ids(servers).contains(x) by {
        lemma_unlisted(running, servers, x);
        assert(removed.to_set().contains(x) <==> removed.contains(x));
        assert(running.to_set().contains(x) <==> running.contains(x));
    }
    assert(registry_after(m, plan).dom() =~= configured_ids(servers));
}

/// Law: at launch every worker holds a configuration with its own id, and
/// workers run for exactly the configured ids.
pub proof fn lemma_launch_registry(servers: Seq<ServerConfigView>)
    ensures
        keyed_by_id(launch_registry(servers)),
        launch_registry(servers).dom() == configured_ids(servers),
    decreases servers.len(),
{
    if servers.len() > 0 {
        let init = servers.drop_last();
        lemma_launch_registry(init);
        assert forall|x: Seq<char>| #[trigger] configured_ids(servers).contains(x)
            <==> (configured_ids(init).contains(x) || x == servers.last().id) by {
            if has_server(servers, x) {
                let i = choose|i: int| 0 <= i < servers.len() && #[trigger] servers[i].id == x;
                if i < servers.len() - 1 {
                    assert(init[i].id == x);
                }
            }
            if has_server(init, x) {
                let i = choose|i: int| 0 <= i < init.len() && #[trigger] init[i].id == x;
                assert(servers[i].id == x);
            }
            if x == servers.last().id {
                assert(servers[servers.len() - 1].id == x);
            }
        }
        assert(launch_registry(servers).dom() =~= configured_ids(servers));
    } else {
        assert(configured_ids(servers) =~= Set::<Seq<char>>::empty());
    }
}

} // verus!
