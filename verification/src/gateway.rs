//! The embedded gateway: the table of configured models and routes, and the
//! choice of the model that serves a request for a model or route name.
//!
//! Talking to the chosen provider is the caller's part; the gateway names
//! the model, the upstream model name and the provider settings.

use vstd::prelude::*;
use crate::clock::utc_now_nanos;
use crate::config::AxonConfig;
use crate::error::{join3, AxonError};
use crate::models::{
    provider_default_base, targets_view, ModelDefinition, RouteDefinition, RouteTarget, RouteTargetView,
    RouteView, TokenUsage,
};
use crate::provider::{create_provider, kind_of, strip_trailing, ProviderEndpoint, ProviderKind};
use crate::strmap::StrMap;
use crate::text::str_eq;

verus! {

/// A configured model with the provider that serves it.
pub struct GatewayModel {
    pub name: String,
    pub provider: String,
    pub model_name: String,
    pub endpoint: ProviderEndpoint,
}

/// A configured model as text.
pub struct GatewayModelView {
    pub name: Seq<char>,
    pub provider: Seq<char>,
    pub model_name: Seq<char>,
    pub kind: ProviderKind,
    pub api_base: Seq<char>,
    pub api_key: Seq<char>,
}

impl View for GatewayModel {
    type V = GatewayModelView;

    open spec fn view(&self) -> GatewayModelView {
        GatewayModelView {
            name: self.name@,
            provider: self.provider@,
            model_name: self.model_name@,
            kind: self.endpoint.kind,
            api_base: self.endpoint.api_base@,
            api_key: self.endpoint.api_key@,
        }
    }
}

/// What a model listing shows of a model.
#[derive(Debug, Clone)]
pub struct ModelInfo {
    pub id: String,
    pub provider: String,
    pub model_name: String,
}

/// Running totals of the gateway's traffic.
#[derive(Debug, Clone, Default)]
pub struct GatewayStats {
    pub total_requests: u64,
    pub total_tokens: TokenUsage,
}

/// The key a model uses: its own, else the value of its environment
/// variable (`env`, looked up by the caller).
pub open spec fn resolved_key(m: ModelDefinition, env: Option<String>) -> Option<Seq<char>> {
    match m.api_key {
        Some(k) => Some(k@),
        None => match m.api_key_env {
            Some(_) => match env {
                Some(e) => Some(e@),
                None => None,
            },
            None => None,
        },
    }
}

pub open spec fn resolved_base(m: ModelDefinition) -> Seq<char> {
    match m.api_base {
        Some(b) => b@,
        None => provider_default_base(m.provider@),
    }
}

/// Why a model cannot be served, if it cannot: no key, or an unknown provider.
pub open spec fn model_problem(m: ModelDefinition, env: Option<String>) -> Option<Seq<char>> {
    match resolved_key(m, env) {
        None => Some("model '"@ + m.name@ + "' has no api_key (neither api_key nor api_key_env resolved)"@),
        Some(_) => match kind_of(m.provider@) {
            None => Some("unknown provider type: "@ + m.provider@),
            Some(_) => None,
        },
    }
}

/// The problem of the first of the first `n` models that has one.
pub open spec fn first_problem(ms: Seq<ModelDefinition>, envs: Seq<Option<String>>, n: nat) -> Option<Seq<char>>
    decreases n,
{
    if n == 0 {
        None
    } else {
        match first_problem(ms, envs, (n - 1) as nat) {
            Some(p) => Some(p),
            None => model_problem(ms[n - 1], envs[n - 1]),
        }
    }
}

/// Once a problem is found among the first `i` models, it stays the first.
pub proof fn lemma_first_problem_stays(ms: Seq<ModelDefinition>, envs: Seq<Option<String>>, i: nat, n: nat)
    requires
        i <= n,
        first_problem(ms, envs, i) is Some,
    ensures
        first_problem(ms, envs, n) == first_problem(ms, envs, i),
    decreases n,
{
    if i < n {
        lemma_first_problem_stays(ms, envs, i, (n - 1) as nat);
    }
}

/// The table entry of a model that has no problem.
pub open spec fn model_entry(m: ModelDefinition, env: Option<String>) -> GatewayModelView {
    GatewayModelView {
        name: m.name@,
        provider: m.provider@,
        model_name: m.model_name@,
        kind: kind_of(m.provider@)->0,
        api_base: strip_trailing(resolved_base(m), '/'),
        api_key: resolved_key(m, env)->0,
    }
}

/// The table of the first `n` models by name; a later model replaces an
/// earlier one of the same name.
pub open spec fn models_table(ms: Seq<ModelDefinition>, envs: Seq<Option<String>>, n: nat) -> Map<
    Seq<char>,
    GatewayModelView,
>
    decreases n,
{
    if n == 0 {
        Map::empty()
    } else {
        models_table(ms, envs, (n - 1) as nat).insert(ms[n - 1].name@, model_entry(ms[n - 1], envs[n - 1]))
    }
}

/// The table of the first `n` routes by name; a later route replaces an
/// earlier one of the same name.
pub open spec fn routes_table(rs: Seq<RouteDefinition>, n: nat) -> Map<Seq<char>, RouteView>
    decreases n,
{
    if n == 0 {
        Map::empty()
    } else {
        routes_table(rs, (n - 1) as nat).insert(rs[n - 1].name@, rs[n - 1]@)
    }
}

/// The names of the first `n` models of `ms`.
pub open spec fn model_names(ms: Seq<ModelDefinition>, n: nat) -> Set<Seq<char>> {
    Set::new(|k: Seq<char>| exists|i: int| 0 <= i < n && #[trigger] ms[i].name@ == k)
}

/// The tables that a configuration loads hold one entry per distinct name:
/// the models under exactly the configured model names, and the routes
/// under exactly the configured route names, each the last route of its
/// name.
pub proof fn lemma_tables_hold_config_names(
    ms: Seq<ModelDefinition>,
    envs: Seq<Option<String>>,
    rs: Seq<RouteDefinition>,
    n: nat,
    k: nat,
)
    requires
        n <= ms.len(),
        k <= rs.len(),
    ensures
        models_table(ms, envs, n).dom() == model_names(ms, n),
        forall|name: Seq<char>| #[trigger] routes_table(rs, k).dom().contains(name) <==> exists|i: int|
            0 <= i < k && rs[i].name@ == name,
        forall|i: int|
            0 <= i < k && (forall|j: int| i < j < k ==> rs[j].name@ != rs[i].name@) ==> #[trigger] routes_table(
                rs,
                k,
            )[rs[i].name@] == rs[i]@,
    decreases n + k,
{
    if n > 0 {
        lemma_tables_hold_config_names(ms, envs, rs, (n - 1) as nat, k);
        assert forall|x: Seq<char>| models_table(ms, envs, n).dom().contains(x) <==> model_names(ms, n).contains(x) by {
            if model_names(ms, n).contains(x) {
                let i = choose|i: int| 0 <= i < n && #[trigger] ms[i].name@ == x;
                if i < n - 1 {
                    assert(model_names(ms, (n - 1) as nat).contains(x));
                }
            }
            if models_table(ms, envs, (n - 1) as nat).dom().contains(x) {
                let i = choose|i: int| 0 <= i < n - 1 && #[trigger] ms[i].name@ == x;
                assert(model_names(ms, n).contains(x));
            }
            if x == ms[n - 1].name@ {
                assert(model_names(ms, n).contains(x));
            }
        }
        assert(models_table(ms, envs, n).dom() =~= model_names(ms, n));
    } else if k > 0 {
        lemma_tables_hold_config_names(ms, envs, rs, n, (k - 1) as nat);
        assert forall|name: Seq<char>| #[trigger] routes_table(rs, k).dom().contains(name) <==> exists|i: int|
            0 <= i < k && rs[i].name@ == name by {
            if exists|i: int| 0 <= i < k && rs[i].name@ == name {
                let i = choose|i: int| 0 <= i < k && rs[i].name@ == name;
                if i < k - 1 {
                    assert(routes_table(rs, (k - 1) as nat).dom().contains(name));
                }
            }
            if routes_table(rs, (k - 1) as nat).dom().contains(name) {
                let i = choose|i: int| 0 <= i < k - 1 && rs[i].name@ == name;
                assert(0 <= i < k && rs[i].name@ == name);
            }
        }
        assert forall|i: int|
            0 <= i < k && (forall|j: int| i < j < k ==> rs[j].name@ != rs[i].name@) implies #[trigger] routes_table(
                rs,
                k,
            )[rs[i].name@] == rs[i]@ by {
            if i < k - 1 {
                assert(rs[k - 1].name@ != rs[i].name@);
                assert(forall|j: int| i < j < k - 1 ==> rs[j].name@ != rs[i].name@);
                assert(routes_table(rs, (k - 1) as nat)[rs[i].name@] == rs[i]@);
            }
        }
    } else {
        assert(models_table(ms, envs, 0).dom() =~= model_names(ms, 0));
    }
}

/// The sum of the weights of the first `n` targets.
pub open spec fn weight_sum(ts: Seq<RouteTargetView>, n: int) -> int
    decreases n,
{
    if n <= 0 {
        0
    } else {
        weight_sum(ts, n - 1) + ts[n - 1].weight
    }
}

/// The first target from `i` on whose running weight total exceeds `r`.
pub open spec fn first_over(ts: Seq<RouteTargetView>, r: int, i: int) -> int
    decreases ts.len() - i,
{
    if i < 0 || i >= ts.len() {
        0
    } else if r < weight_sum(ts, i + 1) {
        i
    } else {
        first_over(ts, r, i + 1)
    }
}

/// The target a weighted route picks for the draw `x`: the one whose share
/// of the total weight contains `x` modulo the total; the first when all
/// weights are zero.
pub open spec fn weighted_index(ts: Seq<RouteTargetView>, x: u32) -> int {
    let total = weight_sum(ts, ts.len() as int);
    if total == 0 {
        0
    } else {
        first_over(ts, (x as int) % total, 0)
    }
}

/// The first target from `i` on whose model is served.
pub open spec fn first_available(ts: Seq<RouteTargetView>, served: Set<Seq<char>>, i: int) -> Option<int>
    decreases ts.len() - i,
{
    if i < 0 || i >= ts.len() {
        None
    } else if served.contains(ts[i].model) {
        Some(i)
    } else {
        first_available(ts, served, i + 1)
    }
}

/// A weighted route's weights add up within `u32`.
pub open spec fn weights_fit(r: RouteView) -> bool {
    r.strategy == "weighted"@ ==> weight_sum(r.targets, r.targets.len() as int) <= u32::MAX
}

/// The model a route picks, and the round-robin counters after the pick,
/// for the draw `x` (which only a weighted route reads).
pub open spec fn route_outcome(
    route: RouteView,
    name: Seq<char>,
    rr: Map<Seq<char>, usize>,
    served: Set<Seq<char>>,
    x: u32,
) -> (Option<Seq<char>>, Map<Seq<char>, usize>) {
    let ts = route.targets;
    let n = ts.len() as int;
    if n == 0 {
        (None, rr)
    } else if route.strategy == "round_robin"@ {
        let c: int = if rr.dom().contains(name) { rr[name] as int } else { 0 };
        (Some(ts[c % n].model), rr.insert(name, ((c + 1) % n) as usize))
    } else if route.strategy == "weighted"@ {
        (Some(ts[weighted_index(ts, x)].model), rr)
    } else {
        match first_available(ts, served, 0) {
            Some(i) => (Some(ts[i].model), rr),
            None => (None, rr),
        }
    }
}

/// The model a reference names: a model of that name, else the pick of the
/// route of that name, else none.
pub open spec fn resolution(
    models: Map<Seq<char>, GatewayModelView>,
    routes: Map<Seq<char>, RouteView>,
    rr: Map<Seq<char>, usize>,
    reference: Seq<char>,
    x: u32,
) -> (Option<Seq<char>>, Map<Seq<char>, usize>) {
    if models.dom().contains(reference) {
        (Some(reference), rr)
    } else if routes.dom().contains(reference) {
        route_outcome(routes[reference], reference, rr, models.dom(), x)
    } else {
        (None, rr)
    }
}

pub proof fn lemma_weight_sum_mono(ts: Seq<RouteTargetView>, a: int, b: int)
    requires
        0 <= a <= b,
    ensures
        weight_sum(ts, a) <= weight_sum(ts, b),
    decreases b,
{
    if a < b {
        lemma_weight_sum_mono(ts, a, b - 1);
    }
}

/// Round robin: two picks in a row from the same route take the targets
/// after one another, wrapping around at the end.
pub proof fn lemma_round_robin_advances(
    route: RouteView,
    name: Seq<char>,
    rr: Map<Seq<char>, usize>,
    served: Set<Seq<char>>,
    x: u32,
    y: u32,
)
    requires
        route.strategy == "round_robin"@,
        0 < route.targets.len() <= usize::MAX,
        rr.dom().contains(name) ==> rr[name] < usize::MAX,
    ensures
        ({
            let n = route.targets.len() as int;
            let c: int = if rr.dom().contains(name) { rr[name] as int } else { 0 };
            let (m1, rr1) = route_outcome(route, name, rr, served, x);
            let (m2, rr2) = route_outcome(route, name, rr1, served, y);
            &&& m1 == Some(route.targets[c % n].model)
            &&& m2 == Some(route.targets[(c + 1) % n].model)
            &&& rr2[name] == (c + 2) % n
        }),
{
    let n = route.targets.len() as int;
    let c: int = if rr.dom().contains(name) { rr[name] as int } else { 0 };
    let rr1 = route_outcome(route, name, rr, served, x).1;
    assert(0 <= (c + 1) % n < n) by (nonlinear_arith)
        requires
            n > 0,
            c >= 0,
    ;
    assert(rr1.dom().contains(name));
    assert(rr1[name] as int == (c + 1) % n);
    assert(((c + 1) % n) % n == (c + 1) % n) by (nonlinear_arith)
        requires
            n > 0,
            c >= 0,
    ;
    assert((((c + 1) % n) + 1) % n == (c + 2) % n) by (nonlinear_arith)
        requires
            n > 0,
            c >= 0,
    ;
    let rr2 = route_outcome(route, name, rr1, served, y).1;
    assert(rr2[name] as int == (((c + 1) % n) + 1) % n);
}

/// The round-robin counters after `k` picks from the route `name`.
pub open spec fn counters_after(
    route: RouteView,
    name: Seq<char>,
    rr: Map<Seq<char>, usize>,
    served: Set<Seq<char>>,
    k: nat,
) -> Map<Seq<char>, usize>
    decreases k,
{
    if k == 0 {
        rr
    } else {
        route_outcome(route, name, counters_after(route, name, rr, served, (k - 1) as nat), served, 0).1
    }
}

/// Round robin from a route never picked before: the pick after `k` earlier
/// picks is target `k` modulo the number of targets.
pub proof fn lemma_round_robin_kth_pick(
    route: RouteView,
    name: Seq<char>,
    rr: Map<Seq<char>, usize>,
    served: Set<Seq<char>>,
    k: nat,
    x: u32,
)
    requires
        route.strategy == "round_robin"@,
        0 < route.targets.len() <= usize::MAX,
        !rr.dom().contains(name),
    ensures
        route_outcome(route, name, counters_after(route, name, rr, served, k), served, x).0 == Some(
            route.targets[(k as int) % (route.targets.len() as int)].model,
        ),
{
    lemma_round_robin_counter(route, name, rr, served, k);
    let n = route.targets.len() as int;
    let m = counters_after(route, name, rr, served, k);
    let c: int = if m.dom().contains(name) { m[name] as int } else { 0 };
    vstd::arithmetic::div_mod::lemma_mod_twice(k as int, n);
    assert(c % n == (k as int) % n);
}

proof fn lemma_round_robin_counter(
    route: RouteView,
    name: Seq<char>,
    rr: Map<Seq<char>, usize>,
    served: Set<Seq<char>>,
    k: nat,
)
    requires
        route.strategy == "round_robin"@,
        0 < route.targets.len() <= usize::MAX,
        !rr.dom().contains(name),
    ensures
        ({
            let m = counters_after(route, name, rr, served, k);
            let n = route.targets.len() as int;
            &&& k > 0 ==> m.dom().contains(name)
            &&& (if m.dom().contains(name) { m[name] as int } else { 0 }) == (k as int) % n
        }),
    decreases k,
{
    let n = route.targets.len() as int;
    if k > 0 {
        let k1 = (k - 1) as nat;
        lemma_round_robin_counter(route, name, rr, served, k1);
        let c = (k1 as int) % n;
        assert((c + 1) % n == (k1 as int + 1) % n) by (nonlinear_arith)
            requires
                c == (k1 as int) % n,
                n > 0,
                k1 >= 0,
        {
            vstd::arithmetic::div_mod::lemma_add_mod_noop(k1 as int, 1, n);
            vstd::arithmetic::div_mod::lemma_mod_twice(k1 as int + 1, n);
            if n == 1 {
                vstd::arithmetic::div_mod::lemma_mod_self_0(1);
            } else {
                vstd::arithmetic::div_mod::lemma_small_mod(1, n as nat);
            }
        }
        assert(0 <= (c + 1) % n < n) by (nonlinear_arith)
            requires
                n > 0,
                c >= 0,
        ;
    } else {
        assert(0int % n == 0) by (nonlinear_arith)
            requires
                n > 0,
        ;
    }
}

proof fn lemma_first_over_positive(ts: Seq<RouteTargetView>, r: int, i: int)
    requires
        0 <= i < ts.len(),
        weight_sum(ts, i) <= r < weight_sum(ts, ts.len() as int),
    ensures
        0 <= first_over(ts, r, i) < ts.len(),
        ts[first_over(ts, r, i)].weight > 0,
    decreases ts.len() - i,
{
    if r < weight_sum(ts, i + 1) {
    } else {
        if i + 1 >= ts.len() {
            assert(weight_sum(ts, ts.len() as int) == weight_sum(ts, i + 1));
        }
        lemma_first_over_positive(ts, r, i + 1);
    }
}

/// Weighted: when some target has weight, the pick is a target with a
/// positive weight.
pub proof fn lemma_weighted_picks_weighted_target(ts: Seq<RouteTargetView>, x: u32)
    requires
        ts.len() > 0,
        weight_sum(ts, ts.len() as int) > 0,
    ensures
        0 <= weighted_index(ts, x) < ts.len(),
        ts[weighted_index(ts, x)].weight > 0,
{
    let total = weight_sum(ts, ts.len() as int);
    let r = (x as int) % total;
    assert(0 <= r < total) by (nonlinear_arith)
        requires
            total > 0,
            r == (x as int) % total,
    ;
    lemma_first_over_positive(ts, r, 0);
}

proof fn lemma_first_over_share(ts: Seq<RouteTargetView>, r: int, i: int)
    requires
        0 <= i < ts.len(),
        weight_sum(ts, i) <= r < weight_sum(ts, ts.len() as int),
    ensures
        i <= first_over(ts, r, i) < ts.len(),
        weight_sum(ts, first_over(ts, r, i)) <= r < weight_sum(ts, first_over(ts, r, i) + 1),
    decreases ts.len() - i,
{
    if r >= weight_sum(ts, i + 1) {
        if i + 1 >= ts.len() {
            assert(weight_sum(ts, ts.len() as int) == weight_sum(ts, i + 1));
        }
        lemma_first_over_share(ts, r, i + 1);
    }
}

/// Weighted: with a positive total weight, target `i` is the pick for the
/// draw `x` exactly when `x` modulo the total falls in the target's share,
/// between the weights of the targets before it and that sum plus its own
/// weight. So each target is picked for a share of the draws equal to its
/// weight, and a target of weight zero never is.
pub proof fn lemma_weighted_pick_is_share(ts: Seq<RouteTargetView>, x: u32, i: int)
    requires
        0 <= i < ts.len(),
        weight_sum(ts, ts.len() as int) > 0,
    ensures
        weighted_index(ts, x) == i <==> {
            let r = (x as int) % weight_sum(ts, ts.len() as int);
            weight_sum(ts, i) <= r < weight_sum(ts, i) + ts[i].weight
        },
{
    let total = weight_sum(ts, ts.len() as int);
    let r = (x as int) % total;
    assert(0 <= r < total) by (nonlinear_arith)
        requires
            total > 0,
            r == (x as int) % total,
    ;
    assert(weight_sum(ts, 0) == 0);
    lemma_first_over_share(ts, r, 0);
    let j = first_over(ts, r, 0);
    assert(weight_sum(ts, i + 1) == weight_sum(ts, i) + ts[i].weight);
    if i < j {
        lemma_weight_sum_mono(ts, i + 1, j);
    } else if j < i {
        lemma_weight_sum_mono(ts, j + 1, i);
    }
}

/// Weighted: every target of positive weight is the pick for some draw.
pub proof fn lemma_weighted_reaches_every_weighted_target(ts: Seq<RouteTargetView>, i: int)
    requires
        0 <= i < ts.len(),
        ts[i].weight > 0,
        weight_sum(ts, ts.len() as int) <= u32::MAX,
    ensures
        exists|x: u32| weighted_index(ts, x) == i,
{
    let total = weight_sum(ts, ts.len() as int);
    lemma_weight_sum_mono(ts, i + 1, ts.len() as int);
    assert(weight_sum(ts, i + 1) == weight_sum(ts, i) + ts[i].weight);
    assert(weight_sum(ts, 0) == 0);
    lemma_weight_sum_mono(ts, 0, i);
    let x = weight_sum(ts, i) as u32;
    assert((x as int) % total == x as int) by (nonlinear_arith)
        requires
            0 <= x < total,
    ;
    lemma_weighted_pick_is_share(ts, x, i);
}

proof fn lemma_first_available_is_first(ts: Seq<RouteTargetView>, served: Set<Seq<char>>, i: int)
    requires
        0 <= i,
    ensures
        match first_available(ts, served, i) {
            Some(k) => i <= k < ts.len() && served.contains(ts[k].model) && forall|j: int|
                i <= j < k ==> !served.contains(#[trigger] ts[j].model),
            None => forall|j: int| i <= j < ts.len() ==> !served.contains(#[trigger] ts[j].model),
        },
    decreases ts.len() - i,
{
    if i < ts.len() && !served.contains(ts[i].model) {
        lemma_first_available_is_first(ts, served, i + 1);
    }
}

/// Failover: the pick is the first target whose model is served; no route
/// pick is made when none is.
pub proof fn lemma_failover_picks_first_served(
    route: RouteView,
    name: Seq<char>,
    rr: Map<Seq<char>, usize>,
    served: Set<Seq<char>>,
    x: u32,
)
    requires
        route.strategy != "round_robin"@,
        route.strategy != "weighted"@,
    ensures
        ({
            let (m, rr1) = route_outcome(route, name, rr, served, x);
            &&& rr1 == rr
            &&& (m is None <==> forall|j: int| 0 <= j < route.targets.len() ==> !served.contains(
                #[trigger] route.targets[j].model,
            ))
            &&& m matches Some(model) ==> served.contains(model) && exists|k: int|
                0 <= k < route.targets.len() && route.targets[k].model == model && forall|j: int|
                    0 <= j < k ==> !served.contains(#[trigger] route.targets[j].model)
        }),
{
    lemma_first_available_is_first(route.targets, served, 0);
}

/// A name of a configured model resolves to that model, leaving the
/// round-robin counters as they were.
pub proof fn lemma_model_name_resolves_to_itself(
    models: Map<Seq<char>, GatewayModelView>,
    routes: Map<Seq<char>, RouteView>,
    rr: Map<Seq<char>, usize>,
    reference: Seq<char>,
    x: u32,
)
    requires
        models.dom().contains(reference),
    ensures
        resolution(models, routes, rr, reference, x) == (Some(reference), rr),
{
}

/// The index of the target a weighted route picks for the draw `x`.
pub fn pick_weighted(targets: &Vec<RouteTarget>, x: u32) -> (i: usize)
    requires
        targets@.len() > 0,
        weight_sum(targets_view(targets@), targets@.len() as int) <= u32::MAX,
    ensures
        i == weighted_index(targets_view(targets@), x),
        i < targets@.len(),
{
    let ghost ts = targets_view(targets@);
    let n = targets.len();
    let mut total: u32 = 0;
    let mut k: usize = 0;
    while k < n
        invariant
            n == targets@.len(),
            ts == targets_view(targets@),
            weight_sum(ts, n as int) <= u32::MAX,
            0 <= k <= n,
            total == weight_sum(ts, k as int),
        decreases n - k,
    {
        proof {
            lemma_weight_sum_mono(ts, k + 1, n as int);
        }
        total = total + targets[k].weight;
        k = k + 1;
    }
    if total == 0 {
        return 0;
    }
    let r = x % total;
    let mut acc: u32 = 0;
    let mut i: usize = 0;
    while i < n
        invariant
            n == targets@.len(),
            ts == targets_view(targets@),
            total == weight_sum(ts, n as int),
            total > 0,
            r == x % total,
            0 <= i <= n,
            acc == weight_sum(ts, i as int),
            first_over(ts, r as int, 0) == first_over(ts, r as int, i as int),
        decreases n - i,
    {
        proof {
            lemma_weight_sum_mono(ts, i + 1, n as int);
        }
        acc = acc + targets[i].weight;
        if r < acc {
            return i;
        }
        i = i + 1;
    }
    0
}

/// The first target whose model is served, if any.
fn pick_available(targets: &Vec<RouteTarget>, models: &StrMap<GatewayModel>) -> (r: Option<usize>)
    requires
        models.wf(),
    ensures
        match r {
            Some(i) => i < targets@.len() && first_available(targets_view(targets@), models.map().dom(), 0) == Some(
                i as int,
            ),
            None => first_available(targets_view(targets@), models.map().dom(), 0) is None,
        },
{
    let ghost ts = targets_view(targets@);
    let n = targets.len();
    let mut i: usize = 0;
    while i < n
        invariant
            models.wf(),
            n == targets@.len(),
            ts == targets_view(targets@),
            0 <= i <= n,
            first_available(ts, models.map().dom(), 0) == first_available(ts, models.map().dom(), i as int),
        decreases n - i,
    {
        assert(ts[i as int].model == targets@[i as int].model@);
        if models.contains_key(targets[i].model.as_str()) {
            return Some(i);
        }
        i = i + 1;
    }
    None
}

fn low32_of(n: i64) -> (r: u32)
    ensures
        r == n as u32,
{
    n as u32
}

/// The draw a weighted route takes from a clock reading in nanoseconds:
/// its low 32 bits, or 0 without a reading.
pub open spec fn draw_of(clock_nanos: Option<i64>) -> u32 {
    match clock_nanos {
        Some(v) => v as u32,
        None => 0,
    }
}

/// The model name a route picks, a weighted one by the draw that the clock
/// reading `clock_nanos` gives; round-robin routes advance their counter.
fn select_from_route(
    rr: &mut StrMap<usize>,
    models: &StrMap<GatewayModel>,
    route_name: &str,
    route: &RouteDefinition,
    clock_nanos: Option<i64>,
) -> (r: Option<String>)
    requires
        old(rr).wf(),
        models.wf(),
        forall|k: Seq<char>| old(rr).map().dom().contains(k) ==> old(rr).map()[k] < usize::MAX,
        weights_fit(route@),
    ensures
        final(rr).wf(),
        forall|k: Seq<char>| final(rr).map().dom().contains(k) ==> final(rr).map()[k] < usize::MAX,
        (match r {
            Some(s) => Some(s@),
            None => None::<Seq<char>>,
        }, final(rr).map()) == route_outcome(route@, route_name@, old(rr).map(), models.map().dom(), draw_of(clock_nanos)),
{
    let ghost ts = targets_view(route.targets@);
    let n = route.targets.len();
    if n == 0 {
        assert(route_outcome(route@, route_name@, old(rr).map(), models.map().dom(), 0).0 is None);
        return None;
    }
    if str_eq(route.strategy.as_str(), "round_robin") {
        let c: usize = match rr.get(route_name) {
            Some(v) => *v,
            None => 0,
        };
        let t = route.targets[c % n].model.clone();
        rr.insert(String::from_str(route_name), (c + 1) % n);
        proof {
            let o = route_outcome(route@, route_name@, old(rr).map(), models.map().dom(), 0);
            assert(ts[(c % n) as int] == route.targets@[(c % n) as int]@);
            assert(o.1 =~= rr.map());
            assert(o.0 == Some(t@));
        }
        Some(t)
    } else if str_eq(route.strategy.as_str(), "weighted") {
        let x: u32 = match clock_nanos {
            Some(v) => low32_of(v),
            None => 0,
        };
        let i = pick_weighted(&route.targets, x);
        proof {
            reveal_strlit("round_robin");
            reveal_strlit("weighted");
            assert("round_robin"@.len() != "weighted"@.len());
            let o = route_outcome(route@, route_name@, old(rr).map(), models.map().dom(), x);
            assert(ts[i as int] == route.targets@[i as int]@);
            assert(o.0 == Some(route.targets@[i as int].model@));
        }
        Some(route.targets[i].model.clone())
    } else {
        let i = pick_available(&route.targets, models);
        proof {
            let o = route_outcome(route@, route_name@, old(rr).map(), models.map().dom(), 0);
            match i {
                Some(j) => {
                    assert(ts[j as int] == route.targets@[j as int]@);
                    assert(o.0 == Some(route.targets@[j as int].model@));
                },
                None => {
                    assert(o.0 is None);
                },
            }
        }
        match i {
            Some(j) => Some(route.targets[j].model.clone()),
            None => None,
        }
    }
}

/// The models and routes currently configured.
pub struct GatewaySnapshot {
    pub models: StrMap<GatewayModel>,
    pub routes: StrMap<RouteDefinition>,
}

impl GatewaySnapshot {
    pub closed spec fn wf(&self) -> bool {
        &&& self.models.wf()
        &&& self.routes.wf()
        &&& forall|k: Seq<char>| #[trigger] self.models.map().dom().contains(k) ==> self.models.map()[k].name@ == k
        &&& forall|k: Seq<char>| #[trigger] self.routes.map().dom().contains(k) ==> self.routes.map()[k].name@ == k
    }

    pub closed spec fn models_view(&self) -> Map<Seq<char>, GatewayModelView> {
        self.models.map().map_values(|m: GatewayModel| m@)
    }

    pub closed spec fn routes_view(&self) -> Map<Seq<char>, RouteView> {
        self.routes.map().map_values(|r: RouteDefinition| r@)
    }

    /// The order in which the models were added.
    pub closed spec fn model_order(&self) -> Seq<Seq<char>> {
        self.models.key_seq()
    }

    /// The order in which the routes were added.
    pub closed spec fn route_order(&self) -> Seq<Seq<char>> {
        self.routes.key_seq()
    }

    /// An empty table.
    pub fn empty() -> (s: GatewaySnapshot)
        ensures
            s.wf(),
            s.models_view() == Map::<Seq<char>, GatewayModelView>::empty(),
            s.routes_view() == Map::<Seq<char>, RouteView>::empty(),
            s.model_order() == Seq::<Seq<char>>::empty(),
            s.route_order() == Seq::<Seq<char>>::empty(),
    {
        let s = GatewaySnapshot { models: StrMap::new(), routes: StrMap::new() };
        assert(s.models_view() =~= Map::<Seq<char>, GatewayModelView>::empty());
        assert(s.routes_view() =~= Map::<Seq<char>, RouteView>::empty());
        s
    }

    /// The table for a configuration, with each model's environment key
    /// value (looked up by the caller) in `env_values`; the first model that
    /// has no key or an unknown provider makes it a configuration error.
    pub fn from_config(config: &AxonConfig, env_values: &Vec<Option<String>>) -> (r: Result<GatewaySnapshot, AxonError>)
        requires
            env_values@.len() == config.models@.len(),
        ensures
            match first_problem(config.models@, env_values@, config.models@.len()) {
                Some(p) => r matches Err(AxonError::Config(m)) && m@ == p,
                None => r matches Ok(s) && s.wf()
                    && s.models_view() == models_table(config.models@, env_values@, config.models@.len())
                    && s.routes_view() == routes_table(config.routes@, config.routes@.len()),
            },
    {
        let ghost ms = config.models@;
        let ghost envs = env_values@;
        let mut models: StrMap<GatewayModel> = StrMap::new();
        let n = config.models.len();
        let mut i: usize = 0;
        assert(models.map().map_values(|m: GatewayModel| m@) =~= models_table(ms, envs, 0));
        while i < n
            invariant
                n == ms.len(),
                ms == config.models@,
                envs == env_values@,
                envs.len() == ms.len(),
                0 <= i <= n,
                models.wf(),
                first_problem(ms, envs, i as nat) is None,
                models.map().map_values(|m: GatewayModel| m@) == models_table(ms, envs, i as nat),
                forall|k: Seq<char>| #[trigger] models.map().dom().contains(k) ==> models.map()[k].name@ == k,
            decreases n - i,
        {
            let m = &config.models[i];
            let env: Option<String> = match &env_values[i] {
                Some(v) => Some(v.clone()),
                None => None,
            };
            let key = match m.resolve_api_key_with(env) {
                Some(k) => k,
                None => {
                    let e = AxonError::Config(
                        join3("model '", m.name.as_str(), "' has no api_key (neither api_key nor api_key_env resolved)"),
                    );
                    proof {
                        assert(first_problem(ms, envs, (i + 1) as nat) == model_problem(ms[i as int], envs[i as int]));
                        lemma_first_problem_stays(ms, envs, (i + 1) as nat, n as nat);
                    }
                    return Err(e);
                },
            };
            let base = m.resolve_api_base();
            let endpoint = match create_provider(m.provider.as_str(), base.as_str(), key.as_str()) {
                Ok(p) => p,
                Err(e) => {
                    proof {
                        assert(first_problem(ms, envs, (i + 1) as nat) == model_problem(ms[i as int], envs[i as int]));
                        lemma_first_problem_stays(ms, envs, (i + 1) as nat, n as nat);
                    }
                    return Err(e);
                },
            };
            let entry = GatewayModel {
                name: m.name.clone(),
                provider: m.provider.clone(),
                model_name: m.model_name.clone(),
                endpoint,
            };
            let ghost before = models.map();
            models.insert(m.name.clone(), entry);
            proof {
                assert(entry@ == model_entry(ms[i as int], envs[i as int]));
                assert(models.map().map_values(|m: GatewayModel| m@) =~= before.map_values(|m: GatewayModel| m@).insert(
                    m.name@,
                    entry@,
                ));
            }
            i = i + 1;
        }
        let mut routes: StrMap<RouteDefinition> = StrMap::new();
        let ghost rs = config.routes@;
        let nr = config.routes.len();
        let mut j: usize = 0;
        assert(routes.map().map_values(|r: RouteDefinition| r@) =~= routes_table(rs, 0));
        while j < nr
            invariant
                nr == rs.len(),
                rs == config.routes@,
                0 <= j <= nr,
                routes.wf(),
                routes.map().map_values(|r: RouteDefinition| r@) == routes_table(rs, j as nat),
                forall|k: Seq<char>| #[trigger] routes.map().dom().contains(k) ==> routes.map()[k].name@ == k,
            decreases nr - j,
        {
            let route = config.routes[j].duplicate();
            let ghost before = routes.map();
            let ghost rv = route@;
            routes.insert(config.routes[j].name.clone(), route);
            proof {
                assert(routes.map().map_values(|r: RouteDefinition| r@) =~= before.map_values(|r: RouteDefinition| r@).insert(
                    rs[j as int].name@,
                    rv,
                ));
            }
            j = j + 1;
        }
        Ok(GatewaySnapshot { models, routes })
    }
}

/// The gateway: the configured table and the round-robin counters per route.
pub struct EmbeddedGateway {
    snapshot: GatewaySnapshot,
    round_robin: StrMap<usize>,
}

impl EmbeddedGateway {
    pub closed spec fn wf(&self) -> bool {
        &&& self.snapshot.wf()
        &&& self.round_robin.wf()
        &&& forall|k: Seq<char>| #[trigger] self.round_robin.map().dom().contains(k) ==> self.round_robin.map()[k]
            < usize::MAX
    }

    /// The configured models by name.
    pub closed spec fn models(&self) -> Map<Seq<char>, GatewayModelView> {
        self.snapshot.models_view()
    }

    /// The configured routes by name.
    pub closed spec fn routes(&self) -> Map<Seq<char>, RouteView> {
        self.snapshot.routes_view()
    }

    /// The round-robin counters by route name.
    pub closed spec fn counters(&self) -> Map<Seq<char>, usize> {
        self.round_robin.map()
    }

    /// The order in which listings show the models.
    pub closed spec fn model_order(&self) -> Seq<Seq<char>> {
        self.snapshot.models.key_seq()
    }

    /// The order in which listings show the routes.
    pub closed spec fn route_order(&self) -> Seq<Seq<char>> {
        self.snapshot.routes.key_seq()
    }

    /// A gateway with no models and no routes.
    pub fn new() -> (g: EmbeddedGateway)
        ensures
            g.wf(),
            g.models() == Map::<Seq<char>, GatewayModelView>::empty(),
            g.routes() == Map::<Seq<char>, RouteView>::empty(),
            g.counters() == Map::<Seq<char>, usize>::empty(),
            g.model_order() == Seq::<Seq<char>>::empty(),
            g.route_order() == Seq::<Seq<char>>::empty(),
    {
        EmbeddedGateway { snapshot: GatewaySnapshot::empty(), round_robin: StrMap::new() }
    }

    /// A gateway for a configuration (see `GatewaySnapshot::from_config`).
    pub fn from_config(config: &AxonConfig, env_values: &Vec<Option<String>>) -> (r: Result<EmbeddedGateway, AxonError>)
        requires
            env_values@.len() == config.models@.len(),
        ensures
            match first_problem(config.models@, env_values@, config.models@.len()) {
                Some(p) => r matches Err(AxonError::Config(m)) && m@ == p,
                None => r matches Ok(g) && g.wf()
                    && g.models() == models_table(config.models@, env_values@, config.models@.len())
                    && g.routes() == routes_table(config.routes@, config.routes@.len())
                    && g.counters() == Map::<Seq<char>, usize>::empty(),
            },
    {
        match GatewaySnapshot::from_config(config, env_values) {
            Ok(s) => Ok(EmbeddedGateway { snapshot: s, round_robin: StrMap::new() }),
            Err(e) => Err(e),
        }
    }

    /// Replaces the table by the one for a new configuration; on an error
    /// the gateway is left as it was. The round-robin counters are kept.
    pub fn reload(&mut self, config: &AxonConfig, env_values: &Vec<Option<String>>) -> (r: Result<(), AxonError>)
        requires
            old(self).wf(),
            env_values@.len() == config.models@.len(),
        ensures
            final(self).wf(),
            final(self).counters() == old(self).counters(),
            match first_problem(config.models@, env_values@, config.models@.len()) {
                Some(p) => r matches Err(AxonError::Config(m)) && m@ == p && final(self).models() == old(self).models()
                    && final(self).routes() == old(self).routes(),
                None => r is Ok && final(self).models() == models_table(
                    config.models@,
                    env_values@,
                    config.models@.len(),
                ) && final(self).routes() == routes_table(config.routes@, config.routes@.len()),
            },
    {
        match GatewaySnapshot::from_config(config, env_values) {
            Ok(s) => {
                self.snapshot = s;
                Ok(())
            },
            Err(e) => Err(e),
        }
    }

    /// Whether a weighted route of this name (when the name is no model)
    /// has weights that add up within `u32`, as choosing from it requires.
    pub fn weights_fit_for(&self, reference: &str) -> (b: bool)
        requires
            self.wf(),
        ensures
            b == (!self.models().dom().contains(reference@) && self.routes().dom().contains(reference@)
                ==> weights_fit(self.routes()[reference@])),
    {
        if self.snapshot.models.contains_key(reference) {
            return true;
        }
        assert(self.models().dom() =~= self.snapshot.models.map().dom());
        match self.snapshot.routes.get(reference) {
            None => true,
            Some(route) => {
                assert(self.routes().dom().contains(reference@));
                assert(self.routes()[reference@] == route@);
                if !str_eq(route.strategy.as_str(), "weighted") {
                    return true;
                }
                let ghost ts = targets_view(route.targets@);
                let n = route.targets.len();
                let mut total: u64 = 0;
                let mut k: usize = 0;
                while k < n
                    invariant
                        n == route.targets@.len(),
                        ts == targets_view(route.targets@),
                        route.strategy@ == "weighted"@,
                        self.routes().dom().contains(reference@),
                        self.routes()[reference@] == route@,
                        !self.models().dom().contains(reference@),
                        0 <= k <= n,
                        total == weight_sum(ts, k as int),
                        total <= u32::MAX,
                    decreases n - k,
                {
                    assert(ts[k as int].weight == route.targets@[k as int].weight);
                    total = total + route.targets[k].weight as u64;
                    if total > 0xffff_ffff {
                        proof {
                            lemma_weight_sum_mono(ts, k + 1, n as int);
                        }
                        return false;
                    }
                    k = k + 1;
                }
                true
            },
        }
    }

    /// The name of the model serving a reference: the model of that name,
    /// else the pick of the route of that name, else none. A round-robin
    /// route advances its counter; a weighted route draws from the clock,
    /// so the result is stated for some draw `x`.
    pub fn resolve_model_name(&mut self, reference: &str) -> (r: Option<String>)
        requires
            old(self).wf(),
            !old(self).models().dom().contains(reference@) && old(self).routes().dom().contains(reference@)
                ==> weights_fit(old(self).routes()[reference@]),
        ensures
            final(self).wf(),
            final(self).models() == old(self).models(),
            final(self).routes() == old(self).routes(),
            final(self).model_order() == old(self).model_order(),
            final(self).route_order() == old(self).route_order(),
            exists|x: u32|
                (match r {
                    Some(s) => Some(s@),
                    None => None::<Seq<char>>,
                }, final(self).counters()) == #[trigger] resolution(
                    old(self).models(),
                    old(self).routes(),
                    old(self).counters(),
                    reference@,
                    x,
                ),
    {
        let ghost m0 = self.models();
        let ghost r0 = self.routes();
        let ghost c0 = self.counters();
        if self.snapshot.models.contains_key(reference) {
            assert(self.models().dom().contains(reference@));
            assert(resolution(m0, r0, c0, reference@, 0).0 == Some(reference@));
            return Some(String::from_str(reference));
        }
        assert(!self.models().dom().contains(reference@));
        assert(self.models().dom() =~= self.snapshot.models.map().dom());
        match self.snapshot.routes.get(reference) {
            Some(route) => {
                assert(self.routes().dom().contains(reference@));
                assert(self.routes()[reference@] == route@);
                let now = utc_now_nanos();
                let r = select_from_route(&mut self.round_robin, &self.snapshot.models, reference, route, now);
                proof {
                    let x = draw_of(now);
                    assert(resolution(m0, r0, c0, reference@, x) == route_outcome(
                        route@,
                        reference@,
                        c0,
                        self.snapshot.models.map().dom(),
                        x,
                    ));
                }
                r
            },
            None => {
                assert(!self.routes().dom().contains(reference@));
                assert(resolution(m0, r0, c0, reference@, 0).0 is None);
                None
            },
        }
    }

    /// The model serving a request for `model` and its upstream model name,
    /// or the not-found error a request for it is answered with.
    pub fn route_chat(&mut self, model: &str) -> (r: Result<(String, String), AxonError>)
        requires
            old(self).wf(),
            !old(self).models().dom().contains(model@) && old(self).routes().dom().contains(model@)
                ==> weights_fit(old(self).routes()[model@]),
        ensures
            final(self).wf(),
            final(self).models() == old(self).models(),
            final(self).routes() == old(self).routes(),
            final(self).model_order() == old(self).model_order(),
            final(self).route_order() == old(self).route_order(),
            exists|x: u32|
                {
                    let o = #[trigger] resolution(old(self).models(), old(self).routes(), old(self).counters(), model@, x);
                    &&& final(self).counters() == o.1
                    &&& match o.0 {
                        None => r matches Err(AxonError::NotFound(m)) && m@ == "model or route '"@ + model@
                            + "' not found"@,
                        Some(name) => if old(self).models().dom().contains(name) {
                            r matches Ok(p) && p.0@ == name && p.1@ == old(self).models()[name].model_name
                        } else {
                            r matches Err(AxonError::NotFound(m)) && m@ == "provider for model '"@ + name
                                + "' not found"@
                        },
                    }
                },
    {
        let ghost m0 = self.models();
        let ghost r0 = self.routes();
        let ghost c0 = self.counters();
        let resolved = self.resolve_model_name(model);
        let ghost x = choose|x: u32|
            (match resolved {
                Some(s) => Some(s@),
                None => None::<Seq<char>>,
            }, self.counters()) == #[trigger] resolution(m0, r0, c0, model@, x);
        assert(resolution(m0, r0, c0, model@, x).1 == self.counters());
        let name = match resolved {
            Some(n) => n,
            None => {
                return Err(AxonError::NotFound(join3("model or route '", model, "' not found")));
            },
        };
        match self.snapshot.models.get(name.as_str()) {
            Some(m) => {
                assert(self.models().dom().contains(name@));
                assert(self.models()[name@] == m@);
                let upstream = m.model_name.clone();
                Ok((name, upstream))
            },
            None => {
                assert(!self.models().dom().contains(name@));
                Err(AxonError::NotFound(join3("provider for model '", name.as_str(), "' not found")))
            },
        }
    }

    /// The configured models, in listing order.
    pub fn list_models(&self) -> (v: Vec<ModelInfo>)
        requires
            self.wf(),
        ensures
            self.model_order().no_duplicates(),
            self.model_order().to_set() == self.models().dom(),
            v@.len() == self.model_order().len(),
            forall|i: int| 0 <= i < v@.len() ==> {
                let k = self.model_order()[i];
                &&& (#[trigger] v@[i]).id@ == k
                &&& v@[i].provider@ == self.models()[k].provider
                &&& v@[i].model_name@ == self.models()[k].model_name
            },
    {
        proof {
            self.snapshot.models.lemma_keys();
        }
        let n = self.snapshot.models.len();
        let mut v: Vec<ModelInfo> = Vec::new();
        let mut i: usize = 0;
        while i < n
            invariant
                self.wf(),
                n == self.model_order().len(),
                0 <= i <= n,
                v@.len() == i,
                forall|j: int| 0 <= j < i ==> {
                    let k = self.model_order()[j];
                    &&& (#[trigger] v@[j]).id@ == k
                    &&& v@[j].provider@ == self.models()[k].provider
                    &&& v@[j].model_name@ == self.models()[k].model_name
                },
            decreases n - i,
        {
            let (key, m) = self.snapshot.models.entry(i);
            v.push(ModelInfo { id: key.clone(), provider: m.provider.clone(), model_name: m.model_name.clone() });
            i = i + 1;
        }
        v
    }

    /// Copies of the configured routes, in listing order.
    pub fn list_routes(&self) -> (v: Vec<RouteDefinition>)
        requires
            self.wf(),
        ensures
            self.route_order().no_duplicates(),
            self.route_order().to_set() == self.routes().dom(),
            v@.len() == self.route_order().len(),
            forall|i: int| 0 <= i < v@.len() ==> (#[trigger] v@[i])@ == self.routes()[self.route_order()[i]],
    {
        proof {
            self.snapshot.routes.lemma_keys();
        }
        let n = self.snapshot.routes.len();
        let mut v: Vec<RouteDefinition> = Vec::new();
        let mut i: usize = 0;
        while i < n
            invariant
                self.wf(),
                n == self.route_order().len(),
                0 <= i <= n,
                v@.len() == i,
                forall|j: int| 0 <= j < i ==> (#[trigger] v@[j])@ == self.routes()[self.route_order()[j]],
            decreases n - i,
        {
            let (_key, r) = self.snapshot.routes.entry(i);
            v.push(r.duplicate());
            i = i + 1;
        }
        v
    }

    /// The settings of every configured model, in listing order, for the
    /// caller to build its provider clients from.
    pub fn model_entries(&self) -> (v: Vec<&GatewayModel>)
        requires
            self.wf(),
        ensures
            v@.len() == self.model_order().len(),
            forall|i: int| 0 <= i < v@.len() ==> (#[trigger] v@[i])@ == self.models()[self.model_order()[i]],
    {
        let n = self.snapshot.models.len();
        let mut v: Vec<&GatewayModel> = Vec::new();
        let mut i: usize = 0;
        while i < n
            invariant
                self.wf(),
                n == self.model_order().len(),
                0 <= i <= n,
                v@.len() == i,
                forall|j: int| 0 <= j < i ==> (#[trigger] v@[j])@ == self.models()[self.model_order()[j]],
            decreases n - i,
        {
            let (_key, m) = self.snapshot.models.entry(i);
            v.push(m);
            i = i + 1;
        }
        v
    }
}

impl Default for EmbeddedGateway {
    fn default() -> (g: Self)
        ensures
            g.wf(),
            g.models() == Map::<Seq<char>, GatewayModelView>::empty(),
            g.routes() == Map::<Seq<char>, RouteView>::empty(),
            g.counters() == Map::<Seq<char>, usize>::empty(),
    {
        EmbeddedGateway::new()
    }
}

} // verus!
