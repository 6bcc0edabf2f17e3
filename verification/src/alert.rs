//! Threshold alerting: evaluation, cooldowns, suppression, routing policy
//! and bounded history.
//!
//! Thresholds are keyed policy entries; evaluation reads one immutable
//! metrics snapshot at a caller-supplied wall-clock time, fires at most one
//! alert per threshold per call, honours per-threshold cooldowns, and asks
//! the suppression rules before every insertion, so no rule's bound is ever
//! exceeded by alerts it matches. A new alert replaces the active alert on
//! its metric and layer, keeping at most one active alert per
//! `(metric, layer)`. History is a bounded ring.

use vstd::prelude::*;
use crate::NyxError;
use crate::metrics::{LayerType, MetricId, MetricsSnapshot, extract_metric_value,
    spec_extract_metric};
use crate::pairmap::{pair_map, unique_keys, remove_key_seq, lemma_pair_map_contains,
    lemma_pair_map_update, lemma_pair_map_remove};

verus! {

#[derive(Clone, Copy, PartialEq, Eq, Structural, Debug, Hash)]
pub enum AlertSeverity {
    Info,
    Warning,
    Critical,
}

#[derive(Clone, Copy, PartialEq, Eq, Structural, Debug)]
pub enum ThresholdComparison {
    GreaterThan,
    LessThan,
    Equal,
}

/// One alerting rule: fire with `severity` when `metric` compares against
/// `threshold`, at most once per `cooldown_ms`.
#[derive(Clone, Copy, PartialEq, Eq, Structural, Debug)]
pub struct AlertThreshold {
    pub metric: MetricId,
    /// Compared against the metric's fixed-point value (hundredths).
    pub threshold: u64,
    pub severity: AlertSeverity,
    pub comparison: ThresholdComparison,
    pub layer: Option<LayerType>,
    pub enabled: bool,
    pub cooldown_ms: u64,
    pub last_triggered_ms: Option<u64>,
}

/// One fired alert.
#[derive(Clone, Copy, PartialEq, Eq, Structural, Debug)]
pub struct Alert {
    pub id: u64,
    pub timestamp_ms: u64,
    pub severity: AlertSeverity,
    pub metric: MetricId,
    pub current_value: u64,
    pub threshold: u64,
    pub layer: Option<LayerType>,
    pub resolved: bool,
    pub resolved_at_ms: Option<u64>,
}

/// Cap on alerts a pattern may have active inside a time window.
#[derive(Clone, Copy, PartialEq, Eq, Structural, Debug)]
pub struct SuppressionRule {
    /// The metric the rule matches; `None` matches every metric.
    pub metric: Option<MetricId>,
    pub layer: Option<LayerType>,
    pub max_alerts: u64,
    pub duration_ms: u64,
    pub created_at_ms: u64,
}

/// Where a routed alert goes.
#[derive(Clone, PartialEq, Eq, Debug)]
pub enum AlertHandler {
    Console,
    Log,
    Email(String),
    Webhook(String),
}

/// One routing entry: which severities and layers reach which handler.
pub struct AlertRoute {
    pub severity_filter: Vec<AlertSeverity>,
    pub layer_filter: Vec<LayerType>,
    pub handler: AlertHandler,
}

#[derive(Clone, Copy, PartialEq, Eq, Structural, Debug)]
pub enum AlertAction {
    Created,
    Resolved,
}

/// One line of the alert history.
#[derive(Clone, Copy, PartialEq, Eq, Structural, Debug)]
pub struct AlertHistoryEntry {
    pub alert: Alert,
    pub action: AlertAction,
    pub timestamp_ms: u64,
}

/// Whether a rule's pattern matches a metric.
pub open spec fn spec_rule_matches_metric(rule: SuppressionRule, m: MetricId) -> bool {
    rule.metric is None || rule.metric == Some(m)
}

/// Whether a rule applies to an alert on `(m, layer)`: the pattern matches
/// and the rule either names no layer or names exactly this one.
pub open spec fn spec_rule_applies(rule: SuppressionRule, m: MetricId, layer: Option<
    LayerType,
>) -> bool {
    spec_rule_matches_metric(rule, m) && (rule.layer is None || rule.layer == layer)
}

/// Whether a rule's window still covers `now_ms`.
pub open spec fn spec_rule_in_force(rule: SuppressionRule, now_ms: u64) -> bool {
    (now_ms as int) < rule.created_at_ms + rule.duration_ms
}

/// How many active alerts a rule's pattern matches.
pub open spec fn spec_count_matching(active: Seq<Alert>, rule: SuppressionRule) -> int
    decreases active.len(),
{
    if active.len() == 0 {
        0
    } else {
        spec_count_matching(active.drop_last(), rule) + if spec_rule_matches_metric(
            rule,
            active.last().metric,
        ) {
            1int
        } else {
            0int
        }
    }
}

/// How many active alerts a rule applies to: its pattern matches their
/// metric and its layer filter, if any, names their layer.
pub open spec fn spec_count_applicable(active: Seq<Alert>, rule: SuppressionRule) -> int
    decreases active.len(),
{
    if active.len() == 0 {
        0
    } else {
        spec_count_applicable(active.drop_last(), rule) + if spec_rule_applies(
            rule,
            active.last().metric,
            active.last().layer,
        ) {
            1int
        } else {
            0int
        }
    }
}

/// A rule applies to no more alerts than its pattern matches.
proof fn lemma_count_applicable_le(active: Seq<Alert>, rule: SuppressionRule)
    ensures
        spec_count_applicable(active, rule) <= spec_count_matching(active, rule),
    decreases active.len(),
{
    if active.len() > 0 {
        lemma_count_applicable_le(active.drop_last(), rule);
    }
}

/// Appending an alert raises a rule's applicable count by one exactly when
/// the rule applies to it.
proof fn lemma_count_applicable_push(active: Seq<Alert>, a: Alert, rule: SuppressionRule)
    ensures
        spec_count_applicable(active.push(a), rule) == spec_count_applicable(active, rule) + if
        spec_rule_applies(rule, a.metric, a.layer) {
            1int
        } else {
            0int
        },
{
    assert(active.push(a).drop_last() =~= active);
}

/// Whether an alert on `(m, layer)` must be suppressed now: some rule
/// applies, is in force, and already has its fill of matching active
/// alerts.
pub open spec fn spec_should_suppress(rules: Seq<SuppressionRule>, active: Seq<Alert>,
    m: MetricId, layer: Option<LayerType>, now_ms: u64) -> bool {
    exists|k: int|
        0 <= k < rules.len() && spec_rule_applies(rules[k], m, layer) && spec_rule_in_force(
            rules[k],
            now_ms,
        ) && spec_count_matching(active, rules[k]) >= rules[k].max_alerts
}

/// Whether `value` breaches `threshold` under `cmp`.
pub open spec fn spec_breaches(value: u64, threshold: u64, cmp: ThresholdComparison) -> bool {
    match cmp {
        ThresholdComparison::GreaterThan => value > threshold,
        ThresholdComparison::LessThan => value < threshold,
        ThresholdComparison::Equal => value == threshold,
    }
}

/// Whether a threshold's cooldown allows firing at `now_ms`.
pub open spec fn spec_cooldown_over(t: AlertThreshold, now_ms: u64) -> bool {
    match t.last_triggered_ms {
        None => true,
        Some(lt) => lt <= now_ms && now_ms - lt >= t.cooldown_ms,
    }
}

/// Whether a threshold fires on this snapshot at this time, suppression
/// aside.
pub open spec fn spec_threshold_fires(t: AlertThreshold, s: MetricsSnapshot, now_ms: u64) -> bool {
    t.enabled && spec_cooldown_over(t, now_ms) && match spec_extract_metric(s, t.metric, t.layer) {
        Some(v) => spec_breaches(v, t.threshold, t.comparison),
        None => false,
    }
}

/// The alert a threshold breach produces, given the breaching value and
/// the allocated id.
pub open spec fn spec_alert_for(t: AlertThreshold, s: MetricsSnapshot, now_ms: u64, id: u64) -> Alert {
    Alert {
        id,
        timestamp_ms: now_ms,
        severity: t.severity,
        metric: t.metric,
        current_value: spec_extract_metric(s, t.metric, t.layer).unwrap(),
        threshold: t.threshold,
        layer: t.layer,
        resolved: false,
        resolved_at_ms: None,
    }
}

/// The active set with every alert covering `(m, layer)` taken out, in
/// order; under the one-per-`(metric, layer)` invariant that is at most
/// one alert.
pub open spec fn spec_drop_covering(active: Seq<Alert>, m: MetricId, layer: Option<
    LayerType,
>) -> Seq<Alert>
    decreases active.len(),
{
    if active.len() == 0 {
        active
    } else {
        let p = spec_drop_covering(active.drop_last(), m, layer);
        if active.last().metric == m && active.last().layer == layer {
            p
        } else {
            p.push(active.last())
        }
    }
}

/// What dropping the covering alerts keeps: only entries of the original
/// set, none covering, and no more matches for any suppression rule.
proof fn lemma_drop_covering_facts(active: Seq<Alert>, m: MetricId, layer: Option<LayerType>,
    rule: SuppressionRule)
    ensures
        spec_drop_covering(active, m, layer).len() <= active.len(),
        forall|x: int|
            0 <= x < spec_drop_covering(active, m, layer).len() ==> !((#[trigger] spec_drop_covering(
                active,
                m,
                layer,
            )[x]).metric == m && spec_drop_covering(active, m, layer)[x].layer == layer) && (exists|
                j: int,
            |
                0 <= j < active.len() && active[j] == spec_drop_covering(active, m, layer)[x]),
        spec_count_matching(spec_drop_covering(active, m, layer), rule) <= spec_count_matching(
            active,
            rule,
        ),
        !spec_rule_matches_metric(rule, m) ==> spec_count_matching(
            spec_drop_covering(active, m, layer),
            rule,
        ) == spec_count_matching(active, rule),
        spec_count_applicable(spec_drop_covering(active, m, layer), rule)
            <= spec_count_applicable(active, rule),
        !spec_rule_applies(rule, m, layer) ==> spec_count_applicable(
            spec_drop_covering(active, m, layer),
            rule,
        ) == spec_count_applicable(active, rule),
    decreases active.len(),
{
    if active.len() > 0 {
        lemma_drop_covering_facts(active.drop_last(), m, layer, rule);
        let p = spec_drop_covering(active.drop_last(), m, layer);
        assert(forall|i: int|
            0 <= i < active.drop_last().len() ==> active.drop_last()[i] == active[i]);
        if !(active.last().metric == m && active.last().layer == layer) {
            assert(p.push(active.last()).drop_last() =~= p);
            assert(p.push(active.last()).last() == active.last());
        }
    }
}

/// Dropping the covering alerts of a well-formed active set keeps its ids
/// distinct and bounded and its `(metric, layer)` pairs unique.
proof fn lemma_drop_covering_wf(active: Seq<Alert>, m: MetricId, layer: Option<LayerType>,
    bound: u64)
    requires
        forall|i: int| 0 <= i < active.len() ==> (#[trigger] active[i]).id < bound,
        forall|i: int, j: int| 0 <= i < j < active.len() ==> active[i].id != active[j].id,
        forall|i: int, j: int|
            0 <= i < j < active.len() ==> !((#[trigger] active[i]).metric == (
            #[trigger] active[j]).metric && active[i].layer == active[j].layer),
    ensures
        forall|i: int|
            0 <= i < spec_drop_covering(active, m, layer).len() ==> (#[trigger] spec_drop_covering(
                active,
                m,
                layer,
            )[i]).id < bound,
        forall|i: int, j: int|
            0 <= i < j < spec_drop_covering(active, m, layer).len() ==> spec_drop_covering(
                active,
                m,
                layer,
            )[i].id != spec_drop_covering(active, m, layer)[j].id,
        forall|i: int, j: int|
            0 <= i < j < spec_drop_covering(active, m, layer).len() ==> !((
            #[trigger] spec_drop_covering(active, m, layer)[i]).metric == (
            #[trigger] spec_drop_covering(active, m, layer)[j]).metric && spec_drop_covering(
                active,
                m,
                layer,
            )[i].layer == spec_drop_covering(active, m, layer)[j].layer),
    decreases active.len(),
{
    if active.len() > 0 {
        let prior = active.drop_last();
        assert(forall|i: int| 0 <= i < prior.len() ==> prior[i] == active[i]);
        lemma_drop_covering_wf(prior, m, layer, bound);
        let p = spec_drop_covering(prior, m, layer);
        lemma_drop_covering_facts(prior, m, layer, SuppressionRule {
            metric: None,
            layer: None,
            max_alerts: 0,
            duration_ms: 0,
            created_at_ms: 0,
        });
        if !(active.last().metric == m && active.last().layer == layer) {
            let q = p.push(active.last());
            assert(forall|i: int| 0 <= i < p.len() ==> q[i] == p[i]);
            assert(q.last() == active.last());
            assert forall|i: int| 0 <= i < p.len() implies p[i].id != active.last().id && !(
            p[i].metric == active.last().metric && p[i].layer == active.last().layer) by {
                let j = choose|j: int| 0 <= j < prior.len() && prior[j] == p[i];
                assert(active[j] == p[i]);
            }
        }
    }
}

/// Whether one of the created alerts covers this threshold's metric and
/// layer — exactly the thresholds that get their trigger stamp.
pub open spec fn spec_some_created_matches(created: Seq<Alert>, t: AlertThreshold) -> bool {
    exists|x: int|
        0 <= x < created.len() && (#[trigger] created[x]).metric == t.metric && created[x].layer
            == t.layer
}

/// The history line recording an action on an alert at `now_ms`.
pub open spec fn spec_history_entry(a: Alert, action: AlertAction, now_ms: u64) -> AlertHistoryEntry {
    AlertHistoryEntry { alert: a, action, timestamp_ms: now_ms }
}

/// One ring append: the entry goes on the end, the oldest line leaves once
/// the ring is full.
pub open spec fn spec_ring_push(h: Seq<AlertHistoryEntry>, e: AlertHistoryEntry, m: int) -> Seq<
    AlertHistoryEntry,
> {
    if h.len() < m {
        h.push(e)
    } else {
        h.push(e).drop_first()
    }
}

/// The Created lines of a batch of alerts, pushed through the ring in
/// order.
pub open spec fn spec_ring_append_created(h: Seq<AlertHistoryEntry>, alerts: Seq<Alert>,
    now_ms: u64, m: int) -> Seq<AlertHistoryEntry>
    decreases alerts.len(),
{
    if alerts.len() == 0 {
        h
    } else {
        spec_ring_append_created(
            spec_ring_push(h, spec_history_entry(alerts[0], AlertAction::Created, now_ms), m),
            alerts.drop_first(),
            now_ms,
            m,
        )
    }
}

/// Appending one more alert to the batch appends one more Created line.
proof fn lemma_ring_append_snoc(h: Seq<AlertHistoryEntry>, alerts: Seq<Alert>, a: Alert,
    now_ms: u64, m: int)
    ensures
        spec_ring_append_created(h, alerts.push(a), now_ms, m) == spec_ring_push(
            spec_ring_append_created(h, alerts, now_ms, m),
            spec_history_entry(a, AlertAction::Created, now_ms),
            m,
        ),
    decreases alerts.len(),
{
    reveal_with_fuel(spec_ring_append_created, 3);
    if alerts.len() == 0 {
        assert(alerts.push(a).drop_first() =~= Seq::<Alert>::empty());
        assert(alerts.push(a)[0] == a);
    } else {
        assert(alerts.push(a).drop_first() =~= alerts.drop_first().push(a));
        assert(alerts.push(a)[0] == alerts[0]);
        lemma_ring_append_snoc(
            spec_ring_push(h, spec_history_entry(alerts[0], AlertAction::Created, now_ms), m),
            alerts.drop_first(),
            a,
            now_ms,
            m,
        );
    }
}

/// One evaluation pass over the threshold table, in order: the active set
/// after it and the alerts it created. A threshold acts exactly when it
/// fires on the snapshot and no suppression rule in force objects; its new
/// alert then replaces whatever active alert covered the same metric and
/// layer, so at most one alert per `(metric, layer)` is ever active, and
/// each created alert counts for the thresholds after it.
pub open spec fn spec_eval_pass(ths: Seq<(u64, AlertThreshold)>, s: MetricsSnapshot, now_ms: u64,
    rules: Seq<SuppressionRule>, active0: Seq<Alert>, next0: u64) -> (Seq<Alert>, Seq<Alert>)
    decreases ths.len(),
{
    if ths.len() == 0 {
        (active0, Seq::empty())
    } else {
        let (active, prev) = spec_eval_pass(ths.drop_last(), s, now_ms, rules, active0, next0);
        let t = ths.last().1;
        if spec_threshold_fires(t, s, now_ms) && !spec_should_suppress(
            rules,
            active,
            t.metric,
            t.layer,
            now_ms,
        ) {
            let a = spec_alert_for(t, s, now_ms, (next0 + prev.len()) as u64);
            (spec_drop_covering(active, t.metric, t.layer).push(a), prev.push(a))
        } else {
            (active, prev)
        }
    }
}

/// The alerts one evaluation pass creates, in threshold order.
pub open spec fn spec_created_alerts(ths: Seq<(u64, AlertThreshold)>, s: MetricsSnapshot,
    now_ms: u64, rules: Seq<SuppressionRule>, active0: Seq<Alert>, next0: u64) -> Seq<Alert> {
    spec_eval_pass(ths, s, now_ms, rules, active0, next0).1
}

/// The active set after one evaluation pass.
pub open spec fn spec_active_after(ths: Seq<(u64, AlertThreshold)>, s: MetricsSnapshot,
    now_ms: u64, rules: Seq<SuppressionRule>, active0: Seq<Alert>, next0: u64) -> Seq<Alert> {
    spec_eval_pass(ths, s, now_ms, rules, active0, next0).0
}

/// An alert with its resolution stamps set at `now_ms`.
pub open spec fn spec_resolved_alert(a: Alert, now_ms: u64) -> Alert {
    Alert { resolved: true, resolved_at_ms: Some(now_ms), ..a }
}

/// The alerting core: policy tables, active alerts and bounded history.
pub struct AlertSystem {
    thresholds: Vec<(u64, AlertThreshold)>,
    active_alerts: Vec<Alert>,
    history: Vec<AlertHistoryEntry>,
    routes: Vec<AlertRoute>,
    suppression_rules: Vec<SuppressionRule>,
    next_alert_id: u64,
    max_history_size: usize,
}

impl AlertSystem {
    pub closed spec fn spec_thresholds(self) -> Seq<(u64, AlertThreshold)> {
        self.thresholds@
    }

    /// The threshold table as a map from threshold id to rule.
    pub closed spec fn spec_threshold_map(self) -> Map<u64, AlertThreshold> {
        pair_map(self.thresholds@)
    }

    pub closed spec fn spec_active(self) -> Seq<Alert> {
        self.active_alerts@
    }

    pub closed spec fn spec_history(self) -> Seq<AlertHistoryEntry> {
        self.history@
    }

    pub closed spec fn spec_rules(self) -> Seq<SuppressionRule> {
        self.suppression_rules@
    }

    pub closed spec fn spec_routes_len(self) -> int {
        self.routes@.len() as int
    }

    pub closed spec fn spec_route(self, i: int) -> (Seq<AlertSeverity>, Seq<LayerType>,
        AlertHandler)
        recommends
            0 <= i < self.spec_routes_len(),
    {
        (self.routes@[i].severity_filter@, self.routes@[i].layer_filter@, self.routes@[i].handler)
    }

    pub closed spec fn spec_next_id(self) -> u64 {
        self.next_alert_id
    }

    pub closed spec fn spec_max_history(self) -> int {
        self.max_history_size as int
    }

    /// Threshold keys are distinct, alert ids are distinct and below the
    /// allocator, at most one active alert covers each `(metric, layer)`,
    /// and the history respects its bound.
    pub closed spec fn wf(self) -> bool {
        &&& unique_keys(self.thresholds@)
        &&& forall|i: int|
            0 <= i < self.active_alerts@.len() ==> self.active_alerts@[i].id
                < self.next_alert_id
        &&& forall|i: int, j: int|
            0 <= i < j < self.active_alerts@.len() ==> self.active_alerts@[i].id
                != self.active_alerts@[j].id
        &&& forall|i: int, j: int|
            0 <= i < j < self.active_alerts@.len() ==> !((#[trigger] self.active_alerts@[i]).metric
                == (#[trigger] self.active_alerts@[j]).metric && self.active_alerts@[i].layer
                == self.active_alerts@[j].layer)
        &&& self.history@.len() <= self.max_history_size
        &&& self.max_history_size >= 1
    }

    /// Install or replace the threshold under `id`.
    pub fn add_threshold(&mut self, id: u64, threshold: AlertThreshold)
        requires
            old(self).wf(),
        ensures
            final(self).wf(),
            final(self).spec_threshold_map() == old(self).spec_threshold_map().insert(
                id,
                threshold,
            ),
            final(self).spec_active() == old(self).spec_active(),
            final(self).spec_history() == old(self).spec_history(),
            final(self).spec_rules() == old(self).spec_rules(),
            final(self).spec_next_id() == old(self).spec_next_id(),
            final(self).spec_routes_len() == old(self).spec_routes_len(),
            forall|i: int|
                0 <= i < old(self).spec_routes_len() ==> final(self).spec_route(i) == old(self).spec_route(i),
            final(self).spec_max_history() == old(self).spec_max_history(),
    {
        let n = self.thresholds.len();
        let mut i: usize = 0;
        while i < n
            invariant
                *self == *old(self),
                old(self).wf(),
                n == self.thresholds@.len(),
                i <= n,
                forall|j: int| 0 <= j < i ==> self.thresholds@[j].0 != id,
            decreases n - i,
        {
            if self.thresholds[i].0 == id {
                proof {
                    lemma_pair_map_update(self.thresholds@, i as int, threshold);
                }
                self.thresholds.set(i, (id, threshold));
                return;
            }
            i = i + 1;
        }
        let ghost prev = self.thresholds@;
        self.thresholds.push((id, threshold));
        proof {
            assert(self.thresholds@.drop_last() =~= prev);
            assert(unique_keys(self.thresholds@)) by {
                assert(forall|j: int| 0 <= j < prev.len() ==> self.thresholds@[j] == prev[j]);
                assert(self.thresholds@[prev.len() as int].0 == id);
                assert(forall|j: int| 0 <= j < prev.len() ==> prev[j].0 != id);
            }
        }
    }

    /// Drop the threshold under `id`; reports whether one was there.
    pub fn remove_threshold(&mut self, id: u64) -> (r: bool)
        requires
            old(self).wf(),
        ensures
            final(self).wf(),
            r == old(self).spec_threshold_map().contains_key(id),
            final(self).spec_threshold_map() == old(self).spec_threshold_map().remove(id),
            final(self).spec_active() == old(self).spec_active(),
            final(self).spec_history() == old(self).spec_history(),
            final(self).spec_rules() == old(self).spec_rules(),
            final(self).spec_next_id() == old(self).spec_next_id(),
            final(self).spec_routes_len() == old(self).spec_routes_len(),
            forall|i: int|
                0 <= i < old(self).spec_routes_len() ==> final(self).spec_route(i) == old(self).spec_route(i),
            final(self).spec_max_history() == old(self).spec_max_history(),
    {
        let ghost s0 = self.thresholds@;
        let mut kept: Vec<(u64, AlertThreshold)> = Vec::new();
        let mut found = false;
        let n = self.thresholds.len();
        let mut i: usize = 0;
        while i < n
            invariant
                n == self.thresholds@.len(),
                self.thresholds@ == s0,
                i <= n,
                kept@ == remove_key_seq(s0.take(i as int), id),
                found == exists|j: int| 0 <= j < i && s0[j].0 == id,
            decreases n - i,
        {
            let e = self.thresholds[i];
            proof {
                assert(s0.take(i as int + 1).drop_last() =~= s0.take(i as int));
                assert(s0.take(i as int + 1).last() == s0[i as int]);
            }
            if e.0 == id {
                found = true;
            } else {
                kept.push(e);
            }
            i = i + 1;
        }
        proof {
            assert(s0.take(n as int) =~= s0);
            lemma_pair_map_remove(s0, id);
            lemma_pair_map_contains(s0, id);
        }
        self.thresholds = kept;
        found
    }

    /// Append a suppression rule.
    pub fn add_suppression_rule(&mut self, rule: SuppressionRule)
        requires
            old(self).wf(),
        ensures
            final(self).wf(),
            final(self).spec_rules() == old(self).spec_rules().push(rule),
            final(self).spec_thresholds() == old(self).spec_thresholds(),
            final(self).spec_active() == old(self).spec_active(),
            final(self).spec_history() == old(self).spec_history(),
            final(self).spec_next_id() == old(self).spec_next_id(),
            final(self).spec_routes_len() == old(self).spec_routes_len(),
            forall|i: int|
                0 <= i < old(self).spec_routes_len() ==> final(self).spec_route(i) == old(self).spec_route(i),
            final(self).spec_max_history() == old(self).spec_max_history(),
    {
        self.suppression_rules.push(rule);
    }

    /// Append a routing entry: the given route goes at the end of the
    /// table and every earlier route keeps its place.
    pub fn add_route(&mut self, route: AlertRoute)
        requires
            old(self).wf(),
        ensures
            final(self).wf(),
            final(self).spec_routes_len() == old(self).spec_routes_len() + 1,
            final(self).spec_route(old(self).spec_routes_len()) == (
                route.severity_filter@,
                route.layer_filter@,
                route.handler,
            ),
            forall|i: int|
                0 <= i < old(self).spec_routes_len() ==> final(self).spec_route(i) == old(self).spec_route(i),
            final(self).spec_thresholds() == old(self).spec_thresholds(),
            final(self).spec_active() == old(self).spec_active(),
            final(self).spec_history() == old(self).spec_history(),
            final(self).spec_rules() == old(self).spec_rules(),
            final(self).spec_next_id() == old(self).spec_next_id(),
            final(self).spec_max_history() == old(self).spec_max_history(),
    {
        self.routes.push(route);
    }

    /// How many active alerts this rule's pattern matches.
    fn count_matching(&self, rule: &SuppressionRule) -> (r: u64)
        ensures
            r as int == spec_count_matching(self.spec_active(), *rule),
    {
        let mut count: u64 = 0;
        let n = self.active_alerts.len();
        let mut i: usize = 0;
        while i < n
            invariant
                n == self.active_alerts@.len(),
                n <= u64::MAX,
                i <= n,
                count as int == spec_count_matching(self.active_alerts@.take(i as int), *rule),
                count <= i,
            decreases n - i,
        {
            proof {
                assert(self.active_alerts@.take(i as int + 1).drop_last()
                    =~= self.active_alerts@.take(i as int));
                assert(self.active_alerts@.take(i as int + 1).last()
                    == self.active_alerts@[i as int]);
            }
            let a = &self.active_alerts[i];
            let matches = match rule.metric {
                None => true,
                Some(m) => m == a.metric,
            };
            if matches {
                count = count + 1;
            }
            i = i + 1;
        }
        proof {
            assert(self.active_alerts@.take(n as int) =~= self.active_alerts@);
        }
        count
    }

    /// Whether an alert on `(metric, layer)` must be suppressed at
    /// `now_ms`.
    fn should_suppress_alert(&self, metric: MetricId, layer: Option<LayerType>, now_ms: u64) -> (r:
        bool)
        ensures
            r == spec_should_suppress(
                self.spec_rules(),
                self.spec_active(),
                metric,
                layer,
                now_ms,
            ),
    {
        let n = self.suppression_rules.len();
        let mut i: usize = 0;
        while i < n
            invariant
                n == self.suppression_rules@.len(),
                i <= n,
                forall|k: int|
                    0 <= k < i ==> !(spec_rule_applies(self.suppression_rules@[k], metric, layer)
                        && spec_rule_in_force(self.suppression_rules@[k], now_ms)
                        && spec_count_matching(self.active_alerts@, self.suppression_rules@[k])
                        >= self.suppression_rules@[k].max_alerts),
            decreases n - i,
        {
            let rule = self.suppression_rules[i];
            let metric_matches = match rule.metric {
                None => true,
                Some(m) => m == metric,
            };
            let layer_matches = match rule.layer {
                None => true,
                Some(l) => match layer {
                    Some(al) => l == al,
                    None => false,
                },
            };
            let in_force = if rule.duration_ms > u64::MAX - rule.created_at_ms {
                true
            } else {
                now_ms < rule.created_at_ms + rule.duration_ms
            };
            if metric_matches && layer_matches && in_force {
                let c = self.count_matching(&rule);
                if c >= rule.max_alerts {
                    return true;
                }
            }
            i = i + 1;
        }
        false
    }

    /// Take out whatever active alert covers `(metric, layer)` — under the
    /// invariant, at most one — keeping the rest in order.
    fn remove_covering(&mut self, metric: MetricId, layer: Option<LayerType>)
        ensures
            final(self).active_alerts@ == spec_drop_covering(
                old(self).active_alerts@,
                metric,
                layer,
            ),
            final(self).thresholds@ == old(self).thresholds@,
            final(self).history@ == old(self).history@,
            final(self).routes@ == old(self).routes@,
            final(self).suppression_rules@ == old(self).suppression_rules@,
            final(self).next_alert_id == old(self).next_alert_id,
            final(self).max_history_size == old(self).max_history_size,
    {
        let ghost a0 = self.active_alerts@;
        let n = self.active_alerts.len();
        let mut kept: Vec<Alert> = Vec::new();
        let mut i: usize = 0;
        while i < n
            invariant
                *self == *old(self),
                a0 == self.active_alerts@,
                n == a0.len(),
                i <= n,
                kept@ == spec_drop_covering(a0.take(i as int), metric, layer),
            decreases n - i,
        {
            let a = self.active_alerts[i];
            proof {
                assert(a0.take(i as int + 1).drop_last() =~= a0.take(i as int));
                assert(a0.take(i as int + 1).last() == a0[i as int]);
            }
            let layer_eq = match (a.layer, layer) {
                (None, None) => true,
                (Some(x), Some(y)) => x == y,
                _ => false,
            };
            if !(a.metric == metric && layer_eq) {
                kept.push(a);
            }
            i = i + 1;
        }
        proof {
            assert(a0.take(n as int) =~= a0);
        }
        self.active_alerts = kept;
    }

    /// Record one history line, evicting the oldest once the ring is full.
    fn add_to_history(&mut self, alert: Alert, action: AlertAction, now_ms: u64)
        requires
            old(self).max_history_size >= 1,
            old(self).history@.len() <= old(self).max_history_size,
        ensures
            final(self).history@ == spec_ring_push(
                old(self).history@,
                spec_history_entry(alert, action, now_ms),
                old(self).max_history_size as int,
            ),
            final(self).history@.len() <= final(self).max_history_size,
            final(self).thresholds@ == old(self).thresholds@,
            final(self).active_alerts@ == old(self).active_alerts@,
            final(self).routes@ == old(self).routes@,
            final(self).suppression_rules@ == old(self).suppression_rules@,
            final(self).next_alert_id == old(self).next_alert_id,
            final(self).max_history_size == old(self).max_history_size,
    {
        self.history.push(AlertHistoryEntry { alert, action, timestamp_ms: now_ms });
        if self.history.len() > self.max_history_size {
            self.history.remove(0);
            proof {
                assert(self.history@ =~= old(self).history@.push(
                    (AlertHistoryEntry { alert, action, timestamp_ms: now_ms }),
                ).drop_first());
            }
        }
    }

    /// Stamp `last_triggered` on every threshold watching this metric and
    /// layer.
    fn stamp_thresholds(&mut self, metric: MetricId, layer: Option<LayerType>, now_ms: u64)
        ensures
            final(self).thresholds@.len() == old(self).thresholds@.len(),
            forall|i: int|
                0 <= i < old(self).thresholds@.len() ==> #[trigger] final(self).thresholds@[i]
                    == if old(self).thresholds@[i].1.metric == metric && old(self).thresholds@[i].1.layer == layer {
                    (old(self).thresholds@[i].0, spec_stamped(old(self).thresholds@[i].1, now_ms))
                } else {
                    old(self).thresholds@[i]
                },
            final(self).active_alerts@ == old(self).active_alerts@,
            final(self).history@ == old(self).history@,
            final(self).routes@ == old(self).routes@,
            final(self).suppression_rules@ == old(self).suppression_rules@,
            final(self).next_alert_id == old(self).next_alert_id,
            final(self).max_history_size == old(self).max_history_size,
    {
        let n = self.thresholds.len();
        let mut i: usize = 0;
        while i < n
            invariant
                n == self.thresholds@.len(),
                n == old(self).thresholds@.len(),
                i <= n,
                forall|j: int|
                    i <= j < n ==> #[trigger] self.thresholds@[j] == old(self).thresholds@[j],
                forall|j: int|
                    0 <= j < i ==> #[trigger] self.thresholds@[j] == if old(self).thresholds@[j].1.metric == metric && old(self).thresholds@[j].1.layer
                        == layer {
                        (
                            old(self).thresholds@[j].0,
                            spec_stamped(old(self).thresholds@[j].1, now_ms),
                        )
                    } else {
                        old(self).thresholds@[j]
                    },
                self.active_alerts@ == old(self).active_alerts@,
                self.history@ == old(self).history@,
                self.routes@ == old(self).routes@,
                self.suppression_rules@ == old(self).suppression_rules@,
                self.next_alert_id == old(self).next_alert_id,
                self.max_history_size == old(self).max_history_size,
            decreases n - i,
        {
            let entry = self.thresholds[i];
            let metric_eq = entry.1.metric == metric;
            let layer_eq = match (entry.1.layer, layer) {
                (None, None) => true,
                (Some(a), Some(b)) => a == b,
                _ => false,
            };
            if metric_eq && layer_eq {
                let mut t = entry.1;
                t.last_triggered_ms = Some(now_ms);
                self.thresholds.set(i, (entry.0, t));
            }
            i = i + 1;
        }
    }

    /// Evaluate every threshold against one snapshot at `now_ms`.
    ///
    /// For each enabled threshold whose cooldown has elapsed, the watched
    /// value is read from the snapshot (honouring the threshold's layer)
    /// and compared; on a breach, unless a suppression rule in force
    /// objects, one alert is created. The new alert replaces whatever
    /// active alert covered the same metric and layer, so at most one
    /// alert per `(metric, layer)` is ever active. Each created alert
    /// becomes active, gets one Created history line, and stamps the
    /// trigger time of every threshold on its metric and layer. The active
    /// set and the returned alerts are pinned exactly by `spec_eval_pass`;
    /// no layer-free suppression rule in force ends further above its
    /// bound than it already was.
    pub fn check_thresholds(&mut self, snapshot: &MetricsSnapshot, now_ms: u64) -> (r: Vec<Alert>)
        requires
            old(self).wf(),
            old(self).spec_next_id() + old(self).spec_thresholds().len() <= u64::MAX,
        ensures
            final(self).wf(),
            r@ == spec_created_alerts(
                old(self).spec_thresholds(),
                *snapshot,
                now_ms,
                old(self).spec_rules(),
                old(self).spec_active(),
                old(self).spec_next_id(),
            ),
            final(self).spec_active() == spec_active_after(
                old(self).spec_thresholds(),
                *snapshot,
                now_ms,
                old(self).spec_rules(),
                old(self).spec_active(),
                old(self).spec_next_id(),
            ),
            final(self).spec_next_id() == old(self).spec_next_id() + r@.len(),
            forall|j: int|
                0 <= j < r@.len() ==> (#[trigger] r@[j]).id == old(self).spec_next_id() + j
                    && !r@[j].resolved && r@[j].timestamp_ms == now_ms,
            final(self).spec_history() == spec_ring_append_created(
                old(self).spec_history(),
                r@,
                now_ms,
                old(self).spec_max_history(),
            ),
            final(self).spec_rules() == old(self).spec_rules(),
            final(self).spec_routes_len() == old(self).spec_routes_len(),
            forall|i: int|
                0 <= i < old(self).spec_routes_len() ==> final(self).spec_route(i) == old(self).spec_route(i),
            final(self).spec_max_history() == old(self).spec_max_history(),
            final(self).spec_thresholds().len() == old(self).spec_thresholds().len(),
            forall|i: int|
                0 <= i < old(self).spec_thresholds().len() ==> (#[trigger] final(self).spec_thresholds()[i]) == (
                    old(self).spec_thresholds()[i].0,
                    if spec_some_created_matches(r@, old(self).spec_thresholds()[i].1) {
                        spec_stamped(old(self).spec_thresholds()[i].1, now_ms)
                    } else {
                        old(self).spec_thresholds()[i].1
                    },
                ),
            forall|k: int|
                0 <= k < old(self).spec_rules().len() ==> ((#[trigger] old(self).spec_rules()[k]).layer is None && spec_rule_in_force(
                    old(self).spec_rules()[k],
                    now_ms,
                ) ==> spec_count_matching(final(self).spec_active(), old(self).spec_rules()[k])
                    <= spec_max2(
                    spec_count_matching(old(self).spec_active(), old(self).spec_rules()[k]),
                    old(self).spec_rules()[k].max_alerts as int,
                )),
            forall|k: int|
                0 <= k < old(self).spec_rules().len() ==> (spec_rule_in_force(
                    #[trigger] old(self).spec_rules()[k],
                    now_ms,
                ) ==> spec_count_applicable(final(self).spec_active(), old(self).spec_rules()[k])
                    <= spec_max2(
                    spec_count_applicable(old(self).spec_active(), old(self).spec_rules()[k]),
                    old(self).spec_rules()[k].max_alerts as int,
                )),
    {
        let tn = self.thresholds.len();
        let mut snap: Vec<(u64, AlertThreshold)> = Vec::new();
        let mut i: usize = 0;
        while i < tn
            invariant
                *self == *old(self),
                tn == self.thresholds@.len(),
                i <= tn,
                snap@ == self.thresholds@.take(i as int),
            decreases tn - i,
        {
            snap.push(self.thresholds[i]);
            proof {
                assert(self.thresholds@.take(i as int + 1) =~= self.thresholds@.take(
                    i as int,
                ).push(self.thresholds@[i as int]));
            }
            i = i + 1;
        }
        proof {
            assert(self.thresholds@.take(tn as int) =~= self.thresholds@);
        }
        let ghost active0 = self.active_alerts@;
        let ghost th0 = self.thresholds@;
        let ghost rules0 = self.suppression_rules@;
        let ghost next0 = self.next_alert_id;
        let ghost h0 = self.history@;
        let ghost max0 = self.max_history_size as int;
        let mut created: Vec<Alert> = Vec::new();
        proof {
            assert(th0.take(0) =~= Seq::<(u64, AlertThreshold)>::empty());
        }
        let mut i: usize = 0;
        while i < tn
            invariant
                old(self).wf(),
                next0 == old(self).next_alert_id,
                active0 == old(self).active_alerts@,
                th0 == old(self).thresholds@,
                rules0 == old(self).suppression_rules@,
                h0 == old(self).history@,
                max0 == old(self).max_history_size as int,
                next0 + tn <= u64::MAX,
                tn == th0.len(),
                snap@ == th0,
                i <= tn,
                (self.active_alerts@, created@) == spec_eval_pass(
                    th0.take(i as int),
                    *snapshot,
                    now_ms,
                    rules0,
                    active0,
                    next0,
                ),
                self.next_alert_id == next0 + created@.len(),
                created@.len() <= i,
                forall|j: int|
                    0 <= j < created@.len() ==> (#[trigger] created@[j]).id == next0 + j
                        && !created@[j].resolved && created@[j].timestamp_ms == now_ms,
                self.suppression_rules@ == rules0,
                self.routes@ == old(self).routes@,
                self.max_history_size == old(self).max_history_size,
                self.history@ == spec_ring_append_created(h0, created@, now_ms, max0),
                self.history@.len() <= self.max_history_size,
                self.thresholds@.len() == th0.len(),
                forall|j: int|
                    0 <= j < th0.len() ==> (#[trigger] self.thresholds@[j]) == (
                        th0[j].0,
                        if spec_some_created_matches(created@, th0[j].1) {
                            spec_stamped(th0[j].1, now_ms)
                        } else {
                            th0[j].1
                        },
                    ),
                forall|x: int|
                    0 <= x < self.active_alerts@.len() ==> (#[trigger] self.active_alerts@[x]).id
                        < self.next_alert_id,
                forall|x: int, y: int|
                    0 <= x < y < self.active_alerts@.len() ==> (
                    #[trigger] self.active_alerts@[x]).id != (
                    #[trigger] self.active_alerts@[y]).id,
                forall|x: int, y: int|
                    0 <= x < y < self.active_alerts@.len() ==> !((
                    #[trigger] self.active_alerts@[x]).metric == (
                    #[trigger] self.active_alerts@[y]).metric && self.active_alerts@[x].layer
                        == self.active_alerts@[y].layer),
                forall|k: int|
                    0 <= k < rules0.len() ==> ((#[trigger] rules0[k]).layer is None
                        && spec_rule_in_force(rules0[k], now_ms) ==> spec_count_matching(
                        self.active_alerts@,
                        rules0[k],
                    ) <= spec_max2(
                        spec_count_matching(active0, rules0[k]),
                        rules0[k].max_alerts as int,
                    )),
                forall|k: int|
                    0 <= k < rules0.len() ==> (spec_rule_in_force(
                        #[trigger] rules0[k],
                        now_ms,
                    ) ==> spec_count_applicable(self.active_alerts@, rules0[k]) <= spec_max2(
                        spec_count_applicable(active0, rules0[k]),
                        rules0[k].max_alerts as int,
                    )),
            decreases tn - i,
        {
            proof {
                assert(th0.take(i as int + 1).drop_last() =~= th0.take(i as int));
                assert(th0.take(i as int + 1).last() == th0[i as int]);
            }
            let t = snap[i].1;
            let cooldown_ok = match t.last_triggered_ms {
                None => true,
                Some(lt) => lt <= now_ms && now_ms - lt >= t.cooldown_ms,
            };
            if t.enabled && cooldown_ok {
                match extract_metric_value(snapshot, t.metric, t.layer) {
                    None => {},
                    Some(v) => {
                        let breach = match t.comparison {
                            ThresholdComparison::GreaterThan => v > t.threshold,
                            ThresholdComparison::LessThan => v < t.threshold,
                            ThresholdComparison::Equal => v == t.threshold,
                        };
                        if breach && !self.should_suppress_alert(t.metric, t.layer, now_ms) {
                            let ghost pre_active = self.active_alerts@;
                            let ghost pre_created = created@;
                            let alert = Alert {
                                id: self.next_alert_id,
                                timestamp_ms: now_ms,
                                severity: t.severity,
                                metric: t.metric,
                                current_value: v,
                                threshold: t.threshold,
                                layer: t.layer,
                                resolved: false,
                                resolved_at_ms: None,
                            };
                            self.next_alert_id = self.next_alert_id + 1;
                            self.remove_covering(t.metric, t.layer);
                            let ghost dropped = self.active_alerts@;
                            self.active_alerts.push(alert);
                            created.push(alert);
                            self.add_to_history(alert, AlertAction::Created, now_ms);
                            self.stamp_thresholds(t.metric, t.layer, now_ms);
                            proof {
                                assert(spec_threshold_fires(th0[i as int].1, *snapshot, now_ms));
                                assert(alert == spec_alert_for(
                                    th0[i as int].1,
                                    *snapshot,
                                    now_ms,
                                    (next0 + pre_created.len()) as u64,
                                ));
                                lemma_ring_append_snoc(h0, pre_created, alert, now_ms, max0);
                                lemma_drop_covering_wf(
                                    pre_active,
                                    t.metric,
                                    t.layer,
                                    (next0 + pre_created.len()) as u64,
                                );
                                lemma_drop_covering_facts(
                                    pre_active,
                                    t.metric,
                                    t.layer,
                                    SuppressionRule {
                                        metric: None,
                                        layer: None,
                                        max_alerts: 0,
                                        duration_ms: 0,
                                        created_at_ms: 0,
                                    },
                                );
                                assert(self.active_alerts@ == dropped.push(alert));
                                assert(forall|x: int|
                                    0 <= x < dropped.len() ==> self.active_alerts@[x]
                                        == dropped[x]);
                                assert(self.active_alerts@[dropped.len() as int] == alert);
                                assert forall|j: int|
                                    0 <= j < th0.len() implies (#[trigger] self.thresholds@[j]) == (
                                    th0[j].0,
                                    if spec_some_created_matches(created@, th0[j].1) {
                                        spec_stamped(th0[j].1, now_ms)
                                    } else {
                                        th0[j].1
                                    },
                                ) by {
                                    assert(forall|x: int|
                                        0 <= x < pre_created.len() ==> created@[x] == pre_created[x]);
                                    assert(created@[pre_created.len() as int] == alert);
                                    if th0[j].1.metric == alert.metric && th0[j].1.layer
                                        == alert.layer {
                                        assert(spec_some_created_matches(created@, th0[j].1));
                                    } else {
                                        assert(spec_some_created_matches(created@, th0[j].1)
                                            == spec_some_created_matches(pre_created, th0[j].1));
                                    }
                                }
                                assert forall|k: int|
                                    0 <= k < rules0.len() && (#[trigger] rules0[k]).layer is None
                                        && spec_rule_in_force(
                                        rules0[k],
                                        now_ms,
                                    ) implies spec_count_matching(self.active_alerts@, rules0[k])
                                    <= spec_max2(
                                    spec_count_matching(active0, rules0[k]),
                                    rules0[k].max_alerts as int,
                                ) by {
                                    lemma_drop_covering_facts(
                                        pre_active,
                                        t.metric,
                                        t.layer,
                                        rules0[k],
                                    );
                                    lemma_count_push(dropped, alert, rules0[k]);
                                    assert(self.active_alerts@ == dropped.push(alert));
                                    if spec_rule_matches_metric(rules0[k], t.metric) {
                                        assert(spec_rule_applies(rules0[k], t.metric, t.layer));
                                        assert(spec_count_matching(pre_active, rules0[k])
                                            < rules0[k].max_alerts);
                                    }
                                }
                                assert forall|k: int|
                                    0 <= k < rules0.len() && spec_rule_in_force(
                                        #[trigger] rules0[k],
                                        now_ms,
                                    ) implies spec_count_applicable(
                                    self.active_alerts@,
                                    rules0[k],
                                ) <= spec_max2(
                                    spec_count_applicable(active0, rules0[k]),
                                    rules0[k].max_alerts as int,
                                ) by {
                                    lemma_drop_covering_facts(
                                        pre_active,
                                        t.metric,
                                        t.layer,
                                        rules0[k],
                                    );
                                    lemma_count_applicable_push(dropped, alert, rules0[k]);
                                    assert(self.active_alerts@ == dropped.push(alert));
                                    if spec_rule_applies(rules0[k], t.metric, t.layer) {
                                        assert(spec_count_matching(pre_active, rules0[k])
                                            < rules0[k].max_alerts);
                                        lemma_count_applicable_le(pre_active, rules0[k]);
                                    }
                                }
                            }
                        }
                    },
                }
            }
            i = i + 1;
        }
        proof {
            assert(th0.take(tn as int) =~= th0);
            assert(unique_keys(self.thresholds@)) by {
                assert(forall|a: int|
                    0 <= a < th0.len() ==> (#[trigger] self.thresholds@[a]).0 == th0[a].0);
            }
        }
        created
    }

    /// Move the active alert with this id to history: it leaves the active
    /// set, gets its resolution stamps, and one Resolved line joins the
    /// ring. Fails exactly when no active alert carries the id, changing
    /// nothing.
    pub fn resolve_alert(&mut self, id: u64, now_ms: u64) -> (r: Result<(), NyxError>)
        requires
            old(self).wf(),
        ensures
            final(self).wf(),
            r is Ok <==> exists|i: int|
                0 <= i < old(self).spec_active().len() && (#[trigger] old(self).spec_active()[i]).id == id,
            r is Err ==> *final(self) == *old(self) && r == Result::<(), NyxError>::Err(
                NyxError::ConfigInvalid,
            ),
            r is Ok ==> exists|i: int|
                0 <= i < old(self).spec_active().len() && (#[trigger] old(self).spec_active()[i]).id == id && final(self).spec_active() == old(self).spec_active().remove(i)
                    && final(self).spec_history() == spec_ring_push(
                    old(self).spec_history(),
                    spec_history_entry(
                        spec_resolved_alert(old(self).spec_active()[i], now_ms),
                        AlertAction::Resolved,
                        now_ms,
                    ),
                    old(self).spec_max_history(),
                ),
            final(self).spec_rules() == old(self).spec_rules(),
            final(self).spec_thresholds() == old(self).spec_thresholds(),
            final(self).spec_next_id() == old(self).spec_next_id(),
            final(self).spec_routes_len() == old(self).spec_routes_len(),
            forall|i: int|
                0 <= i < old(self).spec_routes_len() ==> final(self).spec_route(i) == old(self).spec_route(i),
            final(self).spec_max_history() == old(self).spec_max_history(),
    {
        let n = self.active_alerts.len();
        let mut i: usize = 0;
        while i < n
            invariant
                *self == *old(self),
                old(self).wf(),
                n == self.active_alerts@.len(),
                i <= n,
                forall|j: int| 0 <= j < i ==> (#[trigger] self.active_alerts@[j]).id != id,
            decreases n - i,
        {
            if self.active_alerts[i].id == id {
                let mut alert = self.active_alerts.remove(i);
                alert.resolved = true;
                alert.resolved_at_ms = Some(now_ms);
                proof {
                    assert(alert == spec_resolved_alert(old(self).active_alerts@[i as int], now_ms));
                }
                self.add_to_history(alert, AlertAction::Resolved, now_ms);
                proof {
                    assert(forall|x: int|
                        0 <= x < self.active_alerts@.len()
                            ==> #[trigger] self.active_alerts@[x] == if x < i {
                            old(self).active_alerts@[x]
                        } else {
                            old(self).active_alerts@[x + 1]
                        });
                }
                return Ok(());
            }
            i = i + 1;
        }
        Err(NyxError::ConfigInvalid)
    }

    /// The active alerts, in creation order.
    pub fn get_active_alerts(&self) -> (r: Vec<Alert>)
        ensures
            r@ == self.spec_active(),
    {
        let mut out: Vec<Alert> = Vec::new();
        let n = self.active_alerts.len();
        let mut i: usize = 0;
        while i < n
            invariant
                n == self.active_alerts@.len(),
                i <= n,
                out@ == self.active_alerts@.take(i as int),
            decreases n - i,
        {
            out.push(self.active_alerts[i]);
            proof {
                assert(self.active_alerts@.take(i as int + 1) =~= self.active_alerts@.take(
                    i as int,
                ).push(self.active_alerts@[i as int]));
            }
            i = i + 1;
        }
        proof {
            assert(self.active_alerts@.take(n as int) =~= self.active_alerts@);
        }
        out
    }

    /// With a limit, the most recent entries up to it, newest first; with
    /// none, the whole history in insertion order.
    pub fn get_alert_history(&self, limit: Option<usize>) -> (r: Vec<AlertHistoryEntry>)
        ensures
            limit is None ==> r@ == self.spec_history(),
            limit matches Some(l) ==> r@.len() == (if l <= self.spec_history().len() {
                l as int
            } else {
                self.spec_history().len() as int
            }) && forall|j: int|
                0 <= j < r@.len() ==> #[trigger] r@[j] == self.spec_history()[self.spec_history().len() - 1 - j],
    {
        let n = self.history.len();
        let mut out: Vec<AlertHistoryEntry> = Vec::new();
        match limit {
            None => {
                let mut j: usize = 0;
                while j < n
                    invariant
                        n == self.history@.len(),
                        j <= n,
                        out@ == self.history@.take(j as int),
                    decreases n - j,
                {
                    out.push(self.history[j]);
                    proof {
                        assert(self.history@.take(j as int + 1) =~= self.history@.take(
                            j as int,
                        ).push(self.history@[j as int]));
                    }
                    j = j + 1;
                }
                proof {
                    assert(self.history@.take(n as int) =~= self.history@);
                }
            },
            Some(l) => {
                let want = if l <= n {
                    l
                } else {
                    n
                };
                let mut j: usize = 0;
                while j < want
                    invariant
                        n == self.history@.len(),
                        want <= n,
                        j <= want,
                        out@.len() == j,
                        forall|x: int|
                            0 <= x < j ==> #[trigger] out@[x] == self.history@[n - 1 - x],
                    decreases want - j,
                {
                    out.push(self.history[n - 1 - j]);
                    j = j + 1;
                }
            },
        }
        out
    }
}

/// Alert system statistics: active counts by severity, resolution and
/// creation tallies, and per-metric creation counts over the history.
pub struct AlertStatistics {
    pub total_active: usize,
    pub active_info: usize,
    pub active_warning: usize,
    pub active_critical: usize,
    pub total_resolved: usize,
    pub total_created_today: usize,
    pub most_frequent_metrics: Vec<(MetricId, usize)>,
}

/// Active alerts of one severity.
pub open spec fn spec_count_severity(active: Seq<Alert>, s: AlertSeverity) -> int
    decreases active.len(),
{
    if active.len() == 0 {
        0
    } else {
        spec_count_severity(active.drop_last(), s) + if active.last().severity == s {
            1int
        } else {
            0int
        }
    }
}

/// History lines recording a resolution.
pub open spec fn spec_count_resolved(h: Seq<AlertHistoryEntry>) -> int
    decreases h.len(),
{
    if h.len() == 0 {
        0
    } else {
        spec_count_resolved(h.drop_last()) + if h.last().action == AlertAction::Resolved {
            1int
        } else {
            0int
        }
    }
}

/// History lines recording a creation on the same wall-clock day as
/// `now_ms` (day buckets of 86,400,000 ms since the epoch).
pub open spec fn spec_count_created_today(h: Seq<AlertHistoryEntry>, now_ms: u64) -> int
    decreases h.len(),
{
    if h.len() == 0 {
        0
    } else {
        spec_count_created_today(h.drop_last(), now_ms) + if h.last().action
            == AlertAction::Created && h.last().timestamp_ms / 86400000 == now_ms / 86400000 {
            1int
        } else {
            0int
        }
    }
}

/// History lines recording a creation for one metric.
pub open spec fn spec_count_metric_created(h: Seq<AlertHistoryEntry>, m: MetricId) -> int
    decreases h.len(),
{
    if h.len() == 0 {
        0
    } else {
        spec_count_metric_created(h.drop_last(), m) + if h.last().action == AlertAction::Created
            && h.last().alert.metric == m {
            1int
        } else {
            0int
        }
    }
}

/// The fixed order in which per-metric counts are reported.
pub open spec fn spec_metric_at(j: int) -> MetricId {
    if j == 0 {
        MetricId::CpuUsage
    } else if j == 1 {
        MetricId::MemoryUsage
    } else if j == 2 {
        MetricId::ErrorRate
    } else if j == 3 {
        MetricId::AvgLatencyMs
    } else if j == 4 {
        MetricId::PacketLossRate
    } else if j == 5 {
        MetricId::ConnectionFailureRate
    } else if j == 6 {
        MetricId::Throughput
    } else if j == 7 {
        MetricId::LayerErrorRate
    } else if j == 8 {
        MetricId::QueueDepth
    } else {
        MetricId::ActiveConnections
    }
}

impl AlertSystem {
    /// Totals over the active set and the history at `now_ms`: active
    /// alerts by severity, resolutions, creations today, and the creation
    /// count of every metric in a fixed order.
    pub fn get_alert_statistics(&self, now_ms: u64) -> (r: AlertStatistics)
        ensures
            r.total_active == self.spec_active().len(),
            r.active_info == spec_count_severity(self.spec_active(), AlertSeverity::Info),
            r.active_warning == spec_count_severity(self.spec_active(), AlertSeverity::Warning),
            r.active_critical == spec_count_severity(self.spec_active(), AlertSeverity::Critical),
            r.total_resolved == spec_count_resolved(self.spec_history()),
            r.total_created_today == spec_count_created_today(self.spec_history(), now_ms),
            r.most_frequent_metrics@.len() == 10,
            forall|j: int|
                0 <= j < 10 ==> #[trigger] r.most_frequent_metrics@[j] == (
                    spec_metric_at(j),
                    spec_count_metric_created(self.spec_history(), spec_metric_at(j)) as usize,
                ),
    {
        let an = self.active_alerts.len();
        let mut info: usize = 0;
        let mut warning: usize = 0;
        let mut critical: usize = 0;
        let mut i: usize = 0;
        while i < an
            invariant
                an == self.active_alerts@.len(),
                i <= an,
                info == spec_count_severity(
                    self.active_alerts@.take(i as int),
                    AlertSeverity::Info,
                ),
                warning == spec_count_severity(
                    self.active_alerts@.take(i as int),
                    AlertSeverity::Warning,
                ),
                critical == spec_count_severity(
                    self.active_alerts@.take(i as int),
                    AlertSeverity::Critical,
                ),
                info + warning + critical <= i,
            decreases an - i,
        {
            proof {
                assert(self.active_alerts@.take(i as int + 1).drop_last()
                    =~= self.active_alerts@.take(i as int));
                assert(self.active_alerts@.take(i as int + 1).last()
                    == self.active_alerts@[i as int]);
            }
            match self.active_alerts[i].severity {
                AlertSeverity::Info => {
                    info = info + 1;
                },
                AlertSeverity::Warning => {
                    warning = warning + 1;
                },
                AlertSeverity::Critical => {
                    critical = critical + 1;
                },
            }
            i = i + 1;
        }
        let hn = self.history.len();
        let mut resolved: usize = 0;
        let mut today: usize = 0;
        let mut counts: Vec<usize> = Vec::new();
        let mut j: usize = 0;
        while j < 10
            invariant
                j <= 10,
                counts@.len() == j,
                forall|x: int| 0 <= x < j ==> counts@[x] == 0,
            decreases 10 - j,
        {
            counts.push(0);
            j = j + 1;
        }
        let mut i: usize = 0;
        while i < hn
            invariant
                hn == self.history@.len(),
                i <= hn,
                resolved == spec_count_resolved(self.history@.take(i as int)),
                resolved <= i,
                today == spec_count_created_today(self.history@.take(i as int), now_ms),
                today <= i,
                counts@.len() == 10,
                forall|x: int|
                    0 <= x < 10 ==> (#[trigger] counts@[x]) == spec_count_metric_created(
                        self.history@.take(i as int),
                        spec_metric_at(x),
                    ) && counts@[x] <= i,
            decreases hn - i,
        {
            proof {
                assert(self.history@.take(i as int + 1).drop_last() =~= self.history@.take(
                    i as int,
                ));
                assert(self.history@.take(i as int + 1).last() == self.history@[i as int]);
            }
            let e = self.history[i];
            match e.action {
                AlertAction::Resolved => {
                    resolved = resolved + 1;
                },
                AlertAction::Created => {
                    if e.timestamp_ms / 86400000 == now_ms / 86400000 {
                        today = today + 1;
                    }
                    let idx: usize = match e.alert.metric {
                        MetricId::CpuUsage => 0,
                        MetricId::MemoryUsage => 1,
                        MetricId::ErrorRate => 2,
                        MetricId::AvgLatencyMs => 3,
                        MetricId::PacketLossRate => 4,
                        MetricId::ConnectionFailureRate => 5,
                        MetricId::Throughput => 6,
                        MetricId::LayerErrorRate => 7,
                        MetricId::QueueDepth => 8,
                        MetricId::ActiveConnections => 9,
                    };
                    let c = counts[idx];
                    counts.set(idx, c + 1);
                },
            }
            i = i + 1;
        }
        proof {
            assert(self.active_alerts@.take(an as int) =~= self.active_alerts@);
            assert(self.history@.take(hn as int) =~= self.history@);
        }
        let mut freq: Vec<(MetricId, usize)> = Vec::new();
        freq.push((MetricId::CpuUsage, counts[0]));
        freq.push((MetricId::MemoryUsage, counts[1]));
        freq.push((MetricId::ErrorRate, counts[2]));
        freq.push((MetricId::AvgLatencyMs, counts[3]));
        freq.push((MetricId::PacketLossRate, counts[4]));
        freq.push((MetricId::ConnectionFailureRate, counts[5]));
        freq.push((MetricId::Throughput, counts[6]));
        freq.push((MetricId::LayerErrorRate, counts[7]));
        freq.push((MetricId::QueueDepth, counts[8]));
        freq.push((MetricId::ActiveConnections, counts[9]));
        AlertStatistics {
            total_active: an,
            active_info: info,
            active_warning: warning,
            active_critical: critical,
            total_resolved: resolved,
            total_created_today: today,
            most_frequent_metrics: freq,
        }
    }

    /// The severity filter of route `i` accepts `s` when it is empty or
    /// names it; same for the layer filter, which an alert without a layer
    /// passes only when the filter is empty.
    pub closed spec fn spec_route_matches(self, i: int, a: Alert) -> bool {
        let route = self.routes@[i];
        &&& (route.severity_filter@.len() == 0 || route.severity_filter@.contains(a.severity))
        &&& (route.layer_filter@.len() == 0 || (a.layer matches Some(l)
            && route.layer_filter@.contains(l)))
    }

    /// Indices of the routes this alert must reach, in table order.
    pub fn routes_for(&self, a: &Alert) -> (r: Vec<usize>)
        ensures
            forall|x: int|
                0 <= x < r@.len() ==> 0 <= #[trigger] r@[x] < self.spec_routes_len()
                    && self.spec_route_matches(r@[x] as int, *a),
            forall|i: int|
                0 <= i < self.spec_routes_len() && self.spec_route_matches(i, *a) ==> r@.contains(
                    i as usize,
                ),
    {
        let n = self.routes.len();
        let mut out: Vec<usize> = Vec::new();
        let mut i: usize = 0;
        while i < n
            invariant
                n == self.routes@.len(),
                i <= n,
                forall|x: int|
                    0 <= x < out@.len() ==> 0 <= #[trigger] out@[x] < n
                        && self.spec_route_matches(out@[x] as int, *a),
                forall|j: int|
                    0 <= j < i && self.spec_route_matches(j, *a) ==> out@.contains(j as usize),
            decreases n - i,
        {
            let sev_ok = self.routes[i].severity_filter.len() == 0 || severity_in(
                &self.routes[i].severity_filter,
                a.severity,
            );
            let layer_ok = if self.routes[i].layer_filter.len() == 0 {
                true
            } else {
                match a.layer {
                    Some(l) => layer_in(&self.routes[i].layer_filter, l),
                    None => false,
                }
            };
            if sev_ok && layer_ok {
                let ghost prev = out@;
                out.push(i);
                proof {
                    assert(forall|x: int| 0 <= x < prev.len() ==> out@[x] == prev[x]);
                    assert(out@[prev.len() as int] == i);
                    assert forall|j: int|
                        0 <= j < i + 1 && self.spec_route_matches(j, *a) implies out@.contains(
                        j as usize,
                    ) by {
                        if j < i {
                            let x = choose|x: int| 0 <= x < prev.len() && prev[x] == j as usize;
                            assert(out@[x] == j as usize);
                        } else {
                            assert(out@[prev.len() as int] == j as usize);
                        }
                    }
                }
            }
            i = i + 1;
        }
        out
    }

    /// The handler of route `i`.
    pub fn route_handler(&self, i: usize) -> (r: &AlertHandler)
        requires
            0 <= i < self.spec_routes_len(),
        ensures
            *r == self.spec_route(i as int).2,
    {
        &self.routes[i].handler
    }

    /// An alert system with the stock thresholds and the stock console and
    /// log routes.
    pub fn new() -> (r: AlertSystem)
        ensures
            r.wf(),
            r.spec_active() == Seq::<Alert>::empty(),
            r.spec_history() == Seq::<AlertHistoryEntry>::empty(),
            r.spec_rules() == Seq::<SuppressionRule>::empty(),
            r.spec_next_id() == 1,
            r.spec_max_history() == 10000,
            r.spec_routes_len() == 2,
            r.spec_route(0).2 == AlertHandler::Console,
            r.spec_route(1).2 == AlertHandler::Log,
            r.spec_route(0).0 == seq![
                AlertSeverity::Info,
                AlertSeverity::Warning,
                AlertSeverity::Critical,
            ],
            r.spec_route(1).0 == seq![
                AlertSeverity::Info,
                AlertSeverity::Warning,
                AlertSeverity::Critical,
            ],
            r.spec_route(0).1 == Seq::<LayerType>::empty(),
            r.spec_route(1).1 == Seq::<LayerType>::empty(),
            r.spec_thresholds() == spec_default_thresholds(),
    {
        let mut routes: Vec<AlertRoute> = Vec::new();
        let mut sev_all: Vec<AlertSeverity> = Vec::new();
        sev_all.push(AlertSeverity::Info);
        sev_all.push(AlertSeverity::Warning);
        sev_all.push(AlertSeverity::Critical);
        let mut sev_all2: Vec<AlertSeverity> = Vec::new();
        sev_all2.push(AlertSeverity::Info);
        sev_all2.push(AlertSeverity::Warning);
        sev_all2.push(AlertSeverity::Critical);
        proof {
            assert(sev_all@ =~= seq![
                AlertSeverity::Info,
                AlertSeverity::Warning,
                AlertSeverity::Critical,
            ]);
            assert(sev_all2@ =~= seq![
                AlertSeverity::Info,
                AlertSeverity::Warning,
                AlertSeverity::Critical,
            ]);
        }
        routes.push(
            AlertRoute {
                severity_filter: sev_all,
                layer_filter: Vec::new(),
                handler: AlertHandler::Console,
            },
        );
        routes.push(
            AlertRoute {
                severity_filter: sev_all2,
                layer_filter: Vec::new(),
                handler: AlertHandler::Log,
            },
        );
        let r = AlertSystem {
            thresholds: default_thresholds(),
            active_alerts: Vec::new(),
            history: Vec::new(),
            routes,
            suppression_rules: Vec::new(),
            next_alert_id: 1,
            max_history_size: 10000,
        };
        proof {
            assert(unique_keys(spec_default_thresholds()));
        }
        r
    }
}

/// One filter entry equals the severity.
fn severity_in(v: &Vec<AlertSeverity>, s: AlertSeverity) -> (r: bool)
    ensures
        r == v@.contains(s),
{
    let n = v.len();
    let mut i: usize = 0;
    while i < n
        invariant
            n == v@.len(),
            i <= n,
            forall|j: int| 0 <= j < i ==> v@[j] != s,
        decreases n - i,
    {
        if v[i] == s {
            return true;
        }
        i = i + 1;
    }
    false
}

/// One filter entry equals the layer.
fn layer_in(v: &Vec<LayerType>, l: LayerType) -> (r: bool)
    ensures
        r == v@.contains(l),
{
    let n = v.len();
    let mut i: usize = 0;
    while i < n
        invariant
            n == v@.len(),
            i <= n,
            forall|j: int| 0 <= j < i ==> v@[j] != l,
        decreases n - i,
    {
        if v[i] == l {
            return true;
        }
        i = i + 1;
    }
    false
}

/// The stock threshold table: warning and critical levels for CPU, memory,
/// error rate, transport latency and packet loss, and a warning level for
/// connection failures. Values are hundredths.
pub open spec fn spec_default_thresholds() -> Seq<(u64, AlertThreshold)> {
    seq![
        (
            1u64,
            (AlertThreshold {
                metric: MetricId::CpuUsage,
                threshold: 8000,
                severity: AlertSeverity::Warning,
                comparison: ThresholdComparison::GreaterThan,
                layer: None,
                enabled: true,
                cooldown_ms: 300000,
                last_triggered_ms: None,
            }),
        ),
        (
            2u64,
            (AlertThreshold {
                metric: MetricId::CpuUsage,
                threshold: 9500,
                severity: AlertSeverity::Critical,
                comparison: ThresholdComparison::GreaterThan,
                layer: None,
                enabled: true,
                cooldown_ms: 60000,
                last_triggered_ms: None,
            }),
        ),
        (
            3u64,
            (AlertThreshold {
                metric: MetricId::MemoryUsage,
                threshold: 8500,
                severity: AlertSeverity::Warning,
                comparison: ThresholdComparison::GreaterThan,
                layer: None,
                enabled: true,
                cooldown_ms: 300000,
                last_triggered_ms: None,
            }),
        ),
        (
            4u64,
            (AlertThreshold {
                metric: MetricId::MemoryUsage,
                threshold: 9500,
                severity: AlertSeverity::Critical,
                comparison: ThresholdComparison::GreaterThan,
                layer: None,
                enabled: true,
                cooldown_ms: 60000,
                last_triggered_ms: None,
            }),
        ),
        (
            5u64,
            (AlertThreshold {
                metric: MetricId::ErrorRate,
                threshold: 500,
                severity: AlertSeverity::Warning,
                comparison: ThresholdComparison::GreaterThan,
                layer: None,
                enabled: true,
                cooldown_ms: 180000,
                last_triggered_ms: None,
            }),
        ),
        (
            6u64,
            (AlertThreshold {
                metric: MetricId::ErrorRate,
                threshold: 1500,
                severity: AlertSeverity::Critical,
                comparison: ThresholdComparison::GreaterThan,
                layer: None,
                enabled: true,
                cooldown_ms: 60000,
                last_triggered_ms: None,
            }),
        ),
        (
            7u64,
            (AlertThreshold {
                metric: MetricId::AvgLatencyMs,
                threshold: 100000,
                severity: AlertSeverity::Warning,
                comparison: ThresholdComparison::GreaterThan,
                layer: Some(LayerType::Transport),
                enabled: true,
                cooldown_ms: 120000,
                last_triggered_ms: None,
            }),
        ),
        (
            8u64,
            (AlertThreshold {
                metric: MetricId::AvgLatencyMs,
                threshold: 500000,
                severity: AlertSeverity::Critical,
                comparison: ThresholdComparison::GreaterThan,
                layer: Some(LayerType::Transport),
                enabled: true,
                cooldown_ms: 60000,
                last_triggered_ms: None,
            }),
        ),
        (
            9u64,
            (AlertThreshold {
                metric: MetricId::PacketLossRate,
                threshold: 100,
                severity: AlertSeverity::Warning,
                comparison: ThresholdComparison::GreaterThan,
                layer: Some(LayerType::Transport),
                enabled: true,
                cooldown_ms: 180000,
                last_triggered_ms: None,
            }),
        ),
        (
            10u64,
            (AlertThreshold {
                metric: MetricId::PacketLossRate,
                threshold: 500,
                severity: AlertSeverity::Critical,
                comparison: ThresholdComparison::GreaterThan,
                layer: Some(LayerType::Transport),
                enabled: true,
                cooldown_ms: 60000,
                last_triggered_ms: None,
            }),
        ),
        (
            11u64,
            (AlertThreshold {
                metric: MetricId::ConnectionFailureRate,
                threshold: 1000,
                severity: AlertSeverity::Warning,
                comparison: ThresholdComparison::GreaterThan,
                layer: None,
                enabled: true,
                cooldown_ms: 300000,
                last_triggered_ms: None,
            }),
        ),
    ]
}

/// Build the stock threshold table.
fn default_thresholds() -> (r: Vec<(u64, AlertThreshold)>)
    ensures
        r@ == spec_default_thresholds(),
{
    let mut v: Vec<(u64, AlertThreshold)> = Vec::new();
    v.push(
        (
            1,
            AlertThreshold {
                metric: MetricId::CpuUsage,
                threshold: 8000,
                severity: AlertSeverity::Warning,
                comparison: ThresholdComparison::GreaterThan,
                layer: None,
                enabled: true,
                cooldown_ms: 300000,
                last_triggered_ms: None,
            },
        ),
    );
    v.push(
        (
            2,
            AlertThreshold {
                metric: MetricId::CpuUsage,
                threshold: 9500,
                severity: AlertSeverity::Critical,
                comparison: ThresholdComparison::GreaterThan,
                layer: None,
                enabled: true,
                cooldown_ms: 60000,
                last_triggered_ms: None,
            },
        ),
    );
    v.push(
        (
            3,
            AlertThreshold {
                metric: MetricId::MemoryUsage,
                threshold: 8500,
                severity: AlertSeverity::Warning,
                comparison: ThresholdComparison::GreaterThan,
                layer: None,
                enabled: true,
                cooldown_ms: 300000,
                last_triggered_ms: None,
            },
        ),
    );
    v.push(
        (
            4,
            AlertThreshold {
                metric: MetricId::MemoryUsage,
                threshold: 9500,
                severity: AlertSeverity::Critical,
                comparison: ThresholdComparison::GreaterThan,
                layer: None,
                enabled: true,
                cooldown_ms: 60000,
                last_triggered_ms: None,
            },
        ),
    );
    v.push(
        (
            5,
            AlertThreshold {
                metric: MetricId::ErrorRate,
                threshold: 500,
                severity: AlertSeverity::Warning,
                comparison: ThresholdComparison::GreaterThan,
                layer: None,
                enabled: true,
                cooldown_ms: 180000,
                last_triggered_ms: None,
            },
        ),
    );
    v.push(
        (
            6,
            AlertThreshold {
                metric: MetricId::ErrorRate,
                threshold: 1500,
                severity: AlertSeverity::Critical,
                comparison: ThresholdComparison::GreaterThan,
                layer: None,
                enabled: true,
                cooldown_ms: 60000,
                last_triggered_ms: None,
            },
        ),
    );
    v.push(
        (
            7,
            AlertThreshold {
                metric: MetricId::AvgLatencyMs,
                threshold: 100000,
                severity: AlertSeverity::Warning,
                comparison: ThresholdComparison::GreaterThan,
                layer: Some(LayerType::Transport),
                enabled: true,
                cooldown_ms: 120000,
                last_triggered_ms: None,
            },
        ),
    );
    v.push(
        (
            8,
            AlertThreshold {
                metric: MetricId::AvgLatencyMs,
                threshold: 500000,
                severity: AlertSeverity::Critical,
                comparison: ThresholdComparison::GreaterThan,
                layer: Some(LayerType::Transport),
                enabled: true,
                cooldown_ms: 60000,
                last_triggered_ms: None,
            },
        ),
    );
    v.push(
        (
            9,
            AlertThreshold {
                metric: MetricId::PacketLossRate,
                threshold: 100,
                severity: AlertSeverity::Warning,
                comparison: ThresholdComparison::GreaterThan,
                layer: Some(LayerType::Transport),
                enabled: true,
                cooldown_ms: 180000,
                last_triggered_ms: None,
            },
        ),
    );
    v.push(
        (
            10,
            AlertThreshold {
                metric: MetricId::PacketLossRate,
                threshold: 500,
                severity: AlertSeverity::Critical,
                comparison: ThresholdComparison::GreaterThan,
                layer: Some(LayerType::Transport),
                enabled: true,
                cooldown_ms: 60000,
                last_triggered_ms: None,
            },
        ),
    );
    v.push(
        (
            11,
            AlertThreshold {
                metric: MetricId::ConnectionFailureRate,
                threshold: 1000,
                severity: AlertSeverity::Warning,
                comparison: ThresholdComparison::GreaterThan,
                layer: None,
                enabled: true,
                cooldown_ms: 300000,
                last_triggered_ms: None,
            },
        ),
    );
    proof {
        assert(v@ =~= spec_default_thresholds());
    }
    v
}

/// The larger of two values.
pub open spec fn spec_max2(a: int, b: int) -> int {
    if a >= b {
        a
    } else {
        b
    }
}

/// A threshold with its trigger stamp set to `now_ms`.
pub open spec fn spec_stamped(t: AlertThreshold, now_ms: u64) -> AlertThreshold {
    AlertThreshold { last_triggered_ms: Some(now_ms), ..t }
}

/// Appending an alert raises a rule's matching count by one exactly when
/// the pattern matches its metric.
proof fn lemma_count_push(active: Seq<Alert>, a: Alert, rule: SuppressionRule)
    ensures
        spec_count_matching(active.push(a), rule) == spec_count_matching(active, rule)
            + if spec_rule_matches_metric(rule, a.metric) {
            1int
        } else {
            0int
        },
{
    assert(active.push(a).drop_last() =~= active);
}

} // verus!
