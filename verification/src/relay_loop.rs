//! Generic relay loop: the settings it runs with, and whom it reconnects to
//! after a client has failed.

use vstd::prelude::*;

use crate::utils::FailedClient;

verus! {

/// Default pause (in nanoseconds: ten seconds) between reconnect attempts.
pub const RECONNECT_DELAY: u128 = 10_000_000_000;

/// Generic relay loop.
pub struct Loop<SC, TC, LM> {
    reconnect_delay: u128,
    spawn_loop_task: bool,
    source_client: SC,
    target_client: TC,
    loop_metric: Option<LM>,
}

/// Returns generic loop that may be customized and started: it reconnects
/// after `RECONNECT_DELAY`, in a task of its own, with no loop metric.
pub fn relay_loop<SC, TC>(source_client: SC, target_client: TC) -> (r: Loop<SC, TC, ()>)
    ensures
        r.reconnect_delay_view() == RECONNECT_DELAY,
        r.spawn_loop_task_view(),
        r.source_client_view() == source_client,
        r.target_client_view() == target_client,
        r.loop_metric_view() is None,
{
    Loop { reconnect_delay: RECONNECT_DELAY, spawn_loop_task: true, source_client, target_client, loop_metric: None }
}

impl<SC, TC, LM> Loop<SC, TC, LM> {
    /// Delay (in nanoseconds) between reconnect attempts.
    pub closed spec fn reconnect_delay_view(&self) -> u128 {
        self.reconnect_delay
    }

    /// Whether a task of its own runs the loop.
    pub closed spec fn spawn_loop_task_view(&self) -> bool {
        self.spawn_loop_task
    }

    /// Client of the source node.
    pub closed spec fn source_client_view(&self) -> SC {
        self.source_client
    }

    /// Client of the target node.
    pub closed spec fn target_client_view(&self) -> TC {
        self.target_client
    }

    /// Metrics of the loop.
    pub closed spec fn loop_metric_view(&self) -> Option<LM> {
        self.loop_metric
    }

    /// Customize delay (in nanoseconds) between reconnect attempts.
    pub fn reconnect_delay(self, reconnect_delay: u128) -> (r: Self)
        ensures
            r.reconnect_delay_view() == reconnect_delay,
            r.spawn_loop_task_view() == self.spawn_loop_task_view(),
            r.source_client_view() == self.source_client_view(),
            r.target_client_view() == self.target_client_view(),
            r.loop_metric_view() == self.loop_metric_view(),
    {
        Loop { reconnect_delay, ..self }
    }

    /// Set spawn-dedicated-loop-task flag.
    ///
    /// If `true` (default), separate async task is spawned to run relay loop. This is the default
    /// behavior for all loops. If `false`, then loop is executed as a part of the current
    /// task. The `false` is used for on-demand tasks, which are cancelled from time to time
    /// and there's already a dedicated on-demand task for running such loops.
    pub fn spawn_loop_task(self, spawn_loop_task: bool) -> (r: Self)
        ensures
            r.reconnect_delay_view() == self.reconnect_delay_view(),
            r.spawn_loop_task_view() == spawn_loop_task,
            r.source_client_view() == self.source_client_view(),
            r.target_client_view() == self.target_client_view(),
            r.loop_metric_view() == self.loop_metric_view(),
    {
        Loop { spawn_loop_task, ..self }
    }

    /// Replace the metrics of the loop.
    pub fn with_loop_metric<NewLM>(self, loop_metric: Option<NewLM>) -> (r: Loop<SC, TC, NewLM>)
        ensures
            r.reconnect_delay_view() == self.reconnect_delay_view(),
            r.spawn_loop_task_view() == self.spawn_loop_task_view(),
            r.source_client_view() == self.source_client_view(),
            r.target_client_view() == self.target_client_view(),
            r.loop_metric_view() == loop_metric,
    {
        Loop {
            reconnect_delay: self.reconnect_delay,
            spawn_loop_task: self.spawn_loop_task,
            source_client: self.source_client,
            target_client: self.target_client,
            loop_metric,
        }
    }

    /// The parts of the loop: reconnect delay, spawn flag, clients and metrics.
    pub fn into_parts(self) -> (r: (u128, bool, SC, TC, Option<LM>))
        ensures
            r == (
                self.reconnect_delay_view(),
                self.spawn_loop_task_view(),
                self.source_client_view(),
                self.target_client_view(),
                self.loop_metric_view(),
            ),
    {
        (self.reconnect_delay, self.spawn_loop_task, self.source_client, self.target_client, self.loop_metric)
    }
}

/// Which clients have to reconnect after the given client has failed: the
/// source, the target, or both.
pub fn clients_to_reconnect(failed_client: FailedClient) -> (r: (bool, bool))
    ensures
        r.0 == (failed_client == FailedClient::Both || failed_client == FailedClient::Source),
        r.1 == (failed_client == FailedClient::Both || failed_client == FailedClient::Target),
{
    (
        failed_client == FailedClient::Both || failed_client == FailedClient::Source,
        failed_client == FailedClient::Both || failed_client == FailedClient::Target,
    )
}

} // verus!
