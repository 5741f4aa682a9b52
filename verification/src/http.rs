//! What the status page shows.

use crate::state::{elapsed, ContainerState};
use vstd::prelude::*;

verus! {

#[derive(Debug, Clone)]
pub struct StatusResponse {
    pub active_containers: Vec<ContainerInfo>,
    pub max_concurrent: usize,
    pub poll_interval_seconds: u64,
    pub job_timeout_seconds: u64,
    pub uptime_seconds: u64,
}

#[derive(Debug, Clone)]
pub struct ContainerInfo {
    pub name: String,
    pub job_id: u64,
    pub running_seconds: u64,
}

/// The line of the status page for one entry of the index, at `now`.
pub open spec fn shows(info: ContainerInfo, entry: (String, ContainerState), now: u64) -> bool {
    &&& info.name@ == entry.0@
    &&& info.job_id == entry.1.job_id
    &&& info.running_seconds == elapsed(entry.1.started_at, now)
}

impl StatusResponse {
    /// The status page at `now` for the listed entries of the index: one
    /// line for each entry, in the order of the listing, and the settings as
    /// they are given.
    pub fn report(
        containers: &Vec<(String, ContainerState)>,
        now: u64,
        max_concurrent: usize,
        poll_interval_seconds: u64,
        job_timeout_seconds: u64,
        uptime_seconds: u64,
    ) -> (page: StatusResponse)
        ensures
            page.active_containers.len() == containers.len(),
            forall|i: int|
                0 <= i < containers.len() ==> shows(
                    #[trigger] page.active_containers@[i],
                    containers@[i],
                    now,
                ),
            page.max_concurrent == max_concurrent,
            page.poll_interval_seconds == poll_interval_seconds,
            page.job_timeout_seconds == job_timeout_seconds,
            page.uptime_seconds == uptime_seconds,
    {
        let mut active_containers: Vec<ContainerInfo> = Vec::new();
        let mut i: usize = 0;
        while i < containers.len()
            invariant
                i <= containers.len(),
                active_containers.len() == i,
                forall|k: int|
                    0 <= k < i ==> shows(#[trigger] active_containers@[k], containers@[k], now),
            decreases containers.len() - i,
        {
            active_containers.push(
                ContainerInfo {
                    name: containers[i].0.clone(),
                    job_id: containers[i].1.job_id,
                    running_seconds: containers[i].1.running_seconds_at(now),
                },
            );
            i += 1;
        }
        StatusResponse {
            active_containers,
            max_concurrent,
            poll_interval_seconds,
            job_timeout_seconds,
            uptime_seconds,
        }
    }
}

} // verus!
