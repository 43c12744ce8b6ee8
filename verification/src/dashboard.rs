//! The dashboard: the figures shown on the front page.

use vstd::prelude::*;

verus! {

/// The load of the machine in percent, its uptime, and the traffic counters.
#[derive(Debug)]
pub struct DashboardStats {
    pub cpu: u8,
    pub memory: u8,
    pub disk: u8,
    pub network: u8,
    pub uptime: String,
    pub active_users: u32,
    pub requests: u64,
    pub errors: u32,
}

/// What the dashboard figures hold, as mathematical values.
pub struct DashboardStatsView {
    pub cpu: u8,
    pub memory: u8,
    pub disk: u8,
    pub network: u8,
    pub uptime: Seq<char>,
    pub active_users: u32,
    pub requests: u64,
    pub errors: u32,
}

impl View for DashboardStats {
    type V = DashboardStatsView;

    open spec fn view(&self) -> DashboardStatsView {
        DashboardStatsView {
            cpu: self.cpu,
            memory: self.memory,
            disk: self.disk,
            network: self.network,
            uptime: self.uptime@,
            active_users: self.active_users,
            requests: self.requests,
            errors: self.errors,
        }
    }
}

/// The figures that the dashboard shows: fixed sample values.
pub open spec fn sample_figures() -> DashboardStatsView {
    DashboardStatsView {
        cpu: 65,
        memory: 78,
        disk: 45,
        network: 23,
        uptime: "15d 4h 32m"@,
        active_users: 1247,
        requests: 89432,
        errors: 12,
    }
}

/// The figures that the dashboard shows.
pub fn get_dashboard() -> (stats: DashboardStats)
    ensures
        stats@ == sample_figures(),
{
    DashboardStats {
        cpu: 65,
        memory: 78,
        disk: 45,
        network: 23,
        uptime: "15d 4h 32m".to_owned(),
        active_users: 1247,
        requests: 89432,
        errors: 12,
    }
}

} // verus!
