//! The decisions of the main loop: scan the whole tree, then, when watching,
//! handle sidecar events until something forces another full scan.
use vstd::prelude::*;

verus! {

/// What follows a full scan.
#[derive(Debug, Clone, Copy, PartialEq, Eq, Structural)]
pub enum AfterScan {
    /// Nothing watches the source tree: the run is complete.
    Finish,
    /// The first scan is done: announce that watching starts, then watch.
    StartWatching,
    /// Go back to watching.
    ResumeWatching,
}

/// What follows an event from the watcher.
#[derive(Debug, Clone, Copy, PartialEq, Eq, Structural)]
pub enum AfterEvent {
    /// The watcher lost events: clear it and scan everything again.
    ClearWatcherAndRescan,
    /// The Immich sync lost events and caught up: scan everything again.
    Rescan,
    /// Handle the event.
    Handle,
}

/// The state of the main loop.
#[derive(Debug, Clone, Copy, PartialEq, Eq, Structural)]
pub struct MainLoop {
    /// No full scan has completed yet.
    pub first_scan: bool,
}

impl MainLoop {
    pub fn new() -> (r: MainLoop)
        ensures
            r.first_scan,
    {
        MainLoop { first_scan: true }
    }

    /// A full scan completed; `watching` tells whether a watcher is running.
    pub fn after_scan(&mut self, watching: bool) -> (r: AfterScan)
        ensures
            (r, final(self).first_scan) == scan_step(old(self).first_scan, watching),
    {
        if !watching {
            AfterScan::Finish
        } else if self.first_scan {
            self.first_scan = false;
            AfterScan::StartWatching
        } else {
            AfterScan::ResumeWatching
        }
    }
}

/// An event arrived. A watcher that lost events forces a rescan first (the
/// Immich sync is then not asked); otherwise an Immich sync that lost events
/// and caught up forces one; otherwise the event is handled.
pub fn after_event(watcher_overflown: bool, immich_needs_rescan: bool) -> (r: AfterEvent)
    ensures
        watcher_overflown ==> r == AfterEvent::ClearWatcherAndRescan,
        !watcher_overflown && immich_needs_rescan ==> r == AfterEvent::Rescan,
        !watcher_overflown && !immich_needs_rescan ==> r == AfterEvent::Handle,
{
    if watcher_overflown {
        AfterEvent::ClearWatcherAndRescan
    } else if immich_needs_rescan {
        AfterEvent::Rescan
    } else {
        AfterEvent::Handle
    }
}

/// The step of [`MainLoop::after_scan`]: what follows a scan and whether
/// the next scan is still the first.
pub open spec fn scan_step(first_scan: bool, watching: bool) -> (AfterScan, bool) {
    if !watching {
        (AfterScan::Finish, first_scan)
    } else if first_scan {
        (AfterScan::StartWatching, false)
    } else {
        (AfterScan::ResumeWatching, false)
    }
}

/// Watching is announced once: a scan after one that started watching
/// resumes watching.
pub proof fn law_watching_announced_once(first_scan: bool)
    ensures
        scan_step(first_scan, true).0 == AfterScan::StartWatching ==> scan_step(scan_step(first_scan, true).1, true).0
            == AfterScan::ResumeWatching,
        scan_step(scan_step(first_scan, true).1, true).0 != AfterScan::StartWatching,
{
}

} // verus!
