//! The application's run status and how it reacts to the messages a
//! background simulation sends back.
use crate::format::{decimal, decimal_string};
use vstd::prelude::*;
use vstd::string::*;

verus! {

/// The view shown in the main area.
#[derive(Clone, Copy, Debug, PartialEq, Eq, Structural)]
pub enum ActiveTab {
    Configuration,
    Results,
    Comparison,
    Summary,
}

impl Default for ActiveTab {
    /// The application opens on the configuration view.
    fn default() -> (t: Self)
        ensures
            t == ActiveTab::Configuration,
    {
        ActiveTab::Configuration
    }
}

/// The chart shown on the results view.
#[derive(Clone, Copy, Debug, PartialEq, Eq, Structural)]
pub enum ChartType {
    EffectiveMonthlyCost,
    EquityHistogram,
    EquityTrajectory,
    EffectiveCostTrajectory,
    AllEquityTrajectories,
}

impl Default for ChartType {
    /// The results view opens on the effective monthly cost histogram.
    fn default() -> (c: Self)
        ensures
            c == ChartType::EffectiveMonthlyCost,
    {
        ChartType::EffectiveMonthlyCost
    }
}

/// What a background simulation run reports: progress as (done, total), its
/// finished results, or an error.
pub enum SimulationMessage<R> {
    Progress(usize, usize),
    Complete(R),
    Error(String),
}

/// Whether a simulation is running, how far it is, the status line, and the
/// view shown.
pub struct RunStatus {
    pub active_tab: ActiveTab,
    pub is_running: bool,
    pub progress: (usize, usize),
    pub status_message: String,
}

/// Status line while a run is in progress: `"Running... done/total"`.
pub open spec fn running_text(done: usize, total: usize) -> Seq<char> {
    "Running... "@ + decimal(done as nat) + "/"@ + decimal(total as nat)
}

impl Default for RunStatus {
    /// Idle, with nothing done, on the configuration view.
    fn default() -> (s: Self)
        ensures
            s.active_tab == ActiveTab::Configuration,
            !s.is_running,
            s.progress == (0usize, 0usize),
            s.status_message@ == "Ready"@,
    {
        RunStatus {
            active_tab: ActiveTab::Configuration,
            is_running: false,
            progress: (0, 0),
            status_message: String::from_str("Ready"),
        }
    }
}

impl RunStatus {
    /// Marks a run of `num_simulations` simulations as started.
    pub fn start(&mut self, num_simulations: usize)
        ensures
            final(self).is_running,
            final(self).progress == (0usize, num_simulations),
            final(self).status_message@ == "Starting simulation..."@,
            final(self).active_tab == old(self).active_tab,
    {
        self.is_running = true;
        self.progress = (0, num_simulations);
        self.status_message = String::from_str("Starting simulation...");
    }

    /// Applies one message from the running simulation, and hands back the
    /// results when the message delivers them.
    ///
    /// Progress updates the counts and status line; completion stops the run
    /// and switches to the summary view; an error stops the run and shows
    /// the error, leaving the view as it was.
    pub fn apply_message<R>(&mut self, message: SimulationMessage<R>) -> (results: Option<R>)
        ensures
            match message {
                SimulationMessage::Progress(done, total) => {
                    &&& results is None
                    &&& final(self).progress == (done, total)
                    &&& final(self).status_message@ == running_text(done, total)
                    &&& final(self).status_message@ == "Running... "@ + decimal(done as nat) + "/"@
                        + decimal(total as nat)
                    &&& final(self).is_running == old(self).is_running
                    &&& final(self).active_tab == old(self).active_tab
                },
                SimulationMessage::Complete(r) => {
                    &&& results == Some(r)
                    &&& !final(self).is_running
                    &&& final(self).status_message@ == "Simulation complete"@
                    &&& final(self).active_tab == ActiveTab::Summary
                    &&& final(self).progress == old(self).progress
                },
                SimulationMessage::Error(e) => {
                    &&& results is None
                    &&& !final(self).is_running
                    &&& final(self).status_message@ == "Error: "@ + e@
                    &&& final(self).active_tab == old(self).active_tab
                    &&& final(self).progress == old(self).progress
                },
            },
    {
        match message {
            SimulationMessage::Progress(done, total) => {
                self.progress = (done, total);
                let mut text = String::from_str("Running... ");
                let d = decimal_string(done as u64);
                text.append(d.as_str());
                text.append("/");
                let t = decimal_string(total as u64);
                text.append(t.as_str());
                self.status_message = text;
                None
            },
            SimulationMessage::Complete(r) => {
                self.is_running = false;
                self.status_message = String::from_str("Simulation complete");
                self.active_tab = ActiveTab::Summary;
                Some(r)
            },
            SimulationMessage::Error(e) => {
                self.is_running = false;
                let mut text = String::from_str("Error: ");
                text.append(e.as_str());
                self.status_message = text;
                None
            },
        }
    }
    /// Records how a file operation ended: nothing when it was cancelled
    /// (`None`), `done_message` when it succeeded, the error text when it
    /// failed. Hands back what a successful operation produced.
    pub fn record_outcome<T>(&mut self, outcome: Option<Result<T, String>>, done_message: &str) -> (value: Option<T>)
        ensures
            final(self).active_tab == old(self).active_tab,
            final(self).is_running == old(self).is_running,
            final(self).progress == old(self).progress,
            match outcome {
                None => {
                    &&& value is None
                    &&& final(self).status_message == old(self).status_message
                },
                Some(Ok(v)) => {
                    &&& value == Some(v)
                    &&& final(self).status_message@ == done_message@
                },
                Some(Err(e)) => {
                    &&& value is None
                    &&& final(self).status_message@ == e@
                },
            },
    {
        match outcome {
            None => None,
            Some(Ok(v)) => {
                self.status_message = String::from_str(done_message);
                Some(v)
            },
            Some(Err(e)) => {
                self.status_message = e;
                None
            },
        }
    }
}

} // verus!
