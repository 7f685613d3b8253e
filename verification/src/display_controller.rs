//! The orchestrator that ties the DDC channel to applying tasks and suites.

use vstd::prelude::*;
use crate::config::SuiteConfig;
use crate::ddc_control::DdcControl;
use crate::display_apply::{
    ApplyPlan, OutputIdentity, animation_directions_spec, plan_apply, step_spec,
};
use crate::engine::SuiteRun;
use crate::scraper::{DisplayRow, DisplayTask, opt_chars, task_models};

verus! {

/// Applies tasks and suites, with DDC requests going to its channel.
pub struct DisplayLogic {
    pub ddc_control: DdcControl,
}

impl DisplayLogic {
    /// An orchestrator over a DDC channel.
    pub fn with_ddc(ddc_control: DdcControl) -> (r: Self)
        ensures
            r.ddc_control.devices@ == ddc_control.devices@,
    {
        DisplayLogic { ddc_control }
    }

    /// The plan for applying tasks against an inventory and the topology's
    /// outputs, with DDC requests addressed to this channel's devices.
    pub fn plan(&self, tasks: &Vec<DisplayTask>, inv: &Vec<DisplayRow>, outputs: &Vec<OutputIdentity>) -> (r: ApplyPlan)
        ensures
            r.directions.deep_view() == animation_directions_spec(tasks@),
            r.steps@.len() == tasks@.len(),
            forall|i: int| 0 <= i < tasks@.len() ==> step_spec(#[trigger] r.steps@[i], tasks@[i], inv@, outputs@,
                self.ddc_control.devices.deep_view()),
    {
        plan_apply(tasks, inv, outputs, &self.ddc_control.devices)
    }

    /// What applying a saved suite does: its tasks, and its post command when
    /// there are tasks.
    pub fn suite_run(config: SuiteConfig) -> (r: SuiteRun)
        ensures
            task_models(r.tasks@) == task_models(config.tasks@),
            opt_chars(r.post_cmd) == (if config.tasks@.len() > 0 {
                opt_chars(config.post_cmd)
            } else {
                None
            }),
    {
        let post_cmd = if config.tasks.len() > 0 { config.post_cmd } else { None };
        SuiteRun { tasks: config.tasks, post_cmd }
    }
}

} // verus!
