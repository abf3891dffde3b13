//! What is done to an engine before the first game, step by step.

use crate::protocol::{Command, CommandView};
use vstd::prelude::*;

verus! {

/// One step of the setup.
#[derive(Debug, Clone, PartialEq, Eq)]
pub enum SetupStep {
    /// Send this command.
    Send(Command),
    /// Ask the engine who it is, and wait until it has said so.
    Handshake,
    /// Ask the engine to get ready, and wait until it is.
    Prepare,
    /// Start to listen to what the engine says.
    Listen,
}

pub enum SetupStepView {
    Send(CommandView),
    Handshake,
    Prepare,
    Listen,
}

impl View for SetupStep {
    type V = SetupStepView;

    open spec fn view(&self) -> SetupStepView {
        match self {
            SetupStep::Send(c) => SetupStepView::Send(c@),
            SetupStep::Handshake => SetupStepView::Handshake,
            SetupStep::Prepare => SetupStepView::Prepare,
            SetupStep::Listen => SetupStepView::Listen,
        }
    }
}

/// The views of a list of steps.
pub open spec fn step_views(v: Seq<SetupStep>) -> Seq<SetupStepView> {
    Seq::new(v.len(), |i: int| v[i]@)
}

/// The step that sets the option `name` to `value`.
pub open spec fn option_step(name: Seq<char>, value: Seq<char>) -> SetupStepView {
    SetupStepView::Send(CommandView::SetOption(name, value))
}

/// The setup. The protocol is chosen before the engine is asked who it is.
/// Then come the variant, the number of lines to report, no contempt, a
/// heavy penalty on draws, no resignation, analysis mode and mate search.
/// The engine gets ready, a new game starts, and the listening begins.
pub open spec fn setup_steps() -> Seq<SetupStepView> {
    seq![
        option_step("Protocol"@, "usi"@),
        SetupStepView::Handshake,
        option_step("UCI_Variant"@, "wildcatshogi"@),
        option_step("MultiPV"@, "5"@),
        option_step("Contempt"@, "0"@),
        option_step("DrawScore"@, "1000"@),
        option_step("ResignValue"@, "-32767"@),
        option_step("UCI_AnalyseMode"@, "true"@),
        option_step("TsumeMode"@, "true"@),
        SetupStepView::Prepare,
        SetupStepView::Send(CommandView::NewGame),
        SetupStepView::Listen,
    ]
}

/// The step that sets the option `name` to `value`.
pub fn set_option(name: &str, value: &str) -> (step: SetupStep)
    ensures
        step@ == option_step(name@, value@),
{
    SetupStep::Send(Command::SetOption(String::from_str(name), String::from_str(value)))
}

/// The steps of the setup, in order.
pub fn setup_script() -> (script: Vec<SetupStep>)
    ensures
        step_views(script@) == setup_steps(),
{
    let mut script: Vec<SetupStep> = Vec::new();
    script.push(set_option("Protocol", "usi"));
    script.push(SetupStep::Handshake);
    script.push(set_option("UCI_Variant", "wildcatshogi"));
    script.push(set_option("MultiPV", "5"));
    script.push(set_option("Contempt", "0"));
    script.push(set_option("DrawScore", "1000"));
    script.push(set_option("ResignValue", "-32767"));
    script.push(set_option("UCI_AnalyseMode", "true"));
    script.push(set_option("TsumeMode", "true"));
    script.push(SetupStep::Prepare);
    script.push(SetupStep::Send(Command::NewGame));
    script.push(SetupStep::Listen);
    assert(step_views(script@) =~= setup_steps());
    script
}

} // verus!
