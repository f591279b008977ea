//! `/reload`: reload extension providers and skills.

use vstd::prelude::*;

use crate::pager::slash::CommandResult;
use crate::provider::{all_model_pairs, ProviderRegistry};
use crate::text::{decimal, decimal_string};

verus! {

/// The `/reload` command.
pub struct ReloadCommand;

/// The message reporting a reload of `providers` providers offering
/// `models` models.
pub open spec fn reload_message(providers: nat, models: nat) -> Seq<char> {
    "Reloaded "@ + decimal(providers) + " extension provider(s) with "@ + decimal(models)
        + " model(s). Note: model catalog changes require restart to take effect."@
}

impl ReloadCommand {
    /// Command name.
    pub fn name(&self) -> (r: &'static str)
        ensures
            r@ == "reload"@,
    {
        "reload"
    }

    /// Command description.
    pub fn description(&self) -> (r: &'static str)
        ensures
            r@ == "Reload extension providers and skills"@,
    {
        "Reload extension providers and skills"
    }

    /// Usage line.
    pub fn usage(&self) -> (r: &'static str)
        ensures
            r@ == "/reload"@,
    {
        "/reload"
    }

    /// `/reload` takes no arguments.
    pub fn takes_args(&self) -> (r: bool)
        ensures
            !r,
    {
        false
    }

    /// Report the providers just collected from the provider packs: how
    /// many providers and models were reloaded.
    pub fn run(&self, providers: &ProviderRegistry) -> (r: CommandResult)
        ensures
            r matches CommandResult::Message(m) && m@ == reload_message(
                providers.providers().len(),
                all_model_pairs(providers.providers()).len(),
            ),
    {
        let provider_count = providers.len();
        let model_count = providers.all_models().len();
        let mut message = "Reloaded ".to_string();
        let p = decimal_string(provider_count as u64);
        let m = decimal_string(model_count as u64);
        message.append(p.as_str());
        message.append(" extension provider(s) with ");
        message.append(m.as_str());
        message.append(" model(s). Note: model catalog changes require restart to take effect.");
        CommandResult::Message(message)
    }
}

} // verus!
