use vstd::prelude::*;
use vstd::string::*;
use crate::component::{Component, ComponentType};
use crate::text::str_eq;

verus! {

/// The file operations that install one artifact.
#[derive(Clone, Copy, Debug, PartialEq, Eq, Structural)]
pub enum InstallPlan {
    /// Copy the binary, then register the hook in the settings file.
    CopyAndRegisterHook,
    /// Copy the style, then make it the default unless one is set.
    CopyAndRegisterStyle,
    /// Copy the script, then make it the statusline unless one is set.
    CopyAndRegisterStatusline,
    /// Merge the settings file into the installed one.
    MergeSettings,
    /// Copy the file.
    Copy,
}

/// The file operations that remove one artifact.
#[derive(Clone, Copy, Debug, PartialEq, Eq, Structural)]
pub enum RemovePlan {
    /// Unregister the hook from the settings file, then delete the binary.
    UnregisterHookAndDelete,
    /// Delete the managed sections of the settings file, not the file.
    RemoveManagedSections,
    /// Delete the file.
    Delete,
}

/// The settings file is merged and cleaned, never copied or deleted whole.
pub open spec fn is_settings_file(c: Component) -> bool {
    c.component_type == ComponentType::ConfigFile && c.name@ == "settings.json"@
}

pub open spec fn install_plan_spec(c: Component) -> InstallPlan {
    match c.component_type {
        ComponentType::Hooks => InstallPlan::CopyAndRegisterHook,
        ComponentType::OutputStyles => InstallPlan::CopyAndRegisterStyle,
        ComponentType::Statusline => InstallPlan::CopyAndRegisterStatusline,
        _ => if is_settings_file(c) {
            InstallPlan::MergeSettings
        } else {
            InstallPlan::Copy
        },
    }
}

pub open spec fn remove_plan_spec(c: Component) -> RemovePlan {
    if c.component_type == ComponentType::Hooks {
        RemovePlan::UnregisterHookAndDelete
    } else if is_settings_file(c) {
        RemovePlan::RemoveManagedSections
    } else {
        RemovePlan::Delete
    }
}

/// How an artifact is installed.
pub fn install_component(component: &Component) -> (r: InstallPlan)
    ensures
        r == install_plan_spec(*component),
{
    match component.component_type {
        ComponentType::Hooks => InstallPlan::CopyAndRegisterHook,
        ComponentType::OutputStyles => InstallPlan::CopyAndRegisterStyle,
        ComponentType::Statusline => InstallPlan::CopyAndRegisterStatusline,
        ComponentType::ConfigFile => if str_eq(component.name.as_str(), "settings.json") {
            InstallPlan::MergeSettings
        } else {
            InstallPlan::Copy
        },
        _ => InstallPlan::Copy,
    }
}

/// How an artifact is removed.
pub fn remove_component(component: &Component) -> (r: RemovePlan)
    ensures
        r == remove_plan_spec(*component),
{
    match component.component_type {
        ComponentType::Hooks => RemovePlan::UnregisterHookAndDelete,
        ComponentType::ConfigFile => if str_eq(component.name.as_str(), "settings.json") {
            RemovePlan::RemoveManagedSections
        } else {
            RemovePlan::Delete
        },
        _ => RemovePlan::Delete,
    }
}

/// The settings keys that the installer manages and removes whole.
pub fn managed_settings_keys() -> (r: Vec<&'static str>)
    ensures
        r@.len() == 3,
        r@[0]@ == "hooks"@,
        r@[1]@ == "outputStyle"@,
        r@[2]@ == "statusLine"@,
{
    vec!["hooks", "outputStyle", "statusLine"]
}

} // verus!
