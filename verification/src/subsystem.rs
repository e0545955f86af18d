use vstd::prelude::*;

verus! {

/// Every subsystem in the daemon gets a stable identifier: the addressing
/// scheme of the message bus. Subsystems address each other by
/// `SubsystemId`, never by holding a reference to one another.
#[derive(Debug, Clone, Copy, PartialEq, Eq, Hash, Structural)]
pub enum SubsystemId {
    Core,
    Permissions,
    Memory,
    Context,
    Reasoning,
    ActionRouter,
    Voice,
    Vision,
    Device,
    PluginRuntime,
}

/// The display name of a subsystem.
pub open spec fn subsystem_name(id: SubsystemId) -> Seq<char> {
    match id {
        SubsystemId::Core => "core"@,
        SubsystemId::Permissions => "permissions"@,
        SubsystemId::Memory => "memory"@,
        SubsystemId::Context => "context"@,
        SubsystemId::Reasoning => "reasoning"@,
        SubsystemId::ActionRouter => "action_router"@,
        SubsystemId::Voice => "voice"@,
        SubsystemId::Vision => "vision"@,
        SubsystemId::Device => "device"@,
        SubsystemId::PluginRuntime => "plugin_runtime"@,
    }
}

impl SubsystemId {
    /// The display name of this subsystem, as used in logs and error text.
    pub fn to_text(&self) -> (s: String)
        ensures
            s@ == subsystem_name(*self),
    {
        let name: &str = match self {
            SubsystemId::Core => "core",
            SubsystemId::Permissions => "permissions",
            SubsystemId::Memory => "memory",
            SubsystemId::Context => "context",
            SubsystemId::Reasoning => "reasoning",
            SubsystemId::ActionRouter => "action_router",
            SubsystemId::Voice => "voice",
            SubsystemId::Vision => "vision",
            SubsystemId::Device => "device",
            SubsystemId::PluginRuntime => "plugin_runtime",
        };
        String::from_str(name)
    }
}

} // verus!
