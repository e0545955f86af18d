use vstd::prelude::*;
use crate::text::path_covers;

verus! {

/// The full set of privileged capabilities any subsystem or plugin can
/// request. A subsystem cannot touch the filesystem, microphone or shell
/// unless it holds a live grant for the matching variant.
#[derive(Debug, PartialEq, Eq, Hash)]
pub enum Capability {
    FilesystemRead { path_prefix: String },
    FilesystemWrite { path_prefix: String },
    Microphone,
    Camera,
    ScreenCapture,
    ShellExec,
    InputSimulation,
    Clipboard,
    Network,
    Notification,
    /// Plugins get a namespaced capability so one plugin's grant can never
    /// be mistaken for another's, even if both request "the same" thing.
    Plugin { plugin_id: String, capability: String },
}

/// The mathematical value of a `Capability`: its strings taken as
/// character sequences.
pub enum CapabilityView {
    FilesystemRead { path_prefix: Seq<char> },
    FilesystemWrite { path_prefix: Seq<char> },
    Microphone,
    Camera,
    ScreenCapture,
    ShellExec,
    InputSimulation,
    Clipboard,
    Network,
    Notification,
    Plugin { plugin_id: Seq<char>, capability: Seq<char> },
}

impl View for Capability {
    type V = CapabilityView;

    open spec fn view(&self) -> CapabilityView {
        match self {
            Capability::FilesystemRead { path_prefix } => CapabilityView::FilesystemRead {
                path_prefix: path_prefix@,
            },
            Capability::FilesystemWrite { path_prefix } => CapabilityView::FilesystemWrite {
                path_prefix: path_prefix@,
            },
            Capability::Microphone => CapabilityView::Microphone,
            Capability::Camera => CapabilityView::Camera,
            Capability::ScreenCapture => CapabilityView::ScreenCapture,
            Capability::ShellExec => CapabilityView::ShellExec,
            Capability::InputSimulation => CapabilityView::InputSimulation,
            Capability::Clipboard => CapabilityView::Clipboard,
            Capability::Network => CapabilityView::Network,
            Capability::Notification => CapabilityView::Notification,
            Capability::Plugin { plugin_id, capability } => CapabilityView::Plugin {
                plugin_id: plugin_id@,
                capability: capability@,
            },
        }
    }
}

/// Does a granted capability satisfy a requested one? Filesystem
/// capabilities of the same kind match when the requested path is the
/// granted path or lies below it; every other pair must be equal.
pub open spec fn permits_spec(granted: CapabilityView, requested: CapabilityView) -> bool {
    match (granted, requested) {
        (
            CapabilityView::FilesystemRead { path_prefix: g },
            CapabilityView::FilesystemRead { path_prefix: r },
        ) => path_covers(g, r),
        (
            CapabilityView::FilesystemWrite { path_prefix: g },
            CapabilityView::FilesystemWrite { path_prefix: r },
        ) => path_covers(g, r),
        _ => granted == requested,
    }
}

/// The position of a capability's variant in the declaration.
pub open spec fn kind_of(c: CapabilityView) -> u8 {
    match c {
        CapabilityView::FilesystemRead { .. } => 0,
        CapabilityView::FilesystemWrite { .. } => 1,
        CapabilityView::Microphone => 2,
        CapabilityView::Camera => 3,
        CapabilityView::ScreenCapture => 4,
        CapabilityView::ShellExec => 5,
        CapabilityView::InputSimulation => 6,
        CapabilityView::Clipboard => 7,
        CapabilityView::Network => 8,
        CapabilityView::Notification => 9,
        CapabilityView::Plugin { .. } => 10,
    }
}

/// The display text of a capability, e.g. `filesystem:read:/home` or
/// `plugin:weather:network`.
pub open spec fn capability_text(c: CapabilityView) -> Seq<char> {
    match c {
        CapabilityView::FilesystemRead { path_prefix } => "filesystem:read:"@ + path_prefix,
        CapabilityView::FilesystemWrite { path_prefix } => "filesystem:write:"@ + path_prefix,
        CapabilityView::Microphone => "microphone"@,
        CapabilityView::Camera => "camera"@,
        CapabilityView::ScreenCapture => "screen_capture"@,
        CapabilityView::ShellExec => "shell_exec"@,
        CapabilityView::InputSimulation => "input_simulation"@,
        CapabilityView::Clipboard => "clipboard"@,
        CapabilityView::Network => "network"@,
        CapabilityView::Notification => "notification"@,
        CapabilityView::Plugin { plugin_id, capability } => "plugin:"@ + plugin_id + ":"@
            + capability,
    }
}

impl Clone for Capability {
    fn clone(&self) -> (r: Self)
        ensures
            r == *self,
    {
        match self {
            Capability::FilesystemRead { path_prefix } => Capability::FilesystemRead {
                path_prefix: path_prefix.clone(),
            },
            Capability::FilesystemWrite { path_prefix } => Capability::FilesystemWrite {
                path_prefix: path_prefix.clone(),
            },
            Capability::Microphone => Capability::Microphone,
            Capability::Camera => Capability::Camera,
            Capability::ScreenCapture => Capability::ScreenCapture,
            Capability::ShellExec => Capability::ShellExec,
            Capability::InputSimulation => Capability::InputSimulation,
            Capability::Clipboard => Capability::Clipboard,
            Capability::Network => Capability::Network,
            Capability::Notification => Capability::Notification,
            Capability::Plugin { plugin_id, capability } => Capability::Plugin {
                plugin_id: plugin_id.clone(),
                capability: capability.clone(),
            },
        }
    }
}

impl Capability {
    /// Does this granted capability satisfy `requested`? A grant for
    /// `/home/user/documents` covers a request for
    /// `/home/user/documents/report.txt` (and for the directory itself), but
    /// not one for the sibling `/home/user/documents-old`; everything else
    /// requires an exact match.
    pub fn permits(&self, requested: &Capability) -> (r: bool)
        ensures
            r == permits_spec(self@, requested@),
    {
        match (self, requested) {
            (
                Capability::FilesystemRead { path_prefix: granted },
                Capability::FilesystemRead { path_prefix: req },
            ) => crate::text::covers_path(granted.as_str(), req.as_str()),
            (
                Capability::FilesystemWrite { path_prefix: granted },
                Capability::FilesystemWrite { path_prefix: req },
            ) => crate::text::covers_path(granted.as_str(), req.as_str()),
            _ => self.same_as(requested),
        }
    }

    /// Are the two capabilities the same value?
    pub fn same_as(&self, other: &Capability) -> (r: bool)
        ensures
            r == (self@ == other@),
    {
        match self {
            Capability::FilesystemRead { path_prefix: a } => match other {
                Capability::FilesystemRead { path_prefix: b } => a.eq(b),
                _ => false,
            },
            Capability::FilesystemWrite { path_prefix: a } => match other {
                Capability::FilesystemWrite { path_prefix: b } => a.eq(b),
                _ => false,
            },
            Capability::Plugin { plugin_id: a1, capability: a2 } => match other {
                Capability::Plugin { plugin_id: b1, capability: b2 } => {
                    let same_id = a1.eq(b1);
                    let same_cap = a2.eq(b2);
                    same_id && same_cap
                },
                _ => false,
            },
            Capability::Microphone => other.kind_index() == 2,
            Capability::Camera => other.kind_index() == 3,
            Capability::ScreenCapture => other.kind_index() == 4,
            Capability::ShellExec => other.kind_index() == 5,
            Capability::InputSimulation => other.kind_index() == 6,
            Capability::Clipboard => other.kind_index() == 7,
            Capability::Network => other.kind_index() == 8,
            Capability::Notification => other.kind_index() == 9,
        }
    }

    /// The position of this capability's variant in the declaration.
    fn kind_index(&self) -> (k: u8)
        ensures
            k == kind_of(self@),
    {
        match self {
            Capability::FilesystemRead { .. } => 0,
            Capability::FilesystemWrite { .. } => 1,
            Capability::Microphone => 2,
            Capability::Camera => 3,
            Capability::ScreenCapture => 4,
            Capability::ShellExec => 5,
            Capability::InputSimulation => 6,
            Capability::Clipboard => 7,
            Capability::Network => 8,
            Capability::Notification => 9,
            Capability::Plugin { .. } => 10,
        }
    }

    /// The display text of this capability (`filesystem:read:<prefix>`,
    /// `microphone`, `plugin:<id>:<capability>`, ...).
    pub fn to_text(&self) -> (s: String)
        ensures
            s@ == capability_text(self@),
    {
        match self {
            Capability::FilesystemRead { path_prefix } => {
                String::from_str("filesystem:read:").concat(path_prefix.as_str())
            },
            Capability::FilesystemWrite { path_prefix } => {
                String::from_str("filesystem:write:").concat(path_prefix.as_str())
            },
            Capability::Microphone => String::from_str("microphone"),
            Capability::Camera => String::from_str("camera"),
            Capability::ScreenCapture => String::from_str("screen_capture"),
            Capability::ShellExec => String::from_str("shell_exec"),
            Capability::InputSimulation => String::from_str("input_simulation"),
            Capability::Clipboard => String::from_str("clipboard"),
            Capability::Network => String::from_str("network"),
            Capability::Notification => String::from_str("notification"),
            Capability::Plugin { plugin_id, capability } => {
                String::from_str("plugin:").concat(plugin_id.as_str()).concat(":").concat(
                    capability.as_str(),
                )
            },
        }
    }
}

/// A grant is always sufficient for a request of exactly the same
/// capability.
pub proof fn lemma_permits_reflexive(c: CapabilityView)
    ensures
        permits_spec(c, c),
{
    match c {
        CapabilityView::FilesystemRead { path_prefix } => {
            assert(path_prefix =~= path_prefix.subrange(0, path_prefix.len() as int));
        },
        CapabilityView::FilesystemWrite { path_prefix } => {
            assert(path_prefix =~= path_prefix.subrange(0, path_prefix.len() as int));
        },
        _ => {},
    }
}

/// Path coverage composes: a path below a path below `a` is below `a`.
proof fn lemma_path_covers_transitive(a: Seq<char>, b: Seq<char>, c: Seq<char>)
    requires
        path_covers(a, b),
        path_covers(b, c),
    ensures
        path_covers(a, c),
{
    assert(a =~= c.subrange(0, a.len() as int)) by {
        assert(a =~= b.subrange(0, a.len() as int));
        assert(b =~= c.subrange(0, b.len() as int));
        assert forall|i: int| 0 <= i < a.len() implies a[i] == c[i] by {
            assert(a[i] == b[i]);
            assert(b[i] == c[i]);
        }
    }
    if a.len() == b.len() {
        assert(a =~= b);
    } else if a.len() < c.len() && !(a.len() > 0 && a.last() == '/') {
        assert(b[a.len() as int] == '/');
        assert(b =~= c.subrange(0, b.len() as int));
        assert(c[a.len() as int] == b[a.len() as int]);
    }
}

/// Scoping composes: a grant that covers a narrower grant covers
/// everything that narrower grant covers.
pub proof fn lemma_permits_transitive(a: CapabilityView, b: CapabilityView, c: CapabilityView)
    requires
        permits_spec(a, b),
        permits_spec(b, c),
    ensures
        permits_spec(a, c),
{
    match (a, b, c) {
        (
            CapabilityView::FilesystemRead { path_prefix: pa },
            CapabilityView::FilesystemRead { path_prefix: pb },
            CapabilityView::FilesystemRead { path_prefix: pc },
        ) => {
            lemma_path_covers_transitive(pa, pb, pc);
        },
        (
            CapabilityView::FilesystemWrite { path_prefix: pa },
            CapabilityView::FilesystemWrite { path_prefix: pb },
            CapabilityView::FilesystemWrite { path_prefix: pc },
        ) => {
            lemma_path_covers_transitive(pa, pb, pc);
        },
        _ => {},
    }
}

/// Only filesystem capabilities of the same kind are ever matched by
/// prefix: a read grant never covers a write request, and every other
/// capability is matched only by itself.
pub proof fn lemma_permits_same_kind(granted: CapabilityView, requested: CapabilityView)
    requires
        permits_spec(granted, requested),
    ensures
        requested is FilesystemRead ==> granted is FilesystemRead,
        requested is FilesystemWrite ==> granted is FilesystemWrite,
        !(requested is FilesystemRead) && !(requested is FilesystemWrite) ==> granted == requested,
{
}

} // verus!
