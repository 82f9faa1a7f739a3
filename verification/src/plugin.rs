//! Extension points. In-tree features are written against these same traits,
//! so the extension system is used rather than bolted on later. They are
//! definitions only: there is no loader yet, and they promise nothing beyond
//! their signatures.
use vstd::prelude::*;
use crate::help::HelpCtx;
use crate::types::{Entry, HelpBody, PanelId};

verus! {

/// A bindable command that can appear in a command palette.
pub trait Command {
    /// Stable identifier, e.g. `"panel.toggle_hidden"`.
    fn id(&self) -> &str;
    /// Human-readable title for the command palette.
    fn title(&self) -> &str;
}

/// A topic in the help book: it hands back structured content, and the
/// renderer decides how to paint it.
pub trait HelpTopic {
    /// Stable identifier, e.g. `"shortcuts"`.
    fn id(&self) -> &str;
    /// Label for the topic rail.
    fn title(&self) -> &str;
    /// Render this topic against the current app state and search query.
    fn body(&self, ctx: &HelpCtx) -> HelpBody;
}

/// Custom view / edit / open behaviour for a file type.
pub trait FileTypeHandler {
    /// Whether this handler claims the given entry.
    fn handles(&self, entry: &Entry) -> bool;
}

/// Contributes an extra panel column.
pub trait ColumnProvider {
    fn id(&self) -> &str;
    /// Column header label.
    fn header(&self) -> &str;
    /// Cell text for a given entry.
    fn cell(&self, entry: &Entry) -> String;
}

/// A custom operation registered against the file-operation pipeline.
pub trait Operation {
    fn id(&self) -> &str;
}

/// Contributes a theme.
pub trait ThemeProvider {
    fn id(&self) -> &str;
}

/// Watches the directories the panels have open and reports when one changes
/// underneath the app.
pub trait FsObserver {
    /// Begin observing `path` on behalf of `panel`, replacing whatever that
    /// panel was pointed at.
    fn observe(&self, panel: PanelId, path: &str);
    /// Stop observing on `panel`'s behalf.
    fn release(&self, panel: PanelId);
    /// Check every observed directory right now.
    fn poke(&self);
}

/// Where a running program's output is routed.
pub trait ExecutionSink {
    /// Append output bytes from the running process.
    fn write(&mut self, bytes: &[u8]);
}

} // verus!
