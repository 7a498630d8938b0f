//! The widget effect queue: the declarative result of a widget lifecycle
//! call. A widget never performs I/O itself; it queues fetch,
//! dependency-declaration and custom-async commands, which the document
//! tree interprets.

use crate::path::Path;
use std::collections::VecDeque;
use vstd::prelude::*;

verus! {

/// One queued command. `F` is the host's type for opaque async operations.
#[derive(Debug)]
pub enum WidgetCmd<F> {
    /// Fetch raw bytes from the given path, relative to the widget's own
    /// document.
    FetchBytes(Path),
    /// Fetch structured data from the given path, relative to the widget's
    /// own document.
    FetchJson(Path),
    /// Fetch text from the given path, relative to the widget's own
    /// document.
    FetchText(Path),
    /// Run an opaque async operation; its result comes back as such.
    PerformCmd(F),
    /// Atomically replace the declared-dependency set of the widget's own
    /// document.
    UpdateDependencies(Vec<Path>),
    /// State changed, but no visible effect is required. Distinct from
    /// queueing nothing at all.
    Skip,
}

/// The ordered queue of commands a widget hands back from `init` or
/// `update`.
#[derive(Debug)]
pub struct WidgetOrders<F> {
    pub(crate) orders: VecDeque<WidgetCmd<F>>,
}

impl<F> WidgetOrders<F> {
    /// The queued commands, front first.
    pub closed spec fn cmds(&self) -> Seq<WidgetCmd<F>> {
        self.orders@
    }

    /// Surrender the queue for interpretation.
    pub fn into_queue(self) -> (q: VecDeque<WidgetCmd<F>>)
        ensures
            q@ == self.cmds(),
    {
        self.orders
    }

    /// An empty queue.
    pub fn new() -> (r: WidgetOrders<F>)
        ensures
            r.cmds().len() == 0,
    {
        WidgetOrders { orders: VecDeque::new() }
    }

    /// Queue a bytes fetch at the back.
    pub fn fetch_bytes(self, path: Path) -> (r: WidgetOrders<F>)
        ensures
            r.cmds() == self.cmds().push(WidgetCmd::FetchBytes(path)),
    {
        let mut orders = self.orders;
        orders.push_back(WidgetCmd::FetchBytes(path));
        WidgetOrders { orders }
    }

    /// Queue a structured-data fetch at the back.
    pub fn fetch_json(self, path: Path) -> (r: WidgetOrders<F>)
        ensures
            r.cmds() == self.cmds().push(WidgetCmd::FetchJson(path)),
    {
        let mut orders = self.orders;
        orders.push_back(WidgetCmd::FetchJson(path));
        WidgetOrders { orders }
    }

    /// Queue a text fetch at the back.
    pub fn fetch_text(self, path: Path) -> (r: WidgetOrders<F>)
        ensures
            r.cmds() == self.cmds().push(WidgetCmd::FetchText(path)),
    {
        let mut orders = self.orders;
        orders.push_back(WidgetCmd::FetchText(path));
        WidgetOrders { orders }
    }

    /// Queue an opaque async operation at the front.
    pub fn perform_cmd(self, cmd: F) -> (r: WidgetOrders<F>)
        ensures
            r.cmds() == seq![WidgetCmd::PerformCmd(cmd)] + self.cmds(),
    {
        let mut orders = self.orders;
        orders.push_front(WidgetCmd::PerformCmd(cmd));
        WidgetOrders { orders }
    }

    /// Queue a dependency-set replacement at the front.
    pub fn update_deps(self, deps: Vec<Path>) -> (r: WidgetOrders<F>)
        ensures
            r.cmds() == seq![WidgetCmd::UpdateDependencies(deps)] + self.cmds(),
    {
        let mut orders = self.orders;
        orders.push_front(WidgetCmd::UpdateDependencies(deps));
        WidgetOrders { orders }
    }

    /// Queue an explicit no-visible-effect marker at the front.
    pub fn skip(self) -> (r: WidgetOrders<F>)
        ensures
            r.cmds() == seq![WidgetCmd::Skip] + self.cmds(),
    {
        let mut orders = self.orders;
        orders.push_front(WidgetCmd::Skip);
        WidgetOrders { orders }
    }
}

} // verus!
