//! The shell's session: which node it works on, the nodes it is connected to, and its remote
//! trace subscriptions. Connection handles are of a type `C` chosen by the program that connects.

use vstd::prelude::*;

use crate::error::{ShellError, ShellErrorOf, ShellResult};
use crate::protocol::ClusterTopology;
use crate::text::{push_str, str_eq};

verus! {

/// The names of a list of named entries.
pub open spec fn entry_names<T>(m: Seq<(String, T)>) -> Seq<Seq<char>> {
    m.map_values(|e: (String, T)| e.0@)
}

/// An active remote trace subscription.
#[derive(Debug)]
pub struct RemoteTraceSubscription {
    /// Node being traced
    pub node: String,
    /// Subscription ID from the remote node
    pub subscription_id: u64,
    /// Pattern being traced
    pub pattern: String,
}

/// Main shell state.
pub struct ShellState<C> {
    /// Flag to exit the REPL
    pub should_exit: bool,
    /// Current node context (None = local)
    pub current_node: Option<String>,
    /// Local node name for cluster participation
    pub local_node_name: String,
    /// Connected remote nodes, each name once, with the handle of their introspection actor
    pub connected_nodes: Vec<(String, C)>,
    /// Cached cluster topology (refreshed on demand)
    pub cluster_topology: Option<ClusterTopology>,
    /// Active remote trace subscriptions
    pub remote_trace_subscriptions: Vec<RemoteTraceSubscription>,
    /// Quiet mode - suppresses verbose output (for scripting)
    pub quiet: bool,
}

/// The machine's host name as text, if it has one that is valid Unicode: the `hostname` crate's
/// `get`, then `OsString::into_string`. It depends on the machine, so nothing is stated of it.
#[verifier::external_body]
fn machine_hostname() -> (h: Option<String>) {
    hostname::get().ok().and_then(|h| h.into_string().ok())
}

/// The local node name for a host name: `shell@` and the host name, or `shell@localhost`.
pub open spec fn node_name_for(host: Option<Seq<char>>) -> Seq<char> {
    match host {
        Some(h) => "shell@"@ + h,
        None => "shell@localhost"@,
    }
}

/// The local node name for a host name (`shell@<host>`, `shell@localhost` without one).
pub fn local_node_name_for(host: Option<String>) -> (n: String)
    ensures
        n@ == node_name_for(crate::trace::opt_view(host)),
{
    match host {
        Some(h) => {
            let mut n = "shell@".to_string();
            push_str(&mut n, h.as_str());
            n
        },
        None => "shell@localhost".to_string(),
    }
}

/// Whether the local context or a node is current: `ractor@local > ` or `ractor@<node> > `.
pub open spec fn prompt_text(node: Option<Seq<char>>) -> Seq<char> {
    match node {
        Some(n) => "ractor@"@ + n + " > "@,
        None => "ractor@local > "@,
    }
}

/// The subscriptions of `subs` other than `id`, in order.
pub open spec fn without_subscription(subs: Seq<RemoteTraceSubscription>, id: u64) -> Seq<
    RemoteTraceSubscription,
>
    decreases subs.len(),
{
    if subs.len() == 0 {
        Seq::empty()
    } else {
        let r = without_subscription(subs.drop_last(), id);
        if subs.last().subscription_id != id {
            r.push(subs.last())
        } else {
            r
        }
    }
}

impl<C> ShellState<C> {
    /// Connected node names are distinct.
    pub open spec fn wf(&self) -> bool {
        entry_names(self.connected_nodes@).no_duplicates()
    }

    /// A fresh session for the local node named `local_node_name`: local context, no
    /// connections, no subscriptions.
    pub fn with_name(local_node_name: String, quiet: bool) -> (s: Self)
        ensures
            s.wf(),
            !s.should_exit,
            s.current_node is None,
            s.local_node_name == local_node_name,
            s.connected_nodes@.len() == 0,
            s.cluster_topology is None,
            s.remote_trace_subscriptions@.len() == 0,
            s.quiet == quiet,
    {
        let s = ShellState {
            should_exit: false,
            current_node: None,
            local_node_name,
            connected_nodes: Vec::new(),
            cluster_topology: None,
            remote_trace_subscriptions: Vec::new(),
            quiet,
        };
        assert(entry_names(s.connected_nodes@) =~= Seq::<Seq<char>>::empty());
        s
    }

    /// A fresh session named after this machine (`shell@<hostname>`).
    pub fn with_options(quiet: bool) -> (s: Self)
        ensures
            s.wf(),
            !s.should_exit,
            s.current_node is None,
            exists|h: Option<Seq<char>>| s.local_node_name@ == #[trigger] node_name_for(h),
            s.connected_nodes@.len() == 0,
            s.cluster_topology is None,
            s.remote_trace_subscriptions@.len() == 0,
            s.quiet == quiet,
    {
        let host = machine_hostname();
        let ghost h = crate::trace::opt_view(host);
        let name = local_node_name_for(host);
        assert(name@ == node_name_for(h));
        Self::with_name(name, quiet)
    }

    /// A fresh session named after this machine, with output.
    pub fn new() -> (s: Self)
        ensures
            s.wf(),
            !s.should_exit,
            s.current_node is None,
            exists|h: Option<Seq<char>>| s.local_node_name@ == #[trigger] node_name_for(h),
            s.connected_nodes@.len() == 0,
            s.remote_trace_subscriptions@.len() == 0,
            !s.quiet,
    {
        Self::with_options(false)
    }

    /// A fresh session named after this machine, in quiet mode for scripting.
    pub fn new_quiet() -> (s: Self)
        ensures
            s.wf(),
            !s.should_exit,
            s.current_node is None,
            exists|h: Option<Seq<char>>| s.local_node_name@ == #[trigger] node_name_for(h),
            s.connected_nodes@.len() == 0,
            s.remote_trace_subscriptions@.len() == 0,
            s.quiet,
    {
        Self::with_options(true)
    }

    /// Build the shell prompt string showing the current node context: `ractor@local > ` or
    /// `ractor@<node> > `.
    pub fn build_prompt(&self) -> (p: String)
        ensures
            p@ == prompt_text(crate::trace::opt_view(self.current_node)),
    {
        match &self.current_node {
            Some(node) => {
                let mut p = "ractor@".to_string();
                push_str(&mut p, node.as_str());
                push_str(&mut p, " > ");
                p
            },
            None => "ractor@local > ".to_string(),
        }
    }

    /// Mark the session for exit.
    pub fn exit(&mut self)
        ensures
            final(self).should_exit,
            final(self).current_node == old(self).current_node,
            final(self).connected_nodes == old(self).connected_nodes,
    {
        self.should_exit = true;
    }

    /// The position of the connection named `node`, if there is one.
    pub fn find_node(&self, node: &str) -> (r: Option<usize>)
        requires
            self.wf(),
        ensures
            match r {
                Some(i) => i < self.connected_nodes@.len() && self.connected_nodes@[i as int].0@
                    == node@ && entry_names(self.connected_nodes@).contains(node@)
                    && entry_names(self.connected_nodes@).index_of(node@) == i,
                None => !entry_names(self.connected_nodes@).contains(node@),
            },
    {
        let mut i: usize = 0;
        while i < self.connected_nodes.len()
            invariant
                i <= self.connected_nodes@.len(),
                entry_names(self.connected_nodes@).no_duplicates(),
                forall|j: int| 0 <= j < i ==> self.connected_nodes@[j].0@ != node@,
            decreases self.connected_nodes.len() - i,
        {
            if str_eq(self.connected_nodes[i].0.as_str(), node) {
                proof {
                    let names = entry_names(self.connected_nodes@);
                    assert(names[i as int] == node@);
                    let k = names.index_of(node@);
                    assert(names[k] == node@);
                }
                return Some(i);
            }
            i = i + 1;
        }
        proof {
            let names = entry_names(self.connected_nodes@);
            if names.contains(node@) {
                let k = names.index_of(node@);
                assert(self.connected_nodes@[k].0@ == node@);
            }
        }
        None
    }

    /// The connection handle for `node`, if connected.
    pub fn connection(&self, node: &str) -> (r: Option<&C>)
        requires
            self.wf(),
        ensures
            match r {
                Some(c) => entry_names(self.connected_nodes@).contains(node@) && *c
                    == self.connected_nodes@[entry_names(self.connected_nodes@).index_of(node@)].1,
                None => !entry_names(self.connected_nodes@).contains(node@),
            },
    {
        match self.find_node(node) {
            Some(i) => Some(&self.connected_nodes[i].1),
            None => None,
        }
    }

    /// Switch context to a node: `local` for the local node, else a connected node.
    pub fn use_node(&mut self, node: String) -> (r: ShellResult<()>)
        requires
            old(self).wf(),
        ensures
            final(self).wf(),
            final(self).connected_nodes == old(self).connected_nodes,
            node@ == "local"@ ==> r is Ok && final(self).current_node is None,
            node@ != "local"@ && entry_names(old(self).connected_nodes@).contains(node@) ==> r is Ok
                && final(self).current_node == Some(node),
            node@ != "local"@ && !entry_names(old(self).connected_nodes@).contains(node@) ==> (r
                matches Err(ShellErrorOf::NodeNotConnected(n)) && n@ == node@)
                && final(self).current_node == old(self).current_node,
    {
        if str_eq(node.as_str(), "local") {
            self.current_node = None;
            return Ok(());
        }
        match self.find_node(node.as_str()) {
            Some(_) => {
                self.current_node = Some(node);
                Ok(())
            },
            None => Err(ShellError::NodeNotConnected(node)),
        }
    }

    fn remove_node(&mut self, i: usize)
        requires
            old(self).wf(),
            i < old(self).connected_nodes@.len(),
        ensures
            final(self).wf(),
            final(self).connected_nodes@ == old(self).connected_nodes@.remove(i as int),
            final(self).current_node == old(self).current_node,
            final(self).remote_trace_subscriptions == old(self).remote_trace_subscriptions,
            final(self).should_exit == old(self).should_exit,
    {
        let ghost names = entry_names(self.connected_nodes@);
        let _ = self.connected_nodes.remove(i);
        proof {
            assert(entry_names(self.connected_nodes@) =~= names.remove(i as int));
            assert forall|a: int, b: int|
                0 <= a < b < names.len() - 1 implies names.remove(i as int)[a] != names.remove(
                i as int,
            )[b] by {
                let a2 = if a < i { a } else { a + 1 };
                let b2 = if b < i { b } else { b + 1 };
                assert(names.remove(i as int)[a] == names[a2]);
                assert(names.remove(i as int)[b] == names[b2]);
            }
        }
    }

    /// Disconnect from a node. Returns whether the session switched back to the local context
    /// (it does when the node was current); an error if the node is not connected.
    pub fn disconnect(&mut self, node: String) -> (r: ShellResult<bool>)
        requires
            old(self).wf(),
        ensures
            final(self).wf(),
            entry_names(old(self).connected_nodes@).contains(node@) ==> {
                let i = entry_names(old(self).connected_nodes@).index_of(node@);
                &&& final(self).connected_nodes@ == old(self).connected_nodes@.remove(i)
                &&& r is Ok
                &&& r->Ok_0 == (crate::trace::opt_view(old(self).current_node) == Some(node@))
                &&& if r->Ok_0 {
                    final(self).current_node is None
                } else {
                    final(self).current_node == old(self).current_node
                }
            },
            !entry_names(old(self).connected_nodes@).contains(node@) ==> (r matches Err(
                ShellErrorOf::NodeNotConnected(n),
            ) && n@ == node@) && final(self).connected_nodes == old(self).connected_nodes
                && final(self).current_node == old(self).current_node,
    {
        match self.find_node(node.as_str()) {
            Some(i) => {
                self.remove_node(i);
                let switched = match &self.current_node {
                    Some(cur) => str_eq(cur.as_str(), node.as_str()),
                    None => false,
                };
                if switched {
                    self.current_node = None;
                }
                Ok(switched)
            },
            None => Err(ShellError::NodeNotConnected(node)),
        }
    }

    /// Before reconnecting to `node`: drop a stale connection to it. Returns whether it was the
    /// current node and whether a connection was dropped.
    pub fn begin_reconnect(&mut self, node: &str) -> (r: (bool, bool))
        requires
            old(self).wf(),
        ensures
            final(self).wf(),
            r.0 == (crate::trace::opt_view(old(self).current_node) == Some(node@)),
            r.1 == entry_names(old(self).connected_nodes@).contains(node@),
            r.1 ==> final(self).connected_nodes@ == old(self).connected_nodes@.remove(
                entry_names(old(self).connected_nodes@).index_of(node@),
            ),
            !r.1 ==> final(self).connected_nodes == old(self).connected_nodes,
            final(self).current_node == old(self).current_node,
    {
        let was_current = match &self.current_node {
            Some(cur) => str_eq(cur.as_str(), node),
            None => false,
        };
        match self.find_node(node) {
            Some(i) => {
                self.remove_node(i);
                (was_current, true)
            },
            None => (was_current, false),
        }
    }

    /// Record a new connection to `host` and make it the current node; a connection under that
    /// name is replaced.
    pub fn record_connection(&mut self, host: String, conn: C)
        requires
            old(self).wf(),
        ensures
            final(self).wf(),
            final(self).current_node == Some(host),
            entry_names(final(self).connected_nodes@) == (if entry_names(
                old(self).connected_nodes@,
            ).contains(host@) {
                entry_names(old(self).connected_nodes@)
            } else {
                entry_names(old(self).connected_nodes@).push(host@)
            }),
            final(self).connected_nodes@[entry_names(final(self).connected_nodes@).index_of(
                host@,
            )].1 == conn,
            entry_names(final(self).connected_nodes@).contains(host@),
            forall|i: int|
                0 <= i < old(self).connected_nodes@.len() && old(self).connected_nodes@[i].0@
                    != host@ ==> final(self).connected_nodes@[i] == old(self).connected_nodes@[i],
    {
        let ghost names = entry_names(self.connected_nodes@);
        match self.find_node(host.as_str()) {
            Some(i) => {
                let key = self.connected_nodes[i].0.clone();
                self.connected_nodes.set(i, (key, conn));
                proof {
                    assert(entry_names(self.connected_nodes@) =~= names);
                }
            },
            None => {
                self.connected_nodes.push((host.clone(), conn));
                proof {
                    let n2 = entry_names(self.connected_nodes@);
                    assert(n2 =~= names.push(host@));
                    assert(n2[names.len() as int] == host@);
                    assert forall|a: int, b: int| 0 <= a < b < n2.len() implies n2[a] != n2[b] by {
                        if b == names.len() {
                            assert(names[a] != host@);
                        }
                    }
                    let k = n2.index_of(host@);
                    if k < names.len() {
                        assert(names[k] == host@);
                    }
                }
            },
        }
        self.current_node = Some(host);
    }

    /// The connected node names, each with whether it is the current node.
    pub fn node_list(&self) -> (v: Vec<(String, bool)>)
        ensures
            v@.len() == self.connected_nodes@.len(),
            forall|i: int|
                0 <= i < v@.len() ==> (#[trigger] v@[i]).0@ == self.connected_nodes@[i].0@ && v@[i].1
                    == (crate::trace::opt_view(self.current_node) == Some(
                    self.connected_nodes@[i].0@,
                )),
    {
        let mut v: Vec<(String, bool)> = Vec::new();
        let mut i: usize = 0;
        while i < self.connected_nodes.len()
            invariant
                i <= self.connected_nodes@.len(),
                v@.len() == i,
                forall|j: int|
                    0 <= j < i ==> (#[trigger] v@[j]).0@ == self.connected_nodes@[j].0@ && v@[j].1
                        == (crate::trace::opt_view(self.current_node) == Some(
                        self.connected_nodes@[j].0@,
                    )),
            decreases self.connected_nodes.len() - i,
        {
            let name = self.connected_nodes[i].0.clone();
            let current = match &self.current_node {
                Some(cur) => str_eq(cur.as_str(), name.as_str()),
                None => false,
            };
            v.push((name, current));
            i = i + 1;
        }
        v
    }

    /// Remember a remote trace subscription.
    pub fn add_remote_subscription(&mut self, sub: RemoteTraceSubscription)
        ensures
            final(self).remote_trace_subscriptions@ == old(self).remote_trace_subscriptions@.push(
                sub,
            ),
            final(self).connected_nodes == old(self).connected_nodes,
            final(self).current_node == old(self).current_node,
    {
        self.remote_trace_subscriptions.push(sub);
    }

    /// Forget the remote trace subscription `id` (its polling stopped).
    pub fn drop_remote_subscription(&mut self, id: u64)
        ensures
            final(self).remote_trace_subscriptions@ == without_subscription(
                old(self).remote_trace_subscriptions@,
                id,
            ),
            final(self).connected_nodes == old(self).connected_nodes,
            final(self).current_node == old(self).current_node,
    {
        let mut kept: Vec<RemoteTraceSubscription> = Vec::new();
        let mut rest: Vec<RemoteTraceSubscription> = Vec::new();
        std::mem::swap(&mut rest, &mut self.remote_trace_subscriptions);
        let ghost orig = rest@;
        let ghost mut i: int = 0;
        while rest.len() > 0
            invariant
                0 <= i <= orig.len(),
                rest@ == orig.skip(i),
                kept@ == without_subscription(orig.take(i), id),
                self.connected_nodes == old(self).connected_nodes,
                self.current_node == old(self).current_node,
                orig == old(self).remote_trace_subscriptions@,
            decreases rest@.len(),
        {
            assert(rest@.len() == orig.len() - i);
            let s = rest.remove(0);
            proof {
                assert(orig.take(i + 1).drop_last() =~= orig.take(i));
                assert(orig.skip(i)[0] == orig[i]);
                assert(orig.take(i + 1).last() == orig[i]);
                assert(orig.skip(i + 1) =~= orig.skip(i).subrange(1, orig.skip(i).len() as int));
            }
            if s.subscription_id != id {
                kept.push(s);
            }
            proof {
                i = i + 1;
            }
        }
        proof {
            assert(orig.take(i) =~= orig);
        }
        self.remote_trace_subscriptions = kept;
    }

    /// Take every remote trace subscription, leaving none.
    pub fn take_remote_subscriptions(&mut self) -> (subs: Vec<RemoteTraceSubscription>)
        ensures
            subs@ == old(self).remote_trace_subscriptions@,
            final(self).remote_trace_subscriptions@.len() == 0,
            final(self).connected_nodes == old(self).connected_nodes,
            final(self).current_node == old(self).current_node,
    {
        let mut subs: Vec<RemoteTraceSubscription> = Vec::new();
        std::mem::swap(&mut subs, &mut self.remote_trace_subscriptions);
        subs
    }
}

/// An actor's identity as plain values: the node it runs on (`None` for this node) and its
/// process ID there.
#[derive(Debug, Clone, Copy, PartialEq, Eq, Structural)]
pub struct ActorKey {
    /// The remote node's ID, or `None` for a local actor
    pub node: Option<u64>,
    /// The actor's process ID
    pub pid: u64,
}

/// The positions, in order, of the members that are remote actors not among `known`.
pub open spec fn fresh_remote_positions(members: Seq<ActorKey>, known: Seq<ActorKey>) -> Seq<int>
    decreases members.len(),
{
    if members.len() == 0 {
        Seq::empty()
    } else {
        let r = fresh_remote_positions(members.drop_last(), known);
        let m = members.last();
        if m.node is Some && !known.contains(m) {
            r.push(members.len() - 1)
        } else {
            r
        }
    }
}

fn same_key(a: ActorKey, b: ActorKey) -> (r: bool)
    ensures
        r == (a == b),
{
    let same_node = match (a.node, b.node) {
        (Some(x), Some(y)) => x == y,
        (None, None) => true,
        _ => false,
    };
    same_node && a.pid == b.pid
}

/// The introspection actors that a new connection may have brought: the positions of the group
/// members that are remote and not already connected, in order.
pub fn fresh_remote_members(members: &Vec<ActorKey>, known: &Vec<ActorKey>) -> (r: Vec<usize>)
    ensures
        r@.map_values(|i: usize| i as int) == fresh_remote_positions(members@, known@),
{
    let mut r: Vec<usize> = Vec::new();
    let mut i: usize = 0;
    while i < members.len()
        invariant
            i <= members@.len(),
            r@.map_values(|i: usize| i as int) == fresh_remote_positions(members@.take(i as int), known@),
        decreases members.len() - i,
    {
        let m = members[i];
        let mut seen = false;
        let mut k: usize = 0;
        while k < known.len()
            invariant
                k <= known@.len(),
                seen == exists|j: int| 0 <= j < k && known@[j] == m,
            decreases known.len() - k,
        {
            if same_key(known[k], m) {
                seen = true;
            }
            k = k + 1;
        }
        proof {
            assert(members@.take(i + 1).drop_last() =~= members@.take(i as int));
            assert(members@.take(i + 1).last() == m);
            if known@.contains(m) {
                let j = known@.index_of(m);
                assert(known@[j] == m);
            }
        }
        let ghost before = r@;
        if m.node.is_some() && !seen {
            r.push(i);
            proof {
                assert(r@.map_values(|i: usize| i as int) =~= before.map_values(|i: usize| i as int).push(i as int));
            }
        }
        i = i + 1;
    }
    proof {
        assert(members@.take(i as int) =~= members@);
    }
    r
}

} // verus!
