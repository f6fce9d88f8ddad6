//! Views of a cluster's topology: which view a `cluster` subcommand asks for, the rows shown
//! for nodes and process group members, and the actors across the cluster.

use vstd::prelude::*;

use crate::introspection::{extract_node_id, first_index_of, INTROSPECTION_GROUP};
use crate::protocol::{ActorLocation, ClusterTopology, NodeInfo};
use crate::text::{views, lemma_lex_antisym, lemma_lex_total, lemma_lex_trans, lex_le, push_str, str_eq, str_le};

verus! {

/// What a `cluster` subcommand asks to see.
#[derive(Debug, Clone, PartialEq, Eq)]
pub enum ClusterView {
    /// The nodes (no subcommand, or `nodes`)
    Nodes,
    /// The process groups (`groups` or `pg`)
    Groups,
    /// The actors across the cluster (`actors`)
    Actors,
    /// Any other subcommand
    Unknown(String),
}

/// The view a subcommand asks for.
pub open spec fn view_for(sub: Option<Seq<char>>) -> Option<int> {
    match sub {
        None => Some(0),
        Some(s) => if s == "nodes"@ {
            Some(0)
        } else if s == "groups"@ || s == "pg"@ {
            Some(1)
        } else if s == "actors"@ {
            Some(2)
        } else {
            None
        },
    }
}

/// Which view a `cluster` subcommand asks for.
pub fn cluster_view(sub: Option<String>) -> (v: ClusterView)
    ensures
        view_for(crate::trace::opt_view(sub)) == Some(0int) <==> v is Nodes,
        view_for(crate::trace::opt_view(sub)) == Some(1int) <==> v is Groups,
        view_for(crate::trace::opt_view(sub)) == Some(2int) <==> v is Actors,
        view_for(crate::trace::opt_view(sub)) is None <==> (v matches ClusterView::Unknown(s) && Some(
            s@,
        ) == crate::trace::opt_view(sub)),
{
    match sub {
        None => ClusterView::Nodes,
        Some(s) => {
            if str_eq(s.as_str(), "nodes") {
                ClusterView::Nodes
            } else if str_eq(s.as_str(), "groups") || str_eq(s.as_str(), "pg") {
                ClusterView::Groups
            } else if str_eq(s.as_str(), "actors") {
                ClusterView::Actors
            } else {
                ClusterView::Unknown(s)
            }
        },
    }
}

/// The decimal digit for `d < 10`.
pub open spec fn digit_char(d: nat) -> char {
    if d == 0 {
        '0'
    } else if d == 1 {
        '1'
    } else if d == 2 {
        '2'
    } else if d == 3 {
        '3'
    } else if d == 4 {
        '4'
    } else if d == 5 {
        '5'
    } else if d == 6 {
        '6'
    } else if d == 7 {
        '7'
    } else if d == 8 {
        '8'
    } else {
        '9'
    }
}

/// The decimal digits of `n`.
pub open spec fn decimal_text(n: nat) -> Seq<char>
    decreases n,
{
    if n < 10 {
        seq![digit_char(n)]
    } else {
        decimal_text(n / 10).push(digit_char(n % 10))
    }
}

fn digit(d: usize) -> (c: char)
    requires
        d < 10,
    ensures
        c == digit_char(d as nat),
{
    match d {
        0 => '0',
        1 => '1',
        2 => '2',
        3 => '3',
        4 => '4',
        5 => '5',
        6 => '6',
        7 => '7',
        8 => '8',
        _ => '9',
    }
}

/// `n` in decimal (`usize::to_string`).
pub fn decimal(n: usize) -> (s: String)
    ensures
        s@ == decimal_text(n as nat),
    decreases n,
{
    if n < 10 {
        let mut s = String::new();
        crate::text::push_char(&mut s, digit(n));
        proof {
            assert(s@ =~= seq![digit_char(n as nat)]);
        }
        s
    } else {
        let mut s = decimal(n / 10);
        crate::text::push_char(&mut s, digit(n % 10));
        s
    }
}

/// A row of the cluster nodes table.
#[derive(Debug, Clone)]
pub struct NodeRow {
    /// Node ID
    pub id: String,
    /// Node name
    pub name: String,
    /// Number of actors, shown for the local node only (`-` for others)
    pub actors: String,
    /// `yes` for the local node, `no` for others
    pub is_local: String,
}

/// The row shown for a node.
pub fn node_row(node: &NodeInfo) -> (r: NodeRow)
    ensures
        r.id@ == node.id@,
        r.name@ == node.name@,
        r.actors@ == (if node.is_local {
            decimal_text(node.actor_count as nat)
        } else {
            "-"@
        }),
        r.is_local@ == (if node.is_local {
            "yes"@
        } else {
            "no"@
        }),
{
    NodeRow {
        id: node.id.clone(),
        name: node.name.clone(),
        actors: if node.is_local {
            decimal(node.actor_count)
        } else {
            "-".to_string()
        },
        is_local: if node.is_local {
            "yes".to_string()
        } else {
            "no".to_string()
        },
    }
}

/// A row of a table of actors located in the cluster.
#[derive(Debug, Clone)]
pub struct MemberRow {
    /// Actor ID
    pub id: String,
    /// The actor's name, or `-`
    pub name: String,
    /// The node: `<node name> (<node id>)`
    pub node: String,
}

/// The row shown for an actor's location.
pub fn member_row(loc: &ActorLocation) -> (r: MemberRow)
    ensures
        r.id@ == loc.actor_id@,
        r.name@ == (match loc.actor_name {
            Some(n) => n@,
            None => "-"@,
        }),
        r.node@ == loc.node_name@ + " ("@ + loc.node_id@ + ")"@,
{
    let mut node = loc.node_name.clone();
    push_str(&mut node, " (");
    push_str(&mut node, loc.node_id.as_str());
    push_str(&mut node, ")");
    MemberRow {
        id: loc.actor_id.clone(),
        name: match &loc.actor_name {
            Some(n) => n.clone(),
            None => "-".to_string(),
        },
        node,
    }
}

/// Whether `a` comes strictly before `b` in character order.
pub open spec fn lex_lt(a: Seq<char>, b: Seq<char>) -> bool {
    lex_le(a, b) && a != b
}

/// The locations are in strictly increasing order of actor ID.
pub open spec fn strictly_sorted_by_id(s: Seq<ActorLocation>) -> bool {
    forall|a: int, b: int| 0 <= a < b < s.len() ==> lex_lt(#[trigger] s[a].actor_id@, #[trigger] s[b].actor_id@)
}

/// A copy of a location.
pub fn copy_location(l: &ActorLocation) -> (r: ActorLocation)
    ensures
        r == *l,
{
    ActorLocation {
        actor_id: l.actor_id.clone(),
        actor_name: crate::protocol::copy_opt(&l.actor_name),
        node_id: l.node_id.clone(),
        node_name: l.node_name.clone(),
    }
}

/// Add `l` to `out`, kept in strictly increasing order of actor ID, unless a location with its
/// actor ID is there already.
fn insert_unique(out: &mut Vec<ActorLocation>, l: &ActorLocation)
    requires
        strictly_sorted_by_id(old(out)@),
    ensures
        strictly_sorted_by_id(final(out)@),
        forall|x: ActorLocation| #[trigger] final(out)@.contains(x) ==> old(out)@.contains(x) || x == *l,
        forall|x: ActorLocation| #[trigger] old(out)@.contains(x) ==> final(out)@.contains(x),
        exists|k: int| 0 <= k < final(out)@.len() && #[trigger] final(out)@[k].actor_id@ == l.actor_id@,
{
    let mut j: usize = 0;
    while j < out.len() && !str_le(l.actor_id.as_str(), out[j].actor_id.as_str())
        invariant
            j <= out@.len(),
            out@ == old(out)@,
            strictly_sorted_by_id(out@),
            forall|a: int| 0 <= a < j ==> lex_lt(#[trigger] out@[a].actor_id@, l.actor_id@),
        decreases out.len() - j,
    {
        proof {
            lemma_lex_total(l.actor_id@, out@[j as int].actor_id@);
        }
        j = j + 1;
    }
    if j < out.len() && str_eq(out[j].actor_id.as_str(), l.actor_id.as_str()) {
        return;
    }
    let ghost before = out@;
    out.insert(j, copy_location(l));
    proof {
        assert(out@ =~= before.subrange(0, j as int).push(*l) + before.subrange(j as int, before.len() as int));
        assert forall|a: int, b: int| 0 <= a < b < out@.len() implies lex_lt(
            #[trigger] out@[a].actor_id@,
            #[trigger] out@[b].actor_id@,
        ) by {
            if j < before.len() {
                // l sorts no later than before[j], and differs from it.
                assert(lex_le(l.actor_id@, before[j as int].actor_id@));
                assert(l.actor_id@ != before[j as int].actor_id@);
            }
            if a < j && b == j {
            } else if a < j && b > j {
                assert(out@[b] == before[b - 1]);
                if b - 1 > j {
                    lemma_lex_trans(l.actor_id@, before[j as int].actor_id@, before[b - 1].actor_id@);
                    if l.actor_id@ == before[b - 1].actor_id@ {
                        lemma_lex_antisym(before[j as int].actor_id@, before[b - 1].actor_id@);
                    }
                }
                lemma_lex_trans(out@[a].actor_id@, l.actor_id@, before[b - 1].actor_id@);
                if out@[a].actor_id@ == before[b - 1].actor_id@ {
                    lemma_lex_antisym(out@[a].actor_id@, l.actor_id@);
                }
            } else if a == j && b > j {
                assert(out@[b] == before[b - 1]);
                if b - 1 > j {
                    lemma_lex_trans(l.actor_id@, before[j as int].actor_id@, before[b - 1].actor_id@);
                    if l.actor_id@ == before[b - 1].actor_id@ {
                        lemma_lex_antisym(before[j as int].actor_id@, before[b - 1].actor_id@);
                    }
                }
            } else if a > j {
                assert(out@[a] == before[a - 1]);
                assert(out@[b] == before[b - 1]);
            }
        }
        assert forall|x: ActorLocation| #[trigger] before.contains(x) implies out@.contains(x) by {
            let k = before.index_of(x);
            if k < j {
                assert(out@[k] == x);
            } else {
                assert(out@[k + 1] == x);
            }
        }
        assert forall|x: ActorLocation| #[trigger] out@.contains(x) implies before.contains(x) || x == *l by {
            let k = out@.index_of(x);
            if k < j {
                assert(before[k] == x);
            } else if k > j {
                assert(before[k - 1] == x);
            }
        }
        assert(out@[j as int].actor_id@ == l.actor_id@);
    }
}

/// Whether `x` is a member of one of the groups.
pub open spec fn in_some_group(groups: Seq<(String, Vec<ActorLocation>)>, x: ActorLocation) -> bool {
    exists|j: int| 0 <= j < groups.len() && #[trigger] groups[j].1@.contains(x)
}

/// The actors across the cluster: every location of every process group, one per actor ID, in
/// increasing order of actor ID.
pub fn cluster_actors(topology: &ClusterTopology) -> (out: Vec<ActorLocation>)
    ensures
        strictly_sorted_by_id(out@),
        forall|i: int| 0 <= i < out@.len() ==> in_some_group(topology.process_groups@, #[trigger] out@[i]),
        forall|j: int, k: int| #![trigger topology.process_groups@[j].1@[k]]
            0 <= j < topology.process_groups@.len() && 0 <= k < topology.process_groups@[j].1@.len() ==> exists|i: int| #![trigger out@[i]]
                0 <= i < out@.len() && out@[i].actor_id@ == topology.process_groups@[j].1@[k].actor_id@,
{
    let groups = &topology.process_groups;
    let mut out: Vec<ActorLocation> = Vec::new();
    let mut gi: usize = 0;
    while gi < groups.len()
        invariant
            gi <= groups@.len(),
            strictly_sorted_by_id(out@),
            groups@ == topology.process_groups@,
            forall|x: ActorLocation| #[trigger] out@.contains(x) ==> exists|i: int| 0 <= i < gi && groups@[i].1@.contains(x),
            forall|i: int, k: int| #![trigger groups@[i].1@[k]] 0 <= i < gi && 0 <= k < groups@[i].1@.len() ==> exists|m: int| #![trigger out@[m]] 0 <= m < out@.len() && out@[m].actor_id@ == groups@[i].1@[k].actor_id@,
        decreases groups.len() - gi,
    {
        let group = &groups[gi].1;
        let mut k: usize = 0;
        while k < group.len()
            invariant
                k <= group@.len(),
                gi < groups@.len(),
                groups@[gi as int].1 == *group,
                strictly_sorted_by_id(out@),
                forall|x: ActorLocation| #[trigger] out@.contains(x) ==> (exists|i: int| 0 <= i < gi && groups@[i].1@.contains(x)) || group@.take(k as int).contains(x),
                forall|i: int, k2: int| #![trigger groups@[i].1@[k2]] 0 <= i < gi && 0 <= k2 < groups@[i].1@.len() ==> exists|m: int| #![trigger out@[m]] 0 <= m < out@.len() && out@[m].actor_id@ == groups@[i].1@[k2].actor_id@,
                forall|k2: int| #![trigger group@[k2]] 0 <= k2 < k ==> exists|m: int| #![trigger out@[m]] 0 <= m < out@.len() && out@[m].actor_id@ == group@[k2].actor_id@,
            decreases group.len() - k,
        {
            let ghost before = out@;
            insert_unique(&mut out, &group[k]);
            proof {
                assert forall|x: ActorLocation| #[trigger] out@.contains(x) implies (exists|i: int| 0 <= i < gi && groups@[i].1@.contains(x)) || group@.take(k + 1).contains(x) by {
                    if before.contains(x) {
                        if group@.take(k as int).contains(x) {
                            let t = group@.take(k as int).index_of(x);
                            assert(group@.take(k + 1)[t] == x);
                        }
                    } else {
                        assert(x == group@[k as int]);
                        assert(group@.take(k + 1)[k as int] == x);
                    }
                }
                assert forall|i: int, k2: int| #![trigger groups@[i].1@[k2]] 0 <= i < gi && 0 <= k2 < groups@[i].1@.len() implies exists|m: int| #![trigger out@[m]] 0 <= m < out@.len() && out@[m].actor_id@ == groups@[i].1@[k2].actor_id@ by {
                    let m0 = choose|m: int| #![trigger before[m]] 0 <= m < before.len() && before[m].actor_id@ == groups@[i].1@[k2].actor_id@;
                    assert(before.contains(before[m0]));
                    assert(out@.contains(before[m0]));
                    let m1 = out@.index_of(before[m0]);
                    assert(out@[m1].actor_id@ == groups@[i].1@[k2].actor_id@);
                }
                assert forall|k2: int| #![trigger group@[k2]] 0 <= k2 < k + 1 implies exists|m: int| #![trigger out@[m]] 0 <= m < out@.len() && out@[m].actor_id@ == group@[k2].actor_id@ by {
                    if k2 < k {
                        let m0 = choose|m: int| #![trigger before[m]] 0 <= m < before.len() && before[m].actor_id@ == group@[k2].actor_id@;
                        assert(before.contains(before[m0]));
                        let m1 = out@.index_of(before[m0]);
                        assert(out@[m1].actor_id@ == group@[k2].actor_id@);
                    }
                }
            }
            k = k + 1;
        }
        proof {
            assert(group@.take(group@.len() as int) =~= group@);
            assert forall|x: ActorLocation| #[trigger] out@.contains(x) implies exists|i: int| 0 <= i < gi + 1 && groups@[i].1@.contains(x) by {
                if !(exists|i: int| 0 <= i < gi && groups@[i].1@.contains(x)) {
                    assert(groups@[gi as int].1@.contains(x));
                }
            }
        }
        gi = gi + 1;
    }
    proof {
        assert forall|i: int| 0 <= i < out@.len() implies in_some_group(topology.process_groups@, #[trigger] out@[i]) by {
            assert(out@.contains(out@[i]));
            let j = choose|j: int| 0 <= j < gi && groups@[j].1@.contains(out@[i]);
            assert(topology.process_groups@[j].1@.contains(out@[i]));
        }
    }
    out
}

/// The texts are in strictly increasing character order.
pub open spec fn strictly_sorted(s: Seq<Seq<char>>) -> bool {
    forall|a: int, b: int| 0 <= a < b < s.len() ==> lex_lt(#[trigger] s[a], #[trigger] s[b])
}

/// Add `t` to the strictly sorted `v`, unless it is there already.
fn insert_sorted(v: &mut Vec<String>, t: String)
    requires
        strictly_sorted(views(old(v)@)),
    ensures
        strictly_sorted(views(final(v)@)),
        views(final(v)@).to_set() == views(old(v)@).to_set().insert(t@),
{
    let ghost before = views(v@);
    let mut j: usize = 0;
    while j < v.len() && !str_le(t.as_str(), v[j].as_str())
        invariant
            j <= v@.len(),
            views(v@) == before,
            strictly_sorted(before),
            forall|a: int| 0 <= a < j ==> lex_lt(#[trigger] before[a], t@),
        decreases v.len() - j,
    {
        proof {
            lemma_lex_total(t@, before[j as int]);
        }
        j = j + 1;
    }
    if j < v.len() && str_eq(v[j].as_str(), t.as_str()) {
        proof {
            assert(before.to_set().insert(t@) =~= before.to_set()) by {
                assert(before[j as int] == t@);
            }
        }
        return;
    }
    let ghost tv = t@;
    v.insert(j, t);
    proof {
        let after = views(v@);
        assert(after =~= before.subrange(0, j as int).push(tv) + before.subrange(j as int, before.len() as int));
        if j < before.len() {
            assert(lex_le(tv, before[j as int]));
            assert(tv != before[j as int]);
        }
        assert forall|a: int, b: int| 0 <= a < b < after.len() implies lex_lt(#[trigger] after[a], #[trigger] after[b]) by {
            if a < j && b > j {
                assert(after[b] == before[b - 1]);
                if b - 1 > j {
                    lemma_lex_trans(tv, before[j as int], before[b - 1]);
                    if tv == before[b - 1] {
                        lemma_lex_antisym(before[j as int], before[b - 1]);
                    }
                }
                lemma_lex_trans(after[a], tv, before[b - 1]);
                if after[a] == before[b - 1] {
                    lemma_lex_antisym(after[a], tv);
                }
            } else if a == j && b > j {
                assert(after[b] == before[b - 1]);
                if b - 1 > j {
                    lemma_lex_trans(tv, before[j as int], before[b - 1]);
                    if tv == before[b - 1] {
                        lemma_lex_antisym(before[j as int], before[b - 1]);
                    }
                }
            } else if a > j {
                assert(after[a] == before[a - 1]);
                assert(after[b] == before[b - 1]);
            }
        }
        assert forall|x: Seq<char>| after.to_set().contains(x) <==> before.to_set().insert(tv).contains(x) by {
            if after.contains(x) {
                let k = after.index_of(x);
                if k < j {
                    assert(before[k] == x);
                } else if k > j {
                    assert(before[k - 1] == x);
                }
            }
            if before.contains(x) {
                let k = before.index_of(x);
                if k < j {
                    assert(after[k] == x);
                } else {
                    assert(after[k + 1] == x);
                }
            }
            if x == tv {
                assert(after[j as int] == tv);
            }
        }
        assert(after.to_set() =~= before.to_set().insert(tv));
    }
}

/// The process groups whose membership the topology is built from.
pub fn topology_group_names() -> (v: Vec<String>)
    ensures
        views(v@) == seq!["ping_pong"@, INTROSPECTION_GROUP@],
{
    let v = vec!["ping_pong".to_string(), INTROSPECTION_GROUP.to_string()];
    proof {
        assert(views(v@) =~= seq!["ping_pong"@, INTROSPECTION_GROUP@]);
    }
    v
}

/// The node an actor ID belongs to: its text before the first `.`.
pub open spec fn node_of(actor_id: Seq<char>) -> Seq<char> {
    actor_id.take(first_index_of(actor_id, '.'))
}

/// The name given to a remote node: `node_` and its ID.
pub open spec fn node_label(id: Seq<char>) -> Seq<char> {
    "node_"@ + id
}

/// Where a process group member (its actor ID and name) is in the cluster.
pub open spec fn location_of(member: (String, Option<String>), loc: ActorLocation) -> bool {
    &&& loc.actor_id@ == member.0@
    &&& loc.actor_name == member.1
    &&& loc.node_id@ == node_of(member.0@)
    &&& loc.node_name@ == node_label(node_of(member.0@))
}

/// The node IDs of the members of the groups.
pub open spec fn member_node_ids(groups: Seq<(String, Vec<(String, Option<String>)>)>) -> Set<Seq<char>> {
    Set::new(|id: Seq<char>| exists|j: int, k: int| 0 <= j < groups.len() && 0 <= k < groups[j].1@.len() && id == node_of(#[trigger] groups[j].1@[k].0@))
}

fn label(id: &String) -> (r: String)
    ensures
        r@ == node_label(id@),
{
    let mut r = "node_".to_string();
    push_str(&mut r, id.as_str());
    r
}

/// The IDs of the nodes.
pub open spec fn node_ids(nodes: Seq<NodeInfo>) -> Seq<Seq<char>> {
    nodes.map_values(|n: NodeInfo| n.id@)
}

/// Whether `pgs` holds, in order, each of `groups` that has members, under its name, with the
/// location of each member.
pub open spec fn group_locations_match(
    groups: Seq<(String, Vec<(String, Option<String>)>)>,
    pgs: Seq<(String, Vec<ActorLocation>)>,
) -> bool
    decreases groups.len(),
{
    if groups.len() == 0 {
        pgs.len() == 0
    } else if groups.last().1@.len() == 0 {
        group_locations_match(groups.drop_last(), pgs)
    } else {
        &&& pgs.len() > 0
        &&& group_locations_match(groups.drop_last(), pgs.drop_last())
        &&& pgs.last().0@ == groups.last().0@
        &&& pgs.last().1@.len() == groups.last().1@.len()
        &&& forall|k: int| 0 <= k < pgs.last().1@.len() ==> location_of(groups.last().1@[k], #[trigger] pgs.last().1@[k])
    }
}

/// Build the cluster topology from the members of the topology groups (each member's actor ID
/// and name), the number of registered actors on this node and the actor ID of one of them.
///
/// Every member is located on the node its actor ID names; groups without members are left
/// out. The nodes are every member's node and the local node (that of the registered actor, or
/// `0`), each once and in increasing order of ID; the local node carries `local_node_name` and
/// the number of registered actors, every other node is named `node_<id>` and counts none.
pub fn build_cluster_topology(
    local_node_name: &str,
    groups: &Vec<(String, Vec<(String, Option<String>)>)>,
    registered_count: usize,
    first_registered_id: &Option<String>,
) -> (t: ClusterTopology)
    ensures
        ({
            let local_id = match first_registered_id {
                Some(id) => node_of(id@),
                None => "0"@,
            };
            &&& t.process_groups@.len() <= groups@.len()
            &&& forall|j: int| 0 <= j < t.process_groups@.len() ==> (#[trigger] t.process_groups@[j]).1@.len() > 0
            &&& strictly_sorted(node_ids(t.nodes@))
            &&& node_ids(t.nodes@).to_set() == member_node_ids(groups@).insert(local_id)
            &&& forall|i: int| 0 <= i < t.nodes@.len() ==> {
                let n = #[trigger] t.nodes@[i];
                &&& n.is_local == (n.id@ == local_id)
                &&& n.name@ == (if n.is_local { local_node_name@ } else { node_label(n.id@) })
                &&& n.actor_count == (if n.is_local { registered_count } else { 0 })
            }
        }),
        group_locations_match(groups@, t.process_groups@),
{
    let local_id = match first_registered_id {
        Some(id) => extract_node_id(id.as_str()),
        None => "0".to_string(),
    };
    let mut ids: Vec<String> = Vec::new();
    proof {
        assert(views(ids@) =~= Seq::<Seq<char>>::empty());
        assert(views(ids@).to_set() =~= Set::<Seq<char>>::empty());
    }
    insert_sorted(&mut ids, local_id.clone());
    let mut process_groups: Vec<(String, Vec<ActorLocation>)> = Vec::new();
    let mut j: usize = 0;
    while j < groups.len()
        invariant
            j <= groups@.len(),
            strictly_sorted(views(ids@)),
            views(ids@).to_set() == member_node_ids(groups@.take(j as int)).insert(local_id@),
            group_locations_match(groups@.take(j as int), process_groups@),
            process_groups@.len() <= j,
            forall|g: int| 0 <= g < process_groups@.len() ==> (#[trigger] process_groups@[g]).1@.len() > 0,
        decreases groups.len() - j,
    {
        let members = &groups[j].1;
        let mut locations: Vec<ActorLocation> = Vec::new();
        let mut k: usize = 0;
        while k < members.len()
            invariant
                k <= members@.len(),
                j < groups@.len(),
                *members == groups@[j as int].1,
                strictly_sorted(views(ids@)),
                views(ids@).to_set() == member_node_ids(groups@.take(j as int)).insert(local_id@).union(
                    Set::new(|id: Seq<char>| exists|k2: int| 0 <= k2 < k && id == node_of(#[trigger] members@[k2].0@))),
                locations@.len() == k,
                forall|k2: int| 0 <= k2 < k ==> location_of(members@[k2], #[trigger] locations@[k2]),
            decreases members.len() - k,
        {
            let (actor_id, name) = &members[k];
            let node_id = extract_node_id(actor_id.as_str());
            let node_name = label(&node_id);
            let ghost s0 = views(ids@).to_set();
            insert_sorted(&mut ids, node_id.clone());
            locations.push(ActorLocation {
                actor_id: actor_id.clone(),
                actor_name: crate::protocol::copy_opt(name),
                node_id,
                node_name,
            });
            proof {
                let prev = Set::new(|id: Seq<char>| exists|k2: int| 0 <= k2 < k && id == node_of(#[trigger] members@[k2].0@));
                let next = Set::new(|id: Seq<char>| exists|k2: int| 0 <= k2 < k + 1 && id == node_of(#[trigger] members@[k2].0@));
                assert(next =~= prev.insert(node_of(members@[k as int].0@)));
            }
            k = k + 1;
        }
        proof {
            let prev = Set::new(|id: Seq<char>| exists|k2: int| 0 <= k2 < members@.len() && id == node_of(#[trigger] members@[k2].0@));
            let gs = groups@.take(j + 1);
            assert(gs.drop_last() =~= groups@.take(j as int));
            assert(member_node_ids(gs) =~= member_node_ids(groups@.take(j as int)).union(prev)) by {
                assert forall|id: Seq<char>| member_node_ids(gs).contains(id) implies member_node_ids(groups@.take(j as int)).union(prev).contains(id) by {
                    let (a, b) = choose|a: int, b: int| 0 <= a < gs.len() && 0 <= b < gs[a].1@.len() && id == node_of(#[trigger] gs[a].1@[b].0@);
                    if a < j {
                        assert(groups@.take(j as int)[a] == gs[a]);
                    } else {
                        assert(members@[b] == gs[a].1@[b]);
                    }
                }
                assert forall|id: Seq<char>| member_node_ids(groups@.take(j as int)).union(prev).contains(id) implies member_node_ids(gs).contains(id) by {
                    if member_node_ids(groups@.take(j as int)).contains(id) {
                        let (a, b) = choose|a: int, b: int| 0 <= a < j && 0 <= b < groups@.take(j as int)[a].1@.len() && id == node_of(#[trigger] groups@.take(j as int)[a].1@[b].0@);
                        assert(gs[a] == groups@.take(j as int)[a]);
                        assert(id == node_of(gs[a].1@[b].0@));
                    } else {
                        let b = choose|b: int| 0 <= b < members@.len() && id == node_of(#[trigger] members@[b].0@);
                        assert(gs[j as int].1@[b] == members@[b]);
                        assert(id == node_of(gs[j as int].1@[b].0@));
                    }
                }
            }
            assert(member_node_ids(gs).insert(local_id@) =~= member_node_ids(groups@.take(j as int)).insert(local_id@).union(prev));
        }
        let ghost pg0 = process_groups@;
        let ghost locs = locations@;
        let ghost gs = groups@.take(j + 1);
        proof {
            assert(gs.drop_last() =~= groups@.take(j as int));
            assert(gs.last() == groups@[j as int]);
        }
        if locations.len() > 0 {
            process_groups.push((groups[j].0.clone(), locations));
            proof {
                assert(process_groups@.drop_last() =~= pg0);
                assert(process_groups@.last().1@ == locs);
            }
        }
        j = j + 1;
    }
    proof {
        assert(groups@.take(groups@.len() as int) =~= groups@);
    }
    let mut nodes: Vec<NodeInfo> = Vec::new();
    let mut i: usize = 0;
    while i < ids.len()
        invariant
            i <= ids@.len(),
            nodes@.len() == i,
            forall|a: int| 0 <= a < i ==> (#[trigger] nodes@[a]).id@ == ids@[a]@,
            forall|a: int| 0 <= a < i ==> {
                let n = #[trigger] nodes@[a];
                &&& n.is_local == (n.id@ == local_id@)
                &&& n.name@ == (if n.is_local { local_node_name@ } else { node_label(n.id@) })
                &&& n.actor_count == (if n.is_local { registered_count } else { 0 })
            },
        decreases ids.len() - i,
    {
        let id = ids[i].clone();
        let is_local = str_eq(id.as_str(), local_id.as_str());
        let name = if is_local {
            local_node_name.to_string()
        } else {
            label(&id)
        };
        nodes.push(NodeInfo { id, name, actor_count: if is_local { registered_count } else { 0 }, is_local });
        i = i + 1;
    }
    proof {
        assert(node_ids(nodes@) =~= views(ids@));
    }
    ClusterTopology { nodes, process_groups }
}

/// The node of an actor ID `<node>.<rest>` is `<node>`, and a node ID holds no `.`.
pub proof fn lemma_node_of(node: Seq<char>, rest: Seq<char>)
    requires
        !node.contains('.'),
    ensures
        node_of(node + "."@ + rest) == node,
        !node_of(node + rest).contains('.'),
{
    reveal_strlit(".");
    let id = node + "."@ + rest;
    crate::introspection::lemma_first_index_bounds(id, '.');
    let k = first_index_of(id, '.');
    assert(id[node.len() as int] == '.');
    if k < node.len() {
        assert(id[k] == node[k]);
    }
    assert(k == node.len()) by {
        if k > node.len() {
            assert(id[node.len() as int] != '.');
        }
    }
    assert(id.take(k) =~= node);
    let id2 = node + rest;
    crate::introspection::lemma_first_index_bounds(id2, '.');
    let k2 = first_index_of(id2, '.');
    if node_of(id2).contains('.') {
        let j = node_of(id2).index_of('.');
        assert(id2[j] == '.');
    }
}

} // verus!
