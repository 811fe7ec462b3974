use vstd::prelude::*;

use crate::routing::strings_view;

verus! {

/// A logical peer: its identity, candidate endpoints and reference count.
pub struct PeerEntry {
    pub peer_id: String,
    pub endpoints: Vec<String>,
    pub ref_count: u64,
}

/// The mathematical model of a peer.
pub struct PeerView {
    pub id: Seq<char>,
    pub endpoints: Seq<Seq<char>>,
    pub ref_count: nat,
}

impl View for PeerEntry {
    type V = PeerView;

    open spec fn view(&self) -> PeerView {
        PeerView {
            id: self.peer_id@,
            endpoints: strings_view(self.endpoints@),
            ref_count: self.ref_count as nat,
        }
    }
}

/// A held reference to a peer. It cannot be copied; giving it back to the table that issued
/// it releases it.
pub struct PeerRef {
    peer_id: String,
}

impl PeerRef {
    pub closed spec fn id(&self) -> Seq<char> {
        self.peer_id@
    }

    /// The identity of the referenced peer.
    pub fn peer_id(&self) -> (r: &String)
        ensures
            r@ == self.id(),
    {
        &self.peer_id
    }
}

/// Why a peer operation failed.
#[derive(Clone, Copy, Debug, PartialEq, Eq, Structural)]
pub enum PeerError {
    /// The count of references cannot grow further.
    RefCountOverflow,
    /// Under strict reference counting, a reference to a peer that has none was released.
    RefCountUnderflow,
    /// No peer is known by the given id.
    UnknownPeer,
    /// The id took part in an earlier identification.
    AlreadyIdentified,
}

pub open spec fn has_peer(v: Seq<PeerView>, p: Seq<char>) -> bool {
    exists|i: int| 0 <= i < v.len() && #[trigger] v[i].id == p
}

pub open spec fn peer_index(v: Seq<PeerView>, p: Seq<char>) -> int {
    choose|i: int| 0 <= i < v.len() && #[trigger] v[i].id == p
}

/// The number of live references to peer `p`.
pub open spec fn ref_count_of(v: Seq<PeerView>, p: Seq<char>) -> nat {
    if has_peer(v, p) {
        v[peer_index(v, p)].ref_count
    } else {
        0
    }
}

/// Peer ids are unique and every peer in the table is referenced.
pub open spec fn peers_wf(v: Seq<PeerView>) -> bool {
    &&& forall|i: int, j: int| 0 <= i < j < v.len() ==> #[trigger] v[i].id != #[trigger] v[j].id
    &&& forall|i: int| 0 <= i < v.len() ==> #[trigger] v[i].ref_count >= 1
}

/// The table after a reference to `p` is acquired: a known peer's count grows, an unknown
/// peer is added with one reference.
pub open spec fn after_add(v: Seq<PeerView>, p: Seq<char>, endpoints: Seq<Seq<char>>) -> Seq<
    PeerView,
> {
    if has_peer(v, p) {
        let i = peer_index(v, p);
        v.update(i, PeerView { ref_count: v[i].ref_count + 1, ..v[i] })
    } else {
        v.push(PeerView { id: p, endpoints, ref_count: 1 })
    }
}

/// The table after a reference to a known peer `p` is released: its count drops, and the
/// peer leaves the table when no reference is left.
pub open spec fn after_release(v: Seq<PeerView>, p: Seq<char>) -> Seq<PeerView> {
    let i = peer_index(v, p);
    if v[i].ref_count > 1 {
        v.update(i, PeerView { ref_count: (v[i].ref_count - 1) as nat, ..v[i] })
    } else {
        v.remove(i)
    }
}

proof fn lemma_peer_index_unique(v: Seq<PeerView>, p: Seq<char>, i: int)
    requires
        peers_wf(v),
        0 <= i < v.len(),
        v[i].id == p,
    ensures
        has_peer(v, p),
        peer_index(v, p) == i,
{
    let k = peer_index(v, p);
    if k != i {
        if k < i {
            assert(v[k].id != v[i].id);
        } else {
            assert(v[i].id != v[k].id);
        }
    }
}

/// Acquiring a reference keeps the table well formed, adds one reference to `p` and leaves
/// every other peer's count as it was.
pub proof fn lemma_add_counts(v: Seq<PeerView>, p: Seq<char>, e: Seq<Seq<char>>)
    requires
        peers_wf(v),
    ensures
        peers_wf(after_add(v, p, e)),
        forall|q: Seq<char>|
            #[trigger] ref_count_of(after_add(v, p, e), q) == ref_count_of(v, q) + if q == p {
                1nat
            } else {
                0nat
            },
{
    let w = after_add(v, p, e);
    if has_peer(v, p) {
        let i = peer_index(v, p);
        assert forall|a: int, b: int| 0 <= a < b < w.len() implies #[trigger] w[a].id
            != #[trigger] w[b].id by {
            assert(v[a].id != v[b].id);
        }
        assert forall|q: Seq<char>|
            #[trigger] ref_count_of(w, q) == ref_count_of(v, q) + if q == p {
                1nat
            } else {
                0nat
            } by {
            if has_peer(v, q) {
                let k = peer_index(v, q);
                lemma_peer_index_unique(w, q, k);
            } else {
                if has_peer(w, q) {
                    let k = peer_index(w, q);
                    assert(v[k].id == q);
                }
            }
        }
    } else {
        let n = v.len() as int;
        assert forall|a: int, b: int| 0 <= a < b < w.len() implies #[trigger] w[a].id
            != #[trigger] w[b].id by {
            if b == n {
                assert(v[a].id == w[a].id);
            } else {
                assert(v[a].id != v[b].id);
            }
        }
        assert forall|q: Seq<char>|
            #[trigger] ref_count_of(w, q) == ref_count_of(v, q) + if q == p {
                1nat
            } else {
                0nat
            } by {
            if q == p {
                lemma_peer_index_unique(w, q, n);
            } else if has_peer(v, q) {
                let k = peer_index(v, q);
                lemma_peer_index_unique(w, q, k);
            } else if has_peer(w, q) {
                let k = peer_index(w, q);
                assert(v[k].id == q);
            }
        }
    }
}

/// Releasing a held reference keeps the table well formed, removes one reference to `p` and
/// leaves every other peer's count as it was.
pub proof fn lemma_release_counts(v: Seq<PeerView>, p: Seq<char>)
    requires
        peers_wf(v),
        has_peer(v, p),
    ensures
        peers_wf(after_release(v, p)),
        forall|q: Seq<char>|
            #[trigger] ref_count_of(after_release(v, p), q) == ref_count_of(v, q) - if q == p {
                1int
            } else {
                0int
            },
{
    let w = after_release(v, p);
    let i = peer_index(v, p);
    if v[i].ref_count > 1 {
        assert forall|a: int, b: int| 0 <= a < b < w.len() implies #[trigger] w[a].id
            != #[trigger] w[b].id by {
            assert(v[a].id != v[b].id);
        }
        assert forall|q: Seq<char>|
            #[trigger] ref_count_of(w, q) == ref_count_of(v, q) - if q == p {
                1int
            } else {
                0int
            } by {
            if has_peer(v, q) {
                let k = peer_index(v, q);
                lemma_peer_index_unique(w, q, k);
            } else if has_peer(w, q) {
                let k = peer_index(w, q);
                assert(v[k].id == q);
            }
        }
    } else {
        assert forall|k: int| 0 <= k < w.len() implies (#[trigger] w[k] == if k < i {
            v[k]
        } else {
            v[k + 1]
        }) by {}
        assert forall|a: int, b: int| 0 <= a < b < w.len() implies #[trigger] w[a].id
            != #[trigger] w[b].id by {
            let a2 = if a < i { a } else { a + 1 };
            let b2 = if b < i { b } else { b + 1 };
            assert(v[a2].id != v[b2].id);
        }
        assert forall|a: int| 0 <= a < w.len() implies #[trigger] w[a].ref_count >= 1 by {
            let a2 = if a < i { a } else { a + 1 };
            assert(v[a2].ref_count >= 1);
        }
        assert forall|q: Seq<char>|
            #[trigger] ref_count_of(w, q) == ref_count_of(v, q) - if q == p {
                1int
            } else {
                0int
            } by {
            if has_peer(w, q) {
                let k = peer_index(w, q);
                let k2 = if k < i { k } else { k + 1 };
                assert(v[k2].id == q);
                lemma_peer_index_unique(v, q, k2);
                if q == p {
                    if k2 < i {
                        assert(v[k2].id != v[i].id);
                    } else {
                        assert(v[i].id != v[k2].id);
                    }
                }
            } else if has_peer(v, q) {
                let k = peer_index(v, q);
                if k != i {
                    let k2 = if k < i { k } else { k - 1 };
                    assert(w[k2].id == q);
                }
            }
        }
    }
}

/// Acquiring a reference to a peer and then releasing it leaves the table as it was.
pub proof fn lemma_add_release_restores(v: Seq<PeerView>, p: Seq<char>, e: Seq<Seq<char>>)
    requires
        peers_wf(v),
    ensures
        has_peer(after_add(v, p, e), p),
        after_release(after_add(v, p, e), p) == v,
{
    let w = after_add(v, p, e);
    if has_peer(v, p) {
        let i = peer_index(v, p);
        lemma_peer_index_unique(w, p, i);
        assert(after_release(w, p) =~= v);
    } else {
        lemma_peer_index_unique(w, p, v.len() as int);
        lemma_add_counts(v, p, e);
        assert(after_release(w, p) =~= v);
    }
}

/// The table after the peer known as `t` is identified as `id`: it is re-keyed, or, where a
/// peer `id` already exists, merged into it with its references and with its endpoints as
/// alternate candidates.
pub open spec fn after_identify(v: Seq<PeerView>, t: Seq<char>, id: Seq<char>) -> Seq<PeerView> {
    let i = peer_index(v, t);
    if has_peer(v, id) {
        let j = peer_index(v, id);
        v.update(
            j,
            PeerView {
                ref_count: v[j].ref_count + v[i].ref_count,
                endpoints: v[j].endpoints + v[i].endpoints,
                ..v[j]
            },
        ).remove(i)
    } else {
        v.update(i, PeerView { id, ..v[i] })
    }
}

/// Identifying a peer moves all of its references to its identity and keeps the table well
/// formed.
pub proof fn lemma_identify_counts(v: Seq<PeerView>, t: Seq<char>, id: Seq<char>)
    requires
        peers_wf(v),
        has_peer(v, t),
        t != id,
    ensures
        peers_wf(after_identify(v, t, id)),
        !has_peer(after_identify(v, t, id), t),
        forall|q: Seq<char>|
            #[trigger] ref_count_of(after_identify(v, t, id), q) == if q == id {
                ref_count_of(v, t) + ref_count_of(v, id)
            } else if q == t {
                0
            } else {
                ref_count_of(v, q)
            },
{
    let i = peer_index(v, t);
    let w = after_identify(v, t, id);
    if has_peer(v, id) {
        let j = peer_index(v, id);
        assert(i != j);
        let u = v.update(j, PeerView { ref_count: v[j].ref_count + v[i].ref_count, endpoints: v[j].endpoints + v[i].endpoints, ..v[j] });
        assert forall|k: int| 0 <= k < w.len() implies (#[trigger] w[k] == if k < i {
            u[k]
        } else {
            u[k + 1]
        }) by {}
        assert forall|a: int, b: int| 0 <= a < b < w.len() implies #[trigger] w[a].id
            != #[trigger] w[b].id by {
            let a2 = if a < i { a } else { a + 1 };
            let b2 = if b < i { b } else { b + 1 };
            assert(v[a2].id != v[b2].id);
        }
        assert forall|a: int| 0 <= a < w.len() implies #[trigger] w[a].ref_count >= 1 by {
            let a2 = if a < i { a } else { a + 1 };
            assert(v[a2].ref_count >= 1);
        }
        assert forall|q: Seq<char>|
            #[trigger] ref_count_of(w, q) == if q == id {
                ref_count_of(v, t) + ref_count_of(v, id)
            } else if q == t {
                0
            } else {
                ref_count_of(v, q)
            } by {
            if has_peer(w, q) {
                let k = peer_index(w, q);
                let k2 = if k < i { k } else { k + 1 };
                assert(v[k2].id == q);
                lemma_peer_index_unique(v, q, k2);
                if q == t {
                    assert(k2 == i);
                }
            } else if has_peer(v, q) {
                let k = peer_index(v, q);
                if k != i {
                    let k2 = if k < i { k } else { k - 1 };
                    assert(w[k2].id == q);
                }
            }
        }
        if has_peer(w, t) {
            let k = peer_index(w, t);
            let k2 = if k < i { k } else { k + 1 };
            assert(v[k2].id == t);
            lemma_peer_index_unique(v, t, k2);
        }
    } else {
        assert forall|a: int, b: int| 0 <= a < b < w.len() implies #[trigger] w[a].id
            != #[trigger] w[b].id by {
            if a == i {
                assert(v[b].id != id);
            } else if b == i {
                assert(v[a].id != id);
            } else {
                assert(v[a].id != v[b].id);
            }
        }
        assert forall|q: Seq<char>|
            #[trigger] ref_count_of(w, q) == if q == id {
                ref_count_of(v, t) + ref_count_of(v, id)
            } else if q == t {
                0
            } else {
                ref_count_of(v, q)
            } by {
            if q == id {
                lemma_peer_index_unique(w, q, i);
            } else if has_peer(w, q) {
                let k = peer_index(w, q);
                assert(k != i);
                assert(v[k].id == q);
                lemma_peer_index_unique(v, q, k);
                if q == t {
                    lemma_peer_index_unique(v, t, i);
                }
            } else if has_peer(v, q) {
                let k = peer_index(v, q);
                if k != i {
                    assert(w[k].id == q);
                } else {
                    assert(q == t);
                }
            }
        }
        if has_peer(w, t) {
            let k = peer_index(w, t);
            assert(k != i);
            assert(v[k].id == t);
            lemma_peer_index_unique(v, t, k);
        }
    }
}

/// The id that aliases map `p` to: the identity it was last re-keyed to, if any.
pub open spec fn alias_in(aliases: Seq<(Seq<char>, Seq<char>)>, p: Seq<char>) -> Seq<char>
    decreases aliases.len(),
{
    if aliases.len() == 0 {
        p
    } else if aliases.last().0 == p {
        aliases.last().1
    } else {
        alias_in(aliases.drop_last(), p)
    }
}

/// Whether `t` took part in no identification so far, neither as the id re-keyed nor as
/// the identity.
pub open spec fn never_aliased(aliases: Seq<(Seq<char>, Seq<char>)>, t: Seq<char>) -> bool {
    forall|k: int| 0 <= k < aliases.len() ==> #[trigger] aliases[k].0 != t && aliases[k].1 != t
}

proof fn lemma_alias_not_onto(aliases: Seq<(Seq<char>, Seq<char>)>, t: Seq<char>, r: Seq<char>)
    requires
        never_aliased(aliases, t),
    ensures
        alias_in(aliases, t) == t,
        r != t ==> alias_in(aliases, r) != t,
    decreases aliases.len(),
{
    if aliases.len() > 0 {
        let n = aliases.len() - 1;
        assert(aliases[n].0 != t && aliases[n].1 != t);
        let prev = aliases.drop_last();
        assert forall|k: int| 0 <= k < prev.len() implies #[trigger] prev[k].0 != t && prev[k].1
            != t by {
            assert(prev[k] == aliases[k]);
        }
        lemma_alias_not_onto(prev, t, r);
    }
}

/// The number of the live references, issued for the ids in `live`, that stand for peer `p`.
pub open spec fn refs_to(live: Seq<Seq<char>>, aliases: Seq<(Seq<char>, Seq<char>)>, p: Seq<char>) -> nat
    decreases live.len(),
{
    if live.len() == 0 {
        0
    } else {
        refs_to(live.drop_last(), aliases, p) + if alias_in(aliases, live.last()) == p {
            1nat
        } else {
            0nat
        }
    }
}

proof fn lemma_refs_remove(
    live: Seq<Seq<char>>,
    aliases: Seq<(Seq<char>, Seq<char>)>,
    p: Seq<char>,
    i: int,
)
    requires
        0 <= i < live.len(),
    ensures
        refs_to(live.remove(i), aliases, p) + (if alias_in(aliases, live[i]) == p {
            1nat
        } else {
            0nat
        }) == refs_to(live, aliases, p),
    decreases live.len(),
{
    if i == live.len() - 1 {
        assert(live.remove(i) =~= live.drop_last());
    } else {
        let l2 = live.remove(i);
        assert(l2.drop_last() =~= live.drop_last().remove(i));
        assert(l2.last() == live.last());
        lemma_refs_remove(live.drop_last(), aliases, p, i);
    }
}

proof fn lemma_refs_identify(
    live: Seq<Seq<char>>,
    aliases: Seq<(Seq<char>, Seq<char>)>,
    t: Seq<char>,
    id: Seq<char>,
    p: Seq<char>,
)
    requires
        never_aliased(aliases, t),
        t != id,
    ensures
        refs_to(live, aliases.push((t, id)), p) == if p == id {
            refs_to(live, aliases, t) + refs_to(live, aliases, id)
        } else if p == t {
            0
        } else {
            refs_to(live, aliases, p)
        },
    decreases live.len(),
{
    if live.len() > 0 {
        lemma_refs_identify(live.drop_last(), aliases, t, id, p);
        let r = live.last();
        lemma_alias_not_onto(aliases, t, r);
        assert(aliases.push((t, id)).drop_last() =~= aliases);
        assert(alias_in(aliases.push((t, id)), r) == if r == t {
            id
        } else {
            alias_in(aliases, r)
        });
    }
}

/// A peer table together with its aliases and the ids of the references it has handed out
/// and not yet taken back.
pub struct PeerModel {
    pub peers: Seq<PeerView>,
    pub aliases: Seq<(Seq<char>, Seq<char>)>,
    pub live: Seq<Seq<char>>,
}

/// One step on a peer table: acquire a reference for an id, release a held reference, or
/// identify a peer.
pub enum PeerOp {
    Acquire(Seq<char>),
    Release(Seq<char>),
    Identify(Seq<char>, Seq<char>),
}

/// Whether a step may be taken: a release gives back a held reference, an identification
/// concerns a known peer that took part in none before.
pub open spec fn op_allowed(s: PeerModel, op: PeerOp) -> bool {
    match op {
        PeerOp::Acquire(_) => true,
        PeerOp::Release(p) => s.live.contains(p),
        PeerOp::Identify(t, id) => t != id && has_peer(s.peers, t) && never_aliased(s.aliases, t),
    }
}

/// The effect of a step, as `add_peer`, `release` and `identify` state it.
pub open spec fn apply_op(s: PeerModel, op: PeerOp) -> PeerModel {
    match op {
        PeerOp::Acquire(p) => PeerModel {
            peers: after_add(s.peers, alias_in(s.aliases, p), Seq::empty()),
            live: s.live.push(p),
            ..s
        },
        PeerOp::Release(p) => PeerModel {
            peers: after_release(s.peers, alias_in(s.aliases, p)),
            live: s.live.remove(s.live.index_of(p)),
            ..s
        },
        PeerOp::Identify(t, id) => PeerModel {
            peers: after_identify(s.peers, t, id),
            aliases: s.aliases.push((t, id)),
            ..s
        },
    }
}

/// The state reached from an empty table by a sequence of steps.
pub open spec fn run_ops(ops: Seq<PeerOp>) -> PeerModel
    decreases ops.len(),
{
    if ops.len() == 0 {
        PeerModel { peers: Seq::empty(), aliases: Seq::empty(), live: Seq::empty() }
    } else {
        apply_op(run_ops(ops.drop_last()), ops.last())
    }
}

/// Whether every step of a sequence may be taken where it stands.
pub open spec fn ops_allowed(ops: Seq<PeerOp>) -> bool
    decreases ops.len(),
{
    if ops.len() == 0 {
        true
    } else {
        ops_allowed(ops.drop_last()) && op_allowed(run_ops(ops.drop_last()), ops.last())
    }
}

pub open spec fn counts_match(s: PeerModel) -> bool {
    &&& peers_wf(s.peers)
    &&& forall|p: Seq<char>| #[trigger] ref_count_of(s.peers, p) == refs_to(s.live, s.aliases, p)
}

proof fn lemma_step_counts(s: PeerModel, op: PeerOp)
    requires
        counts_match(s),
        op_allowed(s, op),
    ensures
        counts_match(apply_op(s, op)),
{
    let w = apply_op(s, op);
    match op {
        PeerOp::Acquire(p) => {
            let q = alias_in(s.aliases, p);
            lemma_add_counts(s.peers, q, Seq::empty());
            assert(s.live.push(p).drop_last() =~= s.live);
            assert forall|x: Seq<char>| #[trigger] ref_count_of(w.peers, x) == refs_to(w.live, w.aliases, x) by {
                assert(ref_count_of(w.peers, x) == ref_count_of(s.peers, x) + if x == q {
                    1nat
                } else {
                    0nat
                });
            }
        },
        PeerOp::Release(p) => {
            let q = alias_in(s.aliases, p);
            let i = s.live.index_of(p);
            assert(s.live[i] == p);
            lemma_refs_remove(s.live, s.aliases, q, i);
            assert(ref_count_of(s.peers, q) >= 1);
            lemma_release_counts(s.peers, q);
            assert forall|x: Seq<char>| #[trigger] ref_count_of(w.peers, x) == refs_to(w.live, w.aliases, x) by {
                lemma_refs_remove(s.live, s.aliases, x, i);
                assert(ref_count_of(w.peers, x) == ref_count_of(s.peers, x) - if x == q {
                    1int
                } else {
                    0int
                });
            }
        },
        PeerOp::Identify(t, id) => {
            lemma_identify_counts(s.peers, t, id);
            assert forall|x: Seq<char>| #[trigger] ref_count_of(w.peers, x) == refs_to(w.live, w.aliases, x) by {
                lemma_refs_identify(s.live, s.aliases, t, id, x);
            }
        },
    }
}

/// At every point, the reference count of each peer is the number of live references that
/// stand for it: those acquired and not yet released, following identifications.
pub proof fn lemma_ref_count_is_live_refs(ops: Seq<PeerOp>, p: Seq<char>)
    requires
        ops_allowed(ops),
    ensures
        peers_wf(run_ops(ops).peers),
        ref_count_of(run_ops(ops).peers, p) == refs_to(run_ops(ops).live, run_ops(ops).aliases, p),
    decreases ops.len(),
{
    lemma_counts_match_run(ops);
}

proof fn lemma_counts_match_run(ops: Seq<PeerOp>)
    requires
        ops_allowed(ops),
    ensures
        counts_match(run_ops(ops)),
    decreases ops.len(),
{
    if ops.len() == 0 {
        let s = run_ops(ops);
        assert forall|x: Seq<char>| #[trigger] ref_count_of(s.peers, x) == refs_to(s.live, s.aliases, x) by {}
    } else {
        lemma_counts_match_run(ops.drop_last());
        lemma_step_counts(run_ops(ops.drop_last()), ops.last());
    }
}

/// Reference-counted logical peers. Under strict reference counting, releasing a reference
/// to a peer that holds none is an error; otherwise it changes nothing.
pub struct PeerManager {
    peers: Vec<PeerEntry>,
    strict_ref_counts: bool,
    aliases: Vec<(String, String)>,
}

impl View for PeerManager {
    type V = Seq<PeerView>;

    closed spec fn view(&self) -> Seq<PeerView> {
        self.peers@.map_values(|e: PeerEntry| e@)
    }
}

impl PeerManager {
    pub open spec fn wf(&self) -> bool {
        peers_wf(self@)
    }

    pub closed spec fn is_strict(&self) -> bool {
        self.strict_ref_counts
    }

    /// The identifications made so far, as `(id, identity)` pairs in order.
    pub closed spec fn alias_view(&self) -> Seq<(Seq<char>, Seq<char>)> {
        self.aliases@.map_values(|a: (String, String)| (a.0@, a.1@))
    }

    /// The peer that a reference issued for id `p` now stands for.
    pub open spec fn resolve(&self, p: Seq<char>) -> Seq<char> {
        alias_in(self.alias_view(), p)
    }

    fn resolve_alias(&self, p: &String) -> (r: String)
        ensures
            r@ == self.resolve(p@),
    {
        let ghost av = self.alias_view();
        let mut k: usize = self.aliases.len();
        assert(av.subrange(0, k as int) =~= av);
        while k > 0
            invariant
                k <= self.aliases@.len(),
                av == self.alias_view(),
                av.len() == self.aliases@.len(),
                alias_in(av, p@) == alias_in(av.subrange(0, k as int), p@),
            decreases k,
        {
            assert(av.subrange(0, k as int).drop_last() =~= av.subrange(0, k - 1));
            assert(av[k - 1] == (self.aliases@[k - 1].0@, self.aliases@[k - 1].1@));
            if self.aliases[k - 1].0 == *p {
                return self.aliases[k - 1].1.clone();
            }
            k = k - 1;
        }
        p.clone()
    }

    fn never_aliased_exec(&self, t: &String) -> (r: bool)
        ensures
            r == never_aliased(self.alias_view(), t@),
    {
        let ghost av = self.alias_view();
        let mut k: usize = 0;
        while k < self.aliases.len()
            invariant
                k <= self.aliases@.len(),
                av == self.alias_view(),
                av.len() == self.aliases@.len(),
                forall|j: int| 0 <= j < k ==> #[trigger] av[j].0 != t@ && av[j].1 != t@,
            decreases self.aliases@.len() - k,
        {
            assert(av[k as int] == (self.aliases@[k as int].0@, self.aliases@[k as int].1@));
            let entry = &self.aliases[k];
            let hit_key = entry.0 == *t;
            let hit_identity = entry.1 == *t;
            assert(hit_key == (av[k as int].0 == t@));
            assert(hit_identity == (av[k as int].1 == t@));
            if hit_key || hit_identity {
                proof {
                    assert(av[k as int].0 == t@ || av[k as int].1 == t@);
                    assert(!never_aliased(av, t@));
                }
                return false;
            }
            assert forall|j: int| 0 <= j < k + 1 implies #[trigger] av[j].0 != t@ && av[j].1 != t@ by {
                if j == k as int {
                    assert(av[k as int].0 != t@);
                }
            }
            k = k + 1;
        }
        true
    }

    /// An empty peer table.
    pub fn new(strict_ref_counts: bool) -> (r: Self)
        ensures
            r.wf(),
            r@ == Seq::<PeerView>::empty(),
            r.is_strict() == strict_ref_counts,
            r.alias_view() == Seq::<(Seq<char>, Seq<char>)>::empty(),
    {
        let r = PeerManager { peers: Vec::new(), strict_ref_counts, aliases: Vec::new() };
        assert(r@ =~= Seq::<PeerView>::empty());
        assert(r.alias_view() =~= Seq::<(Seq<char>, Seq<char>)>::empty());
        r
    }

    /// Whether releasing an unheld reference is an error.
    pub fn strict_ref_counts(&self) -> (r: bool)
        ensures
            r == self.is_strict(),
    {
        self.strict_ref_counts
    }

    fn find_peer(&self, peer_id: &String) -> (r: Option<usize>)
        ensures
            match r {
                Some(i) => i < self@.len() && self@[i as int].id == peer_id@,
                None => !has_peer(self@, peer_id@),
            },
    {
        let mut i: usize = 0;
        while i < self.peers.len()
            invariant
                i <= self.peers@.len(),
                self@.len() == self.peers@.len(),
                forall|k: int| 0 <= k < i ==> self@[k].id != peer_id@,
            decreases self.peers@.len() - i,
        {
            if self.peers[i].peer_id == *peer_id {
                return Some(i);
            }
            i = i + 1;
        }
        None
    }

    /// The number of live references to a peer (0 for an unknown peer).
    pub fn ref_count(&self, peer_id: &String) -> (r: u64)
        requires
            self.wf(),
        ensures
            r == ref_count_of(self@, peer_id@),
    {
        match self.find_peer(peer_id) {
            None => 0,
            Some(i) => {
                proof {
                    lemma_peer_index_unique(self@, peer_id@, i as int);
                }
                self.peers[i].ref_count
            },
        }
    }

    /// Acquires a reference for id `peer_id`, to the peer that the id stands for (itself, or
    /// the identity it was identified as). An unknown peer is added with the given candidate
    /// endpoints; adding a known peer only counts one more reference.
    pub fn add_peer(&mut self, peer_id: String, endpoints: Vec<String>) -> (r: Result<
        PeerRef,
        PeerError,
    >)
        requires
            old(self).wf(),
        ensures
            final(self).wf(),
            final(self).is_strict() == old(self).is_strict(),
            final(self).alias_view() == old(self).alias_view(),
            match r {
                Ok(pr) => pr.id() == peer_id@ && final(self)@ == after_add(
                    old(self)@,
                    old(self).resolve(peer_id@),
                    strings_view(endpoints@),
                ),
                Err(e) => e == PeerError::RefCountOverflow && ref_count_of(
                    old(self)@,
                    old(self).resolve(peer_id@),
                ) == u64::MAX && final(self)@ == old(self)@,
            },
    {
        let ghost old_v = self@;
        let target = self.resolve_alias(&peer_id);
        match self.find_peer(&target) {
            Some(i) => {
                proof {
                    lemma_peer_index_unique(old_v, target@, i as int);
                }
                if self.peers[i].ref_count == u64::MAX {
                    return Err(PeerError::RefCountOverflow);
                }
                let count = self.peers[i].ref_count + 1;
                self.peers[i].ref_count = count;
                proof {
                    assert(self@ =~= after_add(old_v, target@, strings_view(endpoints@)));
                    lemma_add_counts(old_v, target@, strings_view(endpoints@));
                }
            },
            None => {
                let entry = PeerEntry { peer_id: target, endpoints, ref_count: 1 };
                self.peers.push(entry);
                proof {
                    assert(self@ =~= after_add(old_v, entry.peer_id@, strings_view(entry.endpoints@)));
                    lemma_add_counts(old_v, entry.peer_id@, strings_view(entry.endpoints@));
                }
            },
        }
        Ok(PeerRef { peer_id })
    }

    /// Acquires a reference for an endpoint whose identity is not known yet: an unknown peer
    /// is keyed by its endpoint, which is also its one candidate endpoint. An endpoint that
    /// was identified already stands for its identity.
    pub fn add_unidentified_peer(&mut self, endpoint: String) -> (r: Result<PeerRef, PeerError>)
        requires
            old(self).wf(),
        ensures
            final(self).wf(),
            final(self).is_strict() == old(self).is_strict(),
            final(self).alias_view() == old(self).alias_view(),
            match r {
                Ok(pr) => pr.id() == endpoint@ && final(self)@ == after_add(
                    old(self)@,
                    old(self).resolve(endpoint@),
                    seq![endpoint@],
                ),
                Err(e) => e == PeerError::RefCountOverflow && ref_count_of(
                    old(self)@,
                    old(self).resolve(endpoint@),
                ) == u64::MAX && final(self)@ == old(self)@,
            },
    {
        let mut endpoints: Vec<String> = Vec::new();
        endpoints.push(endpoint.clone());
        proof {
            assert(strings_view(endpoints@) =~= seq![endpoint@]);
        }
        self.add_peer(endpoint, endpoints)
    }

    /// Releases a reference, to the peer that its id now stands for. A peer whose last
    /// reference is released leaves the table.
    pub fn release(&mut self, peer_ref: PeerRef) -> (r: Result<(), PeerError>)
        requires
            old(self).wf(),
        ensures
            final(self).wf(),
            final(self).is_strict() == old(self).is_strict(),
            final(self).alias_view() == old(self).alias_view(),
            has_peer(old(self)@, old(self).resolve(peer_ref.id())) ==> r is Ok && final(self)@
                == after_release(old(self)@, old(self).resolve(peer_ref.id())),
            !has_peer(old(self)@, old(self).resolve(peer_ref.id())) ==> final(self)@ == old(self)@
                && (r is Err <==> old(self).is_strict()) && (r is Err ==> r == Err::<
                (),
                PeerError,
            >(PeerError::RefCountUnderflow)),
    {
        let ghost old_v = self@;
        let target = self.resolve_alias(&peer_ref.peer_id);
        match self.find_peer(&target) {
            None => {
                if self.strict_ref_counts {
                    Err(PeerError::RefCountUnderflow)
                } else {
                    Ok(())
                }
            },
            Some(i) => {
                proof {
                    lemma_peer_index_unique(old_v, target@, i as int);
                    lemma_release_counts(old_v, target@);
                }
                if self.peers[i].ref_count > 1 {
                    let count = self.peers[i].ref_count - 1;
                    self.peers[i].ref_count = count;
                } else {
                    self.peers.remove(i);
                }
                proof {
                    assert(self@ =~= after_release(old_v, target@));
                }
                Ok(())
            },
        }
    }

    /// Identifies the peer known as `temporary_id` (an endpoint, for an unidentified peer) as
    /// `identity`. Its references move to `identity`, and references issued for
    /// `temporary_id` stand for `identity` from now on. Where a peer `identity` already
    /// exists, the two merge and the temporary peer's endpoints become alternate candidates.
    /// An id that took part in an earlier identification cannot be identified again.
    pub fn identify(&mut self, temporary_id: &String, identity: String) -> (r: Result<(), PeerError>)
        requires
            old(self).wf(),
        ensures
            final(self).wf(),
            final(self).is_strict() == old(self).is_strict(),
            match r {
                Ok(()) => has_peer(old(self)@, temporary_id@) && if temporary_id@ == identity@ {
                    final(self)@ == old(self)@ && final(self).alias_view() == old(self).alias_view()
                } else {
                    never_aliased(old(self).alias_view(), temporary_id@) && final(self)@
                        == after_identify(old(self)@, temporary_id@, identity@)
                        && final(self).alias_view() == old(self).alias_view().push(
                        (temporary_id@, identity@),
                    )
                },
                Err(e) => final(self)@ == old(self)@ && final(self).alias_view()
                    == old(self).alias_view() && if !has_peer(old(self)@, temporary_id@) {
                    e == PeerError::UnknownPeer
                } else if !never_aliased(old(self).alias_view(), temporary_id@) {
                    e == PeerError::AlreadyIdentified && temporary_id@ != identity@
                } else {
                    e == PeerError::RefCountOverflow && temporary_id@ != identity@ && ref_count_of(
                        old(self)@,
                        temporary_id@,
                    ) + ref_count_of(old(self)@, identity@) > u64::MAX
                },
            },
    {
        let ghost old_v = self@;
        let i = match self.find_peer(temporary_id) {
            None => return Err(PeerError::UnknownPeer),
            Some(i) => i,
        };
        proof {
            lemma_peer_index_unique(old_v, temporary_id@, i as int);
        }
        if *temporary_id == identity {
            return Ok(());
        }
        if !self.never_aliased_exec(temporary_id) {
            return Err(PeerError::AlreadyIdentified);
        }
        proof {
            lemma_identify_counts(old_v, temporary_id@, identity@);
        }
        match self.find_peer(&identity) {
            None => {
                self.peers[i].peer_id = identity.clone();
                proof {
                    assert(self@ =~= after_identify(old_v, temporary_id@, identity@));
                }
            },
            Some(j) => {
                proof {
                    lemma_peer_index_unique(old_v, identity@, j as int);
                }
                if self.peers[i].ref_count > u64::MAX - self.peers[j].ref_count {
                    return Err(PeerError::RefCountOverflow);
                }
                let count = self.peers[i].ref_count + self.peers[j].ref_count;
                let mut entry = self.peers.remove(i);
                let j2 = if j < i { j } else { j - 1 };
                let ghost mid = self.peers@;
                self.peers[j2].ref_count = count;
                self.peers[j2].endpoints.append(&mut entry.endpoints);
                proof {
                    let w = after_identify(old_v, temporary_id@, identity@);
                    assert(strings_view(self.peers@[j2 as int].endpoints@) =~= strings_view(
                        mid[j2 as int].endpoints@,
                    ) + strings_view(old(self).peers@[i as int].endpoints@));
                    assert forall|k: int| 0 <= k < self@.len() implies #[trigger] self@[k] == w[k] by {
                        if k != j2 {
                            assert(self.peers@[k] == mid[k]);
                        }
                    }
                    assert(self@ =~= w);
                }
            },
        }
        let ghost old_av = self.alias_view();
        self.aliases.push((temporary_id.clone(), identity));
        assert(self.alias_view() =~= old_av.push((temporary_id@, identity@)));
        Ok(())
    }
}

/// The delay before the next reconnection attempt: double the last one, capped at `ceiling`.
pub open spec fn backoff_spec(current: nat, ceiling: nat) -> nat {
    if 2 * current >= ceiling {
        ceiling
    } else {
        2 * current
    }
}

/// The delay before the next reconnection attempt: double the last one, capped at `ceiling`.
pub fn next_backoff(current: u64, ceiling: u64) -> (r: u64)
    ensures
        r == backoff_spec(current as nat, ceiling as nat),
{
    if current >= ceiling / 2 + ceiling % 2 {
        ceiling
    } else {
        2 * current
    }
}

/// The candidate endpoint to try on reconnection attempt `attempt`: the endpoints are walked in
/// order, round and round.
pub fn reconnect_endpoint(endpoints: &Vec<String>, attempt: u64) -> (r: Option<&String>)
    ensures
        match r {
            Some(e) => endpoints@.len() > 0 && *e == endpoints@[(attempt as nat % endpoints@.len()) as int],
            None => endpoints@.len() == 0,
        },
{
    if endpoints.len() == 0 {
        return None;
    }
    let i = (attempt % (endpoints.len() as u64)) as usize;
    Some(&endpoints[i])
}

} // verus!
