//! The shared registries: the circle directory and the peer registry.
//!
//! The circle directory owns every circle and the counter that mints circle
//! ids; it is the single source of truth for which peers belong to which
//! circle. The peer registry is the single source of truth for which peers
//! are currently connected. Circles hold peer ids, never peer handles, so a
//! disconnected peer has a single place of record.
//!
//! Every mutating operation is specified as a function of the view, so that
//! facts about sequences of operations (snapshot contents after a
//! disconnect, distinctness of minted ids) can be stated and proved.

use vstd::prelude::*;
use crate::decimal::{decimal, lemma_decimal_injective};

verus! {

broadcast use vstd::seq_lib::group_seq_properties;

/// The view of one circle: its id and its members' ids, in insertion order.
#[verifier::ext_equal]
pub struct CircleView {
    pub id: Seq<char>,
    pub members: Seq<Seq<char>>,
}

/// The view of the circle directory: the counter and the circles, oldest
/// first.
#[verifier::ext_equal]
pub struct DirectoryView {
    pub next_id: nat,
    pub circles: Seq<CircleView>,
}

/// The view of the whole shared state: the directory and the ids of the
/// connected peers, in connection order.
#[verifier::ext_equal]
pub struct StateView {
    pub dir: DirectoryView,
    pub peers: Seq<Seq<char>>,
}

/// One circle: a group of peers negotiating peer-to-peer sessions with one
/// another.
pub struct Circle {
    pub id: String,
    pub members: Vec<String>,
}

impl View for Circle {
    type V = CircleView;

    open spec fn view(&self) -> CircleView {
        CircleView { id: self.id@, members: self.members.deep_view() }
    }
}

/// The circle directory: every circle ever created (circles are retained,
/// even empty, for the life of the process) and the monotonic counter that
/// mints their ids.
pub struct CircleDirectory {
    pub next_circle_id: u32,
    pub circles: Vec<Circle>,
}

impl View for CircleDirectory {
    type V = DirectoryView;

    open spec fn view(&self) -> DirectoryView {
        DirectoryView {
            next_id: self.next_circle_id as nat,
            circles: self.circles@.map_values(|c: Circle| c@),
        }
    }
}

/// One connected peer: its server-minted id and its outbound sink. The sink
/// type is the transport's business; the library never reads it.
pub struct Peer<S> {
    pub id: String,
    pub sink: S,
}

/// The peer registry: the live peers, in connection order.
pub struct PeerRegistry<S> {
    pub peers: Vec<Peer<S>>,
}

/// The ids of a sequence of peers, in order.
pub open spec fn ids_of<S>(ps: Seq<Peer<S>>) -> Seq<Seq<char>> {
    ps.map_values(|p: Peer<S>| p.id@)
}

impl<S> View for PeerRegistry<S> {
    type V = Seq<Seq<char>>;

    open spec fn view(&self) -> Seq<Seq<char>> {
        ids_of(self.peers@)
    }
}

/// The whole shared state, guarded as one unit by the caller.
pub struct GlobalState<S> {
    pub circles: CircleDirectory,
    pub users: PeerRegistry<S>,
}

impl<S> View for GlobalState<S> {
    type V = StateView;

    open spec fn view(&self) -> StateView {
        StateView { dir: self.circles@, peers: self.users@ }
    }
}

/// The `join_circle` error: the named circle was never created.
#[derive(Debug, PartialEq, Eq, Structural)]
pub struct NotFound;

/// Directory well-formedness: the counter starts at 1 and counts one past
/// the circles, the i-th circle (counting from 0) carries the rendered id
/// of i + 1, and no circle lists a member twice.
pub open spec fn dir_wf(d: DirectoryView) -> bool {
    &&& d.next_id == d.circles.len() + 1
    &&& forall|i: int|
        0 <= i < d.circles.len() ==> (#[trigger] d.circles[i]).id == decimal((i + 1) as nat)
    &&& forall|i: int| 0 <= i < d.circles.len() ==> (#[trigger] d.circles[i]).members.no_duplicates()
}

/// State well-formedness: a well-formed directory and no peer id registered
/// twice.
pub open spec fn state_wf(s: StateView) -> bool {
    &&& dir_wf(s.dir)
    &&& s.peers.no_duplicates()
}

/// The state of a process that has just started: counter at 1, no circles,
/// no peers.
pub open spec fn initial_state() -> StateView {
    StateView { dir: DirectoryView { next_id: 1, circles: Seq::empty() }, peers: Seq::empty() }
}

/// There is a circle with this id.
pub open spec fn has_circle(cs: Seq<CircleView>, cid: Seq<char>) -> bool {
    exists|i: int| 0 <= i < cs.len() && cs[i].id == cid
}

/// The position of the circle with this id (unique in a well-formed
/// directory).
pub open spec fn circle_index(cs: Seq<CircleView>, cid: Seq<char>) -> int {
    choose|i: int| 0 <= i < cs.len() && cs[i].id == cid
}

/// The members reported to a joining peer: everyone already there, the
/// joiner itself excluded.
pub open spec fn snapshot_of(ms: Seq<Seq<char>>, pid: Seq<char>) -> Seq<Seq<char>> {
    ms.filter(|m: Seq<char>| m != pid)
}

/// Membership after a join: unchanged when the joiner is already a member,
/// otherwise the joiner appended.
pub open spec fn join_members(ms: Seq<Seq<char>>, pid: Seq<char>) -> Seq<Seq<char>> {
    if ms.contains(pid) {
        ms
    } else {
        ms.push(pid)
    }
}

/// Creating a circle: the counter's value is rendered as the new id, an
/// empty circle is appended, and the counter moves on.
pub open spec fn spec_create(d: DirectoryView) -> (DirectoryView, Seq<char>) {
    let id = decimal(d.next_id);
    (
        DirectoryView {
            next_id: d.next_id + 1,
            circles: d.circles.push(CircleView { id, members: Seq::empty() }),
        },
        id,
    )
}

/// Joining a circle: on success, the directory with the joiner added and the
/// member snapshot taken just before; `None` when no circle has this id.
pub open spec fn spec_join(d: DirectoryView, cid: Seq<char>, pid: Seq<char>) -> Option<
    (DirectoryView, Seq<Seq<char>>),
> {
    if has_circle(d.circles, cid) {
        let k = circle_index(d.circles, cid);
        let c = d.circles[k];
        let c2 = CircleView { id: c.id, members: join_members(c.members, pid) };
        Some(
            (
                DirectoryView { next_id: d.next_id, circles: d.circles.update(k, c2) },
                snapshot_of(c.members, pid),
            ),
        )
    } else {
        None
    }
}

/// Adding a member without taking a snapshot; a directory without the named
/// circle is left as it is.
pub open spec fn spec_add_member(d: DirectoryView, cid: Seq<char>, pid: Seq<char>) -> DirectoryView {
    match spec_join(d, cid, pid) {
        Some((d2, _)) => d2,
        None => d,
    }
}

/// One circle after a peer's departure.
pub open spec fn leave_circle(c: CircleView, pid: Seq<char>) -> CircleView {
    CircleView { id: c.id, members: snapshot_of(c.members, pid) }
}

/// The whole directory after a peer's departure: the peer is removed from
/// every circle that lists it; the circles themselves remain.
pub open spec fn spec_leave_all(d: DirectoryView, pid: Seq<char>) -> DirectoryView {
    DirectoryView {
        next_id: d.next_id,
        circles: Seq::new(d.circles.len(), |i: int| leave_circle(d.circles[i], pid)),
    }
}

/// The registry after a peer's departure: every occurrence of the id is
/// dropped (there is at most one in a well-formed registry).
pub open spec fn spec_remove_peer(ps: Seq<Seq<char>>, pid: Seq<char>) -> Seq<Seq<char>> {
    snapshot_of(ps, pid)
}

/// The whole state after a disconnect: the peer leaves every circle and the
/// registry.
pub open spec fn spec_disconnect(s: StateView, pid: Seq<char>) -> StateView {
    StateView { dir: spec_leave_all(s.dir, pid), peers: spec_remove_peer(s.peers, pid) }
}

/// In a well-formed directory no two circles share an id: the rendered
/// counter values are pairwise distinct.
pub proof fn lemma_wf_circle_ids_distinct(d: DirectoryView)
    requires
        dir_wf(d),
    ensures
        forall|i: int, j: int|
            0 <= i < d.circles.len() && 0 <= j < d.circles.len() && i != j ==> (
            #[trigger] d.circles[i]).id != (#[trigger] d.circles[j]).id,
{
    assert forall|i: int, j: int|
        0 <= i < d.circles.len() && 0 <= j < d.circles.len() && i != j implies (
    #[trigger] d.circles[i]).id != (#[trigger] d.circles[j]).id by {
        if d.circles[i].id == d.circles[j].id {
            lemma_decimal_injective((i + 1) as nat, (j + 1) as nat);
        }
    }
}

/// In a well-formed directory, a position whose circle carries the id is
/// the position `circle_index` picks.
pub proof fn lemma_circle_index_unique(d: DirectoryView, cid: Seq<char>, k: int)
    requires
        dir_wf(d),
        0 <= k < d.circles.len(),
        d.circles[k].id == cid,
    ensures
        has_circle(d.circles, cid),
        circle_index(d.circles, cid) == k,
{
    assert(has_circle(d.circles, cid));
    let j = circle_index(d.circles, cid);
    assert(0 <= j < d.circles.len() && d.circles[j].id == cid);
    lemma_wf_circle_ids_distinct(d);
}

/// Whatever the snapshot keeps was already a member.
pub proof fn lemma_snapshot_subset(ms: Seq<Seq<char>>, pid: Seq<char>, x: Seq<char>)
    requires
        snapshot_of(ms, pid).contains(x),
    ensures
        ms.contains(x),
        x != pid,
    decreases ms.len(),
{
    reveal(Seq::filter);
    if ms.len() > 0 {
        let sub = ms.drop_last();
        if ms.last() != pid && x == ms.last() {
            assert(ms[ms.len() - 1] == x);
        } else {
            assert(snapshot_of(sub, pid).contains(x));
            lemma_snapshot_subset(sub, pid, x);
            let j = choose|j: int| 0 <= j < sub.len() && sub[j] == x;
            assert(ms[j] == x);
        }
    }
}

/// A snapshot for `pid` never lists `pid`.
pub proof fn lemma_snapshot_excludes(ms: Seq<Seq<char>>, pid: Seq<char>)
    ensures
        !snapshot_of(ms, pid).contains(pid),
{
    if snapshot_of(ms, pid).contains(pid) {
        lemma_snapshot_subset(ms, pid, pid);
    }
}

/// The snapshot keeps every member other than `pid`.
pub proof fn lemma_snapshot_keeps(ms: Seq<Seq<char>>, pid: Seq<char>, x: Seq<char>)
    requires
        ms.contains(x),
        x != pid,
    ensures
        snapshot_of(ms, pid).contains(x),
    decreases ms.len(),
{
    reveal(Seq::filter);
    let sub = ms.drop_last();
    if x == ms.last() {
        let snap = snapshot_of(ms, pid);
        assert(snap[snap.len() - 1] == x);
    } else {
        let j = choose|j: int| 0 <= j < ms.len() && ms[j] == x;
        assert(sub[j] == x);
        lemma_snapshot_keeps(sub, pid, x);
        if ms.last() != pid {
            let snap_sub = snapshot_of(sub, pid);
            let w = choose|w: int| 0 <= w < snap_sub.len() && #[trigger] snap_sub[w] == x;
            assert(snapshot_of(ms, pid)[w] == x);
        }
    }
}

/// Removing a member keeps the rest distinct.
pub proof fn lemma_snapshot_no_duplicates(ms: Seq<Seq<char>>, pid: Seq<char>)
    requires
        ms.no_duplicates(),
    ensures
        snapshot_of(ms, pid).no_duplicates(),
    decreases ms.len(),
{
    reveal(Seq::filter);
    if ms.len() > 0 {
        let sub = ms.drop_last();
        lemma_snapshot_no_duplicates(sub, pid);
        if ms.last() != pid {
            assert(snapshot_of(ms, pid) == snapshot_of(sub, pid).push(ms.last()));
            if snapshot_of(sub, pid).contains(ms.last()) {
                lemma_snapshot_subset(sub, pid, ms.last());
                let j = choose|j: int| 0 <= j < sub.len() && sub[j] == ms.last();
                assert(ms[j] == ms[ms.len() - 1]);
            }
        }
    }
}

/// How one more member changes a snapshot.
pub proof fn lemma_snapshot_push(ms: Seq<Seq<char>>, x: Seq<char>, pid: Seq<char>)
    ensures
        snapshot_of(ms.push(x), pid) == if x != pid {
            snapshot_of(ms, pid).push(x)
        } else {
            snapshot_of(ms, pid)
        },
{
    reveal(Seq::filter);
    assert(ms.push(x).drop_last() =~= ms);
    assert(ms.push(x).last() == x);
}

/// The empty membership has the empty snapshot.
pub proof fn lemma_snapshot_empty(pid: Seq<char>)
    ensures
        snapshot_of(Seq::<Seq<char>>::empty(), pid) == Seq::<Seq<char>>::empty(),
{
    reveal(Seq::filter);
}

/// All members except `peer_id`, in their stored order.
fn members_excluding(members: &Vec<String>, peer_id: &String) -> (r: Vec<String>)
    ensures
        r.deep_view() == snapshot_of(members.deep_view(), peer_id@),
{
    let ghost ms = members.deep_view();
    let mut r: Vec<String> = Vec::new();
    let n = members.len();
    let mut i: usize = 0;
    proof {
        lemma_snapshot_empty(peer_id@);
        assert(ms.take(0) =~= Seq::<Seq<char>>::empty());
        assert(r.deep_view() =~= Seq::<Seq<char>>::empty());
    }
    while i < n
        invariant
            0 <= i <= n,
            n == members.len(),
            ms == members.deep_view(),
            r.deep_view() == snapshot_of(ms.take(i as int), peer_id@),
        decreases n - i,
    {
        let ghost r_before = r.deep_view();
        let m = &members[i];
        proof {
            assert(m@ == ms[i as int]);
            assert(ms.take(i as int + 1) =~= ms.take(i as int).push(ms[i as int]));
            lemma_snapshot_push(ms.take(i as int), ms[i as int], peer_id@);
        }
        if !(*m == *peer_id) {
            r.push(m.clone());
            proof {
                assert(r.deep_view() =~= r_before.push(m@));
            }
        }
        i += 1;
    }
    proof {
        assert(ms.take(n as int) =~= ms);
    }
    r
}

/// Whether `peer_id` stands in the list.
fn contains_id(members: &Vec<String>, peer_id: &String) -> (r: bool)
    ensures
        r == members.deep_view().contains(peer_id@),
{
    let n = members.len();
    let mut i: usize = 0;
    while i < n
        invariant
            0 <= i <= n,
            n == members.len(),
            forall|j: int| 0 <= j < i ==> members.deep_view()[j] != peer_id@,
        decreases n - i,
    {
        let m = &members[i];
        if *m == *peer_id {
            proof {
                assert(members.deep_view()[i as int] == peer_id@);
            }
            return true;
        }
        i += 1;
    }
    proof {
        if members.deep_view().contains(peer_id@) {
            let j = choose|j: int|
                0 <= j < members.deep_view().len() && members.deep_view()[j] == peer_id@;
            assert(members.deep_view()[j] != peer_id@);
        }
    }
    false
}

impl CircleDirectory {
    /// Directory well-formedness, stated of the value itself.
    pub open spec fn wf(&self) -> bool {
        dir_wf(self@)
    }

    /// An empty directory with the counter at its initial value.
    pub fn new() -> (d: CircleDirectory)
        ensures
            d.wf(),
            d@ == initial_state().dir,
    {
        let d = CircleDirectory { next_circle_id: 1, circles: Vec::new() };
        proof {
            assert(d@ =~~= initial_state().dir);
        }
        d
    }

    /// Allocates the next sequential id and creates an empty circle under
    /// it. Two calls never return the same id: the counter only grows.
    pub fn create_circle(&mut self) -> (id: String)
        requires
            old(self).wf(),
            old(self).next_circle_id < u32::MAX,
        ensures
            final(self).wf(),
            final(self)@ == spec_create(old(self)@).0,
            id@ == spec_create(old(self)@).1,
    {
        let id = crate::decimal::u32_to_decimal(self.next_circle_id);
        let circle = Circle { id: id.clone(), members: Vec::new() };
        self.circles.push(circle);
        self.next_circle_id = self.next_circle_id + 1;
        proof {
            let cs = self@.circles;
            let n = cs.len();
            assert(cs[n - 1].members =~= Seq::<Seq<char>>::empty());
            assert(cs[n - 1] =~~= spec_create(old(self)@).0.circles[n - 1]);
            assert(self@.circles =~~= spec_create(old(self)@).0.circles);
            assert(self@ =~~= spec_create(old(self)@).0);
        }
        id
    }

    /// The position of the circle with this id, if any.
    fn find_circle_index(&self, circle_id: &String) -> (r: Option<usize>)
        requires
            self.wf(),
        ensures
            (r is Some) == has_circle(self@.circles, circle_id@),
            r matches Some(k) ==> 0 <= k < self@.circles.len()
                && self@.circles[k as int].id == circle_id@
                && k as int == circle_index(self@.circles, circle_id@),
    {
        let n = self.circles.len();
        let mut i: usize = 0;
        while i < n
            invariant
                0 <= i <= n,
                n == self.circles.len(),
                self.wf(),
                forall|j: int| 0 <= j < i ==> (#[trigger] self@.circles[j]).id != circle_id@,
            decreases n - i,
        {
            let c = &self.circles[i];
            if c.id == *circle_id {
                proof {
                    assert(self@.circles[i as int].id == circle_id@);
                    lemma_circle_index_unique(self@, circle_id@, i as int);
                }
                return Some(i);
            }
            i += 1;
        }
        proof {
            if has_circle(self@.circles, circle_id@) {
                let j = circle_index(self@.circles, circle_id@);
                assert(self@.circles[j].id != circle_id@);
            }
        }
        None
    }

    /// Joins `peer_id` to the named circle. On success, returns the ids of
    /// the members found there at that moment, the joiner itself excluded,
    /// in their stored order; a peer already in the circle is not added
    /// twice. When no circle carries this id, nothing changes and the call
    /// reports `NotFound`.
    pub fn join_circle(&mut self, circle_id: &String, peer_id: &String) -> (r: Result<
        Vec<String>,
        NotFound,
    >)
        requires
            old(self).wf(),
        ensures
            final(self).wf(),
            (r is Err) == (spec_join(old(self)@, circle_id@, peer_id@) is None),
            r is Err ==> final(self)@ == old(self)@,
            r matches Ok(snap) ==> spec_join(old(self)@, circle_id@, peer_id@) matches Some(
                (d2, s2),
            ) && final(self)@ == d2 && snap.deep_view() == s2,
    {
        let k_opt = self.find_circle_index(circle_id);
        match k_opt {
            None => Err(NotFound),
            Some(k) => {
                let ghost prev = self@;
                let mut circle = self.circles.remove(k);
                let snapshot = members_excluding(&circle.members, peer_id);
                let already = contains_id(&circle.members, peer_id);
                if !already {
                    circle.members.push(peer_id.clone());
                    proof {
                        assert(circle@.members =~= prev.circles[k as int].members.push(peer_id@));
                    }
                }
                self.circles.insert(k, circle);
                proof {
                    let c0 = prev.circles[k as int];
                    let c2 = CircleView { id: c0.id, members: join_members(c0.members, peer_id@) };
                    assert(self@.circles =~= prev.circles.update(k as int, c2));
                    assert(self@ =~~= spec_join(prev, circle_id@, peer_id@)->Some_0.0);
                    assert forall|i: int|
                        0 <= i < self@.circles.len() implies (
                    #[trigger] self@.circles[i]).members.no_duplicates() by {
                        if i == k as int && !c0.members.contains(peer_id@) {
                            let ms2 = c0.members.push(peer_id@);
                            assert forall|p: int, q: int|
                                0 <= p < q < ms2.len() implies ms2[p] != ms2[q] by {
                                if q == ms2.len() - 1 {
                                    assert(c0.members[p] == ms2[p]);
                                }
                            }
                        }
                    }
                }
                Ok(snapshot)
            },
        }
    }

    /// Adds a member to an existing circle, as the router does for the
    /// creator of a fresh circle.
    pub fn add_circle_member(&mut self, circle_id: &String, peer_id: &String)
        requires
            old(self).wf(),
            has_circle(old(self)@.circles, circle_id@),
        ensures
            final(self).wf(),
            final(self)@ == spec_add_member(old(self)@, circle_id@, peer_id@),
    {
        let _ = self.join_circle(circle_id, peer_id);
    }

    /// Removes `peer_id` from every circle that lists it; a peer in no
    /// circle leaves everything as it is. The circles themselves are
    /// retained.
    pub fn leave_all(&mut self, peer_id: &String)
        requires
            old(self).wf(),
        ensures
            final(self).wf(),
            final(self)@ == spec_leave_all(old(self)@, peer_id@),
    {
        let n = self.circles.len();
        let mut k: usize = 0;
        while k < n
            invariant
                0 <= k <= n,
                n == self.circles.len(),
                self.next_circle_id == old(self).next_circle_id,
                forall|i: int|
                    0 <= i < k ==> #[trigger] self@.circles[i] == leave_circle(
                        old(self)@.circles[i],
                        peer_id@,
                    ),
                forall|i: int| k <= i < n ==> #[trigger] self@.circles[i] == old(self)@.circles[i],
            decreases n - k,
        {
            let ghost prev = self@.circles;
            let mut circle = self.circles.remove(k);
            let kept = members_excluding(&circle.members, peer_id);
            circle.members = kept;
            self.circles.insert(k, circle);
            proof {
                assert(self@.circles =~= prev.update(
                    k as int,
                    leave_circle(prev[k as int], peer_id@),
                ));
            }
            k += 1;
        }
        proof {
            assert(self@.circles =~= spec_leave_all(old(self)@, peer_id@).circles);
            assert(self@ =~~= spec_leave_all(old(self)@, peer_id@));
            assert forall|i: int|
                0 <= i < self@.circles.len() implies (
            #[trigger] self@.circles[i]).members.no_duplicates() by {
                lemma_snapshot_no_duplicates(old(self)@.circles[i].members, peer_id@);
            }
        }
    }
}

impl<S> PeerRegistry<S> {
    /// Registry well-formedness: no id registered twice.
    pub open spec fn wf(&self) -> bool {
        self@.no_duplicates()
    }

    /// An empty registry.
    pub fn new() -> (r: PeerRegistry<S>)
        ensures
            r.wf(),
            r@ == Seq::<Seq<char>>::empty(),
    {
        let r = PeerRegistry { peers: Vec::new() };
        proof {
            assert(r@ =~= Seq::<Seq<char>>::empty());
        }
        r
    }

    /// Inserts a new peer. Ids are minted by the server and never reused,
    /// so the id must not be present yet.
    pub fn register(&mut self, peer: Peer<S>)
        requires
            old(self).wf(),
            !old(self)@.contains(peer.id@),
        ensures
            final(self).wf(),
            final(self)@ == old(self)@.push(peer.id@),
            final(self).peers@ == old(self).peers@.push(peer),
    {
        let ghost pid = peer.id@;
        self.peers.push(peer);
        proof {
            assert(self@ =~= old(self)@.push(pid));
            assert forall|p: int, q: int| 0 <= p < q < self@.len() implies self@[p] != self@[q] by {
                if q == self@.len() - 1 {
                    if self@[p] == pid {
                        assert(old(self)@[p] == pid);
                        assert(old(self)@.contains(pid));
                    }
                }
            }
        }
    }

    /// The position of the live peer with this id, if any: how a message's
    /// addressee is resolved to a deliverable sink.
    pub fn index_of(&self, id: &String) -> (r: Option<usize>)
        ensures
            (r is Some) == self@.contains(id@),
            r matches Some(k) ==> k < self.peers@.len() && self.peers@[k as int].id@ == id@,
    {
        let n = self.peers.len();
        let mut i: usize = 0;
        while i < n
            invariant
                0 <= i <= n,
                n == self.peers.len(),
                forall|j: int| 0 <= j < i ==> self@[j] != id@,
            decreases n - i,
        {
            let p = &self.peers[i];
            if p.id == *id {
                proof {
                    assert(self@[i as int] == id@);
                }
                return Some(i);
            }
            i += 1;
        }
        proof {
            if self@.contains(id@) {
                let j = choose|j: int| 0 <= j < self@.len() && self@[j] == id@;
                assert(self@[j] != id@);
            }
        }
        None
    }

    /// Whether a peer with this id is live.
    pub fn contains(&self, id: &String) -> (r: bool)
        ensures
            r == self@.contains(id@),
    {
        match self.index_of(id) {
            Some(_) => true,
            None => false,
        }
    }

    /// Removes the peer with this id and hands its handle back; removing an
    /// absent id is a no-op.
    pub fn remove(&mut self, id: &String) -> (removed: Option<Peer<S>>)
        requires
            old(self).wf(),
        ensures
            final(self).wf(),
            final(self)@ == spec_remove_peer(old(self)@, id@),
            (removed is Some) == old(self)@.contains(id@),
            removed matches Some(p) ==> p.id@ == id@,
    {
        let ghost orig_peers = old(self).peers@;
        let ghost orig = old(self)@;
        let mut kept: Vec<Peer<S>> = Vec::new();
        let mut removed: Option<Peer<S>> = None;
        let ghost mut j: int = 0;
        proof {
            lemma_snapshot_empty(id@);
            assert(orig.take(0) =~= Seq::<Seq<char>>::empty());
            assert(self.peers@ =~= orig_peers.skip(0));
            assert(ids_of(kept@) =~= Seq::<Seq<char>>::empty());
        }
        while self.peers.len() > 0
            invariant
                0 <= j <= orig_peers.len(),
                orig == ids_of(orig_peers),
                self.peers@ == orig_peers.skip(j),
                ids_of(kept@) == spec_remove_peer(orig.take(j), id@),
                (removed is Some) == orig.take(j).contains(id@),
                removed matches Some(p) ==> p.id@ == id@,
            decreases self.peers.len(),
        {
            let ghost kept_before = kept@;
            let p = self.peers.remove(0);
            proof {
                assert(p == orig_peers[j]);
                assert(p.id@ == orig[j]);
                assert(self.peers@ =~= orig_peers.skip(j + 1));
                assert(orig.take(j + 1) =~= orig.take(j).push(orig[j]));
                lemma_snapshot_push(orig.take(j), orig[j], id@);
            }
            if p.id == *id {
                removed = Some(p);
                proof {
                    assert(orig.take(j + 1).contains(id@)) by {
                        assert(orig.take(j + 1)[j] == id@);
                    }
                }
            } else {
                kept.push(p);
                proof {
                    assert(ids_of(kept@) =~= ids_of(kept_before).push(orig[j]));
                    if orig.take(j + 1).contains(id@) && !orig.take(j).contains(id@) {
                        let w = choose|w: int|
                            0 <= w < orig.take(j + 1).len() && #[trigger] orig.take(j + 1)[w]
                                == id@;
                        assert(orig.take(j)[w] == id@);
                    }
                }
            }
            proof {
                j = j + 1;
            }
        }
        proof {
            assert(orig_peers.skip(j).len() == 0);
            assert(j == orig_peers.len());
            assert(orig.take(j) =~= orig);
        }
        self.peers = kept;
        proof {
            lemma_snapshot_no_duplicates(orig, id@);
        }
        removed
    }
}

impl<S> GlobalState<S> {
    /// Well-formedness of the whole shared state.
    pub open spec fn wf(&self) -> bool {
        state_wf(self@)
    }

    /// The state of a freshly started process.
    pub fn new() -> (s: GlobalState<S>)
        ensures
            s.wf(),
            s@ == initial_state(),
    {
        let s = GlobalState { circles: CircleDirectory::new(), users: PeerRegistry::new() };
        proof {
            assert(s@ =~~= initial_state());
        }
        s
    }

    /// Registers a newly connected peer under a caller-supplied fresh id.
    pub fn register_peer(&mut self, id: String, sink: S)
        requires
            old(self).wf(),
            !old(self)@.peers.contains(id@),
        ensures
            final(self).wf(),
            final(self)@.dir == old(self)@.dir,
            final(self)@.peers == old(self)@.peers.push(id@),
    {
        self.users.register(Peer { id, sink });
    }

    /// Mints a fresh random id for a newly connected peer and registers it
    /// with the peer's outbound sink. `None` is the (vanishingly unlikely)
    /// case that the random id is already taken; nothing changes then, and
    /// the caller may retry or refuse the connection.
    pub fn connect_peer(&mut self, sink: S) -> (r: Option<String>)
        requires
            old(self).wf(),
        ensures
            final(self).wf(),
            r matches Some(id) ==> !old(self)@.peers.contains(id@) && id@.len() == 36
                && final(self)@.dir == old(self)@.dir
                && final(self)@.peers == old(self)@.peers.push(id@),
            r is None ==> final(self)@ == old(self)@,
    {
        let id = fresh_peer_id();
        if self.users.contains(&id) {
            None
        } else {
            self.users.register(Peer { id: id.clone(), sink });
            Some(id)
        }
    }

    /// The cleanup run exactly once when a connection ends: the peer leaves
    /// every circle that lists it and its registry entry is dropped, the
    /// circle directory first, the peer registry second — the one order in
    /// which the two structures are ever touched together.
    pub fn disconnect_peer(&mut self, id: &String)
        requires
            old(self).wf(),
        ensures
            final(self).wf(),
            final(self)@ == spec_disconnect(old(self)@, id@),
    {
        self.circles.leave_all(id);
        let _removed = self.users.remove(id);
        proof {
            assert(self@ =~~= spec_disconnect(old(self)@, id@));
        }
    }
}

/// Relies on uuid::Uuid::new_v4 and Uuid's Display implementation: a fresh
/// random version-4 UUID, rendered in the hyphenated form of 36 characters.
/// Nothing can be promised about which id comes back.
#[verifier::external_body]
fn fresh_peer_id() -> (r: String)
    ensures
        r@.len() == 36,
{
    uuid::Uuid::new_v4().to_string()
}

} // verus!
