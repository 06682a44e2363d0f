//! The correlation engine: a breadth-first, depth-bounded fixpoint loop.
//!
//! Three frontier sets (nicks, idents, hosts) drive one round of store
//! queries each; every returned row is decoded into a sender record and
//! inserted into the visited set at most once, and only the components of
//! newly inserted records seed the next round's frontiers.  The run ends
//! when all frontiers are empty before a round, or when the depth bound is
//! reached.

use crate::hostmask::Host;
use crate::hostmask::HostMask;
use crate::hostmask::HostView;
use crate::hostmask::Ident;
use crate::hostmask::MaskView;
use crate::hostmask::Nick;
use crate::hostmask::Query;
use crate::hostmask::host_pattern;
use crate::hostmask::ident_pattern;
use crate::hostmask::mask_eq;
use crate::hostmask::nick_pattern;
use crate::hostmask::parse_mask;
use vstd::prelude::*;

verus! {

/// One row handed back by the external query collaborator: the store's
/// opaque record id, the raw mask text it stored, and an optional display
/// name.
#[derive(Debug)]
pub struct RawRecord {
    pub id: i64,
    pub text: String,
    pub realname: Option<String>,
}

#[verifier::ext_equal]
pub struct RowView {
    pub id: i64,
    pub text: Seq<char>,
    pub realname: Option<Seq<char>>,
}

impl View for RawRecord {
    type V = RowView;

    open spec fn view(&self) -> RowView {
        RowView {
            id: self.id,
            text: self.text@,
            realname: match self.realname {
                Some(ref s) => Some(s@),
                None => None,
            },
        }
    }
}

/// One sender identity discovered in the store.
#[derive(Debug)]
pub struct Sender {
    pub id: i64,
    pub sender: HostMask,
    pub realname: Option<String>,
}

#[verifier::ext_equal]
pub struct SenderView {
    pub id: i64,
    pub mask: MaskView,
    pub realname: Option<Seq<char>>,
}

impl View for Sender {
    type V = SenderView;

    open spec fn view(&self) -> SenderView {
        SenderView {
            id: self.id,
            mask: self.sender@,
            realname: match self.realname {
                Some(ref s) => Some(s@),
                None => None,
            },
        }
    }
}

/// Two records are the same discovery when id, mask and name all agree (the
/// mask's host by raw text).  The same mask under a different store id is a
/// distinct discovery.
pub open spec fn sender_eq(a: SenderView, b: SenderView) -> bool {
    a.id == b.id && mask_eq(a.mask, b.mask) && a.realname == b.realname
}

impl Sender {
    /// Whether two records are the same discovery.
    pub fn same_record(&self, other: &Sender) -> (r: bool)
        ensures
            r == sender_eq(self@, other@),
    {
        let name_eq = match (&self.realname, &other.realname) {
            (Some(x), Some(y)) => *x == *y,
            (None, None) => true,
            _ => false,
        };
        self.id == other.id && self.sender == other.sender && name_eq
    }
}

impl Clone for Sender {
    fn clone(&self) -> (r: Sender)
        ensures
            r@ == self@,
    {
        let r = Sender {
            id: self.id,
            sender: self.sender.clone(),
            realname: match &self.realname {
                Some(s) => Some(s.clone()),
                None => None,
            },
        };
        proof {
            assert(r@ =~~= self@);
        }
        r
    }
}

pub open spec fn rs_contains(s: Seq<SenderView>, r: SenderView) -> bool {
    exists|k: int| 0 <= k < s.len() && sender_eq(s[k], r)
}

/// No two entries are the same record.
pub open spec fn rs_distinct(s: Seq<SenderView>) -> bool {
    forall|j: int, k: int| 0 <= j < k < s.len() ==> !sender_eq(s[j], s[k])
}

/// The deduplicated accumulator of discovered sender records, read-only and
/// order-independent for the presentation layer.
#[derive(Debug)]
pub struct ResultSet {
    records: Vec<Sender>,
}

impl View for ResultSet {
    type V = Seq<SenderView>;

    closed spec fn view(&self) -> Seq<SenderView> {
        self.records@.map_values(|s: Sender| s@)
    }
}

impl ResultSet {
    pub open spec fn inv(&self) -> bool {
        rs_distinct(self@)
    }

    pub fn new() -> (r: ResultSet)
        ensures
            r@ == Seq::<SenderView>::empty(),
            r.inv(),
    {
        let r = ResultSet { records: Vec::new() };
        proof {
            assert(r@ =~~= Seq::<SenderView>::empty());
        }
        r
    }

    pub fn len(&self) -> (n: usize)
        ensures
            n == self@.len(),
    {
        self.records.len()
    }

    pub fn get(&self, k: usize) -> (r: &Sender)
        requires
            k < self@.len(),
        ensures
            r@ == self@[k as int],
    {
        &self.records[k]
    }

    /// Whether an equal record was already discovered.
    pub fn contains(&self, rec: &Sender) -> (r: bool)
        ensures
            r == rs_contains(self@, rec@),
    {
        let n = self.records.len();
        let mut k: usize = 0;
        while k < n
            invariant
                k <= n,
                n == self@.len(),
                forall|j: int| 0 <= j < k ==> !sender_eq(self@[j], rec@),
            decreases n - k,
        {
            if self.records[k].same_record(rec) {
                proof {
                    assert(sender_eq(self@[k as int], rec@));
                }
                return true;
            }
            k = k + 1;
        }
        false
    }

    /// Compare-and-insert: adds the record unless an equal one is already
    /// present, and reports whether it was new.  The check and the insertion
    /// are one operation on the exclusively owned accumulator, so the same
    /// record arriving from two query categories in one round counts once.
    pub fn insert(&mut self, rec: Sender) -> (added: bool)
        requires
            old(self).inv(),
        ensures
            final(self).inv(),
            added == !rs_contains(old(self)@, rec@),
            final(self)@ == (if rs_contains(old(self)@, rec@) {
                old(self)@
            } else {
                old(self)@.push(rec@)
            }),
    {
        if self.contains(&rec) {
            return false;
        }
        self.records.push(rec);
        proof {
            assert(self@ =~~= old(self)@.push(rec@));
        }
        true
    }
}

/// Applies the run's subnet flag to a freshly parsed mask.
pub open spec fn set_mask_subnet(m: MaskView, subnet: bool) -> MaskView {
    MaskView { subnet, host: HostView { subnet, ..m.host }, ..m }
}

pub open spec fn has_text(s: Seq<Seq<char>>, t: Seq<char>) -> bool {
    exists|k: int| 0 <= k < s.len() && s[k] == t
}

pub open spec fn push_new_text(s: Seq<Seq<char>>, t: Seq<char>) -> Seq<Seq<char>> {
    if has_text(s, t) {
        s
    } else {
        s.push(t)
    }
}

/// Host frontier membership is by raw text, matching host equality.
pub open spec fn has_host(s: Seq<HostView>, h: HostView) -> bool {
    exists|k: int| 0 <= k < s.len() && s[k].raw == h.raw
}

pub open spec fn push_new_host(s: Seq<HostView>, h: HostView) -> Seq<HostView> {
    if has_host(s, h) {
        s
    } else {
        s.push(h)
    }
}

#[verifier::ext_equal]
pub struct EngineView {
    pub nicks: Seq<Seq<char>>,
    pub idents: Seq<Seq<char>>,
    pub hosts: Seq<HostView>,
    pub visited: Seq<SenderView>,
    pub iteration: int,
    pub depth: int,
    pub follow_idents: bool,
    pub subnet: bool,
}

/// Absorbing one row: rows whose text is no parseable mask are dropped; a
/// parsed record gets the run's subnet flag and is inserted unless already
/// visited; only a newly inserted record seeds the frontiers with its
/// components, the ident only when ident-following is on.
pub open spec fn absorb_one(e: EngineView, row: RowView) -> EngineView {
    match parse_mask(row.text) {
        Err(_) => e,
        Ok(m0) => {
            let m = set_mask_subnet(m0, e.subnet);
            let rec = SenderView { id: row.id, mask: m, realname: row.realname };
            if rs_contains(e.visited, rec) {
                e
            } else {
                EngineView {
                    visited: e.visited.push(rec),
                    nicks: push_new_text(e.nicks, m.nick),
                    idents: if e.follow_idents {
                        push_new_text(e.idents, m.ident)
                    } else {
                        e.idents
                    },
                    hosts: push_new_host(e.hosts, m.host),
                    ..e
                }
            }
        },
    }
}

pub open spec fn absorb_all(e: EngineView, rows: Seq<RowView>) -> EngineView
    decreases rows.len(),
{
    if rows.len() == 0 {
        e
    } else {
        absorb_one(absorb_all(e, rows.drop_last()), rows.last())
    }
}

pub open spec fn clear_frontiers(e: EngineView) -> EngineView {
    EngineView {
        nicks: Seq::empty(),
        idents: Seq::empty(),
        hosts: Seq::empty(),
        ..e
    }
}

/// One engine round: the frontiers are cleared and rebuilt from the
/// components of records newly inserted from this round's query results,
/// and the iteration counter advances.
pub open spec fn step_spec(e: EngineView, rows: Seq<RowView>) -> EngineView {
    EngineView { iteration: e.iteration + 1, ..absorb_all(clear_frontiers(e), rows) }
}

pub open spec fn frontiers_empty(e: EngineView) -> bool {
    e.nicks.len() == 0 && e.idents.len() == 0 && e.hosts.len() == 0
}

/// The run is over: every frontier is empty before the round starts, or the
/// depth bound is reached.
pub open spec fn finished_spec(e: EngineView) -> bool {
    e.iteration >= e.depth || frontiers_empty(e)
}

/// The seeded state: frontiers hold the mask's own nick and host, plus its
/// ident only when ident-following is on; nothing is visited yet.
pub open spec fn init_spec(m: MaskView, depth: int, follow_idents: bool, subnet: bool) -> EngineView {
    let ms = set_mask_subnet(m, subnet);
    EngineView {
        nicks: seq![ms.nick],
        idents: if follow_idents {
            seq![ms.ident]
        } else {
            Seq::empty()
        },
        hosts: seq![ms.host],
        visited: Seq::empty(),
        iteration: 0,
        depth,
        follow_idents,
        subnet,
    }
}

/// Engine validity: the visited set holds no duplicate record, and with
/// ident-following off the ident frontier is empty.
pub open spec fn engine_inv(e: EngineView) -> bool {
    rs_distinct(e.visited) && (!e.follow_idents ==> e.idents.len() == 0)
}

pub struct Engine {
    nicks: Vec<Nick>,
    idents: Vec<Ident>,
    hosts: Vec<Host>,
    visited: ResultSet,
    iteration: usize,
    depth: usize,
    follow_idents: bool,
    subnet: bool,
}

impl View for Engine {
    type V = EngineView;

    closed spec fn view(&self) -> EngineView {
        EngineView {
            nicks: self.nicks@.map_values(|n: Nick| n@),
            idents: self.idents@.map_values(|i: Ident| i@),
            hosts: self.hosts@.map_values(|h: Host| h@),
            visited: self.visited@,
            iteration: self.iteration as int,
            depth: self.depth as int,
            follow_idents: self.follow_idents,
            subnet: self.subnet,
        }
    }
}

impl Engine {
    pub open spec fn inv(&self) -> bool {
        engine_inv(self@)
    }

    /// Seeds a run from the parsed mask, applying the run's subnet flag to
    /// it first.
    pub fn new(mask: &HostMask, depth: usize, follow_idents: bool, subnet: bool) -> (e: Engine)
        ensures
            e@ == init_spec(mask@, depth as int, follow_idents, subnet),
            e.inv(),
    {
        let mut m = mask.clone();
        m.set_subnet(subnet);
        let mut nicks: Vec<Nick> = Vec::new();
        nicks.push(m.nick().clone());
        let mut idents: Vec<Ident> = Vec::new();
        if follow_idents {
            idents.push(m.ident().clone());
        }
        let mut hosts: Vec<Host> = Vec::new();
        hosts.push(m.host().clone());
        let e = Engine {
            nicks,
            idents,
            hosts,
            visited: ResultSet::new(),
            iteration: 0,
            depth,
            follow_idents,
            subnet,
        };
        proof {
            assert(e@ =~~= init_spec(mask@, depth as int, follow_idents, subnet));
        }
        e
    }

    pub fn finished(&self) -> (r: bool)
        ensures
            r == finished_spec(self@),
    {
        self.iteration >= self.depth || (self.nicks.len() == 0 && self.idents.len() == 0
            && self.hosts.len() == 0)
    }

    /// The patterns to query for the current nick frontier.
    pub fn nick_queries(&self) -> (r: Vec<String>)
        ensures
            r@.len() == self@.nicks.len(),
            forall|k: int| 0 <= k < r@.len() ==> r@[k]@ == nick_pattern(self@.nicks[k]),
    {
        let mut r: Vec<String> = Vec::new();
        let n = self.nicks.len();
        let mut i: usize = 0;
        while i < n
            invariant
                i <= n,
                n == self.nicks.len(),
                r@.len() == i,
                forall|k: int| 0 <= k < i ==> r@[k]@ == nick_pattern(self@.nicks[k]),
            decreases n - i,
        {
            r.push(self.nicks[i].query());
            i = i + 1;
        }
        r
    }

    /// The patterns to query for the current ident frontier; empty for the
    /// whole run when ident-following is off.
    pub fn ident_queries(&self) -> (r: Vec<String>)
        ensures
            r@.len() == self@.idents.len(),
            forall|k: int| 0 <= k < r@.len() ==> r@[k]@ == ident_pattern(self@.idents[k]),
    {
        let mut r: Vec<String> = Vec::new();
        let n = self.idents.len();
        let mut i: usize = 0;
        while i < n
            invariant
                i <= n,
                n == self.idents.len(),
                r@.len() == i,
                forall|k: int| 0 <= k < i ==> r@[k]@ == ident_pattern(self@.idents[k]),
            decreases n - i,
        {
            r.push(self.idents[i].query());
            i = i + 1;
        }
        r
    }

    /// The patterns to query for the current host frontier.
    pub fn host_queries(&self) -> (r: Vec<String>)
        ensures
            r@.len() == self@.hosts.len(),
            forall|k: int| 0 <= k < r@.len() ==> r@[k]@ == host_pattern(self@.hosts[k]),
    {
        let mut r: Vec<String> = Vec::new();
        let n = self.hosts.len();
        let mut i: usize = 0;
        while i < n
            invariant
                i <= n,
                n == self.hosts.len(),
                r@.len() == i,
                forall|k: int| 0 <= k < i ==> r@[k]@ == host_pattern(self@.hosts[k]),
            decreases n - i,
        {
            r.push(self.hosts[i].query());
            i = i + 1;
        }
        r
    }

    /// All records discovered so far.
    pub fn results(&self) -> (r: &ResultSet)
        ensures
            r@ == self@.visited,
    {
        &self.visited
    }

    fn push_nick_new(&mut self, n: Nick)
        ensures
            final(self)@ == (EngineView { nicks: push_new_text(old(self)@.nicks, n@), ..old(self)@ }),
    {
        let len = self.nicks.len();
        let mut k: usize = 0;
        while k < len
            invariant
                k <= len,
                len == self.nicks.len(),
                *self == *old(self),
                forall|j: int| 0 <= j < k ==> self@.nicks[j] != n@,
            decreases len - k,
        {
            if self.nicks[k] == n {
                proof {
                    assert(self@.nicks[k as int] == n@);
                    assert(has_text(self@.nicks, n@));
                    assert(self@ =~~= (EngineView {
                        nicks: push_new_text(old(self)@.nicks, n@),
                        ..old(self)@
                    }));
                }
                return;
            }
            k = k + 1;
        }
        self.nicks.push(n);
        proof {
            assert(!has_text(old(self)@.nicks, n@));
            assert(self@ =~~= (EngineView {
                nicks: push_new_text(old(self)@.nicks, n@),
                ..old(self)@
            }));
        }
    }

    fn push_ident_new(&mut self, n: Ident)
        ensures
            final(self)@ == (EngineView {
                idents: push_new_text(old(self)@.idents, n@),
                ..old(self)@
            }),
    {
        let len = self.idents.len();
        let mut k: usize = 0;
        while k < len
            invariant
                k <= len,
                len == self.idents.len(),
                *self == *old(self),
                forall|j: int| 0 <= j < k ==> self@.idents[j] != n@,
            decreases len - k,
        {
            if self.idents[k] == n {
                proof {
                    assert(self@.idents[k as int] == n@);
                    assert(has_text(self@.idents, n@));
                    assert(self@ =~~= (EngineView {
                        idents: push_new_text(old(self)@.idents, n@),
                        ..old(self)@
                    }));
                }
                return;
            }
            k = k + 1;
        }
        self.idents.push(n);
        proof {
            assert(!has_text(old(self)@.idents, n@));
            assert(self@ =~~= (EngineView {
                idents: push_new_text(old(self)@.idents, n@),
                ..old(self)@
            }));
        }
    }

    fn push_host_new(&mut self, h: Host)
        ensures
            final(self)@ == (EngineView { hosts: push_new_host(old(self)@.hosts, h@), ..old(self)@ }),
    {
        let len = self.hosts.len();
        let mut k: usize = 0;
        while k < len
            invariant
                k <= len,
                len == self.hosts.len(),
                *self == *old(self),
                forall|j: int| 0 <= j < k ==> self@.hosts[j].raw != h@.raw,
            decreases len - k,
        {
            if self.hosts[k] == h {
                proof {
                    assert(self@.hosts[k as int].raw == h@.raw);
                    assert(has_host(self@.hosts, h@));
                    assert(self@ =~~= (EngineView {
                        hosts: push_new_host(old(self)@.hosts, h@),
                        ..old(self)@
                    }));
                }
                return;
            }
            k = k + 1;
        }
        self.hosts.push(h);
        proof {
            assert(!has_host(old(self)@.hosts, h@));
            assert(self@ =~~= (EngineView {
                hosts: push_new_host(old(self)@.hosts, h@),
                ..old(self)@
            }));
        }
    }

    fn absorb_one_x(&mut self, row: &RawRecord)
        requires
            old(self).inv(),
        ensures
            final(self).inv(),
            final(self)@ == absorb_one(old(self)@, row@),
    {
        let mut mask = match HostMask::from_str(row.text.as_str()) {
            Ok(m) => m,
            Err(_) => {
                return;
            },
        };
        mask.set_subnet(self.subnet);
        let nick = mask.nick().clone();
        let ident = mask.ident().clone();
        let host = mask.host().clone();
        let realname = match &row.realname {
            Some(s) => Some(s.clone()),
            None => None,
        };
        let rec = Sender { id: row.id, sender: mask, realname };
        proof {
            assert(mask_eq(rec@.mask, set_mask_subnet(parse_mask(row@.text)->Ok_0, self@.subnet)));
            assert(rec@ =~~= (SenderView {
                id: row@.id,
                mask: set_mask_subnet(parse_mask(row@.text)->Ok_0, self@.subnet),
                realname: row@.realname,
            }));
        }
        let added = self.visited.insert(rec);
        if added {
            self.push_nick_new(nick);
            if self.follow_idents {
                self.push_ident_new(ident);
            }
            self.push_host_new(host);
            proof {
                assert(self@ =~~= absorb_one(old(self)@, row@));
            }
        } else {
            proof {
                assert(self@ =~~= absorb_one(old(self)@, row@));
            }
        }
    }

    /// Absorbs one round of query results, from all frontier categories
    /// together, and advances the iteration counter.
    pub fn absorb_round(&mut self, rows: &Vec<RawRecord>)
        requires
            old(self).inv(),
            old(self)@.iteration < old(self)@.depth,
        ensures
            final(self).inv(),
            final(self)@ == step_spec(old(self)@, rows@.map_values(|x: RawRecord| x@)),
    {
        let ghost rv = rows@.map_values(|x: RawRecord| x@);
        self.nicks = Vec::new();
        self.idents = Vec::new();
        self.hosts = Vec::new();
        let ghost e0 = clear_frontiers(old(self)@);
        proof {
            assert(self@ =~~= e0);
            assert(rv.take(0) =~= Seq::<RowView>::empty());
        }
        let n = rows.len();
        let mut i: usize = 0;
        while i < n
            invariant
                i <= n,
                n == rows.len(),
                rv == rows@.map_values(|x: RawRecord| x@),
                e0 == clear_frontiers(old(self)@),
                self.inv(),
                self@ == absorb_all(e0, rv.take(i as int)),
            decreases n - i,
        {
            proof {
                assert(rv.take(i as int + 1).drop_last() =~= rv.take(i as int));
                assert(rv.take(i as int + 1).last() == rows@[i as int]@);
            }
            self.absorb_one_x(&rows[i]);
            i = i + 1;
        }
        proof {
            assert(rv.take(n as int) =~= rv);
            lemma_absorb_all_frame(e0, rv);
        }
        self.iteration = self.iteration + 1;
        proof {
            assert(self@ =~~= step_spec(old(self)@, rv));
        }
    }
}

/// A round changes neither the counters nor the configuration flags.
pub proof fn lemma_absorb_all_frame(e: EngineView, rows: Seq<RowView>)
    ensures
        absorb_all(e, rows).iteration == e.iteration,
        absorb_all(e, rows).depth == e.depth,
        absorb_all(e, rows).follow_idents == e.follow_idents,
        absorb_all(e, rows).subnet == e.subnet,
    decreases rows.len(),
{
    if rows.len() > 0 {
        lemma_absorb_all_frame(e, rows.drop_last());
    }
}

/// A round with no results at all empties every frontier, leaves the
/// visited set unchanged, and finishes the run: the engine terminates as
/// soon as a round discovers nothing new.
pub proof fn lemma_empty_round_finishes(e: EngineView)
    ensures
        step_spec(e, Seq::<RowView>::empty()).visited == e.visited,
        frontiers_empty(step_spec(e, Seq::<RowView>::empty())),
        finished_spec(step_spec(e, Seq::<RowView>::empty())),
{
    assert(absorb_all(clear_frontiers(e), Seq::<RowView>::empty()) == clear_frontiers(e));
}

/// A seed whose first round matches nothing ends after that one round with
/// an empty result set: the seed itself is never inserted without a match.
pub proof fn lemma_seed_without_matches(m: MaskView, depth: int, follow_idents: bool, subnet: bool)
    ensures
        ({
            let e1 = step_spec(init_spec(m, depth, follow_idents, subnet), Seq::<RowView>::empty());
            e1.visited.len() == 0 && finished_spec(e1) && e1.iteration == 1
        }),
{
    lemma_empty_round_finishes(init_spec(m, depth, follow_idents, subnet));
}

/// Idempotent accumulation: a row whose record was already visited changes
/// nothing, in whatever later round it resurfaces.
pub proof fn lemma_idempotent_accumulation(e: EngineView, row: RowView)
    requires
        match parse_mask(row.text) {
            Ok(m) => rs_contains(
                e.visited,
                SenderView {
                    id: row.id,
                    mask: set_mask_subnet(m, e.subnet),
                    realname: row.realname,
                },
            ),
            Err(_) => true,
        },
    ensures
        absorb_one(e, row) == e,
{
}

/// Absorbing rows preserves engine validity.
pub proof fn lemma_absorb_one_inv(e: EngineView, row: RowView)
    requires
        engine_inv(e),
    ensures
        engine_inv(absorb_one(e, row)),
{
    match parse_mask(row.text) {
        Ok(m0) => {
            let m = set_mask_subnet(m0, e.subnet);
            let rec = SenderView { id: row.id, mask: m, realname: row.realname };
            if !rs_contains(e.visited, rec) {
                let v = e.visited.push(rec);
                assert forall|j: int, k: int| 0 <= j < k < v.len() implies !sender_eq(v[j], v[k]) by {
                    if k == v.len() - 1 {
                        assert(!sender_eq(e.visited[j], rec));
                    }
                }
            }
        },
        Err(_) => {},
    }
}

/// Every round preserves engine validity: the visited set stays free of
/// duplicates, and with ident-following off the ident frontier stays empty.
pub proof fn lemma_step_preserves_inv(e: EngineView, rows: Seq<RowView>)
    requires
        engine_inv(e),
    ensures
        engine_inv(step_spec(e, rows)),
{
    lemma_absorb_all_inv(clear_frontiers(e), rows);
}

pub proof fn lemma_absorb_all_inv(e: EngineView, rows: Seq<RowView>)
    requires
        engine_inv(e),
    ensures
        engine_inv(absorb_all(e, rows)),
    decreases rows.len(),
{
    if rows.len() > 0 {
        lemma_absorb_all_inv(e, rows.drop_last());
        lemma_absorb_one_inv(absorb_all(e, rows.drop_last()), rows.last());
    }
}

/// The visited set only grows: a round never removes or reorders what was
/// already discovered, it can only append new records.
pub proof fn lemma_visited_monotone(e: EngineView, rows: Seq<RowView>)
    ensures
        step_spec(e, rows).visited.len() >= e.visited.len(),
        step_spec(e, rows).visited.take(e.visited.len() as int) == e.visited,
{
    lemma_absorb_all_visited_prefix(clear_frontiers(e), rows);
}

proof fn lemma_absorb_all_visited_prefix(e: EngineView, rows: Seq<RowView>)
    ensures
        absorb_all(e, rows).visited.len() >= e.visited.len(),
        absorb_all(e, rows).visited.take(e.visited.len() as int) == e.visited,
    decreases rows.len(),
{
    if rows.len() == 0 {
        assert(absorb_all(e, rows).visited.take(e.visited.len() as int) =~= e.visited);
    } else {
        lemma_absorb_all_visited_prefix(e, rows.drop_last());
        let v1 = absorb_all(e, rows.drop_last()).visited;
        let v2 = absorb_all(e, rows).visited;
        assert(v2 == v1 || v2 =~= v1.push(v2.last()));
        assert(v2.take(e.visited.len() as int) =~= v1.take(e.visited.len() as int));
    }
}

/// Depth bound: each round advances the iteration counter, and once it
/// reaches the bound the run is finished whatever the frontiers still hold.
pub proof fn lemma_depth_bound(e: EngineView, rows: Seq<RowView>)
    ensures
        step_spec(e, rows).iteration == e.iteration + 1,
        e.iteration + 1 >= e.depth ==> finished_spec(step_spec(e, rows)),
{
    lemma_absorb_all_frame(clear_frontiers(e), rows);
}

/// With ident-following off, the ident frontier is empty after seeding and
/// after every round, however many distinct idents discovered records carry.
pub proof fn lemma_ident_following_off(
    m: MaskView,
    depth: int,
    subnet: bool,
    e: EngineView,
    rows: Seq<RowView>,
)
    requires
        !e.follow_idents,
    ensures
        init_spec(m, depth, false, subnet).idents.len() == 0,
        step_spec(e, rows).idents.len() == 0,
{
    lemma_absorb_all_idents_off(clear_frontiers(e), rows);
}

pub proof fn lemma_absorb_all_idents_off(e: EngineView, rows: Seq<RowView>)
    requires
        !e.follow_idents,
        e.idents.len() == 0,
    ensures
        absorb_all(e, rows).idents.len() == 0,
        !absorb_all(e, rows).follow_idents,
    decreases rows.len(),
{
    if rows.len() > 0 {
        lemma_absorb_all_idents_off(e, rows.drop_last());
    }
}

} // verus!
