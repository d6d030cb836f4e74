//! The tunnels that run, and what must stop and start so that they become the desired ones.
use vstd::prelude::*;
use vstd::string::StringExecFns;

use crate::config::{AppConfig, TunnelConfig, TunnelView};

verus! {

/// The tunnels of a list by name; of two with the same name, the later one.
pub open spec fn by_name(tunnels: Seq<TunnelView>) -> Map<Seq<char>, TunnelView>
    decreases tunnels.len(),
{
    if tunnels.len() == 0 {
        Map::empty()
    } else {
        by_name(tunnels.drop_last()).insert(tunnels.last().name, tunnels.last())
    }
}

/// Whether the tunnel `name` runs as it is desired.
pub open spec fn unchanged(
    running: Map<Seq<char>, TunnelView>,
    desired: Map<Seq<char>, TunnelView>,
    name: Seq<char>,
) -> bool {
    running.contains_key(name) && desired.contains_key(name) && running[name] == desired[name]
}

/// The tunnels that go on running.
pub open spec fn kept(
    running: Map<Seq<char>, TunnelView>,
    desired: Map<Seq<char>, TunnelView>,
) -> Map<Seq<char>, TunnelView> {
    Map::new(|name: Seq<char>| unchanged(running, desired, name), |name: Seq<char>| running[name])
}

/// The names of the tunnels that must stop: those that are not desired, or not as they run.
pub open spec fn to_stop(
    running: Map<Seq<char>, TunnelView>,
    desired: Map<Seq<char>, TunnelView>,
) -> Set<Seq<char>> {
    Set::new(
        |name: Seq<char>| running.contains_key(name) && !unchanged(running, desired, name),
    )
}

/// The tunnels that must start: those that do not run as they are desired.
pub open spec fn to_start(
    running: Map<Seq<char>, TunnelView>,
    desired: Map<Seq<char>, TunnelView>,
) -> Map<Seq<char>, TunnelView> {
    Map::new(
        |name: Seq<char>| desired.contains_key(name) && !unchanged(running, desired, name),
        |name: Seq<char>| desired[name],
    )
}

/// What a reconciliation is to do, in this order.
#[derive(Debug)]
pub struct ReconcilePlan {
    /// The tunnels whose workers ended by themselves: what is left of them is to be stopped.
    pub retired: Vec<String>,
    /// The tunnels to stop.
    pub stop: Vec<String>,
    /// The tunnels to start.
    pub start: Vec<TunnelConfig>,
}

/// A tunnel that was to start, and whether it did.
#[derive(Debug)]
pub struct StartResult {
    pub tunnel: TunnelConfig,
    pub started: bool,
}

/// The running tunnels once the starts of `results` were tried.
pub open spec fn with_results(
    running: Map<Seq<char>, TunnelView>,
    results: Seq<StartResult>,
) -> Map<Seq<char>, TunnelView>
    decreases results.len(),
{
    if results.len() == 0 {
        running
    } else {
        let before = with_results(running, results.drop_last());
        let last = results.last();
        if last.started {
            before.insert(last.tunnel@.name, last.tunnel@)
        } else {
            before
        }
    }
}

/// Whether every start succeeded.
pub open spec fn all_started(results: Seq<StartResult>) -> bool {
    forall|i: int| 0 <= i < results.len() ==> (#[trigger] results[i]).started
}

/// The tunnels that were tried.
pub open spec fn tried(results: Seq<StartResult>) -> Seq<TunnelView> {
    results.map_values(|r: StartResult| r.tunnel@)
}

/// A name leads to a tunnel exactly where a tunnel of the list has it.
pub proof fn lemma_by_name_has(tunnels: Seq<TunnelView>, name: Seq<char>)
    ensures
        by_name(tunnels).contains_key(name) <==> crate::config::has_name(tunnels, name),
        by_name(tunnels).contains_key(name) ==> by_name(tunnels)[name].name == name,
    decreases tunnels.len(),
{
    if tunnels.len() > 0 {
        let before = tunnels.drop_last();
        lemma_by_name_has(before, name);
        if crate::config::has_name(before, name) {
            let i = choose|i: int| 0 <= i < before.len() && (#[trigger] before[i]).name == name;
            assert(tunnels[i] == before[i]);
        }
        if tunnels.last().name == name {
            assert(tunnels[tunnels.len() - 1].name == name);
        }
        if crate::config::has_name(tunnels, name) && tunnels.last().name != name {
            let i = choose|i: int| 0 <= i < tunnels.len() && (#[trigger] tunnels[i]).name == name;
            assert(before[i] == tunnels[i]);
        }
    }
}

/// Where no name occurs twice, the name of each tunnel leads to that tunnel.
pub proof fn lemma_by_name_at(tunnels: Seq<TunnelView>, i: int)
    requires
        crate::config::distinct_names(tunnels),
        0 <= i < tunnels.len(),
    ensures
        by_name(tunnels).contains_key(tunnels[i].name),
        by_name(tunnels)[tunnels[i].name] == tunnels[i],
    decreases tunnels.len(),
{
    let before = tunnels.drop_last();
    if i < before.len() {
        lemma_distinct_part(tunnels);
        lemma_by_name_at(before, i);
        assert(before[i] == tunnels[i]);
        assert(tunnels[i].name != tunnels[tunnels.len() - 1].name);
    }
}

proof fn lemma_distinct_part(tunnels: Seq<TunnelView>)
    requires
        crate::config::distinct_names(tunnels),
        tunnels.len() > 0,
    ensures
        crate::config::distinct_names(tunnels.drop_last()),
{
    let before = tunnels.drop_last();
    assert forall|a: int, b: int| 0 <= a < b < before.len() implies (#[trigger] before[a]).name != (
    #[trigger] before[b]).name by {
        assert(before[a] == tunnels[a] && before[b] == tunnels[b]);
    }
}

/// A list with distinct names has, under each name, the tunnel of that name.
proof fn lemma_by_name_all(tunnels: Seq<TunnelView>)
    requires
        crate::config::distinct_names(tunnels),
    ensures
        forall|i: int| 0 <= i < tunnels.len() ==> {
            &&& by_name(tunnels).contains_key((#[trigger] tunnels[i]).name)
            &&& by_name(tunnels)[tunnels[i].name] == tunnels[i]
        },
        forall|name: Seq<char>| #[trigger]
            by_name(tunnels).contains_key(name) ==> crate::config::has_name(tunnels, name)
                && by_name(tunnels)[name].name == name,
{
    assert forall|i: int| 0 <= i < tunnels.len() implies {
        &&& by_name(tunnels).contains_key((#[trigger] tunnels[i]).name)
        &&& by_name(tunnels)[tunnels[i].name] == tunnels[i]
    } by {
        lemma_by_name_at(tunnels, i);
    }
    assert forall|name: Seq<char>| #[trigger] by_name(tunnels).contains_key(name) implies
        crate::config::has_name(tunnels, name) && by_name(tunnels)[name].name == name by {
        lemma_by_name_has(tunnels, name);
    }
}

fn position(tunnels: &Vec<TunnelConfig>, name: &String) -> (r: Option<usize>)
    ensures
        match r {
            Some(i) => i < tunnels@.len() && tunnels@[i as int].name@ == name@,
            None => !crate::config::has_name(TunnelConfig::views(tunnels@), name@),
        },
{
    let mut i: usize = 0;
    while i < tunnels.len()
        invariant
            i <= tunnels.len(),
            forall|j: int|
                0 <= j < i ==> (#[trigger] TunnelConfig::views(tunnels@)[j]).name != name@,
        decreases tunnels.len() - i,
    {
        if tunnels[i].name == *name {
            return Some(i);
        }
        assert(TunnelConfig::views(tunnels@)[i as int] == tunnels@[i as int]@);
        i = i + 1;
    }
    None
}

/// The names of the tunnels of a list.
pub open spec fn names_of(tunnels: Seq<TunnelView>) -> Seq<Seq<char>> {
    tunnels.map_values(|t: TunnelView| t.name)
}

proof fn lemma_names_of(tunnels: Seq<TunnelView>)
    requires
        crate::config::distinct_names(tunnels),
    ensures
        names_of(tunnels).no_duplicates(),
        names_of(tunnels).to_set() == by_name(tunnels).dom(),
{
    let names = names_of(tunnels);
    assert forall|i: int, j: int| 0 <= i < names.len() && 0 <= j < names.len() && i != j implies
        names[i] != names[j] by {
        if i < j {
            assert(tunnels[i].name != tunnels[j].name);
        } else {
            assert(tunnels[j].name != tunnels[i].name);
        }
    }
    assert forall|name: Seq<char>| names.to_set().contains(name) <==> by_name(
        tunnels,
    ).dom().contains(name) by {
        lemma_by_name_has(tunnels, name);
        if names.contains(name) {
            let i = choose|i: int| 0 <= i < names.len() && names[i] == name;
            assert(tunnels[i].name == name);
        }
        if crate::config::has_name(tunnels, name) {
            let i = choose|i: int| 0 <= i < tunnels.len() && (#[trigger] tunnels[i]).name == name;
            assert(names[i] == name);
        }
    }
    assert(names.to_set() =~= by_name(tunnels).dom());
}

/// Filtering a list with distinct names filters its tunnels by name.
proof fn lemma_filter_by_name(tunnels: Seq<TunnelView>, p: spec_fn(TunnelView) -> bool)
    requires
        crate::config::distinct_names(tunnels),
    ensures
        crate::config::distinct_names(tunnels.filter(p)),
        forall|name: Seq<char>| #[trigger]
            by_name(tunnels.filter(p)).contains_key(name) <==> by_name(tunnels).contains_key(name)
                && p(by_name(tunnels)[name]),
        forall|name: Seq<char>|
            by_name(tunnels.filter(p)).contains_key(name) ==> #[trigger] by_name(
                tunnels.filter(p),
            )[name] == by_name(tunnels)[name],
    decreases tunnels.len(),
{
    reveal(Seq::filter);
    if tunnels.len() > 0 {
        let before = tunnels.drop_last();
        let last = tunnels.last();
        lemma_distinct_part(tunnels);
        lemma_filter_by_name(before, p);
        lemma_by_name_has(before, last.name);
        assert(!crate::config::has_name(before, last.name)) by {
            if crate::config::has_name(before, last.name) {
                let i = choose|i: int|
                    0 <= i < before.len() && (#[trigger] before[i]).name == last.name;
                assert(tunnels[i].name != tunnels[tunnels.len() - 1].name);
            }
        }
        let f = before.filter(p);
        lemma_by_name_has(f, last.name);
        if p(last) {
            let g = f.push(last);
            assert(tunnels.filter(p) == g);
            assert(g.drop_last() =~= f);
            assert forall|a: int, b: int| 0 <= a < b < g.len() implies (#[trigger] g[a]).name != (
            #[trigger] g[b]).name by {
                assert(g[a] == f[a]);
                if b < f.len() {
                    assert(g[b] == f[b]);
                }
            }
        }
    }
}

/// Whether `tunnel` is in the list.
fn has_tunnel(tunnels: &Vec<TunnelConfig>, tunnel: &TunnelConfig) -> (r: bool)
    requires
        crate::config::distinct_names(TunnelConfig::views(tunnels@)),
    ensures
        r == ({
            let m = by_name(TunnelConfig::views(tunnels@));
            m.contains_key(tunnel@.name) && m[tunnel@.name] == tunnel@
        }),
{
    let ghost all = TunnelConfig::views(tunnels@);
    proof {
        lemma_by_name_has(all, tunnel@.name);
    }
    match position(tunnels, &tunnel.name) {
        Some(i) => {
            proof {
                lemma_by_name_at(all, i as int);
            }
            assert(all[i as int] == tunnels@[i as int]@);
            tunnels[i] == *tunnel
        },
        None => false,
    }
}

fn listed(names: &Vec<String>, name: &String) -> (r: bool)
    ensures
        r == crate::text::texts(names@).contains(name@),
{
    let mut i: usize = 0;
    while i < names.len()
        invariant
            i <= names.len(),
            forall|j: int| 0 <= j < i ==> crate::text::texts(names@)[j] != name@,
        decreases names.len() - i,
    {
        if names[i] == *name {
            assert(crate::text::texts(names@)[i as int] == name@);
            return true;
        }
        assert(crate::text::texts(names@)[i as int] == names@[i as int]@);
        i = i + 1;
    }
    false
}

/// Puts `tunnel` in the place of the tunnel of its name, or at the end.
fn put(tunnels: &mut Vec<TunnelConfig>, tunnel: TunnelConfig)
    requires
        crate::config::distinct_names(TunnelConfig::views(old(tunnels)@)),
    ensures
        crate::config::distinct_names(TunnelConfig::views(final(tunnels)@)),
        by_name(TunnelConfig::views(final(tunnels)@)) == by_name(
            TunnelConfig::views(old(tunnels)@),
        ).insert(tunnel@.name, tunnel@),
{
    let ghost before = TunnelConfig::views(tunnels@);
    match position(tunnels, &tunnel.name) {
        Some(i) => {
            tunnels[i] = tunnel;
            proof {
                let after = TunnelConfig::views(tunnels@);
                assert(after =~= before.update(i as int, tunnel@));
                assert(before[i as int].name == tunnel@.name);
                assert forall|a: int, b: int| 0 <= a < b < after.len() implies (
                #[trigger] after[a]).name != (#[trigger] after[b]).name by {
                    assert(after[a].name == before[a].name && after[b].name == before[b].name);
                }
                lemma_by_name_all(before);
                lemma_by_name_all(after);
                let m = by_name(before).insert(tunnel@.name, tunnel@);
                assert forall|name: Seq<char>| by_name(after).contains_key(name)
                    <==> m.contains_key(name) by {
                    lemma_by_name_has(before, name);
                    lemma_by_name_has(after, name);
                    if crate::config::has_name(before, name) {
                        let j = choose|j: int|
                            0 <= j < before.len() && (#[trigger] before[j]).name == name;
                        assert(after[j].name == name);
                    }
                    if crate::config::has_name(after, name) {
                        let j = choose|j: int|
                            0 <= j < after.len() && (#[trigger] after[j]).name == name;
                        assert(before[j].name == name);
                    }
                }
                assert forall|name: Seq<char>| by_name(after).contains_key(name) implies by_name(
                    after,
                )[name] == m[name] by {
                    let j = choose|j: int|
                        0 <= j < after.len() && (#[trigger] after[j]).name == name;
                    assert(by_name(after)[after[j].name] == after[j]);
                    if j != i {
                        assert(before[j] == after[j]);
                        assert(by_name(before)[before[j].name] == before[j]);
                        assert(before[j].name != before[i as int].name);
                    }
                }
                assert(by_name(after) =~= m);
            }
        },
        None => {
            tunnels.push(tunnel);
            proof {
                let after = TunnelConfig::views(tunnels@);
                assert(after =~= before.push(tunnel@));
                assert(after.drop_last() =~= before);
                assert forall|a: int, b: int| 0 <= a < b < after.len() implies (
                #[trigger] after[a]).name != (#[trigger] after[b]).name by {
                    assert(after[a] == before[a]);
                    if b < before.len() {
                        assert(after[b] == before[b]);
                    }
                }
            }
        },
    }
}

/// The tunnels of a list with each name once: of two with the same name, the later one.
fn last_of_each_name(tunnels: Vec<TunnelConfig>) -> (r: Vec<TunnelConfig>)
    ensures
        crate::config::distinct_names(TunnelConfig::views(r@)),
        by_name(TunnelConfig::views(r@)) == by_name(TunnelConfig::views(tunnels@)),
{
    let mut r: Vec<TunnelConfig> = Vec::new();
    let ghost all = TunnelConfig::views(tunnels@);
    let mut i: usize = 0;
    assert(all.take(0) =~= seq![]);
    assert(TunnelConfig::views(r@) =~= seq![]);
    while i < tunnels.len()
        invariant
            i <= tunnels.len(),
            all == TunnelConfig::views(tunnels@),
            crate::config::distinct_names(TunnelConfig::views(r@)),
            by_name(TunnelConfig::views(r@)) == by_name(all.take(i as int)),
        decreases tunnels.len() - i,
    {
        let ghost next = all.take(i + 1);
        assert(next.drop_last() =~= all.take(i as int));
        assert(next.last() == tunnels@[i as int]@);
        put(&mut r, tunnels[i].clone());
        i = i + 1;
    }
    assert(all.take(i as int) =~= all);
    r
}

/// The tunnels that run.
#[derive(Debug)]
pub struct TunnelManager {
    active: Vec<TunnelConfig>,
}

impl View for TunnelManager {
    type V = Map<Seq<char>, TunnelView>;

    /// The running tunnels by name.
    closed spec fn view(&self) -> Map<Seq<char>, TunnelView> {
        by_name(TunnelConfig::views(self.active@))
    }
}

impl Default for TunnelManager {
    /// A manager with no tunnel.
    fn default() -> (r: TunnelManager)
        ensures
            r.wf(),
            r@ == Map::<Seq<char>, TunnelView>::empty(),
    {
        let r = TunnelManager { active: Vec::new() };
        assert(TunnelConfig::views(r.active@) =~= seq![]);
        r
    }
}

impl TunnelManager {
    /// No two running tunnels have the same name.
    pub closed spec fn wf(&self) -> bool {
        crate::config::distinct_names(TunnelConfig::views(self.active@))
    }

    /// Takes the tunnels named in `finished` off the list.
    fn drop_finished(&mut self, finished: &Vec<String>) -> (r: Vec<String>)
        requires
            old(self).wf(),
        ensures
            final(self).wf(),
            final(self)@ == old(self)@.remove_keys(crate::text::texts(finished@).to_set()),
            crate::text::texts(r@).no_duplicates(),
            crate::text::texts(r@).to_set() == old(self)@.dom().intersect(
                crate::text::texts(finished@).to_set(),
            ),
    {
        let ghost all = TunnelConfig::views(self.active@);
        let ghost gone = crate::text::texts(finished@);
        let ghost leaves = |t: TunnelView| gone.contains(t.name);
        let ghost stays = |t: TunnelView| !gone.contains(t.name);
        let mut left: Vec<TunnelConfig> = Vec::new();
        let mut r: Vec<String> = Vec::new();
        let mut i: usize = 0;
        proof {
            reveal(Seq::filter);
            assert(all.take(0) =~= seq![]);
            assert(TunnelConfig::views(left@) =~= seq![]);
            assert(crate::text::texts(r@) =~= names_of(seq![]));
        }
        while i < self.active.len()
            invariant
                i <= self.active.len(),
                all == TunnelConfig::views(self.active@),
                gone == crate::text::texts(finished@),
                leaves == (|t: TunnelView| gone.contains(t.name)),
                stays == (|t: TunnelView| !gone.contains(t.name)),
                TunnelConfig::views(left@) == all.take(i as int).filter(stays),
                crate::text::texts(r@) == names_of(all.take(i as int).filter(leaves)),
            decreases self.active.len() - i,
        {
            let ghost t = self.active@[i as int]@;
            let ghost next = all.take(i + 1);
            proof {
                reveal(Seq::filter);
                assert(next.drop_last() =~= all.take(i as int));
                assert(next.last() == t);
            }
            if listed(finished, &self.active[i].name) {
                let ghost before = crate::text::texts(r@);
                r.push(self.active[i].name.clone());
                assert(crate::text::texts(r@) =~= before.push(t.name));
                assert(names_of(next.filter(leaves)) =~= before.push(t.name));
            } else {
                let ghost before = TunnelConfig::views(left@);
                left.push(self.active[i].clone());
                assert(TunnelConfig::views(left@) =~= before.push(t));
            }
            i = i + 1;
        }
        proof {
            assert(all.take(i as int) =~= all);
            lemma_filter_by_name(all, stays);
            lemma_filter_by_name(all, leaves);
            lemma_names_of(all.filter(leaves));
            lemma_by_name_all(all);
            assert(by_name(all.filter(stays)) =~= by_name(all).remove_keys(gone.to_set()));
            assert(by_name(all.filter(leaves)).dom() =~= by_name(all).dom().intersect(
                gone.to_set(),
            ));
        }
        self.active = left;
        r
    }

    /// Takes the tunnels that do not run as they are in `desired` off the list.
    fn drop_changed(&mut self, desired: &Vec<TunnelConfig>) -> (r: Vec<String>)
        requires
            old(self).wf(),
            crate::config::distinct_names(TunnelConfig::views(desired@)),
        ensures
            final(self).wf(),
            final(self)@ == kept(old(self)@, by_name(TunnelConfig::views(desired@))),
            crate::text::texts(r@).no_duplicates(),
            crate::text::texts(r@).to_set() == to_stop(
                old(self)@,
                by_name(TunnelConfig::views(desired@)),
            ),
    {
        let ghost all = TunnelConfig::views(self.active@);
        let ghost want = by_name(TunnelConfig::views(desired@));
        let ghost stays = |t: TunnelView| want.contains_key(t.name) && want[t.name] == t;
        let ghost leaves = |t: TunnelView| !(want.contains_key(t.name) && want[t.name] == t);
        let mut left: Vec<TunnelConfig> = Vec::new();
        let mut r: Vec<String> = Vec::new();
        let mut i: usize = 0;
        proof {
            reveal(Seq::filter);
            assert(all.take(0) =~= seq![]);
            assert(TunnelConfig::views(left@) =~= seq![]);
            assert(crate::text::texts(r@) =~= names_of(seq![]));
        }
        while i < self.active.len()
            invariant
                i <= self.active.len(),
                crate::config::distinct_names(TunnelConfig::views(desired@)),
                all == TunnelConfig::views(self.active@),
                want == by_name(TunnelConfig::views(desired@)),
                stays == (|t: TunnelView| want.contains_key(t.name) && want[t.name] == t),
                leaves == (|t: TunnelView| !(want.contains_key(t.name) && want[t.name] == t)),
                TunnelConfig::views(left@) == all.take(i as int).filter(stays),
                crate::text::texts(r@) == names_of(all.take(i as int).filter(leaves)),
            decreases self.active.len() - i,
        {
            let ghost t = self.active@[i as int]@;
            let ghost next = all.take(i + 1);
            proof {
                reveal(Seq::filter);
                assert(next.drop_last() =~= all.take(i as int));
                assert(next.last() == t);
            }
            if has_tunnel(desired, &self.active[i]) {
                let ghost before = TunnelConfig::views(left@);
                left.push(self.active[i].clone());
                assert(TunnelConfig::views(left@) =~= before.push(t));
            } else {
                let ghost before = crate::text::texts(r@);
                r.push(self.active[i].name.clone());
                assert(crate::text::texts(r@) =~= before.push(t.name));
                assert(names_of(next.filter(leaves)) =~= before.push(t.name));
            }
            i = i + 1;
        }
        proof {
            assert(all.take(i as int) =~= all);
            lemma_filter_by_name(all, stays);
            lemma_filter_by_name(all, leaves);
            lemma_names_of(all.filter(leaves));
            lemma_by_name_all(all);
            assert(by_name(all.filter(stays)) =~= kept(by_name(all), want));
            assert(by_name(all.filter(leaves)).dom() =~= to_stop(by_name(all), want));
        }
        self.active = left;
        r
    }

    /// The tunnels of `desired` that do not run as they are there.
    fn missing(&self, desired: &Vec<TunnelConfig>) -> (r: Vec<TunnelConfig>)
        requires
            self.wf(),
            crate::config::distinct_names(TunnelConfig::views(desired@)),
        ensures
            crate::config::distinct_names(TunnelConfig::views(r@)),
            by_name(TunnelConfig::views(r@)) == to_start(
                self@,
                by_name(TunnelConfig::views(desired@)),
            ),
    {
        let ghost all = TunnelConfig::views(desired@);
        let ghost running = self@;
        let ghost lacks = |t: TunnelView| !(running.contains_key(t.name) && running[t.name] == t);
        let mut r: Vec<TunnelConfig> = Vec::new();
        let mut i: usize = 0;
        proof {
            reveal(Seq::filter);
            assert(all.take(0) =~= seq![]);
            assert(TunnelConfig::views(r@) =~= seq![]);
        }
        while i < desired.len()
            invariant
                i <= desired.len(),
                self.wf(),
                all == TunnelConfig::views(desired@),
                running == self@,
                lacks == (|t: TunnelView| !(running.contains_key(t.name) && running[t.name] == t)),
                TunnelConfig::views(r@) == all.take(i as int).filter(lacks),
            decreases desired.len() - i,
        {
            let ghost t = desired@[i as int]@;
            let ghost next = all.take(i + 1);
            proof {
                reveal(Seq::filter);
                assert(next.drop_last() =~= all.take(i as int));
                assert(next.last() == t);
            }
            if !has_tunnel(&self.active, &desired[i]) {
                let ghost before = TunnelConfig::views(r@);
                r.push(desired[i].clone());
                assert(TunnelConfig::views(r@) =~= before.push(t));
            }
            i = i + 1;
        }
        proof {
            assert(all.take(i as int) =~= all);
            lemma_filter_by_name(all, lacks);
            lemma_by_name_all(all);
            assert(by_name(all.filter(lacks)) =~= to_start(running, by_name(all)));
        }
        r
    }

    /// Decides what makes the running tunnels the desired ones. `finished` names the tunnels whose
    /// workers ended by themselves. Of two desired tunnels with the same name the later one counts.
    pub fn reconcile(&mut self, finished: &Vec<String>, desired: Vec<TunnelConfig>) -> (plan:
        ReconcilePlan)
        requires
            old(self).wf(),
        ensures
            final(self).wf(),
            ({
                let gone = crate::text::texts(finished@).to_set();
                let alive = old(self)@.remove_keys(gone);
                let want = by_name(TunnelConfig::views(desired@));
                &&& final(self)@ == kept(alive, want)
                &&& crate::text::texts(plan.retired@).no_duplicates()
                &&& crate::text::texts(plan.retired@).to_set() == old(self)@.dom().intersect(gone)
                &&& crate::text::texts(plan.stop@).no_duplicates()
                &&& crate::text::texts(plan.stop@).to_set() == to_stop(alive, want)
                &&& crate::config::distinct_names(TunnelConfig::views(plan.start@))
                &&& by_name(TunnelConfig::views(plan.start@)) == to_start(alive, want)
            }),
    {
        let retired = self.drop_finished(finished);
        let wanted = last_of_each_name(desired);
        let ghost alive = self@;
        let ghost want = by_name(TunnelConfig::views(wanted@));
        let stop = self.drop_changed(&wanted);
        let start = self.missing(&wanted);
        assert(to_start(kept(alive, want), want) =~= to_start(alive, want));
        ReconcilePlan { retired, stop, start }
    }

    /// Decides what makes the running tunnels the enabled ones of `config`.
    pub fn start_from_config(&mut self, finished: &Vec<String>, config: &AppConfig) -> (plan:
        ReconcilePlan)
        requires
            old(self).wf(),
        ensures
            final(self).wf(),
            ({
                let gone = crate::text::texts(finished@).to_set();
                let alive = old(self)@.remove_keys(gone);
                let want = by_name(config@.tunnels.filter(|t: TunnelView| t.enabled));
                &&& final(self)@ == kept(alive, want)
                &&& crate::text::texts(plan.retired@).no_duplicates()
                &&& crate::text::texts(plan.retired@).to_set() == old(self)@.dom().intersect(gone)
                &&& crate::text::texts(plan.stop@).no_duplicates()
                &&& crate::text::texts(plan.stop@).to_set() == to_stop(alive, want)
                &&& crate::config::distinct_names(TunnelConfig::views(plan.start@))
                &&& by_name(TunnelConfig::views(plan.start@)) == to_start(alive, want)
            }),
    {
        self.reconcile(finished, config.enabled_tunnels())
    }

    /// Takes up the tunnels that started; whether every start succeeded.
    pub fn finish(&mut self, results: Vec<StartResult>) -> (r: bool)
        requires
            old(self).wf(),
        ensures
            final(self).wf(),
            final(self)@ == with_results(old(self)@, results@),
            r == all_started(results@),
    {
        let ghost before = self@;
        let mut all: bool = true;
        let mut i: usize = 0;
        assert(results@.take(0) =~= seq![]);
        while i < results.len()
            invariant
                i <= results.len(),
                self.wf(),
                self@ == with_results(before, results@.take(i as int)),
                all == all_started(results@.take(i as int)),
            decreases results.len() - i,
        {
            let ghost next = results@.take(i + 1);
            let ghost so_far = results@.take(i as int);
            assert(next.drop_last() =~= so_far);
            assert(next.last() == results@[i as int]);
            if results[i].started {
                put(&mut self.active, results[i].tunnel.clone());
                proof {
                    if all_started(so_far) {
                        assert forall|j: int| 0 <= j < next.len() implies (
                        #[trigger] next[j]).started by {
                            if j < so_far.len() {
                                assert(so_far[j] == next[j]);
                            }
                        }
                    }
                }
            } else {
                all = false;
                assert(!next[i as int].started);
            }
            proof {
                if all_started(next) {
                    assert forall|j: int| 0 <= j < so_far.len() implies (
                    #[trigger] so_far[j]).started by {
                        assert(so_far[j] == next[j]);
                    }
                }
            }
            i = i + 1;
        }
        assert(results@.take(i as int) =~= results@);
        all
    }

    /// Gives all tunnels up: their names.
    pub fn stop_all(&mut self) -> (r: Vec<String>)
        requires
            old(self).wf(),
        ensures
            final(self).wf(),
            final(self)@ == Map::<Seq<char>, TunnelView>::empty(),
            crate::text::texts(r@).no_duplicates(),
            crate::text::texts(r@).to_set() == old(self)@.dom(),
    {
        let ghost all = TunnelConfig::views(self.active@);
        let mut r: Vec<String> = Vec::new();
        let mut i: usize = 0;
        assert(crate::text::texts(r@) =~= names_of(all.take(0)));
        while i < self.active.len()
            invariant
                i <= self.active.len(),
                all == TunnelConfig::views(self.active@),
                crate::text::texts(r@) == names_of(all.take(i as int)),
            decreases self.active.len() - i,
        {
            let ghost before = crate::text::texts(r@);
            r.push(self.active[i].name.clone());
            assert(crate::text::texts(r@) =~= before.push(self.active@[i as int].name@));
            assert(names_of(all.take(i + 1)) =~= names_of(all.take(i as int)).push(
                all[i as int].name,
            ));
            i = i + 1;
        }
        proof {
            assert(all.take(i as int) =~= all);
            lemma_names_of(all);
        }
        self.active = Vec::new();
        assert(TunnelConfig::views(self.active@) =~= seq![]);
        r
    }
}

/// A tunnel that runs as it is desired is neither stopped nor started: it goes on running.
pub proof fn unchanged_tunnel_goes_on(
    running: Map<Seq<char>, TunnelView>,
    desired: Map<Seq<char>, TunnelView>,
    name: Seq<char>,
)
    requires
        unchanged(running, desired, name),
    ensures
        !to_stop(running, desired).contains(name),
        !to_start(running, desired).contains_key(name),
        kept(running, desired).contains_key(name),
        kept(running, desired)[name] == running[name],
{
}

/// A tunnel that is no longer desired is stopped and not started again.
pub proof fn removed_tunnel_stops(
    running: Map<Seq<char>, TunnelView>,
    desired: Map<Seq<char>, TunnelView>,
    name: Seq<char>,
)
    requires
        running.contains_key(name),
        !desired.contains_key(name),
    ensures
        to_stop(running, desired).contains(name),
        !kept(running, desired).contains_key(name),
        !to_start(running, desired).contains_key(name),
{
}

/// A tunnel whose configuration changed is stopped, and started as it is now desired.
pub proof fn changed_tunnel_restarts(
    running: Map<Seq<char>, TunnelView>,
    desired: Map<Seq<char>, TunnelView>,
    name: Seq<char>,
)
    requires
        running.contains_key(name),
        desired.contains_key(name),
        running[name] != desired[name],
    ensures
        to_stop(running, desired).contains(name),
        to_start(running, desired).contains_key(name),
        to_start(running, desired)[name] == desired[name],
{
}

/// A tunnel that is new, or whose workers ended by themselves, is started.
pub proof fn missing_tunnel_starts(
    running: Map<Seq<char>, TunnelView>,
    gone: Set<Seq<char>>,
    desired: Map<Seq<char>, TunnelView>,
    name: Seq<char>,
)
    requires
        desired.contains_key(name),
        gone.contains(name) || !running.contains_key(name),
    ensures
        to_start(running.remove_keys(gone), desired).contains_key(name),
        to_start(running.remove_keys(gone), desired)[name] == desired[name],
        !to_stop(running.remove_keys(gone), desired).contains(name),
{
}

/// Where every tunnel that must start does, the running tunnels are the desired ones.
pub proof fn reconciliation_converges(
    running: Map<Seq<char>, TunnelView>,
    desired: Map<Seq<char>, TunnelView>,
    results: Seq<StartResult>,
)
    requires
        by_name(tried(results)) == to_start(running, desired),
        all_started(results),
    ensures
        with_results(kept(running, desired), results) == desired,
{
    lemma_all_results(kept(running, desired), results);
    assert(with_results(kept(running, desired), results) =~= desired);
}

proof fn lemma_all_results(running: Map<Seq<char>, TunnelView>, results: Seq<StartResult>)
    requires
        all_started(results),
    ensures
        with_results(running, results) == running.union_prefer_right(by_name(tried(results))),
    decreases results.len(),
{
    if results.len() == 0 {
        assert(with_results(running, results) =~= running.union_prefer_right(
            by_name(tried(results)),
        ));
    } else {
        let before = results.drop_last();
        assert forall|i: int| 0 <= i < before.len() implies (#[trigger] before[i]).started by {
            assert(before[i] == results[i]);
        }
        lemma_all_results(running, before);
        assert(tried(results).drop_last() =~= tried(before));
        assert(results[results.len() - 1].started);
        assert(with_results(running, results) =~= running.union_prefer_right(
            by_name(tried(results)),
        ));
    }
}

/// Once the running tunnels are the desired ones and all are alive, a further reconciliation stops
/// and starts nothing.
pub proof fn settled_tunnels_are_left_alone(desired: Map<Seq<char>, TunnelView>)
    ensures
        kept(desired, desired) == desired,
        to_stop(desired, desired) == Set::<Seq<char>>::empty(),
        to_start(desired, desired) == Map::<Seq<char>, TunnelView>::empty(),
{
    assert(kept(desired, desired) =~= desired);
    assert(to_stop(desired, desired) =~= Set::<Seq<char>>::empty());
    assert(to_start(desired, desired) =~= Map::<Seq<char>, TunnelView>::empty());
}

/// A tunnel that failed to start does not run, and the next reconciliation tries it again; the
/// tunnels that were kept go on running whatever came of the starts.
pub proof fn failed_start_is_tried_again(
    running: Map<Seq<char>, TunnelView>,
    desired: Map<Seq<char>, TunnelView>,
    results: Seq<StartResult>,
    i: int,
)
    requires
        by_name(tried(results)) == to_start(running, desired),
        crate::config::distinct_names(tried(results)),
        0 <= i < results.len(),
        !results[i].started,
    ensures
        ({
            let now = with_results(kept(running, desired), results);
            let name = results[i].tunnel@.name;
            &&& !now.contains_key(name)
            &&& to_start(now, desired).contains_key(name)
        }),
        forall|other: Seq<char>| #[trigger]
            kept(running, desired).contains_key(other) ==> {
                &&& with_results(kept(running, desired), results).contains_key(other)
                &&& with_results(kept(running, desired), results)[other] == running[other]
            },
{
    let now = with_results(kept(running, desired), results);
    let name = results[i].tunnel@.name;
    lemma_some_results(kept(running, desired), results, name);
    lemma_by_name_at(tried(results), i);
    assert(tried(results)[i].name == name);
    assert(to_start(running, desired).contains_key(name));
    if now.contains_key(name) {
        let j = choose|j: int|
            0 <= j < results.len() && (#[trigger] results[j]).started && results[j].tunnel@.name
                == name;
        assert(tried(results)[j].name == tried(results)[i].name);
        if j < i {
            assert(tried(results)[j].name != tried(results)[i].name);
        } else if i < j {
            assert(tried(results)[i].name != tried(results)[j].name);
        }
    }
    assert forall|other: Seq<char>| #[trigger]
        kept(running, desired).contains_key(other) implies now.contains_key(other) && now[other]
        == running[other] by {
        lemma_some_results(kept(running, desired), results, other);
        lemma_by_name_has(tried(results), other);
        if exists|j: int|
            0 <= j < results.len() && (#[trigger] results[j]).started && results[j].tunnel@.name
                == other {
            let j = choose|j: int|
                0 <= j < results.len() && (#[trigger] results[j]).started && results[j].tunnel@.name
                    == other;
            assert(tried(results)[j].name == other);
        }
    }
}

proof fn lemma_some_results(
    running: Map<Seq<char>, TunnelView>,
    results: Seq<StartResult>,
    name: Seq<char>,
)
    ensures
        ({
            let now = with_results(running, results);
            let hit = exists|j: int|
                0 <= j < results.len() && (#[trigger] results[j]).started && results[j].tunnel@.name
                    == name;
            &&& now.contains_key(name) <==> running.contains_key(name) || hit
            &&& !hit && running.contains_key(name) ==> now[name] == running[name]
        }),
    decreases results.len(),
{
    if results.len() > 0 {
        let before = results.drop_last();
        let last = results.last();
        lemma_some_results(running, before, name);
        assert(results[results.len() - 1] == last);
        if exists|j: int|
            0 <= j < before.len() && (#[trigger] before[j]).started && before[j].tunnel@.name
                == name {
            let j = choose|j: int|
                0 <= j < before.len() && (#[trigger] before[j]).started && before[j].tunnel@.name
                    == name;
            assert(results[j] == before[j]);
        }
        if exists|j: int|
            0 <= j < results.len() && (#[trigger] results[j]).started && results[j].tunnel@.name
                == name {
            let j = choose|j: int|
                0 <= j < results.len() && (#[trigger] results[j]).started && results[j].tunnel@.name
                    == name;
            if j < before.len() {
                assert(before[j] == results[j]);
            }
        }
    }
}

/// What is reported of a tunnel whose workers ended by themselves.
pub fn retire_report(name: &str) -> (r: String)
    ensures
        r@ == "Tunnel '"@ + name@ + "' worker exited unexpectedly; recycling the tunnel state."@,
{
    "Tunnel '".to_owned().concat(name).concat(
        "' worker exited unexpectedly; recycling the tunnel state.",
    )
}

/// What is reported of a tunnel that could not start.
pub fn start_report(name: &str, error: &str) -> (r: String)
    ensures
        r@ == "Failed to start tunnel '"@ + name@ + "': "@ + error@,
{
    "Failed to start tunnel '".to_owned().concat(name).concat("': ").concat(error)
}

/// Every name is treated in one way. A tunnel goes on exactly where it runs and is desired just as it
/// runs; it is stopped exactly where it runs and is not desired so; it is started exactly where it
/// is desired and does not run so, and then as it is desired.
pub proof fn every_name_is_treated_in_one_way(
    running: Map<Seq<char>, TunnelView>,
    desired: Map<Seq<char>, TunnelView>,
    name: Seq<char>,
)
    ensures
        ({
            let same = running.contains_key(name) && desired.contains_key(name) && running[name]
                == desired[name];
            &&& kept(running, desired).contains_key(name) <==> same
            &&& same ==> kept(running, desired)[name] == running[name]
            &&& to_stop(running, desired).contains(name) <==> running.contains_key(name) && !same
            &&& to_start(running, desired).contains_key(name) <==> desired.contains_key(name)
                && !same
            &&& desired.contains_key(name) && !same ==> to_start(running, desired)[name]
                == desired[name]
        }),
{
}

/// A name stands for the last tunnel of the list that has it, and for none where no tunnel has it.
pub proof fn name_stands_for_the_last_tunnel(tunnels: Seq<TunnelView>, i: int)
    requires
        0 <= i < tunnels.len(),
        forall|j: int| i < j < tunnels.len() ==> (#[trigger] tunnels[j]).name != tunnels[i].name,
    ensures
        by_name(tunnels).contains_key(tunnels[i].name),
        by_name(tunnels)[tunnels[i].name] == tunnels[i],
        forall|name: Seq<char>| #[trigger]
            by_name(tunnels).contains_key(name) ==> exists|k: int|
                0 <= k < tunnels.len() && (#[trigger] tunnels[k]).name == name,
    decreases tunnels.len(),
{
    let before = tunnels.drop_last();
    if i < before.len() {
        assert forall|j: int| i < j < before.len() implies (#[trigger] before[j]).name
            != before[i].name by {
            assert(before[j] == tunnels[j]);
        }
        name_stands_for_the_last_tunnel(before, i);
        assert(before[i] == tunnels[i]);
        assert(tunnels[tunnels.len() - 1].name != tunnels[i].name);
    }
    assert forall|name: Seq<char>| #[trigger] by_name(tunnels).contains_key(name) implies exists|
        k: int,
    | 0 <= k < tunnels.len() && (#[trigger] tunnels[k]).name == name by {
        lemma_by_name_has(tunnels, name);
    }
}

/// After the starts, a tunnel runs exactly where it ran before or was started; one that was started
/// runs as it was tried, and no other tunnel changes. The starts succeeded together exactly where
/// each did.
pub proof fn starts_add_what_they_started(
    running: Map<Seq<char>, TunnelView>,
    results: Seq<StartResult>,
    result: StartResult,
    name: Seq<char>,
)
    ensures
        with_results(running, Seq::<StartResult>::empty()) == running,
        ({
            let before = with_results(running, results);
            let after = with_results(running, results.push(result));
            &&& name != result.tunnel@.name || !result.started ==> after.contains_key(name)
                == before.contains_key(name) && (before.contains_key(name) ==> after[name]
                == before[name])
            &&& result.started ==> after.contains_key(result.tunnel@.name)
                && after[result.tunnel@.name] == result.tunnel@
        }),
        all_started(results.push(result)) <==> all_started(results) && result.started,
        all_started(Seq::<StartResult>::empty()),
{
    let more = results.push(result);
    assert(more.drop_last() =~= results);
    assert(more.last() == result);
    if all_started(more) {
        assert forall|i: int| 0 <= i < results.len() implies (#[trigger] results[i]).started by {
            assert(more[i] == results[i]);
        }
        assert(more[results.len() as int].started);
    }
    if all_started(results) && result.started {
        assert forall|i: int| 0 <= i < more.len() implies (#[trigger] more[i]).started by {
            if i < results.len() {
                assert(more[i] == results[i]);
            }
        }
    }
}

} // verus!
