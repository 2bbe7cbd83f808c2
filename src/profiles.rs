//! Tracking of running processes and choice of the profile to activate.
use vstd::prelude::*;
use indexmap::{IndexMap, IndexSet};

verus! {

#[verifier::external_type_specification]
#[verifier::external_body]
#[verifier::reject_recursive_types(K)]
#[verifier::reject_recursive_types(V)]
#[verifier::reject_recursive_types(S)]
pub struct ExIndexMap<K, V, S>(IndexMap<K, V, S>);

#[verifier::external_type_specification]
#[verifier::external_body]
#[verifier::reject_recursive_types(T)]
#[verifier::reject_recursive_types(S)]
pub struct ExIndexSet<T, S>(IndexSet<T, S>);

/// A running process.
pub struct ProcessInfo {
    pub name: String,
    pub cmdline: String,
}

/// A rule on a process name, optionally narrowed to command lines that hold
/// `args`.
pub struct ProcessProfileRule {
    pub name: String,
    pub args: Option<String>,
}

/// When a profile is selected automatically.
pub enum ProfileRule {
    /// While a matching process runs.
    Process(ProcessProfileRule),
    /// While a game is registered with the gaming-mode helper, and, with a
    /// filter, one of the registered games matches it.
    Gamemode(Option<ProcessProfileRule>),
}

/// The entries of a process list, in their order.
pub uninterp spec fn process_entries(m: IndexMap<i32, ProcessInfo>) -> Seq<(i32, ProcessInfo)>;

/// The ids of a set of games, in their order.
pub uninterp spec fn game_ids(s: IndexSet<i32>) -> Seq<i32>;

/// The profiles of a profile map, in their order.
pub uninterp spec fn profile_entries(m: IndexMap<String, Option<ProfileRule>>) -> Seq<(String, Option<ProfileRule>)>;

/// Relies on IndexMap::new: an empty map.
#[verifier::external_body]
fn process_list_new() -> (r: IndexMap<i32, ProcessInfo>)
    ensures
        process_entries(r) == Seq::<(i32, ProcessInfo)>::empty(),
{
    IndexMap::new()
}

/// Relies on IndexMap::insert: a new key goes last, an existing key keeps
/// its place and takes the new value.
#[verifier::external_body]
fn process_list_insert(m: &mut IndexMap<i32, ProcessInfo>, k: i32, v: ProcessInfo)
    ensures
        (forall|i: int| 0 <= i < process_entries(*old(m)).len() ==> process_entries(*old(m))[i].0 != k)
            ==> process_entries(*final(m)) == process_entries(*old(m)).push((k, v)),
        (exists|i: int| 0 <= i < process_entries(*old(m)).len() && process_entries(*old(m))[i].0 == k)
            ==> exists|i: int| 0 <= i < process_entries(*old(m)).len() && process_entries(*old(m))[i].0 == k
                && process_entries(*final(m)) == process_entries(*old(m)).update(i, (k, v)),
{
    m.insert(k, v);
}

/// Relies on IndexMap::len: the number of entries.
#[verifier::external_body]
fn process_list_len(m: &IndexMap<i32, ProcessInfo>) -> (r: usize)
    ensures
        r == process_entries(*m).len(),
{
    m.len()
}

/// Relies on IndexMap::get_index: the entry at position `i`, if there is one.
#[verifier::external_body]
fn process_list_get_index(m: &IndexMap<i32, ProcessInfo>, i: usize) -> (r: Option<(&i32, &ProcessInfo)>)
    ensures
        i < process_entries(*m).len() <==> r is Some,
        r matches Some(e) ==> *e.0 == process_entries(*m)[i as int].0 && *e.1 == process_entries(*m)[i as int].1,
{
    m.get_index(i)
}

/// Relies on IndexSet::new: an empty set.
#[verifier::external_body]
fn game_set_new() -> (r: IndexSet<i32>)
    ensures
        game_ids(r) == Seq::<i32>::empty(),
{
    IndexSet::new()
}

/// Relies on IndexSet::insert: a new id goes last, an existing one stays.
#[verifier::external_body]
fn game_set_insert(s: &mut IndexSet<i32>, k: i32)
    ensures
        !game_ids(*old(s)).contains(k) ==> game_ids(*final(s)) == game_ids(*old(s)).push(k),
        game_ids(*old(s)).contains(k) ==> game_ids(*final(s)) == game_ids(*old(s)),
{
    s.insert(k);
}

/// Relies on IndexSet::contains: membership.
#[verifier::external_body]
fn game_set_contains(s: &IndexSet<i32>, k: i32) -> (r: bool)
    ensures
        r == game_ids(*s).contains(k),
{
    s.contains(&k)
}

/// Relies on IndexSet::len: the number of ids.
#[verifier::external_body]
fn game_set_len(s: &IndexSet<i32>) -> (r: usize)
    ensures
        r == game_ids(*s).len(),
{
    s.len()
}

/// Relies on IndexMap::len: the number of profiles.
#[verifier::external_body]
fn profiles_len(m: &IndexMap<String, Option<ProfileRule>>) -> (r: usize)
    ensures
        r == profile_entries(*m).len(),
{
    m.len()
}

/// Relies on IndexMap::get_index: the profile at position `i`, if there is one.
#[verifier::external_body]
fn profiles_get_index(m: &IndexMap<String, Option<ProfileRule>>, i: usize) -> (r: Option<(&String, &Option<ProfileRule>)>)
    ensures
        i < profile_entries(*m).len() <==> r is Some,
        r matches Some(e) ==> *e.0 == profile_entries(*m)[i as int].0 && *e.1 == profile_entries(*m)[i as int].1,
{
    m.get_index(i)
}

/// Whether `needle` occurs in `hay` as a contiguous run.
pub open spec fn contains_sub(hay: Seq<char>, needle: Seq<char>) -> bool {
    exists|i: int| 0 <= i && i + needle.len() <= hay.len() && #[trigger] hay.subrange(i, i + needle.len()) == needle
}

/// Relies on str::contains: whether `needle` is a substring of `hay`.
#[verifier::external_body]
fn str_contains(hay: &str, needle: &str) -> (r: bool)
    ensures
        r == contains_sub(hay@, needle@),
{
    hay.contains(needle)
}


/// Whether process `p` satisfies `rule`.
pub open spec fn process_matches(rule: ProcessProfileRule, p: ProcessInfo) -> bool {
    &&& p.name@ == rule.name@
    &&& match rule.args {
        None => true,
        Some(a) => contains_sub(p.cmdline@, a@),
    }
}

/// Whether some process of the list satisfies `rule`.
pub open spec fn some_process_matches(rule: ProcessProfileRule, procs: Seq<(i32, ProcessInfo)>) -> bool {
    exists|i: int| 0 <= i < procs.len() && #[trigger] process_matches(rule, procs[i].1)
}

/// Whether some registered game of the list satisfies `rule`.
pub open spec fn some_game_matches(rule: ProcessProfileRule, procs: Seq<(i32, ProcessInfo)>, games: Seq<i32>) -> bool {
    exists|i: int| 0 <= i < procs.len() && games.contains(procs[i].0) && #[trigger] process_matches(rule, procs[i].1)
}

/// Whether `rule` selects its profile for this process list and these games.
pub open spec fn rule_matches(rule: ProfileRule, procs: Seq<(i32, ProcessInfo)>, games: Seq<i32>) -> bool {
    match rule {
        ProfileRule::Process(r) => some_process_matches(r, procs),
        ProfileRule::Gamemode(None) => games.len() > 0,
        ProfileRule::Gamemode(Some(r)) => games.len() > 0 && some_game_matches(r, procs, games),
    }
}

impl Default for ProcessProfileRule {
    /// A rule on the empty name, without an argument filter.
    fn default() -> (r: Self)
        ensures
            r.name@ == Seq::<char>::empty() && r.args is None,
    {
        ProcessProfileRule { name: String::new(), args: None }
    }
}

impl Default for ProfileRule {
    /// A process rule on the empty name.
    fn default() -> (r: Self)
        ensures
            r matches ProfileRule::Process(p) && p.name@ == Seq::<char>::empty() && p.args is None,
    {
        ProfileRule::Process(ProcessProfileRule::default())
    }
}

/// The name of the first profile from position `i` on whose rule matches.
pub open spec fn resolve_from(
    profiles: Seq<(String, Option<ProfileRule>)>,
    procs: Seq<(i32, ProcessInfo)>,
    games: Seq<i32>,
    i: int,
) -> Option<Seq<char>>
    decreases profiles.len() - i,
{
    if i < 0 || i >= profiles.len() {
        None
    } else if profiles[i].1 matches Some(rule) && rule_matches(rule, procs, games) {
        Some(profiles[i].0@)
    } else {
        resolve_from(profiles, procs, games, i + 1)
    }
}

/// The live process set, with its indices.
pub struct ProfileWatcherState {
    pub process_list: IndexMap<i32, ProcessInfo>,
    /// Ids of the listed processes that run as registered games.
    pub gamemode_games: IndexSet<i32>,
    /// For each executable name, the ids of the listed processes bearing it.
    pub process_names_map: Vec<(String, Vec<i32>)>,
}

impl ProfileWatcherState {
    pub open spec fn procs(&self) -> Seq<(i32, ProcessInfo)> {
        process_entries(self.process_list)
    }

    pub open spec fn games(&self) -> Seq<i32> {
        game_ids(self.gamemode_games)
    }

    /// Ids unique, and both indices agree with the process list.
    pub open spec fn wf(&self) -> bool {
        let procs = self.procs();
        let names = self.process_names_map@;
        &&& ids_unique(procs)
        &&& forall|g: i32| #[trigger] self.games().contains(g) ==> has_id(procs, g)
        &&& forall|k: int, l: int| 0 <= k < l < names.len() ==> names[k].0@ != names[l].0@
        &&& forall|k: int| 0 <= k < names.len() ==> names_entry_exact(procs, #[trigger] names[k])
        &&& forall|i: int| 0 <= i < procs.len() ==> name_listed(names, #[trigger] procs[i].1.name@)
    }
}

/// Whether some entry of the name index bears `n`.
pub open spec fn name_listed(names: Seq<(String, Vec<i32>)>, n: Seq<char>) -> bool {
    exists|k: int| 0 <= k < names.len() && #[trigger] names[k].0@ == n
}

/// Whether a process between positions `lo` and `hi` has id `id` and name `name`.
pub open spec fn named_in(procs: Seq<(i32, ProcessInfo)>, name: Seq<char>, id: i32, lo: int, hi: int) -> bool {
    exists|i: int| lo <= i < hi && procs[i].0 == id && procs[i].1.name@ == name
}

pub open spec fn ids_unique(procs: Seq<(i32, ProcessInfo)>) -> bool {
    forall|i: int, j: int| 0 <= i < j < procs.len() ==> procs[i].0 != procs[j].0
}

pub open spec fn has_id(procs: Seq<(i32, ProcessInfo)>, id: i32) -> bool {
    exists|i: int| 0 <= i < procs.len() && procs[i].0 == id
}

/// The ids of a name entry are exactly those of the processes with that name.
pub open spec fn names_entry_exact(procs: Seq<(i32, ProcessInfo)>, e: (String, Vec<i32>)) -> bool {
    forall|id: i32| #[trigger] e.1@.contains(id) <==> named_in(procs, e.0@, id, 0, procs.len() as int)
}

proof fn lemma_push_contains(s: Seq<i32>, x: i32)
    ensures
        forall|id: i32| #[trigger] s.push(x).contains(id) <==> (s.contains(id) || id == x),
{
    assert forall|id: i32| #[trigger] s.push(x).contains(id) <==> (s.contains(id) || id == x) by {
        if s.contains(id) {
            let t = choose|t: int| 0 <= t < s.len() && s[t] == id;
            assert(s.push(x)[t] == id);
        }
        if s.push(x).contains(id) {
            let t = choose|t: int| 0 <= t < s.len() + 1 && s.push(x)[t] == id;
            if t < s.len() {
                assert(s[t] == id);
            }
        }
        if id == x {
            assert(s.push(x)[s.len() as int] == id);
        }
    }
}

fn copy_process(p: &ProcessInfo) -> (r: ProcessInfo)
    ensures
        r == *p,
{
    ProcessInfo { name: p.name.clone(), cmdline: p.cmdline.clone() }
}

/// The ids of the processes from position `from` on that bear `name`, in order.
fn ids_named(procs: &Vec<(i32, ProcessInfo)>, name: &String, from: usize) -> (r: Vec<i32>)
    requires
        from <= procs@.len(),
    ensures
        forall|id: i32| #[trigger] r@.contains(id) <==> named_in(procs@, name@, id, from as int, procs@.len() as int),
{
    let mut r: Vec<i32> = Vec::new();
    let mut j: usize = from;
    while j < procs.len()
        invariant
            from <= j <= procs@.len(),
            forall|id: i32| #[trigger] r@.contains(id) <==> named_in(procs@, name@, id, from as int, j as int),
        decreases procs@.len() - j,
    {
        if procs[j].1.name == *name {
            proof {
                lemma_push_contains(r@, procs@[j as int].0);
            }
            r.push(procs[j].0);
        }
        proof {
            assert forall|id: i32| #[trigger] named_in(procs@, name@, id, from as int, j + 1)
                <==> (named_in(procs@, name@, id, from as int, j as int)
                    || (procs@[j as int].0 == id && procs@[j as int].1.name@ == name@)) by {
                if named_in(procs@, name@, id, from as int, j + 1) {
                    let i = choose|i: int| from <= i < j + 1 && procs@[i].0 == id && procs@[i].1.name@ == name@;
                    if i < j {
                        assert(from <= i < j && procs@[i].0 == id && procs@[i].1.name@ == name@);
                    }
                }
                if procs@[j as int].0 == id && procs@[j as int].1.name@ == name@ {
                    assert(from <= j < j + 1 && procs@[j as int].0 == id);
                }
            }
        }
        j = j + 1;
    }
    r
}


fn list_has_id(procs: &Vec<(i32, ProcessInfo)>, id: i32) -> (r: bool)
    ensures
        r == has_id(procs@, id),
{
    let mut j: usize = 0;
    while j < procs.len()
        invariant
            j <= procs@.len(),
            forall|i: int| 0 <= i < j ==> procs@[i].0 != id,
        decreases procs@.len() - j,
    {
        if procs[j].0 == id {
            return true;
        }
        j = j + 1;
    }
    false
}

fn names_have(names: &Vec<(String, Vec<i32>)>, name: &String) -> (r: bool)
    ensures
        r == name_listed(names@, name@),
{
    let mut k: usize = 0;
    while k < names.len()
        invariant
            k <= names@.len(),
            forall|t: int| 0 <= t < k ==> names@[t].0@ != name@,
        decreases names@.len() - k,
    {
        if names[k].0 == *name {
            return true;
        }
        k = k + 1;
    }
    false
}

impl ProfileWatcherState {
    /// A state with no processes and no games.
    pub fn new() -> (r: ProfileWatcherState)
        ensures
            r.wf(),
            r.procs().len() == 0,
            r.games().len() == 0,
    {
        ProfileWatcherState { process_list: process_list_new(), gamemode_games: game_set_new(), process_names_map: Vec::new() }
    }

    /// Replaces the process list with `processes` and rebuilds both indices:
    /// the games are the ids of `registered` that are listed.
    pub fn update(&mut self, processes: &Vec<(i32, ProcessInfo)>, registered: &Vec<i32>)
        requires
            ids_unique(processes@),
        ensures
            final(self).wf(),
            final(self).procs() == processes@,
            forall|g: i32| #[trigger] final(self).games().contains(g) <==> (registered@.contains(g) && has_id(processes@, g)),
    {
        let n = processes.len();
        let mut list = process_list_new();
        let mut j: usize = 0;
        while j < n
            invariant
                n == processes@.len(),
                j <= n,
                ids_unique(processes@),
                process_entries(list) == processes@.subrange(0, j as int),
            decreases n - j,
        {
            let p = copy_process(&processes[j].1);
            process_list_insert(&mut list, processes[j].0, p);
            assert(process_entries(list) =~= processes@.subrange(0, j + 1));
            j = j + 1;
        }
        assert(processes@.subrange(0, n as int) =~= processes@);

        let mut games = game_set_new();
        let mut j: usize = 0;
        while j < registered.len()
            invariant
                j <= registered@.len(),
                forall|g: i32| #[trigger] game_ids(games).contains(g) <==> (registered@.subrange(0, j as int).contains(g) && has_id(processes@, g)),
            decreases registered@.len() - j,
        {
            let g = registered[j];
            let ghost before = game_ids(games);
            proof {
                lemma_push_contains(registered@.subrange(0, j as int), g);
                assert(registered@.subrange(0, j + 1) =~= registered@.subrange(0, j as int).push(g));
            }
            if list_has_id(processes, g) {
                game_set_insert(&mut games, g);
                proof {
                    lemma_push_contains(before, g);
                }
            }
            j = j + 1;
        }
        assert(registered@.subrange(0, registered@.len() as int) =~= registered@);

        let mut names: Vec<(String, Vec<i32>)> = Vec::new();
        let mut j: usize = 0;
        while j < n
            invariant
                n == processes@.len(),
                j <= n,
                forall|k: int, l: int| 0 <= k < l < names@.len() ==> names@[k].0@ != names@[l].0@,
                forall|k: int| 0 <= k < names@.len() ==> names_entry_exact(processes@, #[trigger] names@[k]),
                forall|i: int| 0 <= i < j ==> name_listed(names@, #[trigger] processes@[i].1.name@),
            decreases n - j,
        {
            let name = &processes[j].1.name;
            if !names_have(&names, name) {
                let ids = ids_named(processes, name, 0);
                let ghost before = names@;
                names.push((name.clone(), ids));
                proof {
                    assert forall|i: int| 0 <= i < j + 1 implies name_listed(names@, #[trigger] processes@[i].1.name@) by {
                        if i < j {
                            let k = choose|k: int| 0 <= k < before.len() && #[trigger] before[k].0@ == processes@[i].1.name@;
                            assert(names@[k] == before[k]);
                        } else {
                            assert(names@[before.len() as int].0@ == processes@[i].1.name@);
                        }
                    }
                }
            }
            j = j + 1;
        }
        *self = ProfileWatcherState { process_list: list, gamemode_games: games, process_names_map: names };
    }
}


impl ProcessProfileRule {
    /// Whether process `p` bears the rule's name and, where the rule has an
    /// argument filter, its command line holds the filter.
    pub fn matches_process(&self, p: &ProcessInfo) -> (r: bool)
        ensures
            r == process_matches(*self, *p),
    {
        if !(p.name == self.name) {
            return false;
        }
        match &self.args {
            None => true,
            Some(a) => str_contains(p.cmdline.as_str(), a.as_str()),
        }
    }
}

fn any_process_matches(rule: &ProcessProfileRule, list: &IndexMap<i32, ProcessInfo>) -> (r: bool)
    ensures
        r == some_process_matches(*rule, process_entries(*list)),
{
    let n = process_list_len(list);
    let mut i: usize = 0;
    while i < n
        invariant
            n == process_entries(*list).len(),
            i <= n,
            forall|t: int| 0 <= t < i ==> !process_matches(*rule, #[trigger] process_entries(*list)[t].1),
        decreases n - i,
    {
        match process_list_get_index(list, i) {
            Some(e) => {
                if rule.matches_process(e.1) {
                    return true;
                }
            },
            None => {},
        }
        i = i + 1;
    }
    false
}

fn any_game_matches(rule: &ProcessProfileRule, list: &IndexMap<i32, ProcessInfo>, games: &IndexSet<i32>) -> (r: bool)
    ensures
        r == some_game_matches(*rule, process_entries(*list), game_ids(*games)),
{
    let n = process_list_len(list);
    let mut i: usize = 0;
    while i < n
        invariant
            n == process_entries(*list).len(),
            i <= n,
            forall|t: int| 0 <= t < i ==> !(game_ids(*games).contains(process_entries(*list)[t].0)
                && process_matches(*rule, #[trigger] process_entries(*list)[t].1)),
        decreases n - i,
    {
        match process_list_get_index(list, i) {
            Some(e) => {
                if game_set_contains(games, *e.0) && rule.matches_process(e.1) {
                    return true;
                }
            },
            None => {},
        }
        i = i + 1;
    }
    false
}

/// The position of `name` in the name index, if it is there.
fn find_name(names: &Vec<(String, Vec<i32>)>, name: &String) -> (r: Option<usize>)
    ensures
        r matches Some(k) ==> k < names@.len() && names@[k as int].0@ == name@,
        r is None ==> !name_listed(names@, name@),
{
    let mut k: usize = 0;
    while k < names.len()
        invariant
            k <= names@.len(),
            forall|t: int| 0 <= t < k ==> names@[t].0@ != name@,
        decreases names@.len() - k,
    {
        if names[k].0 == *name {
            return Some(k);
        }
        k = k + 1;
    }
    None
}

/// Whether a process bearing `name` runs, looked up in the name index.
fn name_runs(state: &ProfileWatcherState, name: &String) -> (r: bool)
    requires
        state.wf(),
    ensures
        r == (exists|i: int| 0 <= i < state.procs().len() && #[trigger] state.procs()[i].1.name@ == name@),
{
    let ghost procs = state.procs();
    let ghost names = state.process_names_map@;
    match find_name(&state.process_names_map, name) {
        None => {
            assert forall|i: int| 0 <= i < procs.len() implies #[trigger] procs[i].1.name@ != name@ by {
                assert(name_listed(names, procs[i].1.name@));
            }
            false
        },
        Some(k) => {
            let found = state.process_names_map[k].1.len() > 0;
            proof {
                assert(names_entry_exact(procs, names[k as int]));
                if found {
                    let id = names[k as int].1@[0];
                    assert(names[k as int].1@.contains(id));
                    let i = choose|i: int| 0 <= i < procs.len() && procs[i].0 == id && procs[i].1.name@ == names[k as int].0@;
                    assert(procs[i].1.name@ == name@);
                } else {
                    assert forall|i: int| 0 <= i < procs.len() implies #[trigger] procs[i].1.name@ != name@ by {
                        if procs[i].1.name@ == name@ {
                            assert(name_listed(names, procs[i].1.name@));
                            let l = choose|l: int| 0 <= l < names.len() && #[trigger] names[l].0@ == procs[i].1.name@;
                            assert(l == k as int);
                            assert(named_in(procs, names[k as int].0@, procs[i].0, 0, procs.len() as int));
                            assert(names[k as int].1@.contains(procs[i].0));
                        }
                    }
                }
            }
            found
        },
    }
}

impl ProfileRule {
    /// Whether the rule selects its profile in `state`. A rule on a name
    /// alone is answered from the name index.
    pub fn matches(&self, state: &ProfileWatcherState) -> (r: bool)
        requires
            state.wf(),
        ensures
            r == rule_matches(*self, state.procs(), state.games()),
    {
        match self {
            ProfileRule::Process(rule) => match &rule.args {
                None => {
                    let r = name_runs(state, &rule.name);
                    proof {
                        if r {
                            let i = choose|i: int| 0 <= i < state.procs().len() && #[trigger] state.procs()[i].1.name@ == rule.name@;
                            assert(process_matches(*rule, state.procs()[i].1));
                        }
                    }
                    r
                },
                Some(_) => any_process_matches(rule, &state.process_list),
            },
            ProfileRule::Gamemode(filter) => {
                if game_set_len(&state.gamemode_games) == 0 {
                    return false;
                }
                match filter {
                    None => true,
                    Some(rule) => any_game_matches(rule, &state.process_list, &state.gamemode_games),
                }
            },
        }
    }
}

/// The profile that should be active: the first, in the map's order, whose
/// rule matches `state`; none where no rule matches.
pub fn resolve(profiles: &IndexMap<String, Option<ProfileRule>>, state: &ProfileWatcherState) -> (r: Option<String>)
    requires
        state.wf(),
    ensures
        r is None <==> resolve_from(profile_entries(*profiles), state.procs(), state.games(), 0) is None,
        r matches Some(name) ==> resolve_from(profile_entries(*profiles), state.procs(), state.games(), 0) == Some(name@),
{
    let n = profiles_len(profiles);
    let ghost ps = profile_entries(*profiles);
    let mut i: usize = 0;
    while i < n
        invariant
            n == ps.len(),
            ps == profile_entries(*profiles),
            state.wf(),
            i <= n,
            resolve_from(ps, state.procs(), state.games(), 0) == resolve_from(ps, state.procs(), state.games(), i as int),
        decreases n - i,
    {
        match profiles_get_index(profiles, i) {
            Some(e) => {
                match e.1 {
                    Some(rule) => {
                        if rule.matches(state) {
                            return Some(e.0.clone());
                        }
                    },
                    None => {},
                }
            },
            None => {},
        }
        i = i + 1;
    }
    None
}

/// Resolving is a function of the profiles and of the process list and the
/// games alone: resolving the same profiles twice against watcher states
/// that hold the same processes and games gives the same profile.
pub proof fn lemma_resolve_idempotent(
    profiles: IndexMap<String, Option<ProfileRule>>,
    first: ProfileWatcherState,
    second: ProfileWatcherState,
)
    requires
        first.procs() == second.procs(),
        first.games() == second.games(),
    ensures
        resolve_from(profile_entries(profiles), first.procs(), first.games(), 0)
            == resolve_from(profile_entries(profiles), second.procs(), second.games(), 0),
{
}


/// Whether two optional strings hold the same text.
pub open spec fn same_text(a: Option<String>, b: Option<String>) -> bool {
    match (a, b) {
        (None, None) => true,
        (Some(x), Some(y)) => x@ == y@,
        _ => false,
    }
}

/// Whether two process rules say the same.
pub open spec fn same_process_rule(a: ProcessProfileRule, b: ProcessProfileRule) -> bool {
    a.name@ == b.name@ && same_text(a.args, b.args)
}

/// Whether two optional rules say the same.
pub open spec fn same_rule(a: Option<ProfileRule>, b: Option<ProfileRule>) -> bool {
    match (a, b) {
        (None, None) => true,
        (Some(ProfileRule::Process(x)), Some(ProfileRule::Process(y))) => same_process_rule(x, y),
        (Some(ProfileRule::Gamemode(None)), Some(ProfileRule::Gamemode(None))) => true,
        (Some(ProfileRule::Gamemode(Some(x))), Some(ProfileRule::Gamemode(Some(y)))) => same_process_rule(x, y),
        _ => false,
    }
}

/// Whether two profiles have the same name and rule.
pub open spec fn same_entry(x: (String, Option<ProfileRule>), y: (String, Option<ProfileRule>)) -> bool {
    x.0@ == y.0@ && same_rule(x.1, y.1)
}

/// Whether two profile lists hold the same names and rules in the same order.
pub open spec fn same_profiles(a: Seq<(String, Option<ProfileRule>)>, b: Seq<(String, Option<ProfileRule>)>) -> bool {
    &&& a.len() == b.len()
    &&& forall|i: int| 0 <= i < a.len() ==> #[trigger] same_entry(a[i], b[i])
}

fn text_eq(a: &Option<String>, b: &Option<String>) -> (r: bool)
    ensures
        r == same_text(*a, *b),
{
    match (a, b) {
        (None, None) => true,
        (Some(x), Some(y)) => *x == *y,
        _ => false,
    }
}

fn process_rule_eq(a: &ProcessProfileRule, b: &ProcessProfileRule) -> (r: bool)
    ensures
        r == same_process_rule(*a, *b),
{
    a.name == b.name && text_eq(&a.args, &b.args)
}

fn rule_eq(a: &Option<ProfileRule>, b: &Option<ProfileRule>) -> (r: bool)
    ensures
        r == same_rule(*a, *b),
{
    match (a, b) {
        (None, None) => true,
        (Some(ProfileRule::Process(x)), Some(ProfileRule::Process(y))) => process_rule_eq(x, y),
        (Some(ProfileRule::Gamemode(None)), Some(ProfileRule::Gamemode(None))) => true,
        (Some(ProfileRule::Gamemode(Some(x))), Some(ProfileRule::Gamemode(Some(y)))) => process_rule_eq(x, y),
        _ => false,
    }
}

/// The configured profiles, the active one, and the live process state.
pub struct ProfilesInfo {
    pub profiles: IndexMap<String, Option<ProfileRule>>,
    pub current_profile: Option<String>,
    pub auto_switch: bool,
    pub watcher_state: Option<ProfileWatcherState>,
}

impl ProfilesInfo {
    /// Equal as configuration: the watcher state is left out.
    pub open spec fn same_config(&self, o: &ProfilesInfo) -> bool {
        &&& same_profiles(profile_entries(self.profiles), profile_entries(o.profiles))
        &&& same_text(self.current_profile, o.current_profile)
        &&& self.auto_switch == o.auto_switch
    }
}

impl ProfilesInfo {
    /// The profile to apply after a tick that resolved to `resolved`: none
    /// while automatic switching is off or the resolution names the profile
    /// already active, so that unchanged ticks write nothing.
    pub fn switch_target(&self, resolved: &Option<String>) -> (r: Option<Option<String>>)
        ensures
            r is Some <==> self.auto_switch && !same_text(*resolved, self.current_profile),
            r matches Some(t) ==> same_text(t, *resolved),
    {
        if !self.auto_switch || text_eq(resolved, &self.current_profile) {
            None
        } else {
            Some(copy_text(resolved))
        }
    }
}

fn copy_text(s: &Option<String>) -> (r: Option<String>)
    ensures
        same_text(r, *s),
{
    match s {
        Some(x) => Some(x.clone()),
        None => None,
    }
}

impl PartialEq for ProfilesInfo {
    fn eq(&self, o: &ProfilesInfo) -> (r: bool)
        ensures
            r == self.same_config(o),
    {
        if self.auto_switch != o.auto_switch || !text_eq(&self.current_profile, &o.current_profile) {
            return false;
        }
        let n = profiles_len(&self.profiles);
        if n != profiles_len(&o.profiles) {
            return false;
        }
        let ghost a = profile_entries(self.profiles);
        let ghost b = profile_entries(o.profiles);
        let mut i: usize = 0;
        while i < n
            invariant
                n == a.len() && n == b.len(),
                a == profile_entries(self.profiles) && b == profile_entries(o.profiles),
                i <= n,
                forall|t: int| 0 <= t < i ==> #[trigger] same_entry(a[t], b[t]),
            decreases n - i,
        {
            match (profiles_get_index(&self.profiles, i), profiles_get_index(&o.profiles, i)) {
                (Some(x), Some(y)) => {
                    if !(*x.0 == *y.0) || !rule_eq(x.1, y.1) {
                        assert(!same_entry(a[i as int], b[i as int]));
                        return false;
                    }
                    assert(same_entry(a[i as int], b[i as int]));
                },
                _ => {
                    assert(false);
                },
            }
            i = i + 1;
        }
        true
    }
}

impl vstd::std_specs::cmp::PartialEqSpecImpl for ProfilesInfo {
    open spec fn obeys_eq_spec() -> bool {
        true
    }

    open spec fn eq_spec(&self, o: &ProfilesInfo) -> bool {
        self.same_config(o)
    }
}

} // verus!
