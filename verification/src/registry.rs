use crate::connector::ConnectorStatus;
use vstd::prelude::*;

verus! {

/// Where `name` stands in `names`, if it is there.
pub open spec fn position(names: Seq<Seq<char>>, name: Seq<char>) -> Option<int> {
    if names.contains(name) {
        Some(names.index_of(name))
    } else {
        None
    }
}

/// The connector registered under `name`, given the names and the connectors
/// side by side.
pub open spec fn lookup_in<C>(names: Seq<Seq<char>>, connectors: Seq<C>, name: Seq<char>) -> Option<
    C,
> {
    match position(names, name) {
        Some(i) => Some(connectors[i]),
        None => None,
    }
}

/// `names` with `name` added at the end unless it is already there.
pub open spec fn with_name(names: Seq<Seq<char>>, name: Seq<char>) -> Seq<Seq<char>> {
    if names.contains(name) {
        names
    } else {
        names.push(name)
    }
}

/// The connectors after `c` is registered under `name`: it replaces the one
/// of that name, or is appended.
pub open spec fn connectors_with<C>(
    names: Seq<Seq<char>>,
    connectors: Seq<C>,
    name: Seq<char>,
    c: C,
) -> Seq<C> {
    match position(names, name) {
        Some(i) => connectors.update(i, c),
        None => connectors.push(c),
    }
}

/// The entries to resume, in the order of the auto-suspended names: the
/// position of each such name that is still registered.
pub open spec fn resume_plan(names: Seq<Seq<char>>, suspended: Seq<Seq<char>>) -> Seq<int>
    decreases suspended.len(),
{
    if suspended.len() == 0 {
        Seq::empty()
    } else {
        let rest = resume_plan(names, suspended.drop_last());
        match position(names, suspended.last()) {
            Some(i) => rest.push(i),
            None => rest,
        }
    }
}

/// The auto-suspended names after the entries `marked` were suspended one
/// after the other, starting from `suspended`.
pub open spec fn mark_all(
    names: Seq<Seq<char>>,
    suspended: Seq<Seq<char>>,
    marked: Seq<int>,
) -> Seq<Seq<char>>
    decreases marked.len(),
{
    if marked.len() == 0 {
        suspended
    } else {
        with_name(mark_all(names, suspended, marked.drop_last()), names[marked.last()])
    }
}

/// What `toggle` does to a connector, chosen by its status.
#[derive(Clone, Copy, Debug, PartialEq, Eq, Structural)]
pub enum ToggleAction {
    Stop,
    Start,
}

/// A running connector is stopped; any other (stopped, suspended, failed) is
/// started.
pub fn toggle_action(status: &ConnectorStatus) -> (action: ToggleAction)
    ensures
        action == (if *status is Running {
            ToggleAction::Stop
        } else {
            ToggleAction::Start
        }),
{
    match status {
        ConnectorStatus::Running => ToggleAction::Stop,
        _ => ToggleAction::Start,
    }
}

/// `suspend_all` suspends exactly the running connectors.
pub fn should_suspend(status: &ConnectorStatus) -> (suspend: bool)
    ensures
        suspend == (*status is Running),
{
    match status {
        ConnectorStatus::Running => true,
        _ => false,
    }
}

/// `stop_all` stops every connector that is not already stopped.
pub fn needs_stop(status: &ConnectorStatus) -> (stop: bool)
    ensures
        stop == !(*status is Stopped),
{
    match status {
        ConnectorStatus::Stopped => false,
        _ => true,
    }
}

/// A refused registry request.
#[derive(Clone, Debug)]
pub enum RegistryError {
    /// No connector is registered under this name.
    NotFound(String),
}

impl RegistryError {
    pub open spec fn text(&self) -> Seq<char> {
        match self {
            RegistryError::NotFound(name) => "connector not found: "@ + name@,
        }
    }

    pub fn message(&self) -> (text: String)
        ensures
            text@ == self.text(),
    {
        match self {
            RegistryError::NotFound(name) => {
                let mut text = "connector not found: ".to_owned();
                text.append(name.as_str());
                text
            },
        }
    }
}

/// Named connectors, each name once, in the order they were first
/// registered, and the names of those that `suspend_all` put to sleep and
/// `resume_all` is to wake again.
pub struct ConnectorRegistry<C> {
    names: Vec<String>,
    connectors: Vec<C>,
    auto_suspended: Vec<String>,
}

impl<C> ConnectorRegistry<C> {
    /// The registered names, in registry order.
    pub closed spec fn name_seq(&self) -> Seq<Seq<char>> {
        self.names@.map_values(|s: String| s@)
    }

    /// The connectors, side by side with `name_seq`.
    pub closed spec fn connector_seq(&self) -> Seq<C> {
        self.connectors@
    }

    /// The names that `suspend_all` suspended and no `resume_all` has handled.
    pub closed spec fn suspended_seq(&self) -> Seq<Seq<char>> {
        self.auto_suspended@.map_values(|s: String| s@)
    }

    /// The registry's invariant: one connector per name, no name twice, no
    /// auto-suspended name twice.
    pub open spec fn wf(&self) -> bool {
        &&& self.name_seq().len() == self.connector_seq().len()
        &&& self.name_seq().no_duplicates()
        &&& self.suspended_seq().no_duplicates()
    }

    pub open spec fn lookup(&self, name: Seq<char>) -> Option<C> {
        lookup_in(self.name_seq(), self.connector_seq(), name)
    }

    pub fn new() -> (reg: Self)
        ensures
            reg.wf(),
            reg.name_seq() == Seq::<Seq<char>>::empty(),
            reg.connector_seq() == Seq::<C>::empty(),
            reg.suspended_seq() == Seq::<Seq<char>>::empty(),
    {
        let reg = ConnectorRegistry { names: Vec::new(), connectors: Vec::new(), auto_suspended: Vec::new() };
        assert(reg.name_seq() =~= Seq::<Seq<char>>::empty());
        assert(reg.suspended_seq() =~= Seq::<Seq<char>>::empty());
        reg
    }

    pub fn len(&self) -> (n: usize)
        requires
            self.wf(),
        ensures
            n == self.name_seq().len(),
    {
        self.names.len()
    }

    pub fn name_at(&self, i: usize) -> (name: &String)
        requires
            self.wf(),
            i < self.name_seq().len(),
        ensures
            name@ == self.name_seq()[i as int],
    {
        &self.names[i]
    }

    pub fn connector_at(&self, i: usize) -> (c: &C)
        requires
            self.wf(),
            i < self.name_seq().len(),
        ensures
            *c == self.connector_seq()[i as int],
    {
        &self.connectors[i]
    }

    /// The index of the connector registered under `name`.
    pub fn position_of(&self, name: &str) -> (found: Option<usize>)
        requires
            self.wf(),
        ensures
            match found {
                Some(i) => position(self.name_seq(), name@) == Some(i as int),
                None => position(self.name_seq(), name@) is None,
            },
    {
        let target = name.to_owned();
        let mut i: usize = 0;
        while i < self.names.len()
            invariant
                self.wf(),
                i <= self.names@.len(),
                target@ == name@,
                forall|k: int| 0 <= k < i ==> self.name_seq()[k] != name@,
            decreases self.names@.len() - i,
        {
            if self.names[i] == target {
                proof {
                    let names = self.name_seq();
                    assert(names[i as int] == name@);
                    assert(names.contains(name@));
                    let j = names.index_of(name@);
                    assert(names[j] == name@);
                }
                return Some(i);
            }
            i = i + 1;
        }
        proof {
            let names = self.name_seq();
            if names.contains(name@) {
                let j = choose|j: int| 0 <= j < names.len() && names[j] == name@;
                assert(names[j] == name@);
            }
        }
        None
    }

    /// The connector registered under `name`.
    pub fn get_dyn(&self, name: &str) -> (found: Option<&C>)
        requires
            self.wf(),
        ensures
            match found {
                Some(c) => self.lookup(name@) == Some(*c),
                None => self.lookup(name@) is None,
            },
    {
        match self.position_of(name) {
            Some(i) => Some(&self.connectors[i]),
            None => None,
        }
    }

    /// The connector that `toggle` acts on, or `NotFound` with the name.
    pub fn toggle_target(&self, name: &str) -> (found: Result<&C, RegistryError>)
        requires
            self.wf(),
        ensures
            match found {
                Ok(c) => self.lookup(name@) == Some(*c),
                Err(RegistryError::NotFound(n)) => self.lookup(name@) is None && n@ == name@,
            },
    {
        match self.get_dyn(name) {
            Some(c) => Ok(c),
            None => Err(RegistryError::NotFound(name.to_owned())),
        }
    }

    /// Completes a registration once the connector's start has been tried:
    /// when it started, the connector is filed under `name` (replacing any
    /// connector of that name); when it failed, nothing changes. The outcome
    /// of the start is handed back.
    pub fn register<E>(&mut self, name: String, connector: C, started: Result<(), E>) -> (outcome:
        Result<(), E>)
        requires
            old(self).wf(),
        ensures
            final(self).wf(),
            outcome == started,
            final(self).suspended_seq() == old(self).suspended_seq(),
            started is Ok ==> {
                &&& final(self).name_seq() == with_name(old(self).name_seq(), name@)
                &&& final(self).connector_seq() == connectors_with(
                    old(self).name_seq(),
                    old(self).connector_seq(),
                    name@,
                    connector,
                )
            },
            started is Err ==> {
                &&& final(self).name_seq() == old(self).name_seq()
                &&& final(self).connector_seq() == old(self).connector_seq()
            },
    {
        if started.is_ok() {
            let ghost old_names = self.name_seq();
            match self.position_of(name.as_str()) {
                Some(i) => {
                    self.connectors.set(i, connector);
                    assert(self.name_seq() == old_names);
                },
                None => {
                    self.names.push(name);
                    self.connectors.push(connector);
                    assert(self.name_seq() =~= old_names.push(name@));
                    assert(!old_names.contains(name@));
                    assert forall|a: int, b: int|
                        0 <= a < self.name_seq().len() && 0 <= b < self.name_seq().len() && a
                            != b implies self.name_seq()[a] != self.name_seq()[b] by {
                        if a == old_names.len() {
                            assert(self.name_seq()[b] == old_names[b]);
                        } else if b == old_names.len() {
                            assert(self.name_seq()[a] == old_names[a]);
                        }
                    }
                },
            }
        }
        started
    }

    /// Takes the connector registered under `name` out of the registry and
    /// hands it back; `None` when there is none. The auto-suspended names are
    /// left as they are.
    pub fn deregister(&mut self, name: &str) -> (removed: Option<C>)
        requires
            old(self).wf(),
        ensures
            final(self).wf(),
            final(self).suspended_seq() == old(self).suspended_seq(),
            match position(old(self).name_seq(), name@) {
                Some(i) => {
                    &&& removed == Some(old(self).connector_seq()[i])
                    &&& final(self).name_seq() == old(self).name_seq().remove(i)
                    &&& final(self).connector_seq() == old(self).connector_seq().remove(i)
                },
                None => {
                    &&& removed is None
                    &&& final(self).name_seq() == old(self).name_seq()
                    &&& final(self).connector_seq() == old(self).connector_seq()
                },
            },
    {
        let ghost old_names = self.name_seq();
        match self.position_of(name) {
            Some(i) => {
                self.names.remove(i);
                let c = self.connectors.remove(i);
                assert(self.name_seq() =~= old_names.remove(i as int));
                assert forall|a: int, b: int|
                    0 <= a < self.name_seq().len() && 0 <= b < self.name_seq().len() && a
                        != b implies self.name_seq()[a] != self.name_seq()[b] by {
                    let oa = if a < i { a } else { a + 1 };
                    let ob = if b < i { b } else { b + 1 };
                    assert(self.name_seq()[a] == old_names[oa]);
                    assert(self.name_seq()[b] == old_names[ob]);
                }
                Some(c)
            },
            None => None,
        }
    }

    /// The registered names, in registry order.
    pub fn names(&self) -> (all: Vec<String>)
        requires
            self.wf(),
        ensures
            all@.map_values(|s: String| s@) == self.name_seq(),
    {
        let mut all: Vec<String> = Vec::new();
        let mut i: usize = 0;
        while i < self.names.len()
            invariant
                i <= self.names@.len(),
                all@.map_values(|s: String| s@) == self.name_seq().take(i as int),
            decreases self.names@.len() - i,
        {
            all.push(self.names[i].clone());
            assert(self.name_seq().take(i + 1) =~= self.name_seq().take(i as int).push(
                self.names@[i as int]@,
            ));
            assert(all@.map_values(|s: String| s@) =~= self.name_seq().take(i + 1));
            i = i + 1;
        }
        assert(self.name_seq().take(i as int) =~= self.name_seq());
        all
    }

    /// Each registered name with the status its connector reported, given in
    /// registry order.
    pub fn list(&self, statuses: Vec<ConnectorStatus>) -> (listed: Vec<(String, ConnectorStatus)>)
        requires
            self.wf(),
            statuses@.len() == self.name_seq().len(),
        ensures
            listed@.len() == self.name_seq().len(),
            forall|k: int|
                0 <= k < listed@.len() ==> {
                    &&& (#[trigger] listed@[k]).0@ == self.name_seq()[k]
                    &&& listed@[k].1 == statuses@[k]
                },
    {
        let mut listed: Vec<(String, ConnectorStatus)> = Vec::new();
        let mut rest = statuses;
        // Walk the statuses from the back so that each can be moved out.
        let ghost given = rest@;
        let mut back: Vec<(String, ConnectorStatus)> = Vec::new();
        while rest.len() > 0
            invariant
                self.wf(),
                given.len() == self.name_seq().len(),
                rest@ == given.take(rest@.len() as int),
                back@.len() == given.len() - rest@.len(),
                forall|k: int|
                    0 <= k < back@.len() ==> {
                        &&& (#[trigger] back@[k]).0@ == self.name_seq()[given.len() - 1 - k]
                        &&& back@[k].1 == given[given.len() - 1 - k]
                    },
            decreases rest@.len(),
        {
            let n = rest.len() - 1;
            let status = rest.pop().unwrap();
            back.push((self.names[n].clone(), status));
            assert(rest@ =~= given.take(rest@.len() as int));
        }
        while back.len() > 0
            invariant
                self.wf(),
                given.len() == self.name_seq().len(),
                listed@.len() + back@.len() == given.len(),
                forall|k: int|
                    0 <= k < back@.len() ==> {
                        &&& (#[trigger] back@[k]).0@ == self.name_seq()[given.len() - 1 - k]
                        &&& back@[k].1 == given[given.len() - 1 - k]
                    },
                forall|k: int|
                    0 <= k < listed@.len() ==> {
                        &&& (#[trigger] listed@[k]).0@ == self.name_seq()[k]
                        &&& listed@[k].1 == given[k]
                    },
            decreases back@.len(),
        {
            let entry = back.pop().unwrap();
            listed.push(entry);
        }
        listed
    }

    /// Completes one step of `suspend_all` once the connector at `index` has
    /// been asked to suspend: when it did, its name is recorded so that
    /// `resume_all` wakes it again; when it failed, nothing is recorded. The
    /// outcome is handed back.
    pub fn record_suspend<E>(&mut self, index: usize, suspended: Result<(), E>) -> (outcome: Result<
        (),
        E,
    >)
        requires
            old(self).wf(),
            index < old(self).name_seq().len(),
        ensures
            final(self).wf(),
            outcome == suspended,
            final(self).name_seq() == old(self).name_seq(),
            final(self).connector_seq() == old(self).connector_seq(),
            suspended is Ok ==> final(self).suspended_seq() == with_name(
                old(self).suspended_seq(),
                old(self).name_seq()[index as int],
            ),
            suspended is Err ==> final(self).suspended_seq() == old(self).suspended_seq(),
    {
        if suspended.is_ok() {
            self.note_suspended(index);
        }
        suspended
    }

    fn note_suspended(&mut self, index: usize)
        requires
            old(self).wf(),
            index < old(self).name_seq().len(),
        ensures
            final(self).wf(),
            final(self).name_seq() == old(self).name_seq(),
            final(self).connector_seq() == old(self).connector_seq(),
            final(self).suspended_seq() == with_name(
                old(self).suspended_seq(),
                old(self).name_seq()[index as int],
            ),
    {
        let ghost old_susp = self.suspended_seq();
        let name = self.names[index].clone();
        let mut i: usize = 0;
        while i < self.auto_suspended.len()
            invariant
                self.wf(),
                self.suspended_seq() == old_susp,
                i <= self.auto_suspended@.len(),
                name@ == self.name_seq()[index as int],
                forall|k: int| 0 <= k < i ==> old_susp[k] != name@,
            decreases self.auto_suspended@.len() - i,
        {
            if self.auto_suspended[i] == name {
                assert(old_susp[i as int] == name@);
                assert(old_susp.contains(name@));
                return;
            }
            i = i + 1;
        }
        self.auto_suspended.push(name);
        assert(self.suspended_seq() =~= old_susp.push(name@));
        assert(!old_susp.contains(name@));
        assert forall|a: int, b: int|
            0 <= a < self.suspended_seq().len() && 0 <= b < self.suspended_seq().len() && a
                != b implies self.suspended_seq()[a] != self.suspended_seq()[b] by {
            if a == old_susp.len() {
                assert(self.suspended_seq()[b] == old_susp[b]);
            } else if b == old_susp.len() {
                assert(self.suspended_seq()[a] == old_susp[a]);
            }
        }
    }

    /// The entries that `resume_all` resumes: for each auto-suspended name,
    /// in order, its index if it is still registered.
    pub fn resume_targets(&self) -> (targets: Vec<usize>)
        requires
            self.wf(),
        ensures
            targets@.len() == resume_plan(self.name_seq(), self.suspended_seq()).len(),
            forall|k: int|
                0 <= k < targets@.len() ==> #[trigger] targets@[k] as int == resume_plan(
                    self.name_seq(),
                    self.suspended_seq(),
                )[k],
    {
        let mut targets: Vec<usize> = Vec::new();
        let mut i: usize = 0;
        while i < self.auto_suspended.len()
            invariant
                self.wf(),
                i <= self.auto_suspended@.len(),
                targets@.len() == resume_plan(self.name_seq(), self.suspended_seq().take(i as int)).len(),
                forall|k: int|
                    0 <= k < targets@.len() ==> #[trigger] targets@[k] as int == resume_plan(
                        self.name_seq(),
                        self.suspended_seq().take(i as int),
                    )[k],
            decreases self.auto_suspended@.len() - i,
        {
            let ghost prefix = self.suspended_seq().take(i + 1);
            assert(prefix.drop_last() =~= self.suspended_seq().take(i as int));
            assert(prefix.last() == self.auto_suspended@[i as int]@);
            match self.position_of(self.auto_suspended[i].as_str()) {
                Some(j) => {
                    targets.push(j);
                },
                None => {},
            }
            i = i + 1;
        }
        assert(self.suspended_seq().take(i as int) =~= self.suspended_seq());
        targets
    }

    /// Forgets every auto-suspended name: what `resume_all` does once it has
    /// tried to resume them.
    pub fn clear_auto_suspended(&mut self)
        requires
            old(self).wf(),
        ensures
            final(self).wf(),
            final(self).name_seq() == old(self).name_seq(),
            final(self).connector_seq() == old(self).connector_seq(),
            final(self).suspended_seq() == Seq::<Seq<char>>::empty(),
    {
        self.auto_suspended.clear();
        assert(self.suspended_seq() =~= Seq::<Seq<char>>::empty());
    }
}


/// In a list without duplicates, the entry at `j` is found at `j`.
pub proof fn position_of_entry(names: Seq<Seq<char>>, j: int)
    requires
        names.no_duplicates(),
        0 <= j < names.len(),
    ensures
        position(names, names[j]) == Some(j),
{
    assert(names.contains(names[j]));
    let k = names.index_of(names[j]);
    assert(names[k] == names[j]);
}

/// After a successful registration the name is found with the new connector,
/// every other name keeps its connector, and no name occurs twice.
pub proof fn register_then_lookup<C>(
    names: Seq<Seq<char>>,
    connectors: Seq<C>,
    name: Seq<char>,
    c: C,
    other: Seq<char>,
)
    requires
        names.len() == connectors.len(),
        names.no_duplicates(),
    ensures
        with_name(names, name).no_duplicates(),
        with_name(names, name).len() == connectors_with(names, connectors, name, c).len(),
        lookup_in(with_name(names, name), connectors_with(names, connectors, name, c), name) == Some(
            c,
        ),
        other != name ==> lookup_in(
            with_name(names, name),
            connectors_with(names, connectors, name, c),
            other,
        ) == lookup_in(names, connectors, other),
{
    let after = with_name(names, name);
    if names.contains(name) {
        let i = names.index_of(name);
        if names.contains(other) && other != name {
            let j = names.index_of(other);
            assert(names[j] == other);
        }
    } else {
        assert forall|a: int, b: int|
            0 <= a < after.len() && 0 <= b < after.len() && a != b implies after[a] != after[b] by {
            if a == names.len() {
                assert(after[b] == names[b]);
            } else if b == names.len() {
                assert(after[a] == names[a]);
            }
        }
        position_of_entry(after, names.len() as int);
        if other != name {
            if names.contains(other) {
                let j = names.index_of(other);
                assert(after[j] == other);
                position_of_entry(after, j);
                position_of_entry(names, j);
            } else {
                if after.contains(other) {
                    let j = choose|j: int| 0 <= j < after.len() && after[j] == other;
                    if j < names.len() {
                        assert(names[j] == other);
                    }
                }
            }
        }
    }
}

/// After the connector under `name` is taken out, the name is no longer
/// found and every other name keeps its connector.
pub proof fn deregister_then_lookup<C>(
    names: Seq<Seq<char>>,
    connectors: Seq<C>,
    name: Seq<char>,
    other: Seq<char>,
)
    requires
        names.len() == connectors.len(),
        names.no_duplicates(),
        position(names, name) is Some,
    ensures
        ({
            let i = position(names, name)->0;
            &&& lookup_in(names.remove(i), connectors.remove(i), name) is None
            &&& other != name ==> lookup_in(names.remove(i), connectors.remove(i), other)
                == lookup_in(names, connectors, other)
        }),
{
    let i = position(names, name)->0;
    let after = names.remove(i);
    assert(names[i] == name);
    assert forall|a: int, b: int|
        0 <= a < after.len() && 0 <= b < after.len() && a != b implies after[a] != after[b] by {
        let oa = if a < i { a } else { a + 1 };
        let ob = if b < i { b } else { b + 1 };
        assert(after[a] == names[oa]);
        assert(after[b] == names[ob]);
    }
    if after.contains(name) {
        let j = choose|j: int| 0 <= j < after.len() && after[j] == name;
        let oj = if j < i { j } else { j + 1 };
        assert(after[j] == names[oj]);
    }
    if other != name {
        if names.contains(other) {
            let j = names.index_of(other);
            assert(names[j] == other);
            position_of_entry(names, j);
            let aj = if j < i { j } else { j - 1 };
            assert(after[aj] == other);
            position_of_entry(after, aj);
        } else if after.contains(other) {
            let j = choose|j: int| 0 <= j < after.len() && after[j] == other;
            let oj = if j < i { j } else { j + 1 };
            assert(after[j] == names[oj]);
        }
    }
}

/// Registering a new name and then taking it out again gives back the
/// registry as it was.
pub proof fn deregister_undoes_register<C>(
    names: Seq<Seq<char>>,
    connectors: Seq<C>,
    name: Seq<char>,
    c: C,
)
    requires
        names.len() == connectors.len(),
        names.no_duplicates(),
        !names.contains(name),
    ensures
        position(with_name(names, name), name) == Some(names.len() as int),
        with_name(names, name).remove(names.len() as int) == names,
        connectors_with(names, connectors, name, c).remove(names.len() as int) == connectors,
{
    register_then_lookup(names, connectors, name, c, name);
    position_of_entry(with_name(names, name), names.len() as int);
    assert(with_name(names, name).remove(names.len() as int) =~= names);
    assert(connectors_with(names, connectors, name, c).remove(names.len() as int) =~= connectors);
}

/// `resume_all` only resumes registered connectors whose name
/// `suspend_all` recorded: a connector stopped by hand is left alone.
pub proof fn resume_only_auto_suspended(names: Seq<Seq<char>>, suspended: Seq<Seq<char>>)
    ensures
        forall|k: int|
            0 <= k < resume_plan(names, suspended).len() ==> {
                &&& 0 <= #[trigger] resume_plan(names, suspended)[k] < names.len()
                &&& suspended.contains(names[resume_plan(names, suspended)[k]])
            },
    decreases suspended.len(),
{
    if suspended.len() > 0 {
        let rest = suspended.drop_last();
        resume_only_auto_suspended(names, rest);
        let plan = resume_plan(names, suspended);
        assert forall|k: int| 0 <= k < plan.len() implies {
            &&& 0 <= #[trigger] plan[k] < names.len()
            &&& suspended.contains(names[plan[k]])
        } by {
            let prev = resume_plan(names, rest);
            if k < prev.len() {
                assert(plan[k] == prev[k]);
                let m = choose|m: int| 0 <= m < rest.len() && rest[m] == names[prev[k]];
                assert(suspended[m] == rest[m]);
            } else {
                let last = suspended.last();
                assert(names.contains(last));
                let i = names.index_of(last);
                assert(names[i] == last);
                assert(suspended[suspended.len() - 1] == last);
            }
        }
    }
}

/// Every auto-suspended name that is still registered is resumed: its
/// position occurs in the plan of `resume_all`, whatever else the
/// auto-suspended names hold (names since deregistered included).
pub proof fn every_registered_suspended_is_resumed(names: Seq<Seq<char>>, suspended: Seq<Seq<char>>)
    ensures
        forall|j: int|
            0 <= j < suspended.len() && #[trigger] position(names, suspended[j]) is Some
                ==> resume_plan(names, suspended).contains(position(names, suspended[j])->0),
    decreases suspended.len(),
{
    if suspended.len() > 0 {
        let rest = suspended.drop_last();
        every_registered_suspended_is_resumed(names, rest);
        let plan = resume_plan(names, suspended);
        let prev = resume_plan(names, rest);
        assert forall|j: int|
            0 <= j < suspended.len() && #[trigger] position(names, suspended[j]) is Some implies plan.contains(
                position(names, suspended[j])->0,
            ) by {
            let i = position(names, suspended[j])->0;
            if j < rest.len() {
                assert(rest[j] == suspended[j]);
                assert(position(names, rest[j]) is Some);
                assert(prev.contains(i));
                let k = choose|k: int| 0 <= k < prev.len() && prev[k] == i;
                assert(plan[k] == prev[k]);
            } else {
                assert(suspended[j] == suspended.last());
                assert(plan[plan.len() - 1] == i);
            }
        }
    }
}

/// Entries suspended one after the other from a clean slate are the entries
/// that the next `resume_all` resumes, in the same order: each
/// suspend / resume cycle wakes exactly what it put to sleep.
pub proof fn suspended_are_resumed(names: Seq<Seq<char>>, marked: Seq<int>)
    requires
        names.no_duplicates(),
        marked.no_duplicates(),
        forall|k: int| 0 <= k < marked.len() ==> 0 <= #[trigger] marked[k] < names.len(),
    ensures
        mark_all(names, Seq::empty(), marked) == marked.map_values(|k: int| names[k]),
        resume_plan(names, mark_all(names, Seq::empty(), marked)) == marked,
    decreases marked.len(),
{
    if marked.len() > 0 {
        let front = marked.drop_last();
        let last = marked.last();
        assert forall|k: int| 0 <= k < front.len() implies 0 <= #[trigger] front[k] < names.len() by {
            assert(front[k] == marked[k]);
        }
        suspended_are_resumed(names, front);
        let before = mark_all(names, Seq::empty(), front);
        assert(before == front.map_values(|k: int| names[k]));
        if before.contains(names[last]) {
            let m = choose|m: int| 0 <= m < before.len() && before[m] == names[last];
            assert(names[front[m]] == names[last]);
            assert(front[m] == marked[m]);
            assert(marked[m] == marked[marked.len() - 1]);
        }
        let after = mark_all(names, Seq::empty(), marked);
        assert(after == before.push(names[last]));
        assert(after =~= marked.map_values(|k: int| names[k]));
        assert(after.drop_last() =~= before);
        position_of_entry(names, last);
        assert(resume_plan(names, after) == resume_plan(names, before).push(last));
        assert(resume_plan(names, after) =~= marked);
    } else {
        assert(marked.map_values(|k: int| names[k]) =~= Seq::<Seq<char>>::empty());
    }
}

} // verus!
