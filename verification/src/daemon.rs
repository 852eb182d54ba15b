//! Today's durations: the seconds that each target has had the user's
//! attention since local midnight, and the snapshot that the daemon hands to
//! its clients.

use vstd::prelude::*;
use crate::dbus::Host;
use crate::schema::Timer;

verus! {

/// The seconds accumulated by one target.
#[derive(Debug, PartialEq, Eq)]
pub struct DurationEntry {
    pub host: Host,
    pub display_name: String,
    pub seconds: u32,
}

/// The mathematical value of a [`DurationEntry`].
pub struct DurationEntryView {
    pub host: Host,
    pub display_name: Seq<char>,
    pub seconds: u32,
}

impl DurationEntryView {
    /// The target that the entry belongs to.
    pub open spec fn key(self) -> (Host, Seq<char>) {
        (self.host, self.display_name)
    }
}

impl View for DurationEntry {
    type V = DurationEntryView;

    open spec fn view(&self) -> DurationEntryView {
        DurationEntryView {
            host: self.host,
            display_name: self.display_name@,
            seconds: self.seconds,
        }
    }
}

impl Clone for DurationEntry {
    fn clone(&self) -> (copy: Self)
        ensures
            copy == *self,
    {
        DurationEntry {
            host: self.host,
            display_name: self.display_name.clone(),
            seconds: self.seconds,
        }
    }
}

/// The views of a sequence of entries, in the same order.
pub open spec fn entry_views(entries: Seq<DurationEntry>) -> Seq<DurationEntryView> {
    entries.map_values(|entry: DurationEntry| entry@)
}

/// The mapping that a list of entries stands for. Where a target occurs more
/// than once, its last entry counts.
pub open spec fn totals_of(entries: Seq<DurationEntryView>) -> Map<(Host, Seq<char>), u32>
    decreases entries.len(),
{
    if entries.len() == 0 {
        Map::empty()
    } else {
        totals_of(entries.drop_last()).insert(entries.last().key(), entries.last().seconds)
    }
}

/// No target has two entries.
pub open spec fn distinct_keys(entries: Seq<DurationEntryView>) -> bool {
    forall|i: int, j: int|
        0 <= i < j < entries.len() ==> (#[trigger] entries[i]).key() != (#[trigger] entries[j])
            .key()
}

/// The seconds that `durations` holds for a target: zero where it has none.
pub open spec fn seconds_in(
    durations: Map<(Host, Seq<char>), u32>,
    host: Host,
    display_name: Seq<char>,
) -> u32 {
    if durations.contains_key((host, display_name)) {
        durations[(host, display_name)]
    } else {
        0
    }
}

/// The sum of two counts of seconds, held at the largest `u32`.
pub open spec fn saturating_sum(total: int, seconds: int) -> u32 {
    if total + seconds > u32::MAX {
        u32::MAX
    } else if total + seconds < 0 {
        0
    } else {
        (total + seconds) as u32
    }
}

/// `durations` after `seconds` more were spent on a target. A target without
/// an entry starts from zero; no total grows beyond the largest `u32`.
pub open spec fn durations_after(
    durations: Map<(Host, Seq<char>), u32>,
    host: Host,
    display_name: Seq<char>,
    seconds: u32,
) -> Map<(Host, Seq<char>), u32> {
    durations.insert(
        (host, display_name),
        saturating_sum(seconds_in(durations, host, display_name) as int, seconds as int),
    )
}

proof fn lemma_totals_domain(entries: Seq<DurationEntryView>, key: (Host, Seq<char>))
    ensures
        totals_of(entries).contains_key(key) <==> exists|i: int|
            0 <= i < entries.len() && (#[trigger] entries[i]).key() == key,
    decreases entries.len(),
{
    if entries.len() > 0 {
        let front = entries.drop_last();
        lemma_totals_domain(front, key);
        if totals_of(entries).contains_key(key) {
            if entries.last().key() == key {
                assert(entries[entries.len() - 1].key() == key);
            } else {
                let i = choose|i: int| 0 <= i < front.len() && (#[trigger] front[i]).key() == key;
                assert(entries[i].key() == key);
            }
        }
        if exists|i: int| 0 <= i < entries.len() && (#[trigger] entries[i]).key() == key {
            let i = choose|i: int| 0 <= i < entries.len() && (#[trigger] entries[i]).key() == key;
            if i < entries.len() - 1 {
                assert(front[i].key() == key);
            }
        }
    }
}

proof fn lemma_totals_at(entries: Seq<DurationEntryView>, i: int)
    requires
        distinct_keys(entries),
        0 <= i < entries.len(),
    ensures
        totals_of(entries).contains_key(entries[i].key()),
        totals_of(entries)[entries[i].key()] == entries[i].seconds,
    decreases entries.len(),
{
    if i < entries.len() - 1 {
        let front = entries.drop_last();
        assert forall|a: int, b: int| 0 <= a < b < front.len() implies (#[trigger] front[a]).key()
            != (#[trigger] front[b]).key() by {
            assert(entries[a].key() != entries[b].key());
        }
        lemma_totals_at(front, i);
        assert(entries[i].key() != entries[entries.len() - 1].key());
    }
}

proof fn lemma_totals_update(entries: Seq<DurationEntryView>, i: int, entry: DurationEntryView)
    requires
        distinct_keys(entries),
        0 <= i < entries.len(),
        entry.key() == entries[i].key(),
    ensures
        distinct_keys(entries.update(i, entry)),
        totals_of(entries.update(i, entry)) =~= totals_of(entries).insert(
            entry.key(),
            entry.seconds,
        ),
    decreases entries.len(),
{
    let changed = entries.update(i, entry);
    assert forall|a: int, b: int| 0 <= a < b < changed.len() implies (#[trigger] changed[a]).key()
        != (#[trigger] changed[b]).key() by {
        assert(entries[a].key() != entries[b].key());
    }
    let front = entries.drop_last();
    if i == entries.len() - 1 {
        assert(changed.drop_last() =~= front);
    } else {
        assert forall|a: int, b: int| 0 <= a < b < front.len() implies (#[trigger] front[a]).key()
            != (#[trigger] front[b]).key() by {
            assert(entries[a].key() != entries[b].key());
        }
        lemma_totals_update(front, i, entry);
        assert(changed.drop_last() =~= front.update(i, entry));
        assert(entries[i].key() != entries[entries.len() - 1].key());
    }
}

proof fn lemma_totals_count(entries: Seq<DurationEntryView>)
    requires
        distinct_keys(entries),
    ensures
        totals_of(entries).dom().finite(),
        totals_of(entries).dom().len() == entries.len(),
    decreases entries.len(),
{
    if entries.len() > 0 {
        let front = entries.drop_last();
        assert forall|a: int, b: int| 0 <= a < b < front.len() implies (#[trigger] front[a]).key()
            != (#[trigger] front[b]).key() by {
            assert(entries[a].key() != entries[b].key());
        }
        lemma_totals_count(front);
        lemma_totals_domain(front, entries.last().key());
        if totals_of(front).contains_key(entries.last().key()) {
            let i = choose|i: int|
                0 <= i < front.len() && (#[trigger] front[i]).key() == entries.last().key();
            assert(entries[i].key() != entries[entries.len() - 1].key());
        }
        assert(totals_of(entries).dom() =~= totals_of(front).dom().insert(entries.last().key()));
    } else {
        assert(totals_of(entries).dom() =~= Set::<(Host, Seq<char>)>::empty());
    }
}

/// Today's durations: for each target `(host, display_name)` that was in
/// focus today, the seconds it has accumulated. Every target has at most one
/// entry; the order of the entries carries no meaning.
#[derive(Debug)]
pub struct DurationMap {
    entries: Vec<DurationEntry>,
}

impl View for DurationMap {
    type V = Map<(Host, Seq<char>), u32>;

    closed spec fn view(&self) -> Map<(Host, Seq<char>), u32> {
        totals_of(entry_views(self.entries@))
    }
}

impl DurationMap {
    #[verifier::type_invariant]
    spec fn one_entry_per_target(&self) -> bool {
        distinct_keys(entry_views(self.entries@))
    }

    /// The seconds accumulated by a target: zero where it has no entry.
    pub open spec fn spec_seconds(&self, host: Host, display_name: Seq<char>) -> u32 {
        seconds_in(self@, host, display_name)
    }

    /// A mapping without entries.
    pub fn new() -> (durations: Self)
        ensures
            durations@ == Map::<(Host, Seq<char>), u32>::empty(),
    {
        DurationMap { entries: Vec::new() }
    }

    /// The position of the entry of a target.
    fn position(&self, host: Host, display_name: &String) -> (found: Option<usize>)
        ensures
            match found {
                Some(i) => {
                    &&& i < self.entries@.len()
                    &&& entry_views(self.entries@)[i as int].key() == (host, display_name@)
                },
                None => !self@.contains_key((host, display_name@)),
            },
    {
        let ghost views = entry_views(self.entries@);
        let mut i: usize = 0;
        while i < self.entries.len()
            invariant
                i <= self.entries@.len(),
                views == entry_views(self.entries@),
                forall|j: int| 0 <= j < i ==> (#[trigger] views[j]).key() != (host, display_name@),
            decreases self.entries@.len() - i,
        {
            if self.entries[i].host == host && self.entries[i].display_name == *display_name {
                return Some(i);
            }
            i += 1;
        }
        proof {
            lemma_totals_domain(views, (host, display_name@));
        }
        None
    }

    /// The seconds accumulated by a target, if it has an entry.
    pub fn get(&self, host: Host, display_name: &String) -> (seconds: Option<u32>)
        ensures
            seconds == (if self@.contains_key((host, display_name@)) {
                Some(self@[(host, display_name@)])
            } else {
                None
            }),
    {
        match self.position(host, display_name) {
            Some(i) => {
                proof {
                    use_type_invariant(self);
                    lemma_totals_at(entry_views(self.entries@), i as int);
                }
                Some(self.entries[i].seconds)
            },
            None => None,
        }
    }

    /// The seconds accumulated by a target: zero where it has no entry.
    pub fn seconds(&self, host: Host, display_name: &String) -> (seconds: u32)
        ensures
            seconds == self.spec_seconds(host, display_name@),
    {
        match self.get(host, display_name) {
            Some(seconds) => seconds,
            None => 0,
        }
    }

    /// Adds `seconds` to the total of a target, creating its entry where it
    /// has none. All other totals stay as they are.
    pub fn add(&mut self, host: Host, display_name: &String, seconds: u32)
        ensures
            final(self)@ == durations_after(old(self)@, host, display_name@, seconds),
    {
        proof {
            use_type_invariant(&*self);
        }
        let ghost views = entry_views(self.entries@);
        let found = self.position(host, display_name);
        let mut entries: Vec<DurationEntry> = Vec::new();
        core::mem::swap(&mut self.entries, &mut entries);
        match found {
            Some(i) => {
                let total = entries[i].seconds.saturating_add(seconds);
                let entry = DurationEntry {
                    host,
                    display_name: display_name.clone(),
                    seconds: total,
                };
                proof {
                    lemma_totals_at(views, i as int);
                    lemma_totals_update(views, i as int, entry@);
                    assert(entry_views(entries@.update(i as int, entry)) =~= views.update(
                        i as int,
                        entry@,
                    ));
                }
                entries.set(i, entry);
            },
            None => {
                let entry = DurationEntry { host, display_name: display_name.clone(), seconds };
                proof {
                    lemma_totals_domain(views, (host, display_name@));
                    assert(entry_views(entries@.push(entry)) =~= views.push(entry@));
                    assert(views.push(entry@).drop_last() =~= views);
                }
                entries.push(entry);
            },
        }
        self.entries = entries;
    }

    /// The entries, one for each target that has a total.
    pub fn entries(&self) -> (list: Vec<DurationEntry>)
        ensures
            distinct_keys(entry_views(list@)),
            totals_of(entry_views(list@)) == self@,
    {
        proof {
            use_type_invariant(self);
        }
        let mut list: Vec<DurationEntry> = Vec::new();
        let mut i: usize = 0;
        while i < self.entries.len()
            invariant
                i <= self.entries@.len(),
                list@ == self.entries@.take(i as int),
            decreases self.entries@.len() - i,
        {
            list.push(self.entries[i].clone());
            assert(list@ =~= self.entries@.take(i + 1));
            i += 1;
        }
        assert(self.entries@.take(self.entries@.len() as int) =~= self.entries@);
        list
    }

    /// The entries of the targets at `host`: each of them once, with the
    /// seconds that the mapping holds for it.
    pub fn entries_of(&self, host: Host) -> (list: Vec<DurationEntry>)
        ensures
            distinct_keys(entry_views(list@)),
            forall|i: int|
                0 <= i < list@.len() ==> {
                    &&& (#[trigger] list@[i]).host == host
                    &&& self@.contains_key((host, list@[i].display_name@))
                    &&& self@[(host, list@[i].display_name@)] == list@[i].seconds
                },
            forall|name: Seq<char>|
                self@.contains_key((host, name)) ==> exists|i: int|
                    0 <= i < list@.len() && (#[trigger] list@[i]).display_name@ == name,
    {
        proof {
            use_type_invariant(self);
        }
        let ghost views = entry_views(self.entries@);
        let ghost mut origin: Seq<int> = Seq::empty();
        let mut list: Vec<DurationEntry> = Vec::new();
        let mut i: usize = 0;
        while i < self.entries.len()
            invariant
                i <= self.entries@.len(),
                views == entry_views(self.entries@),
                distinct_keys(views),
                origin.len() == list@.len(),
                forall|k: int|
                    0 <= k < list@.len() ==> 0 <= #[trigger] origin[k] < i && list@[k]@
                        == views[origin[k]] && list@[k].host == host,
                forall|k: int, l: int|
                    0 <= k < l < list@.len() ==> #[trigger] origin[k] < #[trigger] origin[l],
                forall|j: int|
                    0 <= j < i && (#[trigger] views[j]).host == host ==> exists|k: int|
                        0 <= k < list@.len() && #[trigger] origin[k] == j,
            decreases self.entries@.len() - i,
        {
            if self.entries[i].host == host {
                let ghost before = origin;
                list.push(self.entries[i].clone());
                proof {
                    origin = origin.push(i as int);
                    assert(views[i as int] == self.entries@[i as int]@);
                    assert forall|k: int| 0 <= k < list@.len() implies 0 <= #[trigger] origin[k] < i
                        + 1 && list@[k]@ == views[origin[k]] && list@[k].host == host by {
                        if k < before.len() {
                            assert(origin[k] == before[k]);
                        }
                    }
                    assert forall|j: int|
                        0 <= j < i + 1 && (#[trigger] views[j]).host == host implies exists|k: int|
                        0 <= k < list@.len() && #[trigger] origin[k] == j by {
                        if j < i {
                            let k = choose|k: int|
                                0 <= k < before.len() && #[trigger] before[k] == j;
                            assert(origin[k] == j);
                        } else {
                            assert(origin[list@.len() - 1] == j);
                        }
                    }
                }
            }
            i += 1;
        }
        proof {
            let listed = entry_views(list@);
            assert forall|a: int, b: int| 0 <= a < b < listed.len() implies (#[trigger] listed[a])
                .key() != (#[trigger] listed[b]).key() by {
                assert(origin[a] < origin[b]);
                assert(views[origin[a]].key() != views[origin[b]].key());
            }
            assert forall|k: int| 0 <= k < list@.len() implies {
                &&& (#[trigger] list@[k]).host == host
                &&& self@.contains_key((host, list@[k].display_name@))
                &&& self@[(host, list@[k].display_name@)] == list@[k].seconds
            } by {
                assert(0 <= origin[k] < views.len());
                lemma_totals_at(views, origin[k]);
            }
            assert forall|name: Seq<char>| self@.contains_key((host, name)) implies exists|k: int|
                0 <= k < list@.len() && (#[trigger] list@[k]).display_name@ == name by {
                lemma_totals_domain(views, (host, name));
                let j = choose|j: int|
                    0 <= j < views.len() && (#[trigger] views[j]).key() == (host, name);
                assert(views[j].host == host);
                let k = choose|k: int| 0 <= k < list@.len() && #[trigger] origin[k] == j;
                assert(list@[k]@ == views[j]);
            }
        }
        list
    }

    /// The number of targets that have a total.
    pub fn len(&self) -> (count: usize)
        ensures
            count == self@.dom().len(),
    {
        proof {
            use_type_invariant(self);
            lemma_totals_count(entry_views(self.entries@));
        }
        self.entries.len()
    }

    /// Removes every entry.
    pub fn clear(&mut self)
        ensures
            final(self)@ == Map::<(Host, Seq<char>), u32>::empty(),
    {
        self.entries = Vec::new();
    }
}

/// The durations that rows of seconds give: the rows are grouped by target
/// and their seconds are summed.
pub open spec fn durations_of_rows(rows: Seq<DurationEntryView>) -> Map<(Host, Seq<char>), u32>
    decreases rows.len(),
{
    if rows.len() == 0 {
        Map::empty()
    } else {
        durations_after(
            durations_of_rows(rows.drop_last()),
            rows.last().host,
            rows.last().display_name,
            rows.last().seconds,
        )
    }
}

/// Groups rows of seconds by target and sums them.
pub fn sum_durations(rows: &Vec<DurationEntry>) -> (durations: DurationMap)
    ensures
        durations@ == durations_of_rows(entry_views(rows@)),
{
    let ghost views = entry_views(rows@);
    let mut durations = DurationMap::new();
    let mut i: usize = 0;
    assert(views.take(0) =~= Seq::<DurationEntryView>::empty());
    while i < rows.len()
        invariant
            i <= rows@.len(),
            views == entry_views(rows@),
            durations@ == durations_of_rows(views.take(i as int)),
        decreases rows@.len() - i,
    {
        assert(views.take(i + 1).drop_last() =~= views.take(i as int));
        durations.add(rows[i].host, &rows[i].display_name, rows[i].seconds);
        i += 1;
    }
    assert(views.take(rows@.len() as int) =~= views);
    durations
}

/// What the daemon hands to a client that asks for its state.
#[derive(Debug)]
pub struct DaemonSnapshot {
    pub timers: Vec<Timer>,
    pub durations: DurationMap,
}

} // verus!
