//! The bookkeeping of the remuxers of all sources: one remuxer per source, which of
//! them are due a read in a round, and which are finished.

use vstd::prelude::*;
use crate::remuxer::{Remuxer, RemuxerState};
use crate::transcoder::{strings_view, OptionItemView, TranscoderOptions};
use crate::subscriber::{fresh_subscriber, Message, SubscriberView};
use tokio::sync::mpsc::UnboundedReceiver;

verus! {

/// Whether `key` is the source of no entry.
pub open spec fn absent<R>(entries: Seq<(Seq<char>, R)>, key: Seq<char>) -> bool {
    forall|j: int| 0 <= j < entries.len() ==> (#[trigger] entries[j]).0 != key
}

/// Whether `i` is the first entry with source `key`.
pub open spec fn first_with<R>(entries: Seq<(Seq<char>, R)>, key: Seq<char>, i: int) -> bool {
    &&& 0 <= i < entries.len()
    &&& entries[i].0 == key
    &&& absent(entries.take(i), key)
}

/// Whether no two entries have the same source.
pub open spec fn distinct_sources<R>(entries: Seq<(Seq<char>, R)>) -> bool {
    forall|i: int, j: int|
        0 <= i < entries.len() && 0 <= j < entries.len() && i != j ==> (#[trigger] entries[i]).0
            != (#[trigger] entries[j]).0
}

/// The indices of the remuxers seen `Idle`, in order.
pub open spec fn idle_indices(observed: Seq<Option<RemuxerState>>) -> Seq<usize>
    decreases observed.len(),
{
    if observed.len() == 0 {
        seq![]
    } else {
        let r = idle_indices(observed.drop_last());
        if observed.last() == Some(RemuxerState::Idle) {
            r.push((observed.len() - 1) as usize)
        } else {
            r
        }
    }
}

/// The sources of the remuxers seen `Dead`, in order.
pub open spec fn dead_sources<R>(
    entries: Seq<(Seq<char>, R)>,
    observed: Seq<Option<RemuxerState>>,
) -> Seq<Seq<char>>
    decreases observed.len(),
{
    if observed.len() == 0 || entries.len() < observed.len() {
        seq![]
    } else {
        let r = dead_sources(entries, observed.drop_last());
        if observed.last() == Some(RemuxerState::Dead) {
            r.push(entries[observed.len() - 1].0)
        } else {
            r
        }
    }
}

/// The entries whose source is not among `dead`, in order.
pub open spec fn without<R>(entries: Seq<(Seq<char>, R)>, dead: Seq<Seq<char>>) -> Seq<
    (Seq<char>, R),
>
    decreases entries.len(),
{
    if entries.len() == 0 {
        seq![]
    } else {
        let r = without(entries.drop_last(), dead);
        if dead.contains(entries.last().0) {
            r
        } else {
            r.push(entries.last())
        }
    }
}

pub struct ManagerView<R> {
    pub entries: Seq<(Seq<char>, R)>,
    pub running: bool,
    pub timeout: Option<u64>,
    pub transcoder_options: Option<Seq<(Seq<char>, OptionItemView)>>,
}

/// What a round does: start a read on the idle remuxers, drop the dead ones, and
/// wait a little first when there is nothing to start.
pub struct RoundPlan {
    pub start: Vec<usize>,
    pub dead: Vec<String>,
    pub sleep: bool,
}

/// The remuxers of all sources, each held as an `R`.
pub struct RemuxManager<R> {
    transmuxers: Vec<(String, R)>,
    running: bool,
    timeout: Option<u64>,
    transcoder_options: Option<TranscoderOptions>,
}

impl<R> View for RemuxManager<R> {
    type V = ManagerView<R>;

    closed spec fn view(&self) -> ManagerView<R> {
        ManagerView {
            entries: self.transmuxers@.map_values(|e: (String, R)| (e.0@, e.1)),
            running: self.running,
            timeout: self.timeout,
            transcoder_options: match self.transcoder_options {
                Some(o) => Some(o@),
                None => None,
            },
        }
    }
}

impl<R> RemuxManager<R> {
    /// No remuxer, running, no read timeout, no transcoder options.
    pub fn new() -> (r: Self)
        ensures
            r@.entries.len() == 0,
            r@.running,
            r@.timeout is None,
            r@.transcoder_options is None,
    {
        let r = RemuxManager {
            transmuxers: Vec::new(),
            running: true,
            timeout: None,
            transcoder_options: None,
        };
        assert(r@.entries =~= seq![]);
        r
    }

    /// No remuxer, running, with a read timeout and transcoder options.
    pub fn with_timeout_and_options(
        timeout_micros: u64,
        transcoder_options: Option<TranscoderOptions>,
    ) -> (r: Self)
        ensures
            r@.entries.len() == 0,
            r@.running,
            r@.timeout == Some(timeout_micros),
            r@.transcoder_options == match transcoder_options {
                Some(o) => Some(o@),
                None => None::<Seq<(Seq<char>, OptionItemView)>>,
            },
    {
        let r = RemuxManager {
            transmuxers: Vec::new(),
            running: true,
            timeout: Some(timeout_micros),
            transcoder_options,
        };
        assert(r@.entries =~= seq![]);
        r
    }

    /// A new remuxer of `source` with the manager's timeout and transcoder options.
    pub fn new_remuxer(&self, source: &str) -> (r: Remuxer)
        ensures
            r@.subscribers == Seq::<SubscriberView>::empty(),
            r@.departed == Seq::<SubscriberView>::empty(),
            r@.header is None,
            r@.script is None,
            r@.avc is None,
            r@.asc is None,
            r@.state == RemuxerState::Idle,
            r@.rw_timeout == self@.timeout,
            r@.transcoder.source == source@,
            r@.transcoder.options == self@.transcoder_options,
    {
        let options = match &self.transcoder_options {
            Some(o) => Some(o.duplicate()),
            None => None,
        };
        Remuxer::new_with_timeout_and_options(source, self.timeout, options)
    }

    /// A new remuxer of `source` with the manager's timeout and transcoder options,
    /// whose one subscriber is `address`: the remuxer and the end of that
    /// subscriber's channel.
    pub fn new_subscribed_remuxer(&self, source: &str, address: &str) -> (r: (
        Remuxer,
        UnboundedReceiver<Message>,
    ))
        ensures
            r.0@.subscribers.len() == 1,
            r.0@.subscribers[0] == fresh_subscriber(address@, r.0@.subscribers[0].tx),
            r.0@.departed == Seq::<SubscriberView>::empty(),
            r.0@.header is None,
            r.0@.script is None,
            r.0@.avc is None,
            r.0@.asc is None,
            r.0@.state == RemuxerState::Idle,
            r.0@.rw_timeout == self@.timeout,
            r.0@.transcoder.source == source@,
            r.0@.transcoder.options == self@.transcoder_options,
    {
        let mut remuxer = self.new_remuxer(source);
        let rx = remuxer.subscribe(address);
        (remuxer, rx)
    }

    /// The number of remuxers.
    pub fn len(&self) -> (r: usize)
        ensures
            r == self@.entries.len(),
    {
        self.transmuxers.len()
    }

    /// The source and the remuxer of entry `i`.
    pub fn entry(&self, i: usize) -> (r: (&String, &R))
        requires
            i < self@.entries.len(),
        ensures
            r.0@ == self@.entries[i as int].0,
            *r.1 == self@.entries[i as int].1,
    {
        let e = &self.transmuxers[i];
        (&e.0, &e.1)
    }

    /// The index of the remuxer of `source`, if there is one.
    pub fn position(&self, source: &str) -> (r: Option<usize>)
        ensures
            match r {
                Some(i) => first_with(self@.entries, source@, i as int),
                None => absent(self@.entries, source@),
            },
    {
        let key = source.to_owned();
        let mut i: usize = 0;
        while i < self.transmuxers.len()
            invariant
                0 <= i <= self@.entries.len(),
                key@ == source@,
                absent(self@.entries.take(i as int), source@),
            decreases self@.entries.len() - i,
        {
            if self.transmuxers[i].0 == key {
                return Some(i);
            }
            assert(self@.entries.take(i + 1) =~= self@.entries.take(i as int).push(
                self@.entries[i as int],
            ));
            i = i + 1;
        }
        assert(self@.entries.take(i as int) =~= self@.entries);
        None
    }

    /// The remuxer of `source`, if there is one.
    pub fn find(&self, source: &str) -> (r: Option<&R>)
        ensures
            match r {
                Some(h) => exists|i: int|
                    first_with(self@.entries, source@, i) && self@.entries[i].1 == *h,
                None => absent(self@.entries, source@),
            },
    {
        match self.position(source) {
            Some(i) => Some(&self.transmuxers[i].1),
            None => None,
        }
    }

    /// Makes `remuxer` the remuxer of `source`, in place of any it had.
    pub fn insert(&mut self, source: &str, remuxer: R)
        ensures
            final(self)@ == (ManagerView {
                entries: inserted(old(self)@.entries, source@, remuxer),
                ..old(self)@
            }),
    {
        match self.position(source) {
            Some(i) => {
                proof {
                    lemma_first_unique(self@.entries, source@, i as int);
                }
                self.transmuxers.set(i, (source.to_owned(), remuxer));
                assert(self@.entries =~= old(self)@.entries.update(i as int, (source@, remuxer)));
            },
            None => {
                proof {
                    lemma_absent_none(self@.entries, source@);
                }
                self.transmuxers.push((source.to_owned(), remuxer));
                assert(self@.entries =~= old(self)@.entries.push((source@, remuxer)));
            },
        }
    }

    /// Drops the remuxers of the sources in `dead`.
    pub fn remove_sources(&mut self, dead: &Vec<String>)
        ensures
            final(self)@ == (ManagerView {
                entries: without(old(self)@.entries, strings_view(dead@)),
                ..old(self)@
            }),
    {
        let ghost dv = strings_view(dead@);
        let mut rest: Vec<(String, R)> = Vec::new();
        std::mem::swap(&mut rest, &mut self.transmuxers);
        let ghost all = rest@.map_values(|e: (String, R)| (e.0@, e.1));
        let n = rest.len();
        let mut k: usize = 0;
        assert(self@.entries =~= without(all.take(0), dv));
        while rest.len() > 0
            invariant
                all.len() == n,
                0 <= k <= n,
                rest@.len() == n - k,
                forall|j: int|
                    0 <= j < n - k ==> ((#[trigger] rest@[j]).0@, rest@[j].1) == all[k + j],
                self@.entries == without(all.take(k as int), dv),
                dv == strings_view(dead@),
                self.running == old(self).running,
                self.timeout == old(self).timeout,
                self.transcoder_options == old(self).transcoder_options,
            decreases rest@.len(),
        {
            let ghost prev = rest@;
            let e = rest.remove(0);
            assert((e.0@, e.1) == all[k as int]);
            assert(all.take(k + 1).drop_last() =~= all.take(k as int));
            let listed = contains_string(dead, &e.0);
            if !listed {
                let ghost before = self.transmuxers@;
                self.transmuxers.push(e);
                assert(self.transmuxers@.map_values(|e: (String, R)| (e.0@, e.1)) =~= before.map_values(
                    |e: (String, R)| (e.0@, e.1),
                ).push(all[k as int]));
            }
            k = k + 1;
            assert forall|j: int| 0 <= j < n - k implies ((#[trigger] rest@[j]).0@, rest@[j].1)
                == all[k + j] by {
                assert(rest@[j] == prev[j + 1]);
            }
        }
        assert(all.take(n as int) =~= all);
        assert(all == old(self)@.entries);
    }

    /// Plans a round from what was seen of each remuxer: its state, or `None` where
    /// it was busy. Idle remuxers are to be started, dead ones dropped, and with
    /// nothing to start the round waits.
    pub fn plan_round(&self, observed: &Vec<Option<RemuxerState>>) -> (plan: RoundPlan)
        requires
            observed@.len() == self@.entries.len(),
        ensures
            plan.start@ == idle_indices(observed@),
            strings_view(plan.dead@) == dead_sources(self@.entries, observed@),
            plan.sleep == (plan.start@.len() == 0),
    {
        let mut start: Vec<usize> = Vec::new();
        let mut dead: Vec<String> = Vec::new();
        let n = observed.len();
        let mut i: usize = 0;
        while i < n
            invariant
                n == observed@.len(),
                n == self@.entries.len(),
                0 <= i <= n,
                start@ == idle_indices(observed@.take(i as int)),
                strings_view(dead@) == dead_sources(self@.entries, observed@.take(i as int)),
            decreases n - i,
        {
            assert(observed@.take(i + 1).drop_last() =~= observed@.take(i as int));
            match observed[i] {
                Some(RemuxerState::Idle) => {
                    start.push(i);
                },
                Some(RemuxerState::Dead) => {
                    let ghost before = dead@;
                    dead.push(self.transmuxers[i].0.clone());
                    assert(strings_view(dead@) =~= strings_view(before).push(
                        self@.entries[i as int].0,
                    ));
                },
                _ => {},
            }
            i = i + 1;
        }
        assert(observed@.take(n as int) =~= observed@);
        let sleep = start.len() == 0;
        RoundPlan { start, dead, sleep }
    }

    /// Asks the manager to stop; the next round reports it.
    pub fn stop(&mut self)
        ensures
            final(self)@ == (ManagerView { running: false, ..old(self)@ }),
    {
        self.running = false;
    }

    /// Whether the manager still runs.
    pub fn is_running(&self) -> (r: bool)
        ensures
            r == self@.running,
    {
        self.running
    }
}

/// The first entry with source `key`, if any.
pub open spec fn choose_first<R>(entries: Seq<(Seq<char>, R)>, key: Seq<char>) -> Option<int> {
    if exists|i: int| first_with(entries, key, i) {
        Some(choose|i: int| first_with(entries, key, i))
    } else {
        None
    }
}

proof fn lemma_first_unique<R>(entries: Seq<(Seq<char>, R)>, key: Seq<char>, i: int)
    requires
        first_with(entries, key, i),
    ensures
        choose_first(entries, key) == Some(i),
{
    let c = choose|c: int| first_with(entries, key, c);
    assert(first_with(entries, key, c));
    if c < i {
        assert(entries.take(i)[c] == entries[c]);
    } else if c > i {
        assert(entries.take(c)[i] == entries[i]);
    }
}

proof fn lemma_absent_none<R>(entries: Seq<(Seq<char>, R)>, key: Seq<char>)
    requires
        absent(entries, key),
    ensures
        choose_first(entries, key) is None,
{
    assert forall|i: int| !first_with(entries, key, i) by {
        if 0 <= i < entries.len() {
            assert(entries[i].0 != key);
        }
    }
}

/// Whether `s` is among `list`.
pub fn contains_string(list: &Vec<String>, s: &String) -> (r: bool)
    ensures
        r == strings_view(list@).contains(s@),
{
    let mut i: usize = 0;
    while i < list.len()
        invariant
            0 <= i <= list@.len(),
            forall|j: int| 0 <= j < i ==> (#[trigger] list@[j])@ != s@,
        decreases list@.len() - i,
    {
        if list[i] == *s {
            assert(strings_view(list@)[i as int] == s@);
            return true;
        }
        i = i + 1;
    }
    assert forall|j: int| 0 <= j < strings_view(list@).len() implies strings_view(list@)[j] != s@ by {
        assert(list@[j]@ != s@);
    }
    false
}

/// The entries after `remuxer` is made the remuxer of `source`.
pub open spec fn inserted<R>(entries: Seq<(Seq<char>, R)>, source: Seq<char>, remuxer: R) -> Seq<
    (Seq<char>, R),
> {
    match choose_first(entries, source) {
        Some(i) => entries.update(i, (source, remuxer)),
        None => entries.push((source, remuxer)),
    }
}

proof fn lemma_first_exists<R>(entries: Seq<(Seq<char>, R)>, key: Seq<char>, j: int)
    requires
        0 <= j && j < entries.len(),
        entries[j].0 == key,
    ensures
        exists|i: int| first_with(entries, key, i),
    decreases j,
{
    if absent(entries.take(j), key) {
        assert(first_with(entries, key, j));
    } else {
        let l = choose|l: int| 0 <= l && l < entries.take(j).len() && (#[trigger] entries.take(j)[l]).0 == key;
        assert(entries.take(j)[l] == entries[l]);
        lemma_first_exists(entries, key, l);
    }
}

proof fn lemma_choose_first<R>(entries: Seq<(Seq<char>, R)>, key: Seq<char>)
    ensures
        match choose_first(entries, key) {
            Some(i) => first_with(entries, key, i),
            None => absent(entries, key),
        },
{
    if exists|i: int| first_with(entries, key, i) {
        let i = choose|i: int| first_with(entries, key, i);
    } else {
        assert forall|j: int| 0 <= j && j < entries.len() implies (#[trigger] entries[j]).0 != key by {
            if entries[j].0 == key {
                lemma_first_exists(entries, key, j);
            }
        }
    }
}

/// A remuxer reads back as written: after `remuxer` is made the remuxer of
/// `source`, looking `source` up finds `remuxer`, and every other source keeps the
/// remuxer it had.
pub proof fn law_remuxer_read_after_write<R>(
    entries: Seq<(Seq<char>, R)>,
    source: Seq<char>,
    remuxer: R,
    other: Seq<char>,
)
    ensures
        exists|i: int|
            first_with(inserted(entries, source, remuxer), source, i) && #[trigger] inserted(
                entries,
                source,
                remuxer,
            )[i].1 == remuxer,
        other != source ==> forall|i: int|
            first_with(entries, other, i) ==> #[trigger] first_with(
                inserted(entries, source, remuxer),
                other,
                i,
            ) && inserted(entries, source, remuxer)[i] == entries[i],
        other != source ==> (absent(entries, other) <==> absent(
            inserted(entries, source, remuxer),
            other,
        )),
{
    lemma_choose_first(entries, source);
    let e2 = inserted(entries, source, remuxer);
    match choose_first(entries, source) {
        Some(i) => {
            assert(entries.take(i) =~= e2.take(i));
            assert(first_with(e2, source, i));
            assert(e2[i].1 == remuxer);
            if other != source {
                assert forall|j: int| first_with(entries, other, j) implies #[trigger] first_with(e2, other, j)
                    && e2[j] == entries[j] by {
                    assert(j != i);
                    if j < i {
                        assert(e2.take(j) =~= entries.take(j));
                    } else {
                        assert(entries.take(j)[i] == entries[i]);
                        assert forall|l: int| 0 <= l && l < e2.take(j).len() implies (
                        #[trigger] e2.take(j)[l]).0 != other by {
                            if l != i {
                                assert(e2.take(j)[l] == entries.take(j)[l]);
                            }
                        }
                    }
                }
            }
        },
        None => {
            assert(e2.take(entries.len() as int) =~= entries);
            assert(first_with(e2, source, entries.len() as int));
            assert(e2[entries.len() as int].1 == remuxer);
            assert forall|j: int| first_with(entries, other, j) implies #[trigger] first_with(e2, other, j)
                && e2[j] == entries[j] by {
                assert(e2.take(j) =~= entries.take(j));
            }
        },
    }
    if other != source {
        if absent(entries, other) {
            assert forall|j: int| 0 <= j && j < e2.len() implies (#[trigger] e2[j]).0 != other by {
                if j < entries.len() {
                    if choose_first(entries, source) != Some(j) {
                        assert(e2[j] == entries[j]);
                    }
                }
            }
        }
        if absent(e2, other) {
            assert forall|j: int| 0 <= j && j < entries.len() implies (#[trigger] entries[j]).0 != other by {
                if choose_first(entries, source) != Some(j) {
                    assert(e2[j] == entries[j]);
                }
            }
        }
    }
}

/// One source, one remuxer: making a remuxer the remuxer of a source never
/// gives two entries the same source.
pub proof fn law_one_remuxer_per_source<R>(entries: Seq<(Seq<char>, R)>, source: Seq<char>, remuxer: R)
    requires
        distinct_sources(entries),
    ensures
        distinct_sources(inserted(entries, source, remuxer)),
{
    lemma_choose_first(entries, source);
    let e2 = inserted(entries, source, remuxer);
    assert forall|i: int, j: int|
        0 <= i && i < e2.len() && 0 <= j && j < e2.len() && i != j implies (#[trigger] e2[i]).0
        != (#[trigger] e2[j]).0 by {
        match choose_first(entries, source) {
            Some(m) => {
                if i == m {
                    assert(e2[j] == entries[j]);
                } else if j == m {
                    assert(e2[i] == entries[i]);
                } else {
                    assert(e2[i] == entries[i] && e2[j] == entries[j]);
                }
            },
            None => {
                if i == entries.len() {
                    assert(e2[j] == entries[j]);
                } else if j == entries.len() {
                    assert(e2[i] == entries[i]);
                } else {
                    assert(e2[i] == entries[i] && e2[j] == entries[j]);
                }
            },
        }
    }
}

/// Dropping dead sources drops exactly them: no entry left has a dead source, and
/// every entry whose source is not dead is left, in order.
pub proof fn law_remove_dead<R>(entries: Seq<(Seq<char>, R)>, dead: Seq<Seq<char>>)
    ensures
        forall|k: int|
            0 <= k && k < without(entries, dead).len() ==> !dead.contains(
                (#[trigger] without(entries, dead)[k]).0,
            ),
        forall|i: int|
            0 <= i && i < entries.len() && !dead.contains((#[trigger] entries[i]).0) ==> without(
                entries,
                dead,
            ).contains(entries[i]),
        without(entries, dead).len() <= entries.len(),
    decreases entries.len(),
{
    if entries.len() > 0 {
        let d = entries.drop_last();
        law_remove_dead(d, dead);
        let r = without(d, dead);
        assert forall|i: int|
            0 <= i && i < entries.len() && !dead.contains((#[trigger] entries[i]).0) implies without(
            entries,
            dead,
        ).contains(entries[i]) by {
            if i < d.len() {
                assert(d[i] == entries[i]);
                let k = choose|k: int| 0 <= k && k < r.len() && r[k] == d[i];
                assert(without(entries, dead)[k] == r[k]);
            } else {
                assert(without(entries, dead).last() == entries[i]);
            }
        }
        assert forall|k: int| 0 <= k && k < without(entries, dead).len() implies !dead.contains(
            (#[trigger] without(entries, dead)[k]).0,
        ) by {
            if k < r.len() {
                assert(without(entries, dead)[k] == r[k]);
            }
        }
    }
}

/// A round starts exactly the remuxers seen idle, in order, each once.
pub proof fn law_round_starts_idle(observed: Seq<Option<RemuxerState>>)
    requires
        observed.len() <= usize::MAX,
    ensures
        forall|k: int|
            0 <= k && k < idle_indices(observed).len() ==> {
                let i = #[trigger] idle_indices(observed)[k];
                i < observed.len() && observed[i as int] == Some(RemuxerState::Idle)
            },
        forall|i: int|
            0 <= i && i < observed.len() && #[trigger] observed[i] == Some(RemuxerState::Idle)
                ==> idle_indices(observed).contains(i as usize),
        forall|k: int, l: int|
            0 <= k && k < l && l < idle_indices(observed).len() ==> #[trigger] idle_indices(observed)[k]
                < #[trigger] idle_indices(observed)[l],
    decreases observed.len(),
{
    if observed.len() > 0 {
        let d = observed.drop_last();
        law_round_starts_idle(d);
        let r = idle_indices(d);
        let all = idle_indices(observed);
        assert forall|k: int| 0 <= k && k < all.len() implies {
            let i = #[trigger] all[k];
            i < observed.len() && observed[i as int] == Some(RemuxerState::Idle)
        } by {
            if k < r.len() {
                assert(all[k] == r[k]);
                assert(d[r[k] as int] == observed[r[k] as int]);
            }
        }
        assert forall|i: int|
            0 <= i && i < observed.len() && #[trigger] observed[i] == Some(RemuxerState::Idle)
                implies all.contains(i as usize) by {
            if i < d.len() {
                assert(d[i] == observed[i]);
                let k = choose|k: int| 0 <= k && k < r.len() && r[k] == i as usize;
                assert(all[k] == r[k]);
            } else {
                assert(all.last() == i as usize);
            }
        }
        assert forall|k: int, l: int| 0 <= k && k < l && l < all.len() implies #[trigger] all[k]
            < #[trigger] all[l] by {
            if l < r.len() {
                assert(all[k] == r[k] && all[l] == r[l]);
            } else {
                assert(all[k] == r[k]);
                assert(r[k] < d.len());
            }
        }
    }
}

/// Whether some remuxer observed `Dead` has source `source`.
pub open spec fn seen_dead<R>(
    entries: Seq<(Seq<char>, R)>,
    observed: Seq<Option<RemuxerState>>,
    source: Seq<char>,
) -> bool {
    exists|i: int|
        0 <= i && i < observed.len() && observed[i] == Some(RemuxerState::Dead) && #[trigger] entries[i].0
            == source
}

/// A round drops only what it saw finished: a source is among the dead of a round
/// exactly when a remuxer of that source was observed `Dead`. A remuxer observed
/// `Idle`, `Pending` or busy (`None`) is never dropped on its own account; each
/// dead source stands at most once per remuxer observed `Dead`, in order.
pub proof fn law_round_drops_only_dead<R>(
    entries: Seq<(Seq<char>, R)>,
    observed: Seq<Option<RemuxerState>>,
    source: Seq<char>,
)
    requires
        observed.len() <= entries.len(),
    ensures
        dead_sources(entries, observed).contains(source) <==> seen_dead(entries, observed, source),
        dead_sources(entries, observed).len() <= observed.len(),
    decreases observed.len(),
{
    if observed.len() > 0 {
        let d = observed.drop_last();
        law_round_drops_only_dead(entries, d, source);
        let r = dead_sources(entries, d);
        let all = dead_sources(entries, observed);
        let last = observed.len() - 1;
        if seen_dead(entries, d, source) {
            let i = choose|i: int|
                0 <= i && i < d.len() && d[i] == Some(RemuxerState::Dead) && #[trigger] entries[i].0
                    == source;
            assert(observed[i] == d[i]);
            assert(seen_dead(entries, observed, source));
        }
        if seen_dead(entries, observed, source) && !seen_dead(entries, d, source) {
            let i = choose|i: int|
                0 <= i && i < observed.len() && observed[i] == Some(RemuxerState::Dead)
                    && #[trigger] entries[i].0 == source;
            if i < last {
                assert(d[i] == observed[i]);
                assert(seen_dead(entries, d, source));
            }
        }
        if all.contains(source) {
            let k = choose|k: int| 0 <= k && k < all.len() && all[k] == source;
            if k < r.len() {
                assert(all[k] == r[k]);
                assert(r.contains(source));
            } else {
                assert(observed[last] == Some(RemuxerState::Dead));
                assert(entries[last].0 == source);
                assert(seen_dead(entries, observed, source));
            }
        }
        if seen_dead(entries, observed, source) {
            if seen_dead(entries, d, source) {
                let k = choose|k: int| 0 <= k && k < r.len() && r[k] == source;
                assert(all[k] == r[k]);
            } else {
                let i = choose|i: int|
                    0 <= i && i < observed.len() && observed[i] == Some(RemuxerState::Dead)
                        && #[trigger] entries[i].0 == source;
                if i < last {
                    assert(d[i] == observed[i]);
                    assert(seen_dead(entries, d, source));
                }
                assert(i == last);
                assert(all[all.len() - 1] == source);
            }
        }
    }
}

} // verus!
