//! Counting samples by the function they fell into, and the ranked report.

use crate::maps::line_texts;
use crate::symbols::{
    fallback_symbol, frameless_symbol, listing_view, lookup_view, resolve_outcome, Fetched,
    FrameLookup, FrameLookupView, Loaded, ResolveError, ResolveStep, ResolveStepView,
    SymbolInfoView, SymbolResolver,
};
use crate::text::{hex_text, lemma_hex_round_trip, push_hex};
use crate::types::{FunctionStats, Percentage, Report, Sample};
use vstd::prelude::*;

verus! {

/// The first position at or after `from` whose entry is counted under `key`;
/// the length of `entries` when there is none.
pub open spec fn key_position(entries: Seq<(Seq<char>, nat)>, key: Seq<char>, from: int) -> int
    decreases entries.len() - from,
{
    if from >= entries.len() {
        entries.len() as int
    } else if entries[from].0 == key {
        from
    } else {
        key_position(entries, key, from + 1)
    }
}

/// The number of samples counted under `key`.
pub open spec fn count_of(entries: Seq<(Seq<char>, nat)>, key: Seq<char>) -> nat {
    let at = key_position(entries, key, 0);
    if at < entries.len() {
        entries[at].1
    } else {
        0
    }
}

/// The entries after `n` more samples were counted under `key`: its entry
/// grows by `n`, or a new entry is added after the others.
pub open spec fn bump(entries: Seq<(Seq<char>, nat)>, key: Seq<char>, n: nat) -> Seq<
    (Seq<char>, nat),
> {
    let at = key_position(entries, key, 0);
    if n == 0 {
        entries
    } else if at < entries.len() {
        entries.update(at, (key, entries[at].1 + n))
    } else {
        entries.push((key, n))
    }
}

/// The sum of the counts of `entries`.
pub open spec fn total_count(entries: Seq<(Seq<char>, nat)>) -> nat
    decreases entries.len(),
{
    if entries.len() == 0 {
        0
    } else {
        total_count(entries.drop_last()) + entries.last().1
    }
}

/// Whether no key has two entries and no entry counts nothing.
pub open spec fn tidy(entries: Seq<(Seq<char>, nat)>) -> bool {
    &&& forall|i: int, j: int|
        0 <= i < j < entries.len() ==> (#[trigger] entries[i]).0 != (#[trigger] entries[j]).0
    &&& forall|i: int| 0 <= i < entries.len() ==> (#[trigger] entries[i]).1 >= 1
}

/// A position that no earlier entry has the key at, and that has it or ends
/// the entries, is the position of the key.
pub proof fn lemma_key_position(
    entries: Seq<(Seq<char>, nat)>,
    key: Seq<char>,
    from: int,
    at: int,
)
    requires
        0 <= from <= at <= entries.len(),
        forall|j: int| from <= j < at ==> (#[trigger] entries[j]).0 != key,
        at == entries.len() || entries[at].0 == key,
    ensures
        key_position(entries, key, from) == at,
    decreases at - from,
{
    if from < at {
        lemma_key_position(entries, key, from + 1, at);
    }
}

/// The position of a key lies between where the search starts and the end,
/// and is where the key is first found.
pub proof fn lemma_key_position_bounds(entries: Seq<(Seq<char>, nat)>, key: Seq<char>, from: int)
    requires
        0 <= from <= entries.len(),
    ensures
        from <= key_position(entries, key, from) <= entries.len(),
        key_position(entries, key, from) < entries.len() ==> entries[key_position(
            entries,
            key,
            from,
        )].0 == key,
        forall|j: int|
            from <= j < key_position(entries, key, from) ==> (#[trigger] entries[j]).0 != key,
    decreases entries.len() - from,
{
    if from < entries.len() && entries[from].0 != key {
        lemma_key_position_bounds(entries, key, from + 1);
    }
}

/// Replacing the count of one entry changes the sum by the difference.
pub proof fn lemma_total_count_update(
    entries: Seq<(Seq<char>, nat)>,
    at: int,
    entry: (Seq<char>, nat),
)
    requires
        0 <= at < entries.len(),
    ensures
        total_count(entries.update(at, entry)) + entries[at].1 == total_count(entries) + entry.1,
        entries[at].1 <= total_count(entries),
    decreases entries.len(),
{
    let updated = entries.update(at, entry);
    if at == entries.len() - 1 {
        assert(updated.drop_last() == entries.drop_last());
    } else {
        lemma_total_count_update(entries.drop_last(), at, entry);
        assert(updated.drop_last() == entries.drop_last().update(at, entry));
    }
}

/// Adding an entry anywhere adds its count to the sum.
pub proof fn lemma_total_count_insert(
    entries: Seq<(Seq<char>, nat)>,
    at: int,
    entry: (Seq<char>, nat),
)
    requires
        0 <= at <= entries.len(),
    ensures
        total_count(entries.insert(at, entry)) == total_count(entries) + entry.1,
    decreases entries.len(),
{
    let inserted = entries.insert(at, entry);
    if at == entries.len() {
        assert(inserted.drop_last() == entries);
    } else {
        lemma_total_count_insert(entries.drop_last(), at, entry);
        assert(inserted.drop_last() == entries.drop_last().insert(at, entry));
    }
}

/// Counting samples keeps the entries tidy and adds their number to the sum.
pub proof fn lemma_bump(entries: Seq<(Seq<char>, nat)>, key: Seq<char>, n: nat)
    requires
        tidy(entries),
    ensures
        tidy(bump(entries, key, n)),
        total_count(bump(entries, key, n)) == total_count(entries) + n,
        count_of(bump(entries, key, n), key) == count_of(entries, key) + n,
{
    let at = key_position(entries, key, 0);
    let after = bump(entries, key, n);
    lemma_key_position_bounds(entries, key, 0);
    if n == 0 {
    } else if at < entries.len() {
        lemma_total_count_update(entries, at, (key, entries[at].1 + n));
        lemma_key_position(after, key, 0, at);
    } else {
        assert(after.drop_last() == entries);
        lemma_key_position(after, key, 0, at);
    }
}

/// The key under which a sample at `ip` is counted when its function is not
/// known: `unknown_0x<hex>`.
pub open spec fn unknown_key(ip: u64) -> Seq<char> {
    "unknown_0x"@ + hex_text(ip as nat)
}

/// The key under which a sample at `ip` is counted: the name of the function
/// that the resolution found, or the key for an unknown function.
pub open spec fn stack_key(found: Result<SymbolInfoView, ResolveError>, ip: u64) -> Seq<char> {
    match found {
        Ok(info) => match info.function {
            Some(name) => name,
            None => unknown_key(ip),
        },
        Err(_) => unknown_key(ip),
    }
}

/// What [`Aggregator::fold_stack`] answers.
#[derive(Debug)]
pub enum FoldStep {
    /// The key under which the sample is counted.
    Key(String),
    /// Read the memory map of the process and call again with its lines.
    ReadListing,
    /// Load the debug information of the binary at this path and call again,
    /// saying whether that worked.
    LoadImage(String),
    /// Look `address` up in the debug information of the binary at `path`
    /// and call again with what it says.
    LookUp { path: String, address: u64 },
}

/// What a [`FoldStep`] holds, with its texts as sequences of characters.
pub enum FoldStepView {
    Key(Seq<char>),
    ReadListing,
    LoadImage(Seq<char>),
    LookUp { path: Seq<char>, address: u64 },
}

impl View for FoldStep {
    type V = FoldStepView;

    open spec fn view(&self) -> FoldStepView {
        match self {
            FoldStep::Key(key) => FoldStepView::Key(key@),
            FoldStep::ReadListing => FoldStepView::ReadListing,
            FoldStep::LoadImage(path) => FoldStepView::LoadImage(path@),
            FoldStep::LookUp { path, address } => FoldStepView::LookUp {
                path: path@,
                address: *address,
            },
        }
    }
}

/// The answer of `fold_stack` to a step of the resolution of `ip`.
pub open spec fn fold_step(step: ResolveStepView, ip: u64) -> FoldStepView {
    match step {
        ResolveStepView::Done(found) => FoldStepView::Key(stack_key(found, ip)),
        ResolveStepView::ReadListing => FoldStepView::ReadListing,
        ResolveStepView::LoadImage(path) => FoldStepView::LoadImage(path),
        ResolveStepView::LookUp { path, address } => FoldStepView::LookUp { path, address },
    }
}

/// One call of [`Aggregator::fold_stack`], as a function of the state and
/// of what the caller has found out: one step of the resolution of `ip`,
/// whose end gives the key.
pub open spec fn fold_outcome(
    state: AggregatorView,
    pid: u32,
    ip: u64,
    listing: Fetched<Seq<Seq<char>>>,
    binary: Loaded,
    lookup: Option<FrameLookupView>,
) -> (AggregatorView, FoldStepView) {
    let outcome = resolve_outcome(state.cache, state.loaded, pid, ip, listing, binary, lookup);
    (
        AggregatorView { cache: outcome.cache, loaded: outcome.loaded, ..state },
        fold_step(outcome.step, ip),
    )
}

/// What [`Aggregator::process_samples`] answers.
#[derive(Debug)]
pub enum ProcessStep {
    /// Every sample has been counted.
    Finished,
    /// The samples before `at` have been counted. Read the memory map of the
    /// process `pid` and call again from `at` with its lines.
    ReadListing { at: usize, pid: u32 },
    /// The samples before `at` have been counted. Load the debug information
    /// of the binary at `path` and call again from `at`, saying whether that
    /// worked.
    LoadImage { at: usize, path: String },
    /// The samples before `at` have been counted. Look `address` up in the
    /// debug information of the binary at `path` and call again from `at`
    /// with what it says.
    LookUp { at: usize, path: String, address: u64 },
}

/// What a [`ProcessStep`] holds, with its texts as sequences of characters.
pub enum ProcessStepView {
    Finished,
    ReadListing { at: int, pid: u32 },
    LoadImage { at: int, path: Seq<char> },
    LookUp { at: int, path: Seq<char>, address: u64 },
}

impl View for ProcessStep {
    type V = ProcessStepView;

    open spec fn view(&self) -> ProcessStepView {
        match self {
            ProcessStep::Finished => ProcessStepView::Finished,
            ProcessStep::ReadListing { at, pid } => ProcessStepView::ReadListing {
                at: *at as int,
                pid: *pid,
            },
            ProcessStep::LoadImage { at, path } => ProcessStepView::LoadImage {
                at: *at as int,
                path: path@,
            },
            ProcessStep::LookUp { at, path, address } => ProcessStepView::LookUp {
                at: *at as int,
                path: path@,
                address: *address,
            },
        }
    }
}

/// The sample with which the work goes on after `step`; `len`, the number of
/// samples, when it has finished.
pub open spec fn resume_at(step: ProcessStepView, len: int) -> int {
    match step {
        ProcessStepView::Finished => len,
        ProcessStepView::ReadListing { at, .. } => at,
        ProcessStepView::LoadImage { at, .. } => at,
        ProcessStepView::LookUp { at, .. } => at,
    }
}

/// What an [`Aggregator`] holds.
pub struct AggregatorView {
    /// Keys and their counts, in the order in which the keys first came.
    pub entries: Seq<(Seq<char>, nat)>,
    /// The number of samples counted.
    pub total: nat,
    /// The cached symbols of the resolver.
    pub cache: Map<u128, SymbolInfoView>,
    /// The paths of the binaries whose debug information is loaded.
    pub loaded: Seq<Seq<char>>,
}

/// One call of [`Aggregator::process_samples`], as a function of the state
/// and of what the caller has found out for the sample at `from`. The
/// samples from `from` on are counted, each under its key, up to the first
/// that needs something from the caller.
pub open spec fn process_outcome(
    state: AggregatorView,
    samples: Seq<Sample>,
    from: int,
    listing: Fetched<Seq<Seq<char>>>,
    binary: Loaded,
    lookup: Option<FrameLookupView>,
) -> (AggregatorView, ProcessStepView)
    decreases samples.len() - from,
{
    if from < 0 || from >= samples.len() {
        (state, ProcessStepView::Finished)
    } else {
        let pid = samples[from].pid as u32;
        let ip = samples[from].instruction_pointer;
        let (folded, step) = fold_outcome(state, pid, ip, listing, binary, lookup);
        match step {
            FoldStepView::Key(key) => process_outcome(
                AggregatorView {
                    entries: bump(folded.entries, key, 1),
                    total: folded.total + 1,
                    ..folded
                },
                samples,
                from + 1,
                Fetched::Pending,
                Loaded::Pending,
                None,
            ),
            FoldStepView::ReadListing => (folded, ProcessStepView::ReadListing { at: from, pid }),
            FoldStepView::LoadImage(path) => (
                folded,
                ProcessStepView::LoadImage { at: from, path },
            ),
            FoldStepView::LookUp { path, address } => (
                folded,
                ProcessStepView::LookUp { at: from, path, address },
            ),
        }
    }
}

/// A call of `process_samples` counts each sample that it
/// gets past exactly once. The total stays the sum of the counts and grows
/// by the number of samples counted, and no key gets a second entry.
pub proof fn lemma_process_conserves_samples(
    state: AggregatorView,
    samples: Seq<Sample>,
    from: int,
    listing: Fetched<Seq<Seq<char>>>,
    binary: Loaded,
    lookup: Option<FrameLookupView>,
)
    requires
        tidy(state.entries),
        state.total == total_count(state.entries),
        0 <= from <= samples.len(),
    ensures
        ({
            let (after, step) = process_outcome(state, samples, from, listing, binary, lookup);
            &&& tidy(after.entries)
            &&& after.total == total_count(after.entries)
            &&& from <= resume_at(step, samples.len() as int) <= samples.len()
            &&& after.total == state.total + resume_at(step, samples.len() as int) - from
            &&& step is Finished ==> total_count(after.entries) == state.total + samples.len()
                - from
        }),
    decreases samples.len() - from,
{
    if from < samples.len() {
        let pid = samples[from].pid as u32;
        let ip = samples[from].instruction_pointer;
        let (folded, step) = fold_outcome(state, pid, ip, listing, binary, lookup);
        if let FoldStepView::Key(key) = step {
            lemma_bump(state.entries, key, 1);
            lemma_process_conserves_samples(
                AggregatorView {
                    entries: bump(folded.entries, key, 1),
                    total: folded.total + 1,
                    ..folded
                },
                samples,
                from + 1,
                Fetched::Pending,
                Loaded::Pending,
                None,
            );
        }
    }
}

/// The keys and counts of the entries of a report.
pub open spec fn stat_entries(stats: Seq<FunctionStats>) -> Seq<(Seq<char>, nat)> {
    stats.map_values(|stat: FunctionStats| (stat.name@, stat.count as nat))
}

/// Whether no entry is counted more often than one before it.
pub open spec fn sorted_by_count(stats: Seq<FunctionStats>) -> bool {
    forall|i: int, j: int|
        0 <= i < j < stats.len() ==> (#[trigger] stats[i]).count >= (#[trigger] stats[j]).count
}

/// The keys of `entries`, in order.
pub open spec fn keys_of(entries: Seq<(Seq<char>, nat)>) -> Seq<Seq<char>> {
    entries.map_values(|entry: (Seq<char>, nat)| entry.0)
}

/// Whether `report` is the report of `total` samples counted as `entries`
/// say: its entries are those of `entries` in another order, most frequent
/// first, each with its share of the total, and the counts add up to the
/// total.
pub open spec fn report_of(report: Report, entries: Seq<(Seq<char>, nat)>, total: nat) -> bool {
    &&& report.total_samples == total
    &&& stat_entries(report.stats@).to_multiset() == entries.to_multiset()
    &&& sorted_by_count(report.stats@)
    &&& total_count(stat_entries(report.stats@)) == total
    &&& forall|i: int|
        0 <= i < report.stats@.len() ==> {
            let stat = #[trigger] report.stats@[i];
            &&& 1 <= stat.count <= total
            &&& stat.percentage == (Percentage { part: stat.count, whole: report.total_samples })
        }
    &&& line_texts(report.folded_stacks@) == keys_of(entries)
}

/// The sum of the shares of `stats`, each multiplied by its whole: a share
/// is `part / whole × 100`, so this adds `100 × part`.
pub open spec fn shares_times_whole(stats: Seq<FunctionStats>) -> nat
    decreases stats.len(),
{
    if stats.len() == 0 {
        0
    } else {
        shares_times_whole(stats.drop_last()) + 100 * (stats.last().percentage.part as nat)
    }
}

/// In a report every share lies between 0 and 100 percent, and
/// when the report counts any sample its shares add up to 100 percent. Both
/// are stated multiplied by the whole, so that no division is needed.
pub proof fn lemma_shares_add_up(report: Report, entries: Seq<(Seq<char>, nat)>, total: nat)
    requires
        report_of(report, entries, total),
    ensures
        forall|i: int|
            0 <= i < report.stats@.len() ==> {
                let share = (#[trigger] report.stats@[i]).percentage;
                &&& share.whole == total
                &&& share.whole > 0
                &&& 0 <= 100 * share.part <= 100 * share.whole
            },
        shares_times_whole(report.stats@) == 100 * total,
        total == 0 <==> report.stats@.len() == 0,
{
    lemma_shares_are_counts(report.stats@);
    if total == 0 && report.stats@.len() > 0 {
        assert(report.stats@[0].count >= 1);
    }
}

/// The keys that stand for an address whose function is not known are not
/// empty, nor are the names that the resolver makes up. So the key of a
/// sample is empty only where debug information names a function so.
pub proof fn lemma_made_up_names_are_not_empty(
    found: Result<SymbolInfoView, ResolveError>,
    ip: u64,
    pathname: Seq<char>,
    relative: u64,
)
    ensures
        unknown_key(ip).len() > 0,
        fallback_symbol(pathname, relative).function matches Some(name) && name.len() > 0,
        frameless_symbol(pathname, relative).function matches Some(name) && name.len() > 0,
        stack_key(found, ip).len() > 0 || (found matches Ok(info) && info.function == Some(
            Seq::<char>::empty(),
        )),
{
    lemma_hex_round_trip(ip as nat);
    lemma_hex_round_trip(relative as nat);
    if let Ok(info) = found {
        if let Some(name) = info.function {
            if name.len() == 0 {
                assert(name =~= Seq::<char>::empty());
            }
        }
    }
}

/// The names of a report are the keys that were counted: where no key is
/// empty, no name of the report is.
pub proof fn lemma_report_names_are_keys(
    report: Report,
    entries: Seq<(Seq<char>, nat)>,
    total: nat,
)
    requires
        report_of(report, entries, total),
        forall|i: int| 0 <= i < entries.len() ==> (#[trigger] entries[i]).0.len() > 0,
    ensures
        forall|i: int|
            0 <= i < report.stats@.len() ==> (#[trigger] report.stats@[i]).name@.len() > 0,
{
    let shown = stat_entries(report.stats@);
    let stats = report.stats@;
    assert forall|i: int| 0 <= i < stats.len() implies (#[trigger] stats[i]).name@.len() > 0 by {
        let entry = shown[i];
        assert(shown.contains(entry));
        vstd::seq_lib::to_multiset_contains(shown, entry);
        vstd::seq_lib::to_multiset_contains(entries, entry);
        let j = choose|j: int| 0 <= j < entries.len() && entries[j] == entry;
        assert(entries[j].0.len() > 0);
    }
}

/// Where every share is the count of its entry, the shares times the whole
/// add up to a hundred times the counts.
pub proof fn lemma_shares_are_counts(stats: Seq<FunctionStats>)
    requires
        forall|i: int|
            0 <= i < stats.len() ==> (#[trigger] stats[i]).percentage.part == stats[i].count,
    ensures
        shares_times_whole(stats) == 100 * total_count(stat_entries(stats)),
    decreases stats.len(),
{
    if stats.len() > 0 {
        lemma_shares_are_counts(stats.drop_last());
        assert(stat_entries(stats).drop_last() == stat_entries(stats.drop_last()));
    }
}

/// Whether the counts that `view` holds are sound: no key has two entries,
/// no entry counts nothing, and the total is the sum of the counts. Every
/// aggregator is so, at all times.
pub open spec fn consistent(view: AggregatorView) -> bool {
    &&& tidy(view.entries)
    &&& view.total == total_count(view.entries)
    &&& view.total <= usize::MAX
}

/// One counted key.
struct Tally {
    name: String,
    count: usize,
}

/// The counts by key, in the order in which the keys first came.
struct Histogram {
    tallies: Vec<Tally>,
    total: usize,
}

impl Histogram {
    #[verifier::type_invariant]
    spec fn well_formed(self) -> bool {
        &&& tidy(self.entries())
        &&& self.total == total_count(self.entries())
    }

    spec fn entries(self) -> Seq<(Seq<char>, nat)> {
        self.tallies@.map_values(|tally: Tally| (tally.name@, tally.count as nat))
    }

    fn new() -> (histogram: Self)
        ensures
            histogram.entries() == Seq::<(Seq<char>, nat)>::empty(),
            histogram.total == 0,
    {
        let histogram = Histogram { tallies: Vec::new(), total: 0 };
        assert(histogram.entries() =~= Seq::<(Seq<char>, nat)>::empty());
        histogram
    }

    fn total(&self) -> (total: usize)
        ensures
            total == self.total,
            tidy(self.entries()),
            self.total == total_count(self.entries()),
    {
        proof {
            use_type_invariant(self);
        }
        self.total
    }

    /// Counts `n` more samples under `key`.
    fn add(&mut self, key: String, n: usize)
        requires
            old(self).total + n <= usize::MAX,
        ensures
            final(self).entries() == bump(old(self).entries(), key@, n as nat),
            final(self).total == old(self).total + n,
            tidy(final(self).entries()),
            final(self).total == total_count(final(self).entries()),
    {
        proof {
            use_type_invariant(&*self);
        }
        let ghost entries = self.entries();
        proof {
            lemma_bump(entries, key@, n as nat);
        }
        if n == 0 {
            return;
        }
        // The counts are taken out of `self`, worked on and put back.
        let mut taken = Histogram::new();
        std::mem::swap(self, &mut taken);
        let Histogram { tallies, total } = taken;
        let mut tallies = tallies;
        let mut at: usize = 0;
        while at < tallies.len()
            invariant
                at <= tallies@.len(),
                entries == tallies@.map_values(|tally: Tally| (tally.name@, tally.count as nat)),
                forall|j: int| 0 <= j < at ==> (#[trigger] entries[j]).0 != key@,
            ensures
                at <= tallies@.len(),
                forall|j: int| 0 <= j < at ==> (#[trigger] entries[j]).0 != key@,
                at == tallies@.len() || entries[at as int].0 == key@,
            decreases tallies@.len() - at,
        {
            if tallies[at].name == key {
                break;
            }
            at += 1;
        }
        proof {
            lemma_key_position(entries, key@, 0, at as int);
        }
        if at < tallies.len() {
            let count = tallies[at].count;
            proof {
                lemma_total_count_update(entries, at as int, (key@, (count + n) as nat));
            }
            tallies.set(at, Tally { name: key, count: count + n });
        } else {
            tallies.push(Tally { name: key, count: n });
        }
        assert(tallies@.map_values(|tally: Tally| (tally.name@, tally.count as nat)) =~= bump(
            entries,
            key@,
            n as nat,
        ));
        *self = Histogram { tallies, total: total + n };
    }

    /// The report of the counts.
    fn report(&self) -> (report: Report)
        ensures
            report_of(report, self.entries(), self.total as nat),
    {
        proof {
            use_type_invariant(self);
        }
        let ghost entries = self.entries();
        let mut stats: Vec<FunctionStats> = Vec::new();
        let mut folded_stacks: Vec<String> = Vec::new();
        let mut at: usize = 0;
        assert(entries.take(0) == Seq::<(Seq<char>, nat)>::empty());
        assert(stat_entries(stats@) == Seq::<(Seq<char>, nat)>::empty());
        assert(line_texts(folded_stacks@) == keys_of(entries.take(0)));
        while at < self.tallies.len()
            invariant
                at <= self.tallies@.len(),
                tidy(entries),
                self.total == total_count(entries),
                entries == self.entries(),
                entries.len() == self.tallies@.len(),
                stat_entries(stats@).to_multiset() == entries.take(at as int).to_multiset(),
                sorted_by_count(stats@),
                total_count(stat_entries(stats@)) == total_count(entries.take(at as int)),
                forall|i: int|
                    0 <= i < stats@.len() ==> {
                        let stat = #[trigger] stats@[i];
                        &&& 1 <= stat.count <= self.total
                        &&& stat.percentage == (Percentage { part: stat.count, whole: self.total })
                    },
                line_texts(folded_stacks@) == keys_of(entries.take(at as int)),
            decreases self.tallies@.len() - at,
        {
            let name = self.tallies[at].name.clone();
            let count = self.tallies[at].count;
            let ghost entry = entries[at as int];
            assert(entry == (name@, count as nat));
            proof {
                lemma_total_count_update(entries, at as int, entry);
            }
            // After every entry that is counted at least as often.
            let mut to: usize = 0;
            while to < stats.len() && stats[to].count >= count
                invariant
                    to <= stats@.len(),
                    forall|i: int| 0 <= i < to ==> (#[trigger] stats@[i]).count >= count,
                decreases stats@.len() - to,
            {
                to += 1;
            }
            let ghost before = stats@;
            stats.insert(
                to,
                FunctionStats {
                    name,
                    count,
                    percentage: Percentage { part: count, whole: self.total },
                },
            );
            folded_stacks.push(self.tallies[at].name.clone());
            proof {
                let taken = entries.take(at as int);
                assert(entries.take(at + 1) == taken.push(entry));
                assert(stat_entries(stats@) == stat_entries(before).insert(to as int, entry));
                vstd::seq_lib::to_multiset_insert(stat_entries(before), to as int, entry);
                vstd::seq_lib::to_multiset_build(taken, entry);
                lemma_total_count_insert(stat_entries(before), to as int, entry);
                assert(taken.push(entry).drop_last() == taken);
                assert(line_texts(folded_stacks@) =~= keys_of(taken).push(entry.0));
                assert(keys_of(taken.push(entry)) =~= keys_of(taken).push(entry.0));
                assert forall|i: int, j: int| 0 <= i < j < stats@.len() implies (
                #[trigger] stats@[i]).count >= (#[trigger] stats@[j]).count by {
                    if j < to {
                        assert(stats@[i] == before[i] && stats@[j] == before[j]);
                    } else if j == to {
                        assert(stats@[i] == before[i]);
                    } else if i < to {
                        assert(stats@[i] == before[i] && stats@[j] == before[j - 1]);
                    } else if i == to {
                        assert(stats@[j] == before[j - 1]);
                        assert(before[to as int].count < count);
                        assert(before[to as int].count >= before[j - 1].count || to == j - 1);
                    } else {
                        assert(stats@[i] == before[i - 1] && stats@[j] == before[j - 1]);
                    }
                }
            }
            at += 1;
        }
        assert(entries.take(at as int) == entries);
        Report { total_samples: self.total, stats, folded_stacks }
    }
}

/// Counts samples by the function they fell into.
pub struct Aggregator {
    histogram: Histogram,
    resolver: SymbolResolver,
}

impl View for Aggregator {
    type V = AggregatorView;

    closed spec fn view(&self) -> AggregatorView {
        AggregatorView {
            entries: self.histogram.entries(),
            total: self.histogram.total as nat,
            cache: self.resolver.cache(),
            loaded: self.resolver.loaded(),
        }
    }
}

/// The key under which a sample at `ip` is counted when its function is not
/// known.
pub fn unknown_key_of(ip: u64) -> (key: String)
    ensures
        key@ == unknown_key(ip),
{
    let mut key = String::from_str("unknown_0x");
    push_hex(&mut key, ip);
    key
}

impl Aggregator {
    /// An aggregator that has counted nothing.
    pub fn new() -> (aggregator: Self)
        ensures
            aggregator@.entries == Seq::<(Seq<char>, nat)>::empty(),
            aggregator@.total == 0,
            aggregator@.cache == Map::<u128, SymbolInfoView>::empty(),
            aggregator@.loaded == Seq::<Seq<char>>::empty(),
            consistent(aggregator@),
    {
        Aggregator { histogram: Histogram::new(), resolver: SymbolResolver::new() }
    }

    /// The number of samples counted.
    pub fn total_samples(&self) -> (total: usize)
        ensures
            total == self@.total,
            consistent(self@),
    {
        self.histogram.total()
    }

    /// Counts `n` more samples under `key`.
    pub fn add_count(&mut self, key: String, n: usize)
        requires
            old(self)@.total + n <= usize::MAX,
        ensures
            final(self)@ == (AggregatorView {
                entries: bump(old(self)@.entries, key@, n as nat),
                total: old(self)@.total + n as nat,
                ..old(self)@
            }),
            consistent(final(self)@),
    {
        self.histogram.add(key, n);
    }

    /// Finds the key under which a sample of the process `pid` at `ip` is
    /// counted, as far as what the caller has found out allows: see
    /// [`fold_outcome`].
    pub fn fold_stack(
        &mut self,
        pid: u32,
        ip: u64,
        listing: Fetched<&Vec<String>>,
        binary: Loaded,
        lookup: Option<FrameLookup>,
    ) -> (step: FoldStep)
        ensures
            fold_outcome(old(self)@, pid, ip, listing_view(listing), binary, lookup_view(lookup))
                == (final(self)@, step@),
    {
        match self.resolver.resolve(pid, ip, listing, binary, lookup) {
            ResolveStep::Done(Ok(info)) => match info.function {
                Some(name) => FoldStep::Key(name),
                None => FoldStep::Key(unknown_key_of(ip)),
            },
            ResolveStep::Done(Err(_)) => FoldStep::Key(unknown_key_of(ip)),
            ResolveStep::ReadListing => FoldStep::ReadListing,
            ResolveStep::LoadImage(path) => FoldStep::LoadImage(path),
            ResolveStep::LookUp { path, address } => FoldStep::LookUp { path, address },
        }
    }

    /// Counts the samples from `from` on, each under its key, up to the
    /// first that needs something from the caller: see [`process_outcome`].
    /// `listing`, `binary` and `lookup` are what the caller has found out
    /// for the sample at `from`.
    pub fn process_samples(
        &mut self,
        samples: &Vec<Sample>,
        from: usize,
        listing: Fetched<&Vec<String>>,
        binary: Loaded,
        lookup: Option<FrameLookup>,
    ) -> (step: ProcessStep)
        requires
            from <= samples.len(),
            old(self)@.total + (samples.len() - from) <= usize::MAX,
        ensures
            process_outcome(
                old(self)@,
                samples@,
                from as int,
                listing_view(listing),
                binary,
                lookup_view(lookup),
            ) == (final(self)@, step@),
            from <= resume_at(step@, samples.len() as int) <= samples.len(),
            final(self)@.total == old(self)@.total + resume_at(step@, samples.len() as int) - from,
            consistent(final(self)@),
    {
        let ghost expected = process_outcome(
            self@,
            samples@,
            from as int,
            listing_view(listing),
            binary,
            lookup_view(lookup),
        );
        proof {
            use_type_invariant(&self.histogram);
        }
        let mut next_listing = listing;
        let mut next_binary = binary;
        let mut next_lookup = lookup;
        let mut at: usize = from;
        while at < samples.len()
            invariant
                from <= at <= samples.len(),
                consistent(self@),
                self@.total == old(self)@.total + (at - from),
                old(self)@.total + (samples.len() - from) <= usize::MAX,
                expected == process_outcome(
                    old(self)@,
                    samples@,
                    from as int,
                    listing_view(listing),
                    binary,
                    lookup_view(lookup),
                ),
                expected == process_outcome(
                    self@,
                    samples@,
                    at as int,
                    listing_view(next_listing),
                    next_binary,
                    lookup_view(next_lookup),
                ),
            decreases samples.len() - at,
        {
            let pid = #[verifier::truncate] (samples[at].pid as u32);
            let ip = samples[at].instruction_pointer;
            match self.fold_stack(pid, ip, next_listing, next_binary, next_lookup) {
                FoldStep::Key(key) => {
                    self.add_count(key, 1);
                    next_listing = Fetched::Pending;
                    next_binary = Loaded::Pending;
                    next_lookup = None;
                    at += 1;
                },
                FoldStep::ReadListing => {
                    return ProcessStep::ReadListing { at, pid };
                },
                FoldStep::LoadImage(path) => {
                    return ProcessStep::LoadImage { at, path };
                },
                FoldStep::LookUp { path, address } => {
                    return ProcessStep::LookUp { at, path, address };
                },
            }
        }
        ProcessStep::Finished
    }

    /// The report of what has been counted: one entry per key with its
    /// count and its share of the total, keys counted most often first, and
    /// among keys counted equally often the one that came first.
    pub fn generate_report(&self) -> (report: Report)
        ensures
            report_of(report, self@.entries, self@.total),
            total_count(stat_entries(report.stats@)) == report.total_samples,
            sorted_by_count(report.stats@),
            consistent(self@),
    {
        proof {
            use_type_invariant(&self.histogram);
        }
        self.histogram.report()
    }
}

} // verus!
