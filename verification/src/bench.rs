//! The benchmark: the keys it uses, and the report that it gives.

use vstd::prelude::*;
use vstd::string::*;

use crate::bytes::ascii_bytes;
use crate::random::random_bytes;
use crate::text::{format_u64, join2, join3, same, text};

verus! {

/// What the benchmark of writes is run with.
#[derive(Debug, Clone, PartialEq, Eq)]
pub struct PutConfig {
    pub endpoint: String,
    pub total: usize,
    pub clients: usize,
    pub key_size: usize,
    pub val_size: usize,
    pub sequential: bool,
}

/// What the benchmark of reads is run with.
#[derive(Debug, Clone, PartialEq, Eq)]
pub struct RangeConfig {
    pub endpoint: String,
    pub total: usize,
    pub clients: usize,
    pub key_size: usize,
    pub val_size: usize,
}

/// A number of zeros, as digits.
pub open spec fn zeros(n: int) -> Seq<u8> {
    Seq::new(
        if n > 0 {
            n as nat
        } else {
            0
        },
        |i: int| 0x30u8,
    )
}

/// A number in decimal digits, with zeros in front up to a width.
pub open spec fn padded(i: nat, width: int) -> Seq<u8> {
    let digits = crate::bytes::ascii(crate::text::decimal(i));
    zeros(width - digits.len()) + digits
}

/// Cut to a length, or filled up to it with zeros at the end.
pub open spec fn resized(s: Seq<u8>, size: int) -> Seq<u8> {
    if s.len() >= size {
        s.take(size)
    } else {
        s + zeros(size - s.len())
    }
}

/// The key of the i-th operation where keys are sequential: a decimal number one
/// digit short of the size, and a zero behind it.
pub open spec fn sequential_key(i: u64, size: usize) -> Seq<u8> {
    resized(
        padded(
            i as nat,
            if size > 0 {
                size - 1
            } else {
                0
            },
        ),
        size as int,
    )
}

/// Generate a key for the i-th operation.
/// If `sequential`, key is a fixed-width decimal string.
/// Otherwise, key is random bytes.
pub fn generate_key(i: u64, size: usize, sequential: bool) -> (r: Vec<u8>)
    ensures
        sequential ==> r@ == sequential_key(i, size),
        r@.len() == size,
{
    if !sequential {
        return random_bytes(size);
    }
    let width: usize = if size > 0 {
        size - 1
    } else {
        0
    };
    proof {
        decimal_is_ascii(i as nat);
    }
    let digits = ascii_bytes(format_u64(i).as_str());
    let mut key: Vec<u8> = Vec::new();
    let zeros_wanted: usize = if digits.len() < width {
        width - digits.len()
    } else {
        0
    };
    let mut n: usize = 0;
    while n < zeros_wanted
        invariant
            n <= zeros_wanted,
            key@ == zeros(n as int),
        decreases zeros_wanted - n,
    {
        key.push(0x30);
        assert(key@ =~= zeros(n + 1));
        n = n + 1;
    }
    let mut all = crate::bytes::concat(key.as_slice(), digits.as_slice());
    let ghost whole = padded(i as nat, width as int);
    assert(all@ =~= whole);
    if all.len() >= size {
        all.truncate(size);
        assert(all@ =~= whole.take(size as int));
        return all;
    }
    while all.len() < size
        invariant
            whole.len() <= all@.len() <= size,
            all@ == whole + zeros(all@.len() - whole.len()),
        decreases size - all@.len(),
    {
        let ghost before = all@;
        all.push(0x30);
        assert(all@ =~= whole + zeros(before.len() + 1 - whole.len()));
    }
    all
}

proof fn decimal_is_ascii(n: nat)
    ensures
        vstd::utf8::is_ascii_chars(crate::text::decimal(n)),
{
    crate::text::number_reads_decimal(n, n);
    let d = crate::text::decimal(n);
    assert forall|i: int| 0 <= i < d.len() implies #[trigger] d[i] <= '9' by {
        assert(crate::text::is_digit(d[i]));
    }
}

/// The client that makes the i-th request: they take turns.
pub fn worker_of(i: usize, clients: usize) -> (r: usize)
    requires
        clients > 0,
    ensures
        r == i % clients,
        r < clients,
{
    i % clients
}

/// A single benchmark result: when the request was made and when it was answered,
/// in nanoseconds, and what went wrong.
#[derive(Debug, Clone, PartialEq, Eq)]
pub struct BenchResult {
    pub start: u64,
    pub end: u64,
    pub err: Option<String>,
}

impl BenchResult {
    /// How long the request took; nothing if it was answered before it was made.
    pub open spec fn took(self) -> u64 {
        if self.end >= self.start {
            (self.end - self.start) as u64
        } else {
            0
        }
    }

    pub fn latency(&self) -> (r: u64)
        ensures
            r == self.took(),
    {
        if self.end >= self.start {
            self.end - self.start
        } else {
            0
        }
    }
}

/// How long the requests took that went well, in order.
pub open spec fn latencies_of(results: Seq<BenchResult>) -> Seq<u64>
    decreases results.len(),
{
    if results.len() == 0 {
        Seq::empty()
    } else if results.last().err is None {
        latencies_of(results.drop_last()).push(results.last().took())
    } else {
        latencies_of(results.drop_last())
    }
}

/// What went wrong, in order.
pub open spec fn errors_of(results: Seq<BenchResult>) -> Seq<Seq<char>>
    decreases results.len(),
{
    if results.len() == 0 {
        Seq::empty()
    } else if results.last().err is Some {
        errors_of(results.drop_last()).push(results.last().err->Some_0@)
    } else {
        errors_of(results.drop_last())
    }
}

/// No number is larger than one behind it.
pub open spec fn ascending(s: Seq<u64>) -> bool {
    forall|i: int, j: int| 0 <= i <= j < s.len() ==> s[i] <= s[j]
}

/// Collects benchmark results and generates reports.
#[derive(Debug)]
pub struct Report {
    results: Vec<BenchResult>,
}

/// The figures of a report that are no whole numbers, as text. Times are in
/// milliseconds.
#[derive(Debug, Clone)]
pub struct Figures {
    pub wall: String,
    pub slowest: String,
    pub fastest: String,
    pub average: String,
    pub stddev: String,
    pub rps: String,
    /// For 10, 25, 50, 75, 90, 95, 99 and 99.9 per cent.
    pub percentiles: [String; 8],
}

/// A line of a report.
pub open spec fn line(label: Seq<char>, value: Seq<char>, unit: Seq<char>) -> Seq<char> {
    "  "@ + label + value + unit + "\n"@
}

/// The percentages of the latency distribution.
pub open spec fn percentage(i: int) -> Seq<char> {
    if i == 0 {
        " 10.0"@
    } else if i == 1 {
        " 25.0"@
    } else if i == 2 {
        " 50.0"@
    } else if i == 3 {
        " 75.0"@
    } else if i == 4 {
        " 90.0"@
    } else if i == 5 {
        " 95.0"@
    } else if i == 6 {
        " 99.0"@
    } else {
        " 99.9"@
    }
}

/// The first lines of the latency distribution.
pub open spec fn percentile_lines(values: Seq<String>, n: int) -> Seq<char>
    decreases n,
{
    if n <= 0 {
        Seq::empty()
    } else {
        percentile_lines(values, n - 1) + line(percentage(n - 1), "%:  "@ + values[n - 1]@, " ms"@)
    }
}

/// Errors that were counted, with one more.
pub open spec fn counted(t: Seq<(Seq<char>, nat)>, e: Seq<char>) -> Seq<(Seq<char>, nat)> {
    counted_from(t, e, 0)
}

/// Errors that were counted, with one more that does not stand before `i`.
pub open spec fn counted_from(t: Seq<(Seq<char>, nat)>, e: Seq<char>, i: int) -> Seq<
    (Seq<char>, nat),
>
    decreases t.len() - i,
{
    if i < 0 || i >= t.len() {
        t.push((e, 1))
    } else if t[i].0 == e {
        t.update(i, (e, t[i].1 + 1))
    } else {
        counted_from(t, e, i + 1)
    }
}

/// How often each error came, in the order in which they came first.
pub open spec fn tally(errors: Seq<Seq<char>>) -> Seq<(Seq<char>, nat)>
    decreases errors.len(),
{
    if errors.len() == 0 {
        Seq::empty()
    } else {
        counted(tally(errors.drop_last()), errors.last())
    }
}

/// The first lines of the error distribution.
pub open spec fn error_lines(t: Seq<(Seq<char>, nat)>, n: int) -> Seq<char>
    decreases n,
{
    if n <= 0 {
        Seq::empty()
    } else {
        error_lines(t, n - 1) + line(crate::text::decimal(t[n - 1].1), "\t"@ + t[n - 1].0, ""@)
    }
}

/// The summary of a report.
pub open spec fn summary_text(requests: nat, errors: nat, f: Figures) -> Seq<char> {
    "\nSummary:\n"@ + line("Wall time:    "@, f.wall@, " ms"@) + line(
        "Requests:     "@,
        crate::text::decimal(requests),
        ""@,
    ) + (if errors > 0 {
        line("Errors:       "@, crate::text::decimal(errors), ""@)
    } else {
        Seq::empty()
    }) + line("Slowest:      "@, f.slowest@, " ms"@) + line(
        "Fastest:      "@,
        f.fastest@,
        " ms"@,
    ) + line("Average:      "@, f.average@, " ms"@) + line("Stddev:       "@, f.stddev@, " ms"@)
        + line("RPS:          "@, f.rps@, ""@)
}

/// A whole report.
pub open spec fn report_text(requests: nat, errors: Seq<Seq<char>>, f: Figures) -> Seq<char> {
    summary_text(requests, errors.len(), f) + ("\nLatency Distribution:\n"@ + percentile_lines(
        f.percentiles@,
        8,
    )) + (if errors.len() > 0 {
        "\nError Distribution:\n"@ + error_lines(tally(errors), tally(errors).len() as int)
    } else {
        Seq::empty()
    })
}

fn add_line(out: &mut String, label: &str, value: &str, unit: &str)
    ensures
        final(out)@ == old(out)@ + line(label@, value@, unit@),
{
    let ghost before = out@;
    out.append("  ");
    out.append(label);
    out.append(value);
    out.append(unit);
    out.append("\n");
    assert(out@ =~= before + line(label@, value@, unit@));
}

fn percentage_text(i: usize) -> (r: &'static str)
    requires
        i < 8,
    ensures
        r@ == percentage(i as int),
{
    if i == 0 {
        " 10.0"
    } else if i == 1 {
        " 25.0"
    } else if i == 2 {
        " 50.0"
    } else if i == 3 {
        " 75.0"
    } else if i == 4 {
        " 90.0"
    } else if i == 5 {
        " 95.0"
    } else if i == 6 {
        " 99.0"
    } else {
        " 99.9"
    }
}

/// What is known of counted errors.
pub open spec fn tally_views(list: Seq<(String, usize)>) -> Seq<(Seq<char>, nat)> {
    list.map_values(|c: (String, usize)| (c.0@, c.1 as nat))
}

/// No error was counted more than `n` times.
pub open spec fn counts_up_to(t: Seq<(Seq<char>, nat)>, n: nat) -> bool {
    forall|i: int| 0 <= i < t.len() ==> (#[trigger] t[i]).1 <= n
}

fn count_error(list: &mut Vec<(String, usize)>, err: &str)
    requires
        counts_up_to(tally_views(old(list)@), (usize::MAX - 1) as nat),
    ensures
        tally_views(final(list)@) == counted(tally_views(old(list)@), err@),
{
    let ghost before = tally_views(list@);
    let mut i: usize = 0;
    while i < list.len()
        invariant
            i <= list@.len(),
            *list == *old(list),
            before == tally_views(list@),
            counts_up_to(before, (usize::MAX - 1) as nat),
            counted(before, err@) == counted_from(before, err@, i as int),
        decreases list@.len() - i,
    {
        assert(before[i as int] == (list@[i as int].0@, list@[i as int].1 as nat));
        if same(list[i].0.as_str(), err) {
            let n: usize = list[i].1;
            list.set(i, (text(err), n + 1));
            assert(tally_views(list@) =~= before.update(i as int, (err@, (n + 1) as nat)));
            return;
        }
        i = i + 1;
    }
    list.push((text(err), 1));
    assert(tally_views(list@) =~= before.push((err@, 1)));
}

impl Report {
    /// What was collected.
    pub closed spec fn collected(&self) -> Seq<BenchResult> {
        self.results@
    }

    pub fn new() -> (r: Self)
        ensures
            r.collected() == Seq::<BenchResult>::empty(),
    {
        Report { results: Vec::new() }
    }

    pub fn push(&mut self, result: BenchResult)
        ensures
            final(self).collected() == old(self).collected().push(result),
    {
        self.results.push(result);
    }

    /// How long the requests took that went well, the shortest first.
    pub fn latencies(&self) -> (r: Vec<u64>)
        ensures
            ascending(r@),
            r@.to_multiset() == latencies_of(self.collected()).to_multiset(),
            r@.len() == latencies_of(self.collected()).len(),
    {
        let mut list: Vec<u64> = Vec::new();
        let mut i: usize = 0;
        let ghost all = self.results@;
        assert(all.take(0) =~= Seq::empty());
        while i < self.results.len()
            invariant
                i <= all.len(),
                all == self.results@,
                ascending(list@),
                list@.to_multiset() == latencies_of(all.take(i as int)).to_multiset(),
                list@.len() == latencies_of(all.take(i as int)).len(),
            decreases all.len() - i,
        {
            proof {
                assert(all.take(i + 1).drop_last() =~= all.take(i as int));
                assert(all.take(i + 1).last() == all[i as int]);
            }
            if self.results[i].err.is_none() {
                let took: u64 = self.results[i].latency();
                insert_in_order(&mut list, took);
                proof {
                    vstd::seq_lib::to_multiset_build(latencies_of(all.take(i as int)), took);
                }
            }
            i = i + 1;
        }
        assert(all.take(i as int) =~= all);
        list
    }

    /// How many requests went wrong, and how often each error came.
    pub fn error_counts(&self) -> (r: (usize, Vec<(String, usize)>))
        ensures
            r.0 == errors_of(self.collected()).len(),
            tally_views(r.1@) == tally(errors_of(self.collected())),
    {
        let mut n: usize = 0;
        let mut list: Vec<(String, usize)> = Vec::new();
        let mut i: usize = 0;
        let ghost all = self.results@;
        proof {
            assert(all.take(0) =~= Seq::empty());
            assert(tally_views(list@) =~= tally(errors_of(all.take(0))));
        }
        while i < self.results.len()
            invariant
                i <= all.len(),
                all == self.results@,
                n <= i,
                n == errors_of(all.take(i as int)).len(),
                tally_views(list@) == tally(errors_of(all.take(i as int))),
            decreases all.len() - i,
        {
            let ghost errors = errors_of(all.take(i as int));
            proof {
                assert(all.take(i + 1).drop_last() =~= all.take(i as int));
                assert(all.take(i + 1).last() == all[i as int]);
                tally_bound(errors);
            }
            if let Some(err) = &self.results[i].err {
                count_error(&mut list, err.as_str());
                n = n + 1;
                proof {
                    let more = errors_of(all.take(i + 1));
                    assert(more.drop_last() =~= errors);
                    assert(more.last() == err@);
                }
            }
            i = i + 1;
        }
        assert(all.take(i as int) =~= all);
        (n, list)
    }

    /// Generate the full report string.
    pub fn format(&self, figures: &Figures) -> (r: String)
        ensures
            r@ == if self.collected().len() == 0 {
                "No results collected."@
            } else if latencies_of(self.collected()).len() == 0 {
                "All requests failed."@
            } else {
                report_text(
                    latencies_of(self.collected()).len(),
                    errors_of(self.collected()),
                    *figures,
                )
            },
    {
        if self.results.len() == 0 {
            return text("No results collected.");
        }
        let requests: usize = self.latencies().len();
        if requests == 0 {
            return text("All requests failed.");
        }
        let (n, counts) = self.error_counts();
        let mut out: String = text("\nSummary:\n");
        add_line(&mut out, "Wall time:    ", figures.wall.as_str(), " ms");
        add_line(&mut out, "Requests:     ", format_u64(requests as u64).as_str(), "");
        if n > 0 {
            add_line(&mut out, "Errors:       ", format_u64(n as u64).as_str(), "");
        } else {
            assert(out@ =~= out@ + Seq::<char>::empty());
        }
        add_line(&mut out, "Slowest:      ", figures.slowest.as_str(), " ms");
        add_line(&mut out, "Fastest:      ", figures.fastest.as_str(), " ms");
        add_line(&mut out, "Average:      ", figures.average.as_str(), " ms");
        add_line(&mut out, "Stddev:       ", figures.stddev.as_str(), " ms");
        add_line(&mut out, "RPS:          ", figures.rps.as_str(), "");
        let summary = out;
        let shares = percentiles_text(figures);
        let whole = join2(summary.as_str(), shares.as_str());
        if n == 0 {
            assert(whole@ =~= whole@ + Seq::<char>::empty());
            return whole;
        }
        let errors = errors_text(&counts);
        join2(whole.as_str(), errors.as_str())
    }
}

fn percentiles_text(figures: &Figures) -> (r: String)
    ensures
        r@ == "\nLatency Distribution:\n"@ + percentile_lines(figures.percentiles@, 8),
{
    let ghost title = "\nLatency Distribution:\n"@;
    let mut out: String = text("\nLatency Distribution:\n");
    let mut i: usize = 0;
    assert(out@ =~= title + percentile_lines(figures.percentiles@, 0));
    while i < 8
        invariant
            i <= 8,
            out@ == title + percentile_lines(figures.percentiles@, i as int),
        decreases 8 - i,
    {
        let ghost before = out@;
        let value = join2("%:  ", figures.percentiles[i].as_str());
        add_line(&mut out, percentage_text(i), value.as_str(), " ms");
        assert(out@ =~= title + percentile_lines(figures.percentiles@, i + 1));
        i = i + 1;
    }
    out
}

fn errors_text(counts: &Vec<(String, usize)>) -> (r: String)
    ensures
        r@ == "\nError Distribution:\n"@ + error_lines(
            tally_views(counts@),
            counts@.len() as int,
        ),
{
    let ghost title = "\nError Distribution:\n"@;
    let ghost t = tally_views(counts@);
    let mut out: String = text("\nError Distribution:\n");
    let mut i: usize = 0;
    assert(out@ =~= title + error_lines(t, 0));
    while i < counts.len()
        invariant
            i <= counts@.len(),
            t == tally_views(counts@),
            out@ == title + error_lines(t, i as int),
        decreases counts@.len() - i,
    {
        let err = join2("\t", counts[i].0.as_str());
        add_line(&mut out, format_u64(counts[i].1 as u64).as_str(), err.as_str(), "");
        assert(t[i as int] == (counts@[i as int].0@, counts@[i as int].1 as nat));
        assert(out@ =~= title + error_lines(t, i + 1));
        i = i + 1;
    }
    out
}

fn insert_in_order(list: &mut Vec<u64>, x: u64)
    requires
        ascending(old(list)@),
    ensures
        ascending(final(list)@),
        final(list)@.to_multiset() == old(list)@.to_multiset().insert(x),
        final(list)@.len() == old(list)@.len() + 1,
{
    broadcast use vstd::seq_lib::group_to_multiset_ensures;

    let ghost before = list@;
    let mut at: usize = list.len();
    while at > 0 && list[at - 1] > x
        invariant
            at <= list@.len(),
            *list == *old(list),
            before == list@,
            ascending(before),
            forall|j: int| at <= j < before.len() ==> before[j] > x,
        decreases at,
    {
        at = at - 1;
    }
    list.insert(at, x);
}

proof fn counted_bound(t: Seq<(Seq<char>, nat)>, e: Seq<char>, i: int, n: nat)
    requires
        counts_up_to(t, n),
    ensures
        counts_up_to(counted_from(t, e, i), n + 1),
    decreases t.len() - i,
{
    if 0 <= i < t.len() && t[i].0 != e {
        counted_bound(t, e, i + 1, n);
    }
}

proof fn tally_bound(errors: Seq<Seq<char>>)
    ensures
        counts_up_to(tally(errors), errors.len()),
    decreases errors.len(),
{
    if errors.len() > 0 {
        tally_bound(errors.drop_last());
        counted_bound(
            tally(errors.drop_last()),
            errors.last(),
            0,
            errors.drop_last().len(),
        );
    }
}

/// How often a text stands in a list.
pub open spec fn occurrences(errors: Seq<Seq<char>>, e: Seq<char>) -> nat
    decreases errors.len(),
{
    if errors.len() == 0 {
        0
    } else {
        occurrences(errors.drop_last(), e) + (if errors.last() == e {
            1nat
        } else {
            0nat
        })
    }
}

/// The error distribution names each error that came once, with the number of
/// times that it came, and no other.
pub proof fn tally_counts(errors: Seq<Seq<char>>)
    ensures
        forall|i: int|
            0 <= i < tally(errors).len() ==> (#[trigger] tally(errors)[i]).1 == occurrences(
                errors,
                tally(errors)[i].0,
            ) && tally(errors)[i].1 > 0,
        forall|i: int, j: int|
            0 <= i < j < tally(errors).len() ==> (#[trigger] tally(errors)[i]).0 != (
            #[trigger] tally(errors)[j]).0,
        forall|e: Seq<char>|
            occurrences(errors, e) > 0 ==> exists|i: int|
                0 <= i < tally(errors).len() && (#[trigger] tally(errors)[i]).0 == e,
    decreases errors.len(),
{
    if errors.len() > 0 {
        let rest = errors.drop_last();
        let t = tally(rest);
        let last = errors.last();
        tally_counts(rest);
        counted_where(t, last, 0);
        let place = place_in(t, last, 0);
        assert forall|e: Seq<char>| occurrences(errors, e) > 0 implies exists|i: int|
            0 <= i < tally(errors).len() && (#[trigger] tally(errors)[i]).0 == e by {
            if e == last {
                assert(tally(errors)[place].0 == e);
            } else {
                assert(occurrences(rest, e) > 0);
                let i = choose|i: int| 0 <= i < t.len() && (#[trigger] t[i]).0 == e;
                assert(tally(errors)[i].0 == e);
            }
        }
        if place == t.len() && occurrences(rest, last) > 0 {
            let i = choose|i: int| 0 <= i < t.len() && (#[trigger] t[i]).0 == last;
            assert(false);
        }
    }
}

/// Where an error is counted: its place, or the end.
spec fn place_in(t: Seq<(Seq<char>, nat)>, e: Seq<char>, i: int) -> int
    decreases t.len() - i,
{
    if i < 0 || i >= t.len() {
        t.len() as int
    } else if t[i].0 == e {
        i
    } else {
        place_in(t, e, i + 1)
    }
}

proof fn counted_where(t: Seq<(Seq<char>, nat)>, e: Seq<char>, i: int)
    requires
        0 <= i <= t.len(),
    ensures
        i <= place_in(t, e, i) <= t.len(),
        forall|j: int| i <= j < place_in(t, e, i) ==> (#[trigger] t[j]).0 != e,
        ({
            let k = place_in(t, e, i);
            counted_from(t, e, i) == if k == t.len() {
                t.push((e, 1))
            } else {
                t.update(k, (e, t[k].1 + 1))
            }
        }),
        place_in(t, e, i) < t.len() ==> t[place_in(t, e, i)].0 == e,
    decreases t.len() - i,
{
    if i < t.len() && t[i].0 != e {
        counted_where(t, e, i + 1);
    }
}

/// Sequential keys are in the order of their numbers, and so all different, as long
/// as the numbers have fewer digits than a key has bytes.
pub proof fn sequential_keys_ordered(i: u64, j: u64, size: usize)
    requires
        i < j,
        crate::text::decimal(j as nat).len() < size,
    ensures
        crate::bytes::lex_lt(sequential_key(i, size), sequential_key(j, size)),
{
    let w = size - 1;
    decimal_grows(i as nat, j as nat);
    padded_ordered(i as nat, j as nat, w as nat);
    let (a, b) = (padded(i as nat, w), padded(j as nat, w));
    assert(a.len() == w && b.len() == w);
    let (x, y) = (sequential_key(i, size), sequential_key(j, size));
    let n = choose|n: int| #[trigger] crate::bytes::before_at(a, b, n);
    assert(crate::bytes::before_at(x, y, n));
}

/// A smaller number has no more digits.
proof fn decimal_grows(i: nat, j: nat)
    requires
        i <= j,
    ensures
        crate::text::decimal(i).len() <= crate::text::decimal(j).len(),
    decreases j,
{
    if j >= 10 {
        if i >= 10 {
            decimal_grows(i / 10, j / 10);
        } else {
            assert(crate::text::decimal(i).len() == 1);
        }
    }
}

/// Of padded numbers the last digit stands alone.
proof fn padded_last(i: nat, w: nat)
    requires
        crate::text::decimal(i).len() <= w,
        w >= 1,
    ensures
        padded(i, w as int).len() == w,
        padded(i, w as int).last() == (0x30 + i % 10) as u8,
        w >= 2 ==> padded(i, w as int).drop_last() == padded(i / 10, w - 1),
        w >= 2 ==> crate::text::decimal(i / 10).len() <= w - 1,
{
    let d = crate::text::decimal(i);
    let p = padded(i, w as int);
    if i < 10 {
        assert(p.last() == crate::text::digit(i) as u8);
        if w >= 2 {
            assert(crate::text::decimal(0) =~= seq!['0']);
            assert(p.drop_last() =~= padded(0, w - 1));
        }
    } else {
        let h = crate::text::decimal(i / 10);
        assert(d =~= h.push(crate::text::digit(i % 10)));
        assert(h.len() >= 1) by {
            crate::text::number_reads_decimal(i / 10, i / 10);
        }
        assert(p.last() == crate::text::digit(i % 10) as u8);
        assert(p.drop_last() =~= padded(i / 10, w - 1));
    }
}

proof fn padded_ordered(i: nat, j: nat, w: nat)
    requires
        i < j,
        crate::text::decimal(i).len() <= w,
        crate::text::decimal(j).len() <= w,
    ensures
        crate::bytes::lex_lt(padded(i, w as int), padded(j, w as int)),
        padded(i, w as int).len() == w,
        padded(j, w as int).len() == w,
    decreases w,
{
    crate::text::number_reads_decimal(i, i);
    crate::text::number_reads_decimal(j, j);
    padded_last(i, w);
    padded_last(j, w);
    let (a, b) = (padded(i, w as int), padded(j, w as int));
    if w == 1 {
        assert(j < 10) by {
            if j >= 10 {
                crate::text::number_reads_decimal(j / 10, j);
            }
        }
        assert(crate::bytes::before_at(a, b, 0));
    } else {
        let (p, q) = (a.drop_last(), b.drop_last());
        if i / 10 < j / 10 {
            padded_ordered(i / 10, j / 10, (w - 1) as nat);
            let n = choose|n: int| #[trigger] crate::bytes::before_at(p, q, n);
            assert forall|k: int| 0 <= k < w - 1 implies a[k] == p[k] && b[k] == q[k] by {}
            assert(crate::bytes::before_at(a, b, n));
        } else {
            assert(i / 10 == j / 10);
            assert(p == q);
            assert forall|k: int| 0 <= k < w - 1 implies a[k] == b[k] by {
                assert(a[k] == p[k] && b[k] == q[k]);
            }
            assert(crate::bytes::before_at(a, b, w - 1));
        }
    }
}

/// The latencies are those of the requests that succeeded, one of each in order,
/// and the errors those of the requests that failed. Every request is one or the
/// other.
pub proof fn requests_succeed_or_fail(results: Seq<BenchResult>, result: BenchResult)
    ensures
        latencies_of(results).len() + errors_of(results).len() == results.len(),
        result.err is None ==> {
            &&& latencies_of(results.push(result)) == latencies_of(results).push(result.took())
            &&& errors_of(results.push(result)) == errors_of(results)
        },
        result.err matches Some(e) ==> {
            &&& latencies_of(results.push(result)) == latencies_of(results)
            &&& errors_of(results.push(result)) == errors_of(results).push(e@)
        },
        result.start <= result.end ==> result.took() == result.end - result.start,
        result.start > result.end ==> result.took() == 0,
    decreases results.len(),
{
    assert(results.push(result).drop_last() =~= results);
    if results.len() > 0 {
        requests_succeed_or_fail(results.drop_last(), results.last());
    }
}

/// A sequential key has the size that was asked for; if it is large enough, the
/// digits of the number stand at its end but one, after zeros.
pub proof fn sequential_keys_show_their_number(i: u64, size: usize)
    ensures
        sequential_key(i, size).len() == size,
        crate::text::decimal(i as nat).len() < size ==> {
            let digits = crate::text::decimal(i as nat);
            let key = sequential_key(i, size);
            let lead = size - 1 - digits.len();
            &&& forall|j: int| 0 <= j < lead ==> #[trigger] key[j] == '0' as u8
            &&& forall|j: int|
                0 <= j < digits.len() ==> key[lead + j] == #[trigger] digits[j] as u8
            &&& key[size - 1] == '0' as u8
        },
{
}

/// An error occurs once more for each time that it is said.
pub proof fn occurrences_add_up(errors: Seq<Seq<char>>, e: Seq<char>, other: Seq<char>)
    ensures
        occurrences(Seq::<Seq<char>>::empty(), e) == 0,
        occurrences(errors.push(e), e) == occurrences(errors, e) + 1,
        other != e ==> occurrences(errors.push(e), other) == occurrences(errors, other),
        occurrences(errors, e) > 0 <==> errors.contains(e),
    decreases errors.len(),
{
    assert(errors.push(e).drop_last() =~= errors);
    if errors.len() > 0 {
        let rest = errors.drop_last();
        occurrences_add_up(rest, e, other);
        if rest.contains(e) {
            let i = rest.index_of(e);
            assert(errors[i] == e);
        }
        if errors.last() == e {
            assert(errors[errors.len() - 1] == e);
        }
        if errors.contains(e) && errors.last() != e {
            let i = errors.index_of(e);
            assert(rest[i] == e);
        }
    }
}

/// Percentiles are labelled in order, from a tenth to all but a thousandth.
pub proof fn percentiles_are_labelled(values: Seq<String>)
    ensures
        percentage(0) == " 10.0"@,
        percentage(1) == " 25.0"@,
        percentage(2) == " 50.0"@,
        percentage(3) == " 75.0"@,
        percentage(4) == " 90.0"@,
        percentage(5) == " 95.0"@,
        percentage(6) == " 99.0"@,
        percentage(7) == " 99.9"@,
        forall|n: int|
            n > 0 ==> #[trigger] percentile_lines(values, n) == percentile_lines(values, n - 1) + (
            "  "@ + percentage(n - 1) + ("%:  "@ + values[n - 1]@) + " ms"@ + "\n"@),
{
}

/// The report tells the requests that succeeded, the errors if there are any, and
/// each figure under its own label.
pub proof fn reports_tell_the_figures(requests: nat, errors: Seq<Seq<char>>, f: Figures)
    ensures
        summary_text(requests, errors.len(), f) == "\nSummary:\n"@ + ("  "@ + "Wall time:    "@
            + f.wall@ + " ms"@ + "\n"@) + ("  "@ + "Requests:     "@ + crate::text::decimal(
            requests,
        ) + ""@ + "\n"@) + (if errors.len() > 0 {
            "  "@ + "Errors:       "@ + crate::text::decimal(errors.len()) + ""@ + "\n"@
        } else {
            Seq::empty()
        }) + ("  "@ + "Slowest:      "@ + f.slowest@ + " ms"@ + "\n"@) + ("  "@
            + "Fastest:      "@ + f.fastest@ + " ms"@ + "\n"@) + ("  "@ + "Average:      "@
            + f.average@ + " ms"@ + "\n"@) + ("  "@ + "Stddev:       "@ + f.stddev@ + " ms"@
            + "\n"@) + ("  "@ + "RPS:          "@ + f.rps@ + ""@ + "\n"@),
        report_text(requests, errors, f) == summary_text(requests, errors.len(), f) + (
        "\nLatency Distribution:\n"@ + percentile_lines(f.percentiles@, 8)) + (if errors.len() > 0 {
            "\nError Distribution:\n"@ + error_lines(tally(errors), tally(errors).len() as int)
        } else {
            Seq::empty()
        }),
        forall|t: Seq<(Seq<char>, nat)>, n: int|
            n > 0 ==> #[trigger] error_lines(t, n) == error_lines(t, n - 1) + ("  "@
                + crate::text::decimal(t[n - 1].1) + ("\t"@ + t[n - 1].0) + ""@ + "\n"@),
{
}

} // verus!
