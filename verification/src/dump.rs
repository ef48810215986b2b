//! Going through a dump line by line: what is counted, what is listed, and
//! the closing summary.

use crate::classify::{keep_name, should_dump};
use crate::hex::AddressError;
use crate::numeral::{decimal_text, push_radix};
use crate::pattern::regex_groups;
use crate::record::{entry_line, entry_text, parse_line, record_of, ParsedRecord, Record};
use regex::Regex;
use vstd::prelude::*;
use vstd::string::StringExecFns;

verus! {

/// The two counts as numbers of the model.
pub struct Tally {
    /// The `set_name` directives seen.
    pub matched: nat,
    /// The symbols among them that were listed.
    pub dumped: nat,
}

/// The counts kept while a dump is read. Never are more symbols listed than
/// directives matched.
#[derive(Clone, Copy, Debug, PartialEq, Eq)]
pub struct Counters {
    total_matched: usize,
    total_dumped: usize,
}

/// What reading the lines of a dump gave.
#[derive(Debug, PartialEq, Eq)]
pub struct Dump {
    /// The lines of the listing, in the order of the directives they come
    /// from.
    pub entries: Vec<String>,
    pub counters: Counters,
}

/// The first line of a dump at which reading stopped.
#[derive(Debug, PartialEq, Eq)]
pub struct DumpError {
    /// The position of the line, counted from zero.
    pub line: usize,
    pub cause: AddressError,
    /// What the lines before it gave. This much stands: nothing of it is
    /// taken back, and nothing is added for the line in error or for any
    /// line after it.
    pub done: Dump,
}

/// The counts after a line, from the counts before it and what the line
/// came to. Only a record changes them: it is matched, and also dumped if
/// its name is kept.
pub open spec fn tally_after(before: Tally, outcome: Result<Option<Record>, AddressError>) -> Tally {
    match outcome {
        Ok(Some(record)) => Tally {
            matched: before.matched + 1,
            dumped: if keep_name(record.name) {
                before.dumped + 1
            } else {
                before.dumped
            },
        },
        _ => before,
    }
}

/// The line of the listing that a line of the dump gives, if it gives one:
/// the entry of its record, where the record's name is kept.
pub open spec fn entry_of(outcome: Result<Option<Record>, AddressError>) -> Option<Seq<char>> {
    match outcome {
        Ok(Some(record)) if keep_name(record.name) => Some(entry_text(record)),
        _ => None,
    }
}

/// What each line of a dump comes to under the pattern `re`.
pub open spec fn outcomes_of(re: Regex, lines: Seq<Seq<char>>) -> Seq<
    Result<Option<Record>, AddressError>,
> {
    Seq::new(lines.len(), |i: int| record_of(regex_groups(re, lines[i])))
}

/// The counts after all of `outcomes`, starting from zero.
pub open spec fn tally_of(outcomes: Seq<Result<Option<Record>, AddressError>>) -> Tally
    decreases outcomes.len(),
{
    if outcomes.len() == 0 {
        Tally { matched: 0, dumped: 0 }
    } else {
        tally_after(tally_of(outcomes.drop_last()), outcomes.last())
    }
}

/// The listing for `outcomes`: the entry of each line that gives one, in the
/// order of the lines.
pub open spec fn entries_of(outcomes: Seq<Result<Option<Record>, AddressError>>) -> Seq<Seq<char>>
    decreases outcomes.len(),
{
    if outcomes.len() == 0 {
        Seq::empty()
    } else {
        let before = entries_of(outcomes.drop_last());
        match entry_of(outcomes.last()) {
            Some(entry) => before.push(entry),
            None => before,
        }
    }
}

/// The share of the matched directives that were listed, in percent and
/// rounded down. With nothing matched there is no share, and the figure is
/// zero.
pub open spec fn percentage_of(tally: Tally) -> nat {
    if tally.matched == 0 {
        0
    } else {
        tally.dumped * 100 / tally.matched
    }
}

/// The summary of a run: `Dumped <dumped> names (<percentage>% of the DB)`.
pub open spec fn summary_text(tally: Tally) -> Seq<char> {
    "Dumped "@ + decimal_text(tally.dumped) + " names ("@ + decimal_text(percentage_of(tally))
        + "% of the DB)"@
}

/// A line that gives no record leaves the counts as they are and adds
/// nothing to the listing; so does a line whose address cannot be read.
pub proof fn lemma_only_records_count(before: Tally, outcome: Result<Option<Record>, AddressError>)
    requires
        !(outcome matches Ok(Some(_))),
    ensures
        tally_after(before, outcome) == before,
        entry_of(outcome) is None,
{
}

/// However many lines were read, no more symbols are listed than directives
/// were matched, and no more directives matched than lines read.
pub proof fn lemma_tally_bounds(outcomes: Seq<Result<Option<Record>, AddressError>>)
    ensures
        tally_of(outcomes).dumped <= tally_of(outcomes).matched <= outcomes.len(),
    decreases outcomes.len(),
{
    if outcomes.len() > 0 {
        lemma_tally_bounds(outcomes.drop_last());
    }
}

/// A share is at most a hundred percent.
pub proof fn lemma_share_bounded(tally: Tally)
    requires
        tally.dumped <= tally.matched,
    ensures
        percentage_of(tally) <= 100,
{
    let dumped = tally.dumped as int;
    let matched = tally.matched as int;
    if matched > 0 {
        assert(dumped * 100 / matched <= 100) by (nonlinear_arith)
            requires
                0 <= dumped <= matched,
                0 < matched,
        ;
    }
}

/// The listing has one line for each symbol counted as dumped.
pub proof fn lemma_entry_count(outcomes: Seq<Result<Option<Record>, AddressError>>)
    ensures
        entries_of(outcomes).len() == tally_of(outcomes).dumped,
    decreases outcomes.len(),
{
    if outcomes.len() > 0 {
        lemma_entry_count(outcomes.drop_last());
    }
}

/// The listing grows at its end only: what the first `n` lines of a dump
/// give is the beginning of what the whole dump gives.
pub proof fn lemma_entries_grow(outcomes: Seq<Result<Option<Record>, AddressError>>, n: int)
    requires
        0 <= n <= outcomes.len(),
    ensures
        entries_of(outcomes.take(n)).is_prefix_of(entries_of(outcomes)),
    decreases outcomes.len(),
{
    if n == outcomes.len() {
        assert(outcomes.take(n) =~= outcomes);
    } else {
        lemma_entries_grow(outcomes.drop_last(), n);
        assert(outcomes.drop_last().take(n) =~= outcomes.take(n));
    }
}

/// The entries stand in the order of their lines: the entry of line `i` is
/// found in the listing after the entries of all lines before `i`, and
/// before those of all lines after it.
pub proof fn lemma_entry_order(outcomes: Seq<Result<Option<Record>, AddressError>>, i: int)
    requires
        0 <= i < outcomes.len(),
        entry_of(outcomes[i]) is Some,
    ensures
        ({
            let place = entries_of(outcomes.take(i)).len() as int;
            &&& place < entries_of(outcomes).len()
            &&& entries_of(outcomes)[place] == entry_of(outcomes[i])->0
            &&& entries_of(outcomes).take(place) == entries_of(outcomes.take(i))
        }),
{
    let upto = outcomes.take(i + 1);
    assert(upto.drop_last() =~= outcomes.take(i));
    assert(upto.last() == outcomes[i]);
    lemma_entries_grow(outcomes, i + 1);
    let all = entries_of(outcomes);
    let before = entries_of(outcomes.take(i));
    let place = before.len() as int;
    assert(entries_of(upto) == before.push(entry_of(outcomes[i])->0));
    assert(all.subrange(0, place + 1)[place] == all[place]);
    assert(all.take(place) =~= before) by {
        assert forall|k: int| 0 <= k < place implies all[k] == before[k] by {
            assert(all.subrange(0, place + 1)[k] == all[k]);
        }
    }
}

impl View for Counters {
    type V = Tally;

    closed spec fn view(&self) -> Tally {
        Tally { matched: self.total_matched as nat, dumped: self.total_dumped as nat }
    }
}

impl Counters {
    #[verifier::type_invariant]
    spec fn dumped_within_matched(&self) -> bool {
        self.total_dumped <= self.total_matched
    }

    /// The counts before the first line.
    pub fn new() -> (counters: Counters)
        ensures
            counters@ == (Tally { matched: 0, dumped: 0 }),
    {
        Counters { total_matched: 0, total_dumped: 0 }
    }

    /// The number of `set_name` directives seen.
    pub fn total_matched(&self) -> (n: usize)
        ensures
            n == self@.matched,
            self@.dumped <= n,
    {
        proof {
            use_type_invariant(self);
        }
        self.total_matched
    }

    /// The number of symbols listed; never more than were matched.
    pub fn total_dumped(&self) -> (n: usize)
        ensures
            n == self@.dumped,
            n <= self@.matched,
    {
        proof {
            use_type_invariant(self);
        }
        self.total_dumped
    }

    /// Counts `record` as matched and, if its name is kept, as dumped; then
    /// the result is its line of the listing.
    pub fn record(&mut self, record: &ParsedRecord) -> (entry: Option<String>)
        requires
            old(self)@.matched < usize::MAX,
        ensures
            final(self)@ == tally_after(old(self)@, Ok(Some(record@))),
            entry.deep_view() == entry_of(Ok(Some(record@))),
            final(self)@.dumped <= final(self)@.matched,
    {
        proof {
            use_type_invariant(&*self);
        }
        let keep = should_dump(record.name.as_str());
        let dumped = if keep {
            self.total_dumped + 1
        } else {
            self.total_dumped
        };
        *self = Counters { total_matched: self.total_matched + 1, total_dumped: dumped };
        if keep {
            Some(entry_line(record))
        } else {
            None
        }
    }

    /// The share of the matched directives that were listed, in percent,
    /// rounded down. Where nothing was matched the share is given as zero
    /// and no division is attempted, so that a dump without any `set_name`
    /// directive has a summary too.
    pub fn percentage(&self) -> (percent: usize)
        ensures
            percent == percentage_of(self@),
            percent <= 100,
    {
        proof {
            use_type_invariant(self);
        }
        if self.total_matched == 0 {
            0
        } else {
            let dumped = self.total_dumped as u128;
            let matched = self.total_matched as u128;
            proof {
                lemma_share_bounded(self@);
            }
            (dumped * 100 / matched) as usize
        }
    }

    /// The summary line of a run, without a line feed.
    pub fn summary(&self) -> (line: String)
        ensures
            line@ == summary_text(self@),
    {
        let mut line = String::from_str("Dumped ");
        push_radix(&mut line, self.total_dumped, 10);
        line.append(" names (");
        push_radix(&mut line, self.percentage(), 10);
        line.append("% of the DB)");
        assert(line@ =~= summary_text(self@));
        line
    }
}

/// Reads one line of a dump: counts it in `counters` and gives its line of
/// the listing, if it has one.
///
/// A line that is no `set_name` directive changes nothing and gives nothing.
/// A directive whose address cannot be read is an error, and nothing is
/// counted for it.
pub fn process_line(re: &Regex, line: &str, counters: &mut Counters) -> (res: Result<
    Option<String>,
    AddressError,
>)
    requires
        old(counters)@.matched < usize::MAX,
    ensures
        ({
            let outcome = record_of(regex_groups(*re, line@));
            &&& final(counters)@ == tally_after(old(counters)@, outcome)
            &&& final(counters)@.dumped <= final(counters)@.matched
            &&& match outcome {
                Err(e) => res == Err::<Option<String>, AddressError>(e),
                Ok(_) => res matches Ok(entry) && entry.deep_view() == entry_of(outcome),
            }
        }),
{
    proof {
        use_type_invariant(&*counters);
    }
    match parse_line(re, line) {
        Err(e) => Err(e),
        Ok(None) => Ok(None),
        Ok(Some(record)) => Ok(counters.record(&record)),
    }
}

/// Reads a whole dump with the compiled pattern `re`.
///
/// Reading stops at the first line whose address cannot be read. The error
/// says which line that is, and holds the listing and the counts of the
/// lines before it. Otherwise the result holds the listing and the counts
/// for all lines.
pub fn dump_lines(re: &Regex, lines: &Vec<String>) -> (res: Result<Dump, DumpError>)
    ensures
        ({
            let outcomes = outcomes_of(*re, lines.deep_view());
            match res {
                Ok(dump) => {
                    &&& forall|i: int| 0 <= i < outcomes.len() ==> (#[trigger] outcomes[i]) is Ok
                    &&& dump.entries.deep_view() == entries_of(outcomes)
                    &&& dump.counters@ == tally_of(outcomes)
                },
                Err(failure) => {
                    &&& failure.line < outcomes.len()
                    &&& forall|i: int| 0 <= i < failure.line ==> (#[trigger] outcomes[i]) is Ok
                    &&& outcomes[failure.line as int] == Err::<Option<Record>, AddressError>(
                        failure.cause,
                    )
                    &&& failure.done.entries.deep_view() == entries_of(
                        outcomes.take(failure.line as int),
                    )
                    &&& failure.done.counters@ == tally_of(outcomes.take(failure.line as int))
                },
            }
        }),
{
    let ghost outcomes = outcomes_of(*re, lines.deep_view());
    let mut entries: Vec<String> = Vec::new();
    let mut counters = Counters::new();
    let mut i: usize = 0;
    assert(outcomes.take(0) =~= Seq::empty());
    assert(entries.deep_view() =~= Seq::<Seq<char>>::empty());
    while i < lines.len()
        invariant
            i <= lines.len(),
            outcomes == outcomes_of(*re, lines.deep_view()),
            forall|j: int| 0 <= j < i ==> (#[trigger] outcomes[j]) is Ok,
            entries.deep_view() == entries_of(outcomes.take(i as int)),
            counters@ == tally_of(outcomes.take(i as int)),
        decreases lines.len() - i,
    {
        proof {
            lemma_tally_bounds(outcomes.take(i as int));
            assert(outcomes.take(i + 1).drop_last() =~= outcomes.take(i as int));
            assert(lines.deep_view()[i as int] == lines[i as int]@);
        }
        let ghost before = entries.deep_view();
        match process_line(re, lines[i].as_str(), &mut counters) {
            Err(cause) => {
                return Err(DumpError { line: i, cause, done: Dump { entries, counters } });
            },
            Ok(Some(entry)) => {
                entries.push(entry);
                assert(entries.deep_view() =~= before.push(entry@));
            },
            Ok(None) => {},
        }
        i += 1;
    }
    assert(outcomes.take(i as int) =~= outcomes);
    Ok(Dump { entries, counters })
}

} // verus!
