//! From a line of the dump to a record, and from a record to a line of the
//! listing.

use crate::hex::{hex_value, parse_hex, parse_hex_spec, AddressError};
use crate::numeral::{hex_text, lemma_hex_text_round_trip, lemma_radix_text_chars, push_radix};
use crate::pattern::{captures, regex_groups};
use crate::text::same_text;
use regex::Regex;
use vstd::prelude::*;
use vstd::string::StringExecFns;

verus! {

/// The keyword of the one directive that names a symbol.
pub const DIRECTIVE: &'static str = "set_name";

/// A symbol taken from a directive line.
#[derive(Clone, Debug, PartialEq, Eq)]
pub struct ParsedRecord {
    pub name: String,
    pub address: usize,
}

/// A record as a value of the model: the name as a sequence of characters.
pub struct Record {
    pub name: Seq<char>,
    pub address: usize,
}

impl View for ParsedRecord {
    type V = Record;

    open spec fn view(&self) -> Record {
        Record { name: self.name@, address: self.address }
    }
}

/// What a line comes to: a record, nothing, or an address that cannot be
/// read.
pub open spec fn outcome_view(outcome: Result<Option<ParsedRecord>, AddressError>) -> Result<
    Option<Record>,
    AddressError,
> {
    match outcome {
        Ok(Some(record)) => Ok(Some(record@)),
        Ok(None) => Ok(None),
        Err(e) => Err(e),
    }
}

/// The capture groups are those of a directive that names a symbol: the
/// keyword in the first group is `set_name`, and the groups of the address
/// and of the name took part in the match.
pub open spec fn names_symbol(groups: Seq<Option<Seq<char>>>) -> bool {
    &&& groups.len() >= 4
    &&& groups[1] == Some(DIRECTIVE@)
    &&& groups[2] is Some
    &&& groups[3] is Some
}

/// The record that the capture groups of a line stand for.
///
/// A line without a match, or with another keyword, gives no record. A
/// `set_name` directive gives the name in its third group at the address
/// that its second group denotes in base 16; where those digits are no
/// address, the line is in error.
pub open spec fn record_of(groups: Option<Seq<Option<Seq<char>>>>) -> Result<
    Option<Record>,
    AddressError,
> {
    match groups {
        Some(found) if names_symbol(found) => match parse_hex_spec(found[2]->0) {
            Ok(address) => Ok(Some(Record { name: found[3]->0, address })),
            Err(e) => Err(e),
        },
        _ => Ok(None),
    }
}

/// The line of the listing for a record: `0x`, the address in lowercase
/// hexadecimal without leading zeros, a colon and a blank, the name as it
/// is, and a line feed.
pub open spec fn entry_text(record: Record) -> Seq<char> {
    seq!['0', 'x'] + hex_text(record.address as nat) + seq![':', ' '] + record.name + seq!['\n']
}

/// Every `set_name` directive whose address can be read gives one record:
/// the quoted name, at the value of the address digits.
pub proof fn lemma_directive_gives_record(groups: Seq<Option<Seq<char>>>)
    requires
        names_symbol(groups),
        parse_hex_spec(groups[2]->0) is Ok,
    ensures
        record_of(Some(groups)) == Ok::<Option<Record>, AddressError>(
            Some(Record { name: groups[3]->0, address: hex_value(groups[2]->0) as usize }),
        ),
{
}

/// A `set_name` directive whose address cannot be read is an error, with
/// the reason why the digits are no address. It is not passed over as a
/// line without directive is, and no address is made up for it.
pub proof fn lemma_bad_address_is_an_error(groups: Seq<Option<Seq<char>>>)
    requires
        names_symbol(groups),
        parse_hex_spec(groups[2]->0) is Err,
    ensures
        record_of(Some(groups)) == Err::<Option<Record>, AddressError>(
            parse_hex_spec(groups[2]->0)->Err_0,
        ),
{
}

/// A line that the pattern does not match, or whose keyword is not
/// `set_name`, gives no record and is no error.
pub proof fn lemma_other_lines_give_nothing(groups: Option<Seq<Option<Seq<char>>>>)
    requires
        groups matches Some(found) ==> found.len() < 2 || found[1] != Some(DIRECTIVE@),
    ensures
        record_of(groups) == Ok::<Option<Record>, AddressError>(None),
{
}

/// Makes the record of a line from what the pattern captured in it.
pub fn record_from_groups(groups: &Option<Vec<Option<String>>>) -> (res: Result<
    Option<ParsedRecord>,
    AddressError,
>)
    ensures
        outcome_view(res) == record_of(groups.deep_view()),
{
    let found = match groups {
        Some(found) => found,
        None => {
            return Ok(None);
        },
    };
    if found.len() < 4 {
        return Ok(None);
    }
    assert(found.deep_view()[1] == found[1].deep_view());
    assert(found.deep_view()[2] == found[2].deep_view());
    assert(found.deep_view()[3] == found[3].deep_view());
    let keyword = match &found[1] {
        Some(text) => text,
        None => {
            return Ok(None);
        },
    };
    if !same_text(keyword.as_str(), DIRECTIVE) {
        return Ok(None);
    }
    let digits = match &found[2] {
        Some(text) => text,
        None => {
            return Ok(None);
        },
    };
    let name = match &found[3] {
        Some(text) => text,
        None => {
            return Ok(None);
        },
    };
    match parse_hex(digits.as_str()) {
        Ok(address) => Ok(Some(ParsedRecord { name: name.clone(), address })),
        Err(e) => Err(e),
    }
}

/// Reads one line of the dump with the compiled pattern `re`.
///
/// The result is the record of what `re` captures in the line. Only a
/// `set_name` directive gives one; its address digits are read in base 16,
/// and digits that are no address are an error.
pub fn parse_line(re: &Regex, line: &str) -> (res: Result<Option<ParsedRecord>, AddressError>)
    ensures
        outcome_view(res) == record_of(regex_groups(*re, line@)),
{
    let groups = captures(re, line);
    record_from_groups(&groups)
}

/// Writes the line of the listing for `record`.
pub fn entry_line(record: &ParsedRecord) -> (line: String)
    ensures
        line@ == entry_text(record@),
{
    proof {
        reveal_strlit("0x");
        reveal_strlit(": ");
        reveal_strlit("\n");
    }
    let mut line = String::from_str("0x");
    assert(line@ =~= seq!['0', 'x']);
    push_radix(&mut line, record.address, 16);
    line.append(": ");
    line.append(record.name.as_str());
    line.append("\n");
    assert(line@ =~= entry_text(record@));
    line
}

/// A line of the listing can be read back: after `0x` stand the digits of
/// the address, which denote it; the first colon of the line ends them; and
/// between the blank that follows it and the closing line feed stands the
/// name, character for character.
pub proof fn lemma_entry_round_trip(record: Record)
    ensures
        ({
            let line = entry_text(record);
            let colon = hex_text(record.address as nat).len() as int + 2;
            &&& line.len() == colon + 2 + record.name.len() + 1
            &&& line.subrange(0, 2) == seq!['0', 'x']
            &&& parse_hex_spec(line.subrange(2, colon)) == Ok::<usize, AddressError>(
                record.address,
            )
            &&& forall|i: int| 0 <= i < colon ==> line[i] != ':'
            &&& line[colon] == ':'
            &&& line[colon + 1] == ' '
            &&& line.subrange(colon + 2, line.len() - 1) == record.name
            &&& line.last() == '\n'
        }),
{
    let digits = hex_text(record.address as nat);
    let line = entry_text(record);
    let colon = digits.len() as int + 2;
    lemma_hex_text_round_trip(record.address as nat);
    lemma_radix_text_chars(record.address as nat, 16);
    assert(line.subrange(0, 2) =~= seq!['0', 'x']);
    assert(line.subrange(2, colon) =~= digits);
    assert(line.subrange(colon + 2, line.len() - 1) =~= record.name);
    assert forall|i: int| 0 <= i < colon implies line[i] != ':' by {
        if i >= 2 {
            assert(line[i] == digits[i - 2]);
        }
    }
}

} // verus!
