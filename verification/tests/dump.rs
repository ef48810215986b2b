use idcdump::dump::{dump_lines, process_line, Counters, Dump, DumpError};
use idcdump::hex::AddressError;
use idcdump::pattern::line_pattern;
use idcdump::record::ParsedRecord;

fn lines(texts: &[&str]) -> Vec<String> {
    texts.iter().map(|t| t.to_string()).collect()
}

fn record(name: &str, address: usize) -> ParsedRecord {
    ParsedRecord { name: name.to_string(), address }
}

fn counted(matched: usize, dumped: usize) -> Counters {
    let mut counters = Counters::new();
    for i in 0..matched {
        let name = if i < dumped { "_kept" } else { "dropped" };
        counters.record(&record(name, i));
    }
    counters
}

#[test]
fn counters_start_at_zero() {
    let counters = Counters::new();
    assert_eq!(counters.total_matched(), 0);
    assert_eq!(counters.total_dumped(), 0);
}

#[test]
fn a_kept_record_is_matched_and_dumped() {
    let mut counters = Counters::new();
    let entry = counters.record(&record("_main", 0x401000));
    assert_eq!(entry, Some("0x401000: _main\n".to_string()));
    assert_eq!(counters.total_matched(), 1);
    assert_eq!(counters.total_dumped(), 1);
}

#[test]
fn a_dropped_record_is_matched_only() {
    let mut counters = Counters::new();
    let entry = counters.record(&record("foo", 0x402000));
    assert_eq!(entry, None);
    assert_eq!(counters.total_matched(), 1);
    assert_eq!(counters.total_dumped(), 0);
}

#[test]
fn main_is_listed() {
    let re = line_pattern().unwrap();
    let mut counters = Counters::new();
    let out = process_line(&re, "set_name (0x401000, \"_main\")", &mut counters);
    assert_eq!(out, Ok(Some("0x401000: _main\n".to_string())));
    assert_eq!(counters.total_matched(), 1);
    assert_eq!(counters.total_dumped(), 1);
}

#[test]
fn foo_is_matched_and_not_listed() {
    let re = line_pattern().unwrap();
    let mut counters = Counters::new();
    let out = process_line(&re, "set_name (0x402000, \"foo\")", &mut counters);
    assert_eq!(out, Ok(None));
    assert_eq!(counters.total_matched(), 1);
    assert_eq!(counters.total_dumped(), 0);
}

#[test]
fn a_global_is_listed() {
    let re = line_pattern().unwrap();
    let mut counters = Counters::new();
    let out = process_line(&re, "set_name (0x1, \"g_counter\")", &mut counters);
    assert_eq!(out, Ok(Some("0x1: g_counter\n".to_string())));
    assert_eq!(counters.total_matched(), 1);
    assert_eq!(counters.total_dumped(), 1);
}

#[test]
fn rename_changes_nothing() {
    let re = line_pattern().unwrap();
    let mut counters = counted(3, 2);
    let before = counters;
    let out = process_line(&re, "rename (0x500, \"x\")", &mut counters);
    assert_eq!(out, Ok(None));
    assert_eq!(counters, before);
    assert_eq!(counters.total_matched(), 3);
    assert_eq!(counters.total_dumped(), 2);
}

#[test]
fn a_line_without_directive_changes_nothing() {
    let re = line_pattern().unwrap();
    let mut counters = counted(1, 1);
    assert_eq!(process_line(&re, "", &mut counters), Ok(None));
    assert_eq!(process_line(&re, "static main(void) {", &mut counters), Ok(None));
    assert_eq!(counters.total_matched(), 1);
    assert_eq!(counters.total_dumped(), 1);
}

#[test]
fn an_unreadable_address_is_not_counted() {
    let re = line_pattern().unwrap();
    let mut counters = counted(2, 1);
    let out = process_line(&re, "set_name (0x12|4, \"_a\")", &mut counters);
    assert_eq!(out, Err(AddressError::InvalidDigit));
    assert_eq!(counters.total_matched(), 2);
    assert_eq!(counters.total_dumped(), 1);
}

#[test]
fn dumped_never_exceeds_matched() {
    let re = line_pattern().unwrap();
    let mut counters = Counters::new();
    let input = [
        "set_name (0x1, \"_a\")",
        "set_name (0x2, \"b\")",
        "junk",
        "set_name (0x3, \"g_c\")",
        "rename (0x4, \"_d\")",
        "set_name (0x5, \"e\")",
    ];
    for line in input {
        process_line(&re, line, &mut counters).unwrap();
        assert!(counters.total_dumped() <= counters.total_matched());
    }
    assert_eq!(counters.total_matched(), 4);
    assert_eq!(counters.total_dumped(), 2);
}

#[test]
fn a_dump_is_listed_in_the_order_of_its_lines() {
    let re = line_pattern().unwrap();
    let input = lines(&[
        "#include <idc.idc>",
        "static main(void) {",
        "\tset_name (0x401000, \"_main\");",
        "\tset_name (0x402000, \"foo\");",
        "\tset_cmt (0x402000, \"note\", 0);",
        "\tset_name (0x1, \"g_counter\");",
        "\trename (0x500, \"x\");",
        "\tset_name (0x403000, \"?run@@YAXXZ\");",
        "\tset_name (0x404000, \"bar\");",
        "\tset_name (0x1, \"g_counter\");",
        "}",
    ]);
    let dump = dump_lines(&re, &input).unwrap();
    assert_eq!(
        dump.entries,
        vec![
            "0x401000: _main\n".to_string(),
            "0x1: g_counter\n".to_string(),
            "0x1: g_counter\n".to_string(),
        ]
    );
    assert_eq!(dump.counters.total_matched(), 5);
    assert_eq!(dump.counters.total_dumped(), 3);
    assert_eq!(dump.entries.len(), dump.counters.total_dumped());
    assert_eq!(dump.counters.percentage(), 60);
    assert_eq!(dump.counters.summary(), "Dumped 3 names (60% of the DB)");
}

#[test]
fn a_quoted_name_with_other_characters_does_not_match() {
    let re = line_pattern().unwrap();
    let input = lines(&["set_name (0x403000, \"?run@@YAXXZ\")"]);
    let dump = dump_lines(&re, &input).unwrap();
    assert_eq!(dump.entries, Vec::<String>::new());
    assert_eq!(dump.counters.total_matched(), 0);
}

#[test]
fn duplicates_are_listed_again() {
    let re = line_pattern().unwrap();
    let input = lines(&["set_name (0x10, \"_a\")", "set_name (0x10, \"_a\")"]);
    let dump = dump_lines(&re, &input).unwrap();
    assert_eq!(dump.entries, vec!["0x10: _a\n".to_string(), "0x10: _a\n".to_string()]);
    assert_eq!(dump.counters.total_matched(), 2);
    assert_eq!(dump.counters.total_dumped(), 2);
}

#[test]
fn a_dump_agrees_with_reading_line_by_line() {
    let re = line_pattern().unwrap();
    let input = lines(&[
        "set_name (0x3, \"_c\")",
        "nothing here",
        "set_name (0x2, \"b\")",
        "set_name (0x1, \"_a\")",
    ]);
    let mut counters = Counters::new();
    let mut entries = Vec::new();
    for line in &input {
        if let Some(entry) = process_line(&re, line, &mut counters).unwrap() {
            entries.push(entry);
        }
    }
    assert_eq!(entries, vec!["0x3: _c\n".to_string(), "0x1: _a\n".to_string()]);
    assert_eq!(dump_lines(&re, &input), Ok(Dump { entries, counters }));
}

#[test]
fn an_empty_dump_has_an_empty_listing() {
    let re = line_pattern().unwrap();
    let dump = dump_lines(&re, &Vec::new()).unwrap();
    assert!(dump.entries.is_empty());
    assert_eq!(dump.counters, Counters::new());
}

#[test]
fn reading_stops_at_the_first_unreadable_address() {
    let re = line_pattern().unwrap();
    let input = lines(&[
        "set_name (0x1, \"_a\")",
        "other",
        "set_name (0xg, \"_b\")",
        "set_name (0x, \"_c\")",
        "set_name (0x|, \"_d\")",
    ]);
    assert_eq!(
        dump_lines(&re, &input),
        Err(DumpError {
            line: 2,
            cause: AddressError::InvalidDigit,
            done: Dump { entries: vec!["0x1: _a\n".to_string()], counters: counted(1, 1) },
        })
    );
    let width = (usize::BITS / 4) as usize;
    let input = lines(&[&format!("set_name (0x{}, \"_b\")", "f".repeat(width + 1))]);
    assert_eq!(
        dump_lines(&re, &input),
        Err(DumpError {
            line: 0,
            cause: AddressError::Overflow,
            done: Dump { entries: Vec::new(), counters: Counters::new() },
        })
    );
}

#[test]
fn what_was_listed_before_a_bad_line_stays() {
    let re = line_pattern().unwrap();
    let input = lines(&[
        "set_name (0x10, \"_a\")",
        "set_name (0x20, \"b\")",
        "rename (0x30, \"_c\")",
        "set_name (0x40, \"g_d\")",
        "set_name (0x5|, \"_e\")",
        "set_name (0x60, \"_f\")",
    ]);
    let failure = dump_lines(&re, &input).unwrap_err();
    assert_eq!(failure.line, 4);
    assert_eq!(failure.cause, AddressError::InvalidDigit);
    assert_eq!(
        failure.done.entries,
        vec!["0x10: _a\n".to_string(), "0x40: g_d\n".to_string()]
    );
    assert_eq!(failure.done.counters.total_matched(), 3);
    assert_eq!(failure.done.counters.total_dumped(), 2);

    let before = dump_lines(&re, &input[..4].to_vec()).unwrap();
    assert_eq!(failure.done, before);

    let mut counters = Counters::new();
    let mut written = Vec::new();
    for line in &input {
        match process_line(&re, line, &mut counters) {
            Ok(Some(entry)) => written.push(entry),
            Ok(None) => (),
            Err(cause) => {
                assert_eq!(cause, AddressError::InvalidDigit);
                break;
            }
        }
    }
    assert_eq!(written, failure.done.entries);
    assert_eq!(counters, failure.done.counters);
}

#[test]
fn nothing_matched_is_zero_percent() {
    let re = line_pattern().unwrap();
    let input = lines(&["rename (0x500, \"x\")", "", "junk"]);
    let dump = dump_lines(&re, &input).unwrap();
    assert!(dump.entries.is_empty());
    assert_eq!(dump.counters.total_matched(), 0);
    assert_eq!(dump.counters.total_dumped(), 0);
    assert_eq!(dump.counters.percentage(), 0);
    assert_eq!(dump.counters.summary(), "Dumped 0 names (0% of the DB)");
    assert_eq!(Counters::new().summary(), "Dumped 0 names (0% of the DB)");
}

#[test]
fn the_percentage_is_rounded_down() {
    assert_eq!(counted(3, 2).percentage(), 66);
    assert_eq!(counted(3, 1).percentage(), 33);
    assert_eq!(counted(3, 0).percentage(), 0);
    assert_eq!(counted(3, 3).percentage(), 100);
    assert_eq!(counted(1, 1).percentage(), 100);
    assert_eq!(counted(200, 1).percentage(), 0);
    assert_eq!(counted(200, 199).percentage(), 99);
    assert_eq!(counted(7, 4).percentage(), 57);
}

#[test]
fn the_summary_names_count_and_share() {
    assert_eq!(counted(3, 2).summary(), "Dumped 2 names (66% of the DB)");
    assert_eq!(counted(1, 1).summary(), "Dumped 1 names (100% of the DB)");
    assert_eq!(counted(12, 0).summary(), "Dumped 0 names (0% of the DB)");
    assert_eq!(counted(150, 120).summary(), "Dumped 120 names (80% of the DB)");
}
