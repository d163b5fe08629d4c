use gadgets::collect::{git_stats, hottest_of_trimmed, lock_count, memory_from_fields, memory_usage, temperature};
use gadgets::gadget::{fragment, process_gadget, render_all, status_line, validate_gadget, PLACEHOLDER};
use gadgets::text::{decimal_string, parse_decimal, parse_i32};
use gadgets::{Findings, Gadget, GadgetResult, ProbeMode};

fn one_file(contents: &str) -> Findings {
    Ok(vec![Some(contents.to_string())])
}

fn files(contents: &[&str]) -> Findings {
    Ok(contents.iter().map(|c| Some(c.to_string())).collect())
}

#[test]
fn parse_known_identifiers() {
    assert_eq!(Gadget::try_from("synchronization"), Ok(Gadget::Synchronization));
    assert_eq!(Gadget::try_from("git"), Ok(Gadget::Git));
    assert_eq!(Gadget::try_from("thunderbird"), Ok(Gadget::Thunderbird));
    assert_eq!(Gadget::try_from("memory"), Ok(Gadget::Memory));
    assert_eq!(Gadget::try_from("temperature"), Ok(Gadget::Temperature));
    assert_eq!(validate_gadget("memory"), Ok(Gadget::Memory));
}

#[test]
fn parse_rejects_other_text() {
    assert!(Gadget::try_from("Git").is_err());
    assert!(Gadget::try_from("").is_err());
    assert!(Gadget::try_from("memory ").is_err());
    assert!(Gadget::try_from("temp").is_err());
    assert!(validate_gadget("battery").is_err());
}

#[test]
fn memory_quarter_available() {
    let r = memory_usage("MemTotal: 1000 kB\nMemFree: 100 kB\nMemAvailable: 250 kB\n");
    assert_eq!(r, Ok("75%".to_string()));
}

#[test]
fn memory_all_available() {
    let r = memory_usage("MemTotal:       16000 kB\nMemAvailable:   16000 kB\n");
    assert_eq!(r, Ok("00%".to_string()));
}

#[test]
fn memory_rounds_free_share_down() {
    let r = memory_from_fields(&Some("3".to_string()), &Some("1".to_string()));
    assert_eq!(r, Ok("67%".to_string()));
    let r = memory_from_fields(&Some("1000".to_string()), &Some("0".to_string()));
    assert_eq!(r, Ok("100%".to_string()));
}

#[test]
fn memory_failures() {
    assert!(memory_usage("MemTotal: 1000 kB\n").is_err());
    assert!(memory_usage("MemTotal: 0 kB\nMemAvailable: 0 kB\n").is_err());
    assert!(memory_usage("").is_err());
    assert!(memory_from_fields(&Some("1000".to_string()), &Some("2000".to_string())).is_err());
    assert!(memory_from_fields(&Some("99999999999999999999".to_string()), &Some("1".to_string())).is_err());
    assert!(memory_from_fields(&None, &Some("1".to_string())).is_err());
}

#[test]
fn temperature_hottest_plausible() {
    let readings = vec![Some("45000\n".to_string()), Some("72000\n".to_string()), Some("9999\n".to_string())];
    assert_eq!(temperature(&readings), Ok("72\u{b0}".to_string()));
}

#[test]
fn temperature_nothing_matched() {
    assert!(temperature(&vec![]).is_err());
    assert!(Gadget::Temperature.run(&Ok(vec![])).data.is_err());
}

#[test]
fn temperature_skips_bad_files() {
    let readings = vec![None, Some("garbage".to_string()), Some("151000".to_string()), Some("10000".to_string())];
    assert_eq!(temperature(&readings), Ok("10\u{b0}".to_string()));
    let readings = vec![Some("-45000".to_string()), Some("200000".to_string())];
    assert!(temperature(&readings).is_err());
}

#[test]
fn temperature_of_trimmed_readings() {
    let readings = vec![Some("150999".to_string()), Some("+55000".to_string())];
    assert_eq!(hottest_of_trimmed(&readings), Ok("150\u{b0}".to_string()));
    let readings = vec![Some(" 55000".to_string())];
    assert!(hottest_of_trimmed(&readings).is_err());
}

#[test]
fn git_three_fields() {
    assert_eq!(git_stats("3,1024,50000"), Ok("3 1024 50000".to_string()));
}

#[test]
fn git_wrong_field_count() {
    assert!(git_stats("3,1024").is_err());
    assert!(git_stats("3,1024,50000,7").is_err());
    assert!(git_stats("").is_err());
}

#[test]
fn lock_count_in_decimal() {
    assert_eq!(lock_count(0), "0");
    assert_eq!(lock_count(12), "12");
    let found: Findings = Ok(vec![Some("a".to_string()), Some("b".to_string()), Some("c".to_string())]);
    assert_eq!(Gadget::Synchronization.run(&found).data, Ok("3".to_string()));
}

#[test]
fn run_git_and_mail() {
    assert_eq!(Gadget::Git.run(&one_file("3,1024,50000\n")).data, Ok("3 1024 50000\n".to_string()));
    assert!(Gadget::Git.run(&one_file("3,1024\n")).data.is_err());
    assert_eq!(Gadget::Thunderbird.run(&one_file("12\n")).data, Ok("12\n".to_string()));
    assert!(Gadget::Thunderbird.run(&one_file(" \n")).data.is_err());
    assert!(Gadget::Thunderbird.run(&Err("no file".to_string())).data.is_err());
    assert!(Gadget::Memory.run(&Ok(vec![None])).data.is_err());
}

#[test]
fn run_gives_icons() {
    assert_eq!(Gadget::Synchronization.run(&Ok(vec![])).icon, "\u{f021}");
    assert_eq!(Gadget::Git.run(&Ok(vec![])).icon, "\u{f126}");
    assert_eq!(Gadget::Thunderbird.run(&Ok(vec![])).icon, "\u{f2b7}");
    assert_eq!(Gadget::Memory.run(&Ok(vec![])).icon, "\u{f1c0}");
    assert_eq!(Gadget::Temperature.run(&Ok(vec![])).icon, "\u{f2c7}");
}

#[test]
fn print_trims_value() {
    let r = GadgetResult { icon: "I".to_string(), data: Ok("  7 \n".to_string()) };
    assert_eq!(r.print(2, "???"), "I  7");
}

#[test]
fn failure_renders_placeholder() {
    let r = GadgetResult { icon: "I".to_string(), data: Err("file missing".to_string()) };
    assert_eq!(r.print(3, "???"), "I   ???");
    let r = Gadget::Git.run(&one_file("1,2"));
    let shown = r.print(2, PLACEHOLDER);
    assert_eq!(shown, "\u{f126}  ???");
    assert!(!shown.contains("malformed"));
}

#[test]
fn fragment_layout() {
    assert_eq!(fragment("X", 0, "v"), "Xv");
    assert_eq!(fragment("X", 4, ""), "X    ");
}

#[test]
fn fragments_follow_request_order() {
    let gadgets = vec![Gadget::Temperature, Gadget::Git, Gadget::Temperature, Gadget::Synchronization];
    let found = vec![files(&["50000"]), one_file("x"), Err("none".to_string()), files(&["p", "q"])];
    let out = render_all(&gadgets, &found, 1);
    assert_eq!(out.len(), 4);
    assert_eq!(out[0], "\u{f2c7} 50\u{b0}");
    assert_eq!(out[1], "\u{f126} ???");
    assert_eq!(out[2], "\u{f2c7} ???");
    assert_eq!(out[3], "\u{f021} 2");
    assert!(render_all(&vec![], &vec![], 2).is_empty());
}

#[test]
fn process_gadget_appends() {
    let mut results = vec!["first".to_string()];
    let r = process_gadget(Gadget::Git, &one_file("1,2,3"), 2, &mut results);
    assert_eq!(r.data, Ok("1 2 3".to_string()));
    assert_eq!(results, vec!["first".to_string(), "\u{f126}  1 2 3".to_string()]);
}

#[test]
fn collection_is_repeatable() {
    let found = files(&["45000\n", "61000\n"]);
    let first = Gadget::Temperature.run(&found).print(2, PLACEHOLDER);
    let second = Gadget::Temperature.run(&found).print(2, PLACEHOLDER);
    assert_eq!(first, second);
    let meminfo = one_file("MemTotal: 1000 kB\nMemAvailable: 250 kB\n");
    assert_eq!(Gadget::Memory.run(&meminfo).print(2, PLACEHOLDER), Gadget::Memory.run(&meminfo).print(2, PLACEHOLDER));
}

#[test]
fn status_line_joins() {
    let parts = vec!["a".to_string(), "b".to_string(), "c".to_string()];
    assert_eq!(status_line(&parts, 4), "a    b    c");
    assert_eq!(status_line(&vec!["only".to_string()], 4), "only");
    assert_eq!(status_line(&vec![], 4), "");
}

#[test]
fn probes_name_fixed_places() {
    let data = Some("/home/u/.local/share".to_string());
    let home = Some("/home/u".to_string());
    let p = Gadget::Synchronization.probe_in(&data, &home).unwrap();
    assert_eq!(p.pattern, "/home/u/.local/share/sync-*.lock");
    assert_eq!(p.mode, ProbeMode::Count);
    let p = Gadget::Git.probe_in(&data, &home).unwrap();
    assert_eq!(p.pattern, "/home/u/git/.statistics");
    assert_eq!(p.mode, ProbeMode::ReadOne);
    let p = Gadget::Thunderbird.probe_in(&data, &home).unwrap();
    assert_eq!(p.pattern, "/home/u/.local/share/tbunread/count");
    let p = Gadget::Memory.probe_in(&None, &None).unwrap();
    assert_eq!(p.pattern, "/proc/meminfo");
    let p = Gadget::Temperature.probe_in(&None, &None).unwrap();
    assert_eq!(p.pattern, "/sys/class/hwmon/hwmon*/temp*_input");
    assert_eq!(p.mode, ProbeMode::ReadEach);
    assert!(Gadget::Synchronization.probe_in(&None, &home).is_err());
    assert!(Gadget::Git.probe_in(&data, &None).is_err());
}

#[test]
fn numbers_read_and_written() {
    assert_eq!(decimal_string(0), "0");
    assert_eq!(decimal_string(1024), "1024");
    assert_eq!(parse_decimal("18446744073709551615", u64::MAX), Some(u64::MAX));
    assert_eq!(parse_decimal("18446744073709551616", u64::MAX), None);
    assert_eq!(parse_decimal("12a", 100), None);
    assert_eq!(parse_decimal("", 100), None);
    assert_eq!(parse_i32("-2147483648"), Some(i32::MIN));
    assert_eq!(parse_i32("2147483647"), Some(i32::MAX));
    assert_eq!(parse_i32("2147483648"), None);
    assert_eq!(parse_i32("+7"), Some(7));
    assert_eq!(parse_i32("-"), None);
}
