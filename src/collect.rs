//! What each gadget makes of the text it found.

use vstd::prelude::*;

use crate::text::{decimal, decimal_string, decimal_value, i32_value, parse_decimal, parse_i32, push_two_digits, two_digits};

verus! {

/// What `str::trim` leaves of a text.
pub uninterp spec fn trimmed(s: Seq<char>) -> Seq<char>;

/// Relies on `str::trim`: the text without its leading and trailing whitespace.
#[verifier::external_body]
pub(crate) fn trim(s: &str) -> (r: &str)
    ensures
        r@ == trimmed(s@),
{
    s.trim()
}

/// The first capture group of the leftmost match of the regular expression
/// `pattern` in `text`; none where the pattern does not compile, does not
/// match, or the group takes no part in the match.
pub uninterp spec fn regex_group(pattern: Seq<char>, text: Seq<char>) -> Option<Seq<char>>;

/// Relies on regex's `Regex::new` and `Regex::captures`: the first group of
/// the leftmost match.
#[verifier::external_body]
fn first_group(pattern: &str, text: &str) -> (r: Option<String>)
    ensures
        opt_view(&r) == regex_group(pattern@, text@),
{
    regex::Regex::new(pattern).ok().and_then(|re| re.captures(text)).and_then(|c| c.get(1)).map(
        |m| m.as_str().to_string(),
    )
}

pub open spec fn opt_view(o: &Option<String>) -> Option<Seq<char>> {
    match o {
        Some(s) => Some(s@),
        None => None,
    }
}

// ---- synchronization ----

/// The number of lock files, in decimal.
pub fn lock_count(matches: usize) -> (r: String)
    ensures
        r@ == decimal(matches as nat),
{
    decimal_string(matches as u64)
}

// ---- git statistics ----

pub open spec fn comma_count(s: Seq<char>) -> nat
    decreases s.len(),
{
    if s.len() == 0 {
        0
    } else {
        comma_count(s.drop_last()) + if s.last() == ',' {
            1nat
        } else {
            0nat
        }
    }
}

pub open spec fn comma_to_space(c: char) -> char {
    if c == ',' {
        ' '
    } else {
        c
    }
}

/// The statistics, fields split on `,`, when there are exactly three fields:
/// those fields joined by single spaces.
pub open spec fn git_text(s: Seq<char>) -> Option<Seq<char>> {
    if comma_count(s) == 2 {
        Some(s.map_values(|c: char| comma_to_space(c)))
    } else {
        None
    }
}

/// Reads the git statistics file: three comma-separated fields.
pub fn git_stats(contents: &str) -> (r: Result<String, String>)
    ensures
        r is Ok <==> git_text(contents@) is Some,
        r matches Ok(t) ==> git_text(contents@) == Some(t@),
{
    let n = contents.unicode_len();
    let mut out = String::new();
    let mut commas: usize = 0;
    let mut i: usize = 0;
    while i < n
        invariant
            n == contents@.len(),
            i <= n,
            commas as nat == comma_count(contents@.subrange(0, i as int)),
            commas <= i,
            out@ == contents@.subrange(0, i as int).map_values(|c: char| comma_to_space(c)),
        decreases n - i,
    {
        let c = contents.get_char(i);
        let ghost pre = contents@.subrange(0, i as int);
        let ghost next = contents@.subrange(0, i + 1);
        assert(next.drop_last() =~= pre);
        assert(next.last() == c);
        assert(next.map_values(|c: char| comma_to_space(c)) =~= pre.map_values(|c: char| comma_to_space(c)).push(comma_to_space(c)));
        if c == ',' {
            commas = commas + 1;
            let sp = " ";
            proof {
                reveal_strlit(" ");
            }
            assert(sp@ =~= seq![comma_to_space(c)]);
            out.append(sp);
        } else {
            let one = contents.substring_char(i, i + 1);
            assert(one@ =~= seq![comma_to_space(c)]);
            out.append(one);
        }
        assert(out@ =~= next.map_values(|c: char| comma_to_space(c)));
        i = i + 1;
    }
    assert(contents@.subrange(0, n as int) =~= contents@);
    if commas == 2 {
        Ok(out)
    } else {
        Err(String::from_str("statistics file of git repositories is malformed"))
    }
}

// ---- memory ----

/// The share of memory in use, in whole percent, rounded down in what is free.
pub open spec fn used_percent(total: int, available: int) -> int {
    100 - (available * 100) / total
}

/// Memory use from the `MemTotal` and `MemAvailable` fields, as two digits and `%`.
pub open spec fn memory_text(total: Option<Seq<char>>, available: Option<Seq<char>>) -> Option<Seq<char>> {
    match (total, available) {
        (Some(t), Some(a)) => match (decimal_value(t, u64::MAX as int), decimal_value(a, u64::MAX as int)) {
            (Some(tv), Some(av)) => if tv > 0 && av <= tv {
                Some(two_digits(used_percent(tv, av) as nat).push('%'))
            } else {
                None
            },
            _ => None,
        },
        _ => None,
    }
}

/// Memory use from the numbers that follow `MemTotal:` and `MemAvailable:`.
pub fn memory_from_fields(total: &Option<String>, available: &Option<String>) -> (r: Result<String, String>)
    ensures
        r is Ok <==> memory_text(opt_view(total), opt_view(available)) is Some,
        r matches Ok(t) ==> memory_text(opt_view(total), opt_view(available)) == Some(t@),
{
    let (t, a) = match (total, available) {
        (Some(t), Some(a)) => (t, a),
        _ => {
            return Err(String::from_str("meminfo file lacks MemTotal or MemAvailable"));
        },
    };
    let tv = match parse_decimal(t.as_str(), u64::MAX) {
        Some(v) => v,
        None => {
            return Err(String::from_str("meminfo file is malformed"));
        },
    };
    let av = match parse_decimal(a.as_str(), u64::MAX) {
        Some(v) => v,
        None => {
            return Err(String::from_str("meminfo file is malformed"));
        },
    };
    if tv == 0 || av > tv {
        return Err(String::from_str("meminfo file holds implausible values"));
    }
    let free: u128 = (av as u128 * 100) / (tv as u128);
    assert(free <= 100) by (nonlinear_arith)
        requires
            free == (av as int * 100) / (tv as int),
            av <= tv,
            tv > 0,
    ;
    let used = 100 - free as u64;
    let mut out = String::new();
    push_two_digits(&mut out, used);
    proof {
        reveal_strlit("%");
    }
    out.append("%");
    assert(out@ =~= two_digits(used_percent(tv as int, av as int) as nat).push('%'));
    Ok(out)
}

/// Memory use from the text of `/proc/meminfo`: the number of kB on the line
/// that starts with `MemTotal:`, and on the one that starts with `MemAvailable:`.
pub open spec fn meminfo_text(meminfo: Seq<char>) -> Option<Seq<char>> {
    memory_text(
        regex_group("(?m)^MemTotal:\\s+([0-9]+) kB"@, meminfo),
        regex_group("(?m)^MemAvailable:\\s+([0-9]+) kB"@, meminfo),
    )
}

/// Memory use as `/proc/meminfo` gives it.
pub fn memory_usage(meminfo: &str) -> (r: Result<String, String>)
    ensures
        r is Ok <==> meminfo_text(meminfo@) is Some,
        r matches Ok(t) ==> meminfo_text(meminfo@) == Some(t@),
{
    let total = first_group("(?m)^MemTotal:\\s+([0-9]+) kB", meminfo);
    let available = first_group("(?m)^MemAvailable:\\s+([0-9]+) kB", meminfo);
    memory_from_fields(&total, &available)
}

// ---- temperature ----

/// Millidegrees to whole degrees, the fraction cut off toward zero.
pub open spec fn whole_degrees(milli: int) -> int {
    if milli >= 0 {
        milli / 1000
    } else {
        -((-milli) / 1000)
    }
}

pub open spec fn plausible(celsius: int) -> bool {
    10 <= celsius <= 150
}

/// The temperature a sensor file gives, in degrees, where it parses and is plausible.
pub open spec fn reading_celsius(s: Seq<char>) -> Option<int> {
    match i32_value(s) {
        Some(m) => if plausible(whole_degrees(m)) {
            Some(whole_degrees(m))
        } else {
            None
        },
        None => None,
    }
}

pub open spec fn entry_celsius(e: Option<Seq<char>>) -> Option<int> {
    match e {
        Some(s) => reading_celsius(s),
        None => None,
    }
}

/// The highest plausible reading; files that could not be read or parsed are passed over.
pub open spec fn hottest(rs: Seq<Option<Seq<char>>>) -> Option<int>
    decreases rs.len(),
{
    if rs.len() == 0 {
        None
    } else {
        match (hottest(rs.drop_last()), entry_celsius(rs.last())) {
            (Some(a), Some(b)) => Some(if a >= b {
                a
            } else {
                b
            }),
            (Some(a), None) => Some(a),
            (None, h) => h,
        }
    }
}

pub open spec fn temperature_text(rs: Seq<Option<Seq<char>>>) -> Option<Seq<char>> {
    match hottest(rs) {
        Some(c) => Some(two_digits(c as nat).push('\u{b0}')),
        None => None,
    }
}

pub open spec fn entries_view(v: Seq<Option<String>>) -> Seq<Option<Seq<char>>> {
    v.map_values(|o: Option<String>| opt_view(&o))
}

pub open spec fn trimmed_entry(e: Option<Seq<char>>) -> Option<Seq<char>> {
    match e {
        Some(s) => Some(trimmed(s)),
        None => None,
    }
}

fn celsius_of(s: &str) -> (r: Option<i32>)
    ensures
        r matches Some(c) <==> reading_celsius(s@) is Some,
        r matches Some(c) ==> reading_celsius(s@) == Some(c as int),
{
    match parse_i32(s) {
        Some(m) => {
            if m < 10000 {
                None
            } else {
                let c = m / 1000;
                if c <= 150 {
                    Some(c)
                } else {
                    None
                }
            }
        },
        None => None,
    }
}

/// The hottest of already trimmed sensor readings, as two digits and a degree sign.
pub fn hottest_of_trimmed(readings: &Vec<Option<String>>) -> (r: Result<String, String>)
    ensures
        r is Ok <==> temperature_text(entries_view(readings@)) is Some,
        r matches Ok(t) ==> temperature_text(entries_view(readings@)) == Some(t@),
{
    let mut best: Option<i32> = None;
    let mut i: usize = 0;
    while i < readings.len()
        invariant
            i <= readings@.len(),
            match best {
                Some(b) => hottest(entries_view(readings@.subrange(0, i as int))) == Some(b as int)
                    && 10 <= b <= 150,
                None => hottest(entries_view(readings@.subrange(0, i as int))) is None,
            },
        decreases readings.len() - i,
    {
        let here = match &readings[i] {
            Some(s) => celsius_of(s.as_str()),
            None => None,
        };
        proof {
            let pre = entries_view(readings@.subrange(0, i as int));
            let next = entries_view(readings@.subrange(0, i + 1));
            assert(next.drop_last() =~= pre);
            assert(next.last() == opt_view(&readings@[i as int]));
        }
        best = match (best, here) {
            (Some(a), Some(b)) => Some(if a >= b {
                a
            } else {
                b
            }),
            (Some(a), None) => Some(a),
            (None, h) => h,
        };
        i = i + 1;
    }
    assert(readings@.subrange(0, i as int) =~= readings@);
    match best {
        Some(b) => {
            let mut out = String::new();
            push_two_digits(&mut out, b as u64);
            let deg = "\u{b0}";
            proof {
                reveal_strlit("\u{b0}");
            }
            out.append(deg);
            assert(out@ =~= two_digits(b as nat).push('\u{b0}'));
            Ok(out)
        },
        None => Err(String::from_str("no plausible temperature found")),
    }
}

/// The hottest plausible reading of the sensor files (their contents, or none
/// where a file could not be read), as two digits and a degree sign.
pub fn temperature(readings: &Vec<Option<String>>) -> (r: Result<String, String>)
    ensures
        r is Ok <==> temperature_text(entries_view(readings@).map_values(|e| trimmed_entry(e))) is Some,
        r matches Ok(t) ==> temperature_text(
            entries_view(readings@).map_values(|e| trimmed_entry(e)),
        ) == Some(t@),
{
    let mut clean: Vec<Option<String>> = Vec::new();
    let mut i: usize = 0;
    while i < readings.len()
        invariant
            i <= readings@.len(),
            entries_view(clean@) =~= entries_view(readings@.subrange(0, i as int)).map_values(
                |e| trimmed_entry(e),
            ),
        decreases readings.len() - i,
    {
        let e = match &readings[i] {
            Some(s) => Some(String::from_str(trim(s.as_str()))),
            None => None,
        };
        let ghost before = clean@;
        clean.push(e);
        proof {
            let f = |e: Option<Seq<char>>| trimmed_entry(e);
            let pre = readings@.subrange(0, i as int);
            let next = readings@.subrange(0, i + 1);
            assert(next =~= pre.push(readings@[i as int]));
            assert(entries_view(next) =~= entries_view(pre).push(opt_view(&readings@[i as int])));
            assert(entries_view(next).map_values(f) =~= entries_view(pre).map_values(f).push(
                trimmed_entry(opt_view(&readings@[i as int])),
            ));
            assert(clean@ =~= before.push(e));
            assert(entries_view(clean@) =~= entries_view(before).push(opt_view(&e)));
        }
        i = i + 1;
    }
    assert(readings@.subrange(0, i as int) =~= readings@);
    hottest_of_trimmed(&clean)
}

} // verus!
