use regex::Regex;
use spinnrd::descriptor::{Endian, ScanType, Signed};

/// The descriptor pattern as a regular expression.
const PATTERN: &str =
    r"(?:(?P<end>be|le):)?(?P<sign>s|u)?(?P<bit>\d+)/(?P<sto>\d+)(?:X(?P<rep>\d+))?(?:>>(?P<shift>\d+))?";

type Parts = (Endian, Signed, u8, u8, u8, u8);

fn by_pattern(re: &Regex, text: &str) -> Option<Parts> {
    let caps = re.captures(text)?;
    let bits = caps["bit"].parse::<u8>().ok()?;
    let storage = caps["sto"].parse::<u8>().ok()?;
    if bits < 1 || bits > storage || ![8, 16, 32, 64].contains(&storage) {
        return None;
    }
    let endian = match caps.name("end").map(|m| m.as_str()) {
        Some("be") => Endian::Big,
        _ => Endian::Little,
    };
    let sign = match caps.name("sign").map(|m| m.as_str()) {
        Some("s") => Signed::Signed,
        _ => Signed::Unsigned,
    };
    let repeat = caps.name("rep").and_then(|m| m.as_str().parse::<u8>().ok()).unwrap_or(0);
    let shift = caps.name("shift").and_then(|m| m.as_str().parse::<u8>().ok()).unwrap_or(1);
    Some((endian, sign, bits, storage, repeat, shift))
}

fn by_library(text: &str) -> Option<Parts> {
    let scan = ScanType::from_str(text, false).ok()?;
    Some((
        scan.endianness(),
        scan.sign(),
        scan.bits(),
        scan.storagebits(),
        scan.repeat(),
        scan.rshift(),
    ))
}

#[test]
fn descriptors_are_read_as_the_pattern_reads_them() {
    let re = Regex::new(PATTERN).unwrap();
    let texts = [
        "s8/32>>0", "u6/16>>0", "le:u6/16", "be:s12/16X2>>4", "le:s12/16>>4\n", "12s8/32",
        "be:le:s8/8", "bele:8/8", "s8/32X>>3", "s8/32X1>>", "s8/32>>1X2", "su8/16", "ss8/16",
        "8//16", "8/16/32", "1/8 2/8", "0/8 2/8", "be:/8 2/8", "s8/32X300>>2", "s8/32X2>>300",
        "s256/256", "s08/0008", "le:be:u7/8>>>>1", "u64/64X0>>0", ":8/8", "e:8/16", "8/16X",
    ];
    for text in texts {
        assert_eq!(by_library(text), by_pattern(&re, text), "{:?}", text);
    }
}

/// The next of a run of numbers that look random and are the same each time.
fn next(state: &mut u64) -> usize {
    *state = state.wrapping_mul(6364136223846793005).wrapping_add(1442695040888963407);
    (*state >> 33) as usize
}

fn pick<'a>(state: &mut u64, choices: &[&'a str]) -> &'a str {
    choices[next(state) % choices.len()]
}

#[test]
fn texts_made_of_the_letters_of_descriptors_are_read_as_the_pattern_reads_them() {
    let re = Regex::new(PATTERN).unwrap();
    let letters: Vec<char> = "sublee::0123468//XX>>> \n".chars().collect();
    let mut state: u64 = 0x2545_f491_4f6c_dd1d;
    for _ in 0..50000 {
        let mut text = String::new();
        let length = next(&mut state) % 16;
        for _ in 0..length {
            text.push(letters[next(&mut state) % letters.len()]);
        }
        assert_eq!(by_library(&text), by_pattern(&re, &text), "{:?}", text);
    }
}

#[test]
fn texts_put_together_like_descriptors_are_read_as_the_pattern_reads_them() {
    let re = Regex::new(PATTERN).unwrap();
    let mut state: u64 = 0x9e37_79b9_7f4a_7c15;
    let mut read = 0;
    for _ in 0..50000 {
        let mut text = String::new();
        text.push_str(pick(&mut state, &["", "", " ", "x", "7", "be", "s"]));
        text.push_str(pick(&mut state, &["", "", "be:", "le:", "e:", ":", "bel:"]));
        text.push_str(pick(&mut state, &["", "s", "u", "su", "S"]));
        text.push_str(pick(&mut state, &["8", "12", "16", "1", "0", "64", "65", "007", "256", ""]));
        text.push_str(pick(&mut state, &["/", "/", "/", "", "//", " /"]));
        text.push_str(pick(&mut state, &["8", "16", "32", "64", "064", "12", "0", "128", "300", ""]));
        text.push_str(pick(&mut state, &["", "", "X2", "X", "X255", "X256", "X02", "x2", "X 2"]));
        text.push_str(pick(&mut state, &["", "", ">>0", ">>4", ">>", ">4", ">>255", ">>256", ">> 4"]));
        text.push_str(pick(&mut state, &["", "", "\n", " ", "X3", ">>9", "/8", "s8/8"]));
        let expected = by_pattern(&re, &text);
        if expected.is_some() {
            read += 1;
        }
        assert_eq!(by_library(&text), expected, "{:?}", text);
    }
    assert!(read > 5000, "only {} of the texts held a descriptor", read);
}
