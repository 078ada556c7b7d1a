use vstd::prelude::*;
use vstd::slice::slice_subrange;
use vstd::string::StringExecFns;
use crate::assoc::{bytes_to_string_lossy, lookup, lossy_of, pair_seq_view};
use crate::errors::{JujuError, OutputFault};
use crate::yaml::{lemma_mapping_view, parse_yaml_doc, yaml_doc_of, Yaml, YamlV};

verus! {

// ---------------------------------------------------------------------------
// Parsing the external tools' output streams: the most regression-prone
// logic of the pipeline, isolated here with exact statements.
// ---------------------------------------------------------------------------

/// Position of the first occurrence of `b` at or after `i`.
pub open spec fn spec_find(s: Seq<u8>, b: u8, i: int) -> Option<int>
    decreases s.len() - i,
{
    if i < 0 || i >= s.len() {
        None
    } else if s[i] == b {
        Some(i)
    } else {
        spec_find(s, b, i + 1)
    }
}

#[verifier::loop_isolation(false)]
fn find_byte(s: &[u8], b: u8) -> (r: Option<usize>)
    ensures
        match r {
            Some(n) => spec_find(s@, b, 0) == Some(n as int) && n < s@.len(),
            None => spec_find(s@, b, 0) is None,
        },
{
    let mut i: usize = 0;
    while i < s.len()
        invariant
            0 <= i <= s.len(),
            spec_find(s@, b, 0) == spec_find(s@, b, i as int),
        decreases s.len() - i,
    {
        if s[i] == b {
            return Some(i);
        }
        i = i + 1;
    }
    None
}

/// Every value of the mapping is a string.
pub open spec fn all_values_str(es: Seq<(Seq<char>, YamlV)>) -> bool {
    forall|i: int| 0 <= i < es.len() ==> (#[trigger] es[i].1) is Str
}

/// What the push stage extracts from the push tool's combined output: the
/// structured first line, up to the first newline byte, must be a mapping of
/// strings holding a `url` field; everything after the newline is ignored.
pub open spec fn spec_push_url(out: Seq<u8>) -> Result<Seq<char>, OutputFault> {
    match spec_find(out, 10, 0) {
        Option::None => Err(OutputFault::NoNewline),
        Option::Some(n) => match yaml_doc_of(out.subrange(0, n)) {
            Option::Some(YamlV::Mapping(es)) => if !all_values_str(es) {
                Err(OutputFault::NotAMapping)
            } else {
                match lookup(es, "url"@) {
                    Option::Some(YamlV::Str(u)) => Ok(u),
                    _ => Err(OutputFault::NoUrlField),
                }
            },
            _ => Err(OutputFault::NotAMapping),
        },
    }
}

/// Extract the revision URL from the push tool's output, exactly as
/// `spec_push_url` states.
#[verifier::loop_isolation(false)]
pub fn extract_push_url(output: &Vec<u8>) -> (r: Result<String, JujuError>)
    ensures
        match r {
            Ok(u) => spec_push_url(output@) == Ok::<_, OutputFault>(u@),
            Err(e) => spec_push_url(output@) matches Err(f) && e == JujuError::MalformedOutput(f),
        },
{
    let n = match find_byte(output.as_slice(), 10) {
        Option::Some(n) => n,
        Option::None => {
            return Err(JujuError::MalformedOutput(OutputFault::NoNewline));
        },
    };
    let first_line = slice_subrange(output.as_slice(), 0, n);
    let doc = match parse_yaml_doc(first_line) {
        Option::Some(y) => y,
        Option::None => {
            return Err(JujuError::MalformedOutput(OutputFault::NotAMapping));
        },
    };
    match &doc {
        Yaml::Mapping(entries) => {
            proof {
                assert(doc == Yaml::Mapping(*entries));
                lemma_mapping_view(*entries);
            }
            let ghost es = pair_seq_view(entries@);
            let mut i: usize = 0;
            while i < entries.len()
                invariant
                    0 <= i <= entries.len(),
                    forall|m: int| 0 <= m < i ==> (#[trigger] es[m].1) is Str,
                decreases entries.len() - i,
            {
                assert(es[i as int] == (entries@[i as int].0@, entries@[i as int].1@));
                match &entries[i].1 {
                    Yaml::Str(_) => {},
                    _ => {
                        proof {
                            assert(!(es[i as int].1 is Str));
                            assert(!all_values_str(es));
                        }
                        return Err(JujuError::MalformedOutput(OutputFault::NotAMapping));
                    },
                }
                i = i + 1;
            }
            assert(all_values_str(es));
            match crate::assoc::assoc_get(entries, "url") {
                Option::Some(Yaml::Str(u)) => Ok(u.clone()),
                _ => Err(JujuError::MalformedOutput(OutputFault::NoUrlField)),
            }
        },
        _ => Err(JujuError::MalformedOutput(OutputFault::NotAMapping)),
    }
}

/// What the hub's resource-revisions listing yields: the second line's first
/// space-delimited token; a stream without a second line has none.
pub open spec fn spec_second_line_token(s: Seq<u8>) -> Result<Seq<u8>, OutputFault> {
    match spec_find(s, 10, 0) {
        Option::None => Err(OutputFault::NoSecondLine),
        Option::Some(n) => {
            if n + 1 >= s.len() {
                Err(OutputFault::NoSecondLine)
            } else {
                let rest = s.subrange(n + 1, s.len() as int);
                let line = match spec_find(rest, 10, 0) {
                    Option::None => rest,
                    Option::Some(m) => rest.subrange(0, m),
                };
                match spec_find(line, 32, 0) {
                    Option::None => Ok(line),
                    Option::Some(t) => Ok(line.subrange(0, t)),
                }
            }
        },
    }
}

/// Read the second line's first token from the listing output and decode it
/// as text.
pub fn second_line_token(stderr: &Vec<u8>) -> (r: Result<String, JujuError>)
    ensures
        match r {
            Ok(tok) => spec_second_line_token(stderr@) matches Ok(t) && tok@ == lossy_of(t),
            Err(e) => spec_second_line_token(stderr@) matches Err(f) && e
                == JujuError::MalformedOutput(f),
        },
{
    let n = match find_byte(stderr.as_slice(), 10) {
        Option::Some(n) => n,
        Option::None => {
            return Err(JujuError::MalformedOutput(OutputFault::NoSecondLine));
        },
    };
    let total = stderr.len();
    assert(n < total);
    if n + 1 >= total {
        return Err(JujuError::MalformedOutput(OutputFault::NoSecondLine));
    }
    let rest = slice_subrange(stderr.as_slice(), n + 1, total);
    let line = match find_byte(rest, 10) {
        Option::None => rest,
        Option::Some(m) => slice_subrange(rest, 0, m),
    };
    let tok = match find_byte(line, 32) {
        Option::None => line,
        Option::Some(t) => slice_subrange(line, 0, t),
    };
    proof {
        assert(spec_second_line_token(stderr@) == Ok::<_, OutputFault>(tok@));
    }
    Ok(bytes_to_string_lossy(tok))
}

/// Parse a decimal token: `None` when a byte is not a digit or the value
/// leaves `u32` range; an optional leading plus sign is accepted.
pub open spec fn spec_dec_parse(s: Seq<u8>, i: int, acc: int) -> Option<int>
    decreases s.len() - i,
{
    if i < 0 || i >= s.len() {
        Some(acc)
    } else if !(48 <= s[i] <= 57) {
        None
    } else if acc * 10 + (s[i] - 48) > 0xffff_ffff {
        None
    } else {
        spec_dec_parse(s, i + 1, acc * 10 + (s[i] - 48))
    }
}

/// What the hub's upload output yields: skip the fixed nine-byte prefix,
/// take the bytes up to the first space, and read them as a decimal
/// revision number.
pub open spec fn spec_upload_revision(s: Seq<u8>) -> Result<int, OutputFault> {
    if s.len() < 9 {
        Err(OutputFault::TooShort)
    } else {
        let rest = s.subrange(9, s.len() as int);
        match spec_find(rest, 32, 0) {
            Option::None => Err(OutputFault::NoSpace),
            Option::Some(t) => {
                let tok = rest.subrange(0, t);
                let digits = if tok.len() > 0 && tok[0] == 43 {
                    tok.subrange(1, tok.len() as int)
                } else {
                    tok
                };
                if digits.len() == 0 {
                    Err(OutputFault::NotDecimal)
                } else {
                    match spec_dec_parse(digits, 0, 0) {
                        Option::Some(v) => Ok(v),
                        Option::None => Err(OutputFault::NotDecimal),
                    }
                }
            },
        }
    }
}

/// Parse the upload tool's diagnostic output into the assigned revision,
/// exactly as `spec_upload_revision` states.
#[verifier::loop_isolation(false)]
pub fn parse_upload_revision(stderr: &Vec<u8>) -> (r: Result<u32, JujuError>)
    ensures
        match r {
            Ok(v) => spec_upload_revision(stderr@) == Ok::<_, OutputFault>(v as int),
            Err(e) => spec_upload_revision(stderr@) matches Err(f) && e
                == JujuError::MalformedOutput(f),
        },
{
    if stderr.len() < 9 {
        return Err(JujuError::MalformedOutput(OutputFault::TooShort));
    }
    let rest = slice_subrange(stderr.as_slice(), 9, stderr.len());
    let t = match find_byte(rest, 32) {
        Option::Some(t) => t,
        Option::None => {
            return Err(JujuError::MalformedOutput(OutputFault::NoSpace));
        },
    };
    let tok = slice_subrange(rest, 0, t);
    let digits = if tok.len() > 0 && tok[0] == 43 {
        slice_subrange(tok, 1, tok.len())
    } else {
        tok
    };
    if digits.len() == 0 {
        return Err(JujuError::MalformedOutput(OutputFault::NotDecimal));
    }
    let mut acc: u32 = 0;
    let mut i: usize = 0;
    while i < digits.len()
        invariant
            0 <= i <= digits.len(),
            spec_dec_parse(digits@, 0, 0) == spec_dec_parse(digits@, i as int, acc as int),
        decreases digits.len() - i,
    {
        let d = digits[i];
        if !(48 <= d && d <= 57) {
            return Err(JujuError::MalformedOutput(OutputFault::NotDecimal));
        }
        let dv: u32 = (d - 48) as u32;
        if acc > (0xffff_ffffu32 - dv) / 10 {
            proof {
                assert(acc * 10 + dv > 0xffff_ffff) by (nonlinear_arith)
                    requires
                        acc > (0xffff_ffffu32 - dv) / 10,
                        0 <= dv <= 9,
                        0 <= acc <= 0xffff_ffff,
                ;
            }
            return Err(JujuError::MalformedOutput(OutputFault::NotDecimal));
        }
        proof {
            assert(acc * 10 + dv <= 0xffff_ffff) by (nonlinear_arith)
                requires
                    acc <= (0xffff_ffffu32 - dv) / 10,
                    0 <= dv <= 9,
                    0 <= acc <= 0xffff_ffff,
            ;
        }
        acc = acc * 10 + dv;
        i = i + 1;
    }
    Ok(acc)
}

/// The characters of one decimal digit.
pub open spec fn digit_seq(d: int) -> Seq<char> {
    if d == 0 {
        "0"@
    } else if d == 1 {
        "1"@
    } else if d == 2 {
        "2"@
    } else if d == 3 {
        "3"@
    } else if d == 4 {
        "4"@
    } else if d == 5 {
        "5"@
    } else if d == 6 {
        "6"@
    } else if d == 7 {
        "7"@
    } else if d == 8 {
        "8"@
    } else {
        "9"@
    }
}

/// The decimal notation of a number, most significant digit first.
pub open spec fn spec_decimal(n: int) -> Seq<char>
    decreases n,
{
    if n < 10 {
        digit_seq(n)
    } else {
        spec_decimal(n / 10) + digit_seq(n % 10)
    }
}

fn digit_str(d: u32) -> (r: &'static str)
    requires
        d <= 9,
    ensures
        r@ == digit_seq(d as int),
{
    match d {
        0 => "0",
        1 => "1",
        2 => "2",
        3 => "3",
        4 => "4",
        5 => "5",
        6 => "6",
        7 => "7",
        8 => "8",
        _ => "9",
    }
}

/// Write a number in decimal notation.
pub fn u32_decimal(n: u32) -> (r: String)
    ensures
        r@ == spec_decimal(n as int),
    decreases n,
{
    if n < 10 {
        String::from_str(digit_str(n))
    } else {
        let high = u32_decimal(n / 10);
        high.concat(digit_str(n % 10))
    }
}

/// The final published URL of the hub backend: the destination identifier
/// combined with the assigned revision.
pub fn published_url(url: &str, revision: u32) -> (r: String)
    ensures
        r@ == url@ + "-"@ + spec_decimal(revision as int),
{
    let mut s = url.to_owned();
    s.append("-");
    s.append(u32_decimal(revision).as_str());
    s
}

} // verus!
