//! The command line of a run and of the extraction tool it invokes.
use vstd::prelude::*;
use vstd::string::StringExecFns;
use crate::date::{digit_char, digits_value, is_digit};

verus! {

/// The extraction tool's program name.
pub const TOOL_PROGRAM: &'static str = "yt-dlp";

/// The decimal digits of `n`, without leading zeros.
pub open spec fn decimal(n: nat) -> Seq<char>
    decreases n,
{
    if n < 10 {
        seq![digit_char(n as int)]
    } else {
        decimal(n / 10) + seq![digit_char((n % 10) as int)]
    }
}

fn digit_text(d: u64) -> (r: &'static str)
    requires
        d < 10,
    ensures
        r@ == seq![digit_char(d as int)],
{
    proof {
        reveal_strlit("0");
        reveal_strlit("1");
        reveal_strlit("2");
        reveal_strlit("3");
        reveal_strlit("4");
        reveal_strlit("5");
        reveal_strlit("6");
        reveal_strlit("7");
        reveal_strlit("8");
        reveal_strlit("9");
    }
    match d {
        0 => "0",
        1 => "1",
        2 => "2",
        3 => "3",
        4 => "4",
        5 => "5",
        6 => "6",
        7 => "7",
        8 => "8",
        _ => "9",
    }
}

/// `n` written in decimal.
pub fn decimal_text(n: u64) -> (r: String)
    ensures
        r@ == decimal(n as nat),
    decreases n,
{
    if n < 10 {
        digit_text(n).to_owned()
    } else {
        let mut s = decimal_text(n / 10);
        s.append(digit_text(n % 10));
        s
    }
}

/// The tool's arguments: one JSON object per video on standard output, no
/// download, quiet, carrying on past errors, at most `limit` videos, from `url`.
pub open spec fn tool_argument_texts(limit: u64, url: Seq<char>) -> Seq<Seq<char>> {
    seq![
        "--dump-json"@,
        "--skip-download"@,
        "--quiet"@,
        "--ignore-errors"@,
        "--playlist-end"@,
        decimal(limit as nat),
        url,
    ]
}

/// The arguments to run the extraction tool with.
pub fn tool_arguments(limit: u64, url: &str) -> (r: Vec<String>)
    ensures
        r@.map_values(|s: String| s@) == tool_argument_texts(limit, url@),
{
    let mut r: Vec<String> = Vec::new();
    r.push("--dump-json".to_owned());
    r.push("--skip-download".to_owned());
    r.push("--quiet".to_owned());
    r.push("--ignore-errors".to_owned());
    r.push("--playlist-end".to_owned());
    r.push(decimal_text(limit));
    r.push(url.to_owned());
    assert(r@.map_values(|s: String| s@) =~= tool_argument_texts(limit, url@));
    r
}

/// The digits of a count, after one optional leading `+`.
pub open spec fn count_digits(s: Seq<char>) -> Seq<char> {
    if s.len() > 0 && s[0] == '+' {
        s.drop_first()
    } else {
        s
    }
}

/// The count that `s` writes: one or more decimal digits, after an optional
/// `+`, whose value fits in a `u64` (as `str::parse::<u64>` reads it).
pub open spec fn count_value(s: Seq<char>) -> Option<int> {
    let d = count_digits(s);
    if d.len() > 0 && (forall|i: int| 0 <= i < d.len() ==> is_digit(#[trigger] d[i]))
        && digits_value(d) <= u64::MAX {
        Some(digits_value(d))
    } else {
        None
    }
}

proof fn lemma_digits_value_nonneg(s: Seq<char>)
    requires
        forall|i: int| 0 <= i < s.len() ==> is_digit(#[trigger] s[i]),
    ensures
        digits_value(s) >= 0,
    decreases s.len(),
{
    if s.len() > 0 {
        assert(is_digit(s[s.len() - 1]));
        lemma_digits_value_nonneg(s.drop_last());
    }
}

/// Reads the count of videos to ask for.
pub fn parse_count(s: &str) -> (r: Option<u64>)
    ensures
        match r {
            Some(v) => count_value(s@) == Some(v as int),
            None => count_value(s@) is None,
        },
{
    let n = s.unicode_len();
    let first: usize = if n > 0 && s.get_char(0) == '+' { 1 } else { 0 };
    let ghost d = count_digits(s@);
    assert(d =~= s@.subrange(first as int, n as int));
    if first == n {
        return None;
    }
    let mut v: u64 = 0;
    let mut overflow = false;
    let mut i: usize = first;
    assert(d.subrange(0, 0).len() == 0);
    while i < n
        invariant
            n == s@.len(),
            first <= i <= n,
            d == s@.subrange(first as int, n as int),
            d == count_digits(s@),
            forall|k: int| first <= k < i ==> is_digit(#[trigger] s@[k]),
            !overflow ==> v as int == digits_value(d.subrange(0, i - first)),
            overflow ==> digits_value(d.subrange(0, i - first)) > u64::MAX,
        decreases n - i,
    {
        let c = s.get_char(i);
        if !('0' <= c && c <= '9') {
            assert(!is_digit(d[i - first]));
            return None;
        }
        let ghost pre = d.subrange(0, i - first);
        let ghost next = d.subrange(0, i - first + 1);
        assert(next.drop_last() =~= pre);
        assert(next.last() == c);
        proof {
            assert forall|k: int| 0 <= k < pre.len() implies is_digit(#[trigger] pre[k]) by {
                assert(pre[k] == s@[first + k]);
            }
            lemma_digits_value_nonneg(pre);
        }
        let digit = (c as u64) - ('0' as u64);
        if !overflow {
            if v > (u64::MAX - digit) / 10 {
                overflow = true;
            } else {
                v = v * 10 + digit;
            }
        }
        i = i + 1;
    }
    assert(d.subrange(0, n - first) =~= d);
    assert forall|k: int| 0 <= k < d.len() implies is_digit(#[trigger] d[k]) by {
        assert(d[k] == s@[first + k]);
    }
    if overflow {
        None
    } else {
        Some(v)
    }
}

/// Why the command line could not start a run.
#[derive(Debug, Clone, Copy, PartialEq, Eq, Structural)]
pub enum ArgsError {
    /// Fewer than two arguments were given.
    Usage,
    /// The count of videos is not a non-negative integer.
    BadCount,
}

/// What a run fetches: at most `limit` videos of the channel at `url`.
pub struct RunRequest {
    pub limit: u64,
    pub url: String,
}

/// Reads the command line: the program name, the count of videos, the URL.
pub fn parse_args(args: &Vec<String>) -> (r: Result<RunRequest, ArgsError>)
    ensures
        args@.len() <= 2 ==> r == Err::<RunRequest, ArgsError>(ArgsError::Usage),
        args@.len() > 2 ==> match count_value(args@[1]@) {
            Some(c) => (r matches Ok(q) && q.limit == c && q.url@ == args@[2]@),
            None => r == Err::<RunRequest, ArgsError>(ArgsError::BadCount),
        },
{
    if args.len() <= 2 {
        return Err(ArgsError::Usage);
    }
    match parse_count(args[1].as_str()) {
        Some(limit) => Ok(RunRequest { limit, url: args[2].clone() }),
        None => Err(ArgsError::BadCount),
    }
}

} // verus!
