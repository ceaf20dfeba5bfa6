//! File names, generated ids and line numbers.
use vstd::prelude::*;

verus! {

/// `s` without one leading `./`, or else without one leading `/`.
pub open spec fn strip_leading(s: Seq<char>) -> Seq<char> {
    if s.len() >= 2 && s[0] == '.' && s[1] == '/' {
        s.subrange(2, s.len() as int)
    } else if s.len() >= 1 && s[0] == '/' {
        s.subrange(1, s.len() as int)
    } else {
        s
    }
}

pub open spec fn forward_slash(c: char) -> char {
    if c == '\\' {
        '/'
    } else {
        c
    }
}

/// `s` with every backslash turned into a forward slash.
pub open spec fn forward_slashes(s: Seq<char>) -> Seq<char> {
    s.map_values(|c: char| forward_slash(c))
}

/// The normal form of a file name used in generated ids.
pub open spec fn normalized(s: Seq<char>) -> Seq<char> {
    forward_slashes(strip_leading(s))
}

pub open spec fn digit_char(d: nat) -> char {
    if d == 0 {
        '0'
    } else if d == 1 {
        '1'
    } else if d == 2 {
        '2'
    } else if d == 3 {
        '3'
    } else if d == 4 {
        '4'
    } else if d == 5 {
        '5'
    } else if d == 6 {
        '6'
    } else if d == 7 {
        '7'
    } else if d == 8 {
        '8'
    } else {
        '9'
    }
}

/// Decimal digits of `n`, without leading zeros.
pub open spec fn decimal(n: nat) -> Seq<char>
    decreases n,
{
    if n < 10 {
        seq![digit_char(n)]
    } else {
        decimal(n / 10).push(digit_char(n % 10))
    }
}

/// `"{normalized file}:{line}"`.
pub open spec fn boundary_id(filename: Seq<char>, line: nat) -> Seq<char> {
    normalized(filename) + seq![':'] + decimal(line)
}

/// Approximate line of a byte offset, at about eighty characters a line.
pub open spec fn approximate_line(span_lo: u32) -> u32 {
    (span_lo / 80 + 1) as u32
}

/// Normalizes a file path for use in ids: drops one leading `./` (or else one
/// leading `/`) and turns backslashes into forward slashes.
pub fn normalize_filename(filename: &str) -> (r: String)
    ensures
        r@ == normalized(filename@),
{
    let n = filename.unicode_len();
    let mut start: usize = 0;
    if n >= 2 && filename.get_char(0) == '.' && filename.get_char(1) == '/' {
        start = 2;
    } else if n >= 1 && filename.get_char(0) == '/' {
        start = 1;
    }
    let rest = filename.substring_char(start, n);
    assert(rest@ == strip_leading(filename@));
    replace_backslashes(rest)
}

fn replace_backslashes(s: &str) -> (r: String)
    ensures
        r@ == forward_slashes(s@),
{
    let n = s.unicode_len();
    let mut out = String::new();
    let mut start: usize = 0;
    let mut i: usize = 0;
    while i < n
        invariant
            n == s@.len(),
            start <= i <= n,
            out@ == forward_slashes(s@.subrange(0, start as int)),
            forall|k: int| start <= k < i ==> s@[k] != '\\',
        decreases n - i,
    {
        if s.get_char(i) == '\\' {
            let seg = s.substring_char(start, i);
            out.append(seg);
            out.append("/");
            proof {
                reveal_strlit("/");
                let a = s@.subrange(0, start as int);
                let b = s@.subrange(0, i as int + 1);
                assert(b =~= a + seg@ + seq!['\\']);
                assert(forward_slashes(b) =~= forward_slashes(a) + seg@ + seq!['/']);
            }
            start = i + 1;
        }
        i = i + 1;
    }
    let seg = s.substring_char(start, n);
    out.append(seg);
    proof {
        let a = s@.subrange(0, start as int);
        assert(s@ =~= a + seg@);
        assert(forward_slashes(s@) =~= forward_slashes(a) + seg@);
    }
    out
}

fn digit_str(d: u32) -> (r: &'static str)
    requires
        d < 10,
    ensures
        r@ == seq![digit_char(d as nat)],
{
    proof {
        reveal_strlit("0");
        reveal_strlit("1");
        reveal_strlit("2");
        reveal_strlit("3");
        reveal_strlit("4");
        reveal_strlit("5");
        reveal_strlit("6");
        reveal_strlit("7");
        reveal_strlit("8");
        reveal_strlit("9");
    }
    if d == 0 {
        "0"
    } else if d == 1 {
        "1"
    } else if d == 2 {
        "2"
    } else if d == 3 {
        "3"
    } else if d == 4 {
        "4"
    } else if d == 5 {
        "5"
    } else if d == 6 {
        "6"
    } else if d == 7 {
        "7"
    } else if d == 8 {
        "8"
    } else {
        "9"
    }
}

/// Appends the decimal digits of `n` to `out`.
pub fn push_decimal(out: &mut String, n: u32)
    ensures
        final(out)@ == old(out)@ + decimal(n as nat),
    decreases n,
{
    if n >= 10 {
        push_decimal(out, n / 10);
    }
    out.append(digit_str(n % 10));
    assert(out@ =~= old(out)@ + decimal(n as nat));
}

/// Generates the id of a boundary: `"{normalized file}:{line}"`.
pub fn generate_boundary_id(filename: &str, line: u32) -> (r: String)
    ensures
        r@ == boundary_id(filename@, line as nat),
{
    let mut out = normalize_filename(filename);
    proof {
        reveal_strlit(":");
    }
    out.append(":");
    push_decimal(&mut out, line);
    proof {
        assert(out@ =~= boundary_id(filename@, line as nat));
    }
    out
}

/// Approximate line of a byte offset, assuming about eighty characters per
/// line. Hosts that have a source map give the precise line instead.
pub fn extract_line_number(span_lo: u32) -> (r: u32)
    ensures
        r == approximate_line(span_lo),
        r as int == span_lo as int / 80 + 1,
{
    span_lo / 80 + 1
}

} // verus!
