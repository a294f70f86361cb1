use vstd::prelude::*;
use vstd::string::StringExecFns;

verus! {

/// The decimal digit character for a value below ten.
pub open spec fn spec_digit(d: int) -> char {
    if d == 0 {
        '0'
    } else if d == 1 {
        '1'
    } else if d == 2 {
        '2'
    } else if d == 3 {
        '3'
    } else if d == 4 {
        '4'
    } else if d == 5 {
        '5'
    } else if d == 6 {
        '6'
    } else if d == 7 {
        '7'
    } else if d == 8 {
        '8'
    } else {
        '9'
    }
}

/// The decimal rendering of a number, most significant digit first,
/// with no leading zeroes (a lone zero for zero).
pub open spec fn spec_dec(n: nat) -> Seq<char>
    decreases n,
{
    if n < 10 {
        seq![spec_digit(n as int)]
    } else {
        spec_dec(n / 10) + seq![spec_digit((n % 10) as int)]
    }
}

/// One decimal digit as a string slice.
fn digit_str(d: u64) -> (r: &'static str)
    requires
        d < 10,
    ensures
        r@ =~= seq![spec_digit(d as int)],
{
    proof {
        reveal_strlit("0");
        reveal_strlit("1");
        reveal_strlit("2");
        reveal_strlit("3");
        reveal_strlit("4");
        reveal_strlit("5");
        reveal_strlit("6");
        reveal_strlit("7");
        reveal_strlit("8");
        reveal_strlit("9");
    }
    if d == 0 {
        "0"
    } else if d == 1 {
        "1"
    } else if d == 2 {
        "2"
    } else if d == 3 {
        "3"
    } else if d == 4 {
        "4"
    } else if d == 5 {
        "5"
    } else if d == 6 {
        "6"
    } else if d == 7 {
        "7"
    } else if d == 8 {
        "8"
    } else {
        "9"
    }
}

/// Renders a number in decimal.
pub fn u64_to_dec(n: u64) -> (r: String)
    ensures
        r@ == spec_dec(n as nat),
    decreases n,
{
    let d = digit_str(n % 10);
    if n < 10 {
        d.to_owned()
    } else {
        u64_to_dec(n / 10).concat(d)
    }
}

/// A value below one thousand rendered as exactly three decimal
/// digits, zero padded.
pub open spec fn spec_dec3(n: nat) -> Seq<char> {
    if n < 10 {
        seq!['0', '0'] + spec_dec(n)
    } else if n < 100 {
        seq!['0'] + spec_dec(n)
    } else {
        spec_dec(n)
    }
}

/// Renders a value below one thousand as exactly three decimal digits.
pub fn u64_to_dec3(n: u64) -> (r: String)
    requires
        n < 1000,
    ensures
        r@ == spec_dec3(n as nat),
{
    proof {
        reveal_strlit("00");
        reveal_strlit("0");
        reveal_strlit("");
    }
    let prefix: &str = if n < 10 {
        "00"
    } else if n < 100 {
        "0"
    } else {
        ""
    };
    proof {
        if n < 10 {
            assert(prefix@ =~= seq!['0', '0']);
        } else if n < 100 {
            assert(prefix@ =~= seq!['0']);
        } else {
            assert(prefix@ =~= Seq::<char>::empty());
        }
    }
    let r = prefix.to_owned().concat(u64_to_dec(n).as_str());
    proof {
        assert(r@ =~= spec_dec3(n as nat));
    }
    r
}

/// A millisecond count rendered as seconds with five decimal digits.
/// The fractional part is the millisecond remainder padded to three
/// digits, followed by two fixed zeroes.
pub open spec fn spec_seconds_5dp(ms: nat) -> Seq<char> {
    spec_dec(ms / 1000) + seq!['.'] + spec_dec3(ms % 1000) + seq!['0', '0']
}

/// Renders a millisecond count as seconds with five decimal digits.
pub fn seconds_5dp(ms: u64) -> (r: String)
    ensures
        r@ == spec_seconds_5dp(ms as nat),
{
    proof {
        reveal_strlit(".");
        reveal_strlit("00");
    }
    let whole = u64_to_dec(ms / 1000);
    let frac = u64_to_dec3(ms % 1000);
    let r = whole.concat(".").concat(frac.as_str()).concat("00");
    proof {
        assert("."@ =~= seq!['.']);
        assert("00"@ =~= seq!['0', '0']);
        assert(r@ =~= spec_seconds_5dp(ms as nat));
    }
    r
}

/// The name of the output file with the given zero-based sequence
/// number.
pub open spec fn spec_file_name(n: nat) -> Seq<char> {
    "out_"@ + spec_dec(n) + ".csv"@
}

/// Renders the name of the sequentially numbered output file.
pub fn output_file_name(n: usize) -> (r: String)
    ensures
        r@ == spec_file_name(n as nat),
{
    "out_".to_owned().concat(u64_to_dec(n as u64).as_str()).concat(".csv")
}

/// A fixed prefix followed by a decimal instance number: the title
/// shape shared by the viewer widgets.
pub open spec fn spec_numbered(prefix: Seq<char>, n: nat) -> Seq<char> {
    prefix + spec_dec(n)
}

/// Appends a decimal instance number to a title prefix.
pub fn numbered_title(prefix: &str, n: usize) -> (r: String)
    ensures
        r@ == spec_numbered(prefix@, n as nat),
{
    prefix.to_owned().concat(u64_to_dec(n as u64).as_str())
}

} // verus!
