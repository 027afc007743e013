use vstd::prelude::*;

verus! {

/// Lowest node version accepted, two decimal digits per component.
pub const MIN_VERSION: usize = 240000;

pub open spec fn digit_chars() -> Seq<char> {
    seq!['0', '1', '2', '3', '4', '5', '6', '7', '8', '9']
}

/// Decimal notation of `n`, without leading zeros.
pub open spec fn decimal(n: nat) -> Seq<char>
    decreases n,
{
    if n < 10 {
        seq![digit_chars()[n as int]]
    } else {
        decimal(n / 10).push(digit_chars()[(n % 10) as int])
    }
}

/// `major.minor.patch` for a version encoded as `major*10000 + minor*100 + patch`.
pub open spec fn version_text(version: nat) -> Seq<char> {
    decimal(version / 10000) + seq!['.'] + decimal(version % 10000 / 100) + seq!['.']
        + decimal(version % 100)
}

fn digit_str(d: usize) -> (r: &'static str)
    requires
        d < 10,
    ensures
        r@ == seq![digit_chars()[d as int]],
{
    proof {
        reveal_strlit("0");
        reveal_strlit("1");
        reveal_strlit("2");
        reveal_strlit("3");
        reveal_strlit("4");
        reveal_strlit("5");
        reveal_strlit("6");
        reveal_strlit("7");
        reveal_strlit("8");
        reveal_strlit("9");
    }
    match d {
        0 => "0",
        1 => "1",
        2 => "2",
        3 => "3",
        4 => "4",
        5 => "5",
        6 => "6",
        7 => "7",
        8 => "8",
        _ => "9",
    }
}

/// Appends the decimal notation of `n`.
pub fn push_decimal(out: &mut String, n: u64)
    ensures
        final(out)@ == old(out)@ + decimal(n as nat),
    decreases n,
{
    if n >= 10 {
        push_decimal(out, n / 10);
    }
    out.append(digit_str((n % 10) as usize));
    assert(final(out)@ =~= old(out)@ + decimal(n as nat));
}

/// Formats an encoded node version as `major.minor.patch`.
pub fn format_bitcoin_core_version(version: usize) -> (r: String)
    ensures
        r@ == version_text(version as nat),
{
    let mut out = String::new();
    push_decimal(&mut out, (version / 10000) as u64);
    out.append(".");
    push_decimal(&mut out, (version % 10000 / 100) as u64);
    out.append(".");
    push_decimal(&mut out, (version % 100) as u64);
    proof {
        reveal_strlit(".");
    }
    assert(out@ =~= version_text(version as nat));
    out
}

/// The node runs a version below the supported minimum.
#[derive(Clone, Copy, Debug, PartialEq, Eq, Structural)]
pub struct VersionError {
    pub required: usize,
    pub actual: usize,
}

pub open spec fn version_message(required: nat, actual: nat) -> Seq<char> {
    "Bitcoin Core "@ + version_text(required) + " or newer required, current version is "@
        + version_text(actual)
}

impl VersionError {
    /// Human-readable description naming both versions.
    pub fn message(&self) -> (r: String)
        ensures
            r@ == version_message(self.required as nat, self.actual as nat),
    {
        let mut out = String::from_str("Bitcoin Core ");
        let required = format_bitcoin_core_version(self.required);
        out.append(required.as_str());
        out.append(" or newer required, current version is ");
        let actual = format_bitcoin_core_version(self.actual);
        out.append(actual.as_str());
        out
    }
}

/// Accepts a node whose reported version is at least `MIN_VERSION`.
pub fn check_version(version: usize) -> (r: Result<(), VersionError>)
    ensures
        r is Ok <==> version >= MIN_VERSION,
        r matches Err(e) ==> e.required == MIN_VERSION && e.actual == version,
{
    if version < MIN_VERSION {
        Err(VersionError { required: MIN_VERSION, actual: version })
    } else {
        Ok(())
    }
}

} // verus!
