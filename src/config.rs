use vstd::prelude::*;

verus! {

/// An oracle to back-fill: its name and its contract address.
pub struct OracleTarget {
    pub name: String,
    pub address: String,
}

/// The value of a hexadecimal digit of either case, or -1.
pub open spec fn hex_value(c: char) -> int {
    if '0' <= c && c <= '9' {
        c as int - '0' as int
    } else if 'a' <= c && c <= 'f' {
        c as int - 'a' as int + 10
    } else if 'A' <= c && c <= 'F' {
        c as int - 'A' as int + 10
    } else {
        -1
    }
}

/// A contract address as text: `0x` and forty hexadecimal digits.
pub open spec fn is_address_text(s: Seq<char>) -> bool {
    &&& s.len() == 42
    &&& s[0] == '0'
    &&& s[1] == 'x'
    &&& forall|i: int| 2 <= i < 42 ==> hex_value(#[trigger] s[i]) >= 0
}

/// The twenty bytes that address text spells, most significant first.
pub open spec fn address_bytes_of(s: Seq<char>) -> Seq<u8> {
    Seq::new(20, |i: int| (16 * hex_value(s[2 + 2 * i]) + hex_value(s[3 + 2 * i])) as u8)
}

/// Relies on the `FromStr` impl of `web3::types::Address` (fixed-hash over
/// rustc-hex): after an optional `0x` it reads two hex digits of either case
/// per byte, most significant first, into exactly twenty bytes.
#[verifier::external_body]
fn parse_address(s: &str) -> (r: Option<[u8; 20]>)
    ensures
        is_address_text(s@) ==> r is Some && r->Some_0@ == address_bytes_of(s@),
{
    s.parse::<web3::types::Address>().ok().map(|a| a.0)
}

/// Where an oracle's rounds are written.
pub open spec fn output_path_of(name: Seq<char>) -> Seq<char> {
    name + "_oracle_data.csv"@
}

impl OracleTarget {
    pub fn new(name: String, address: String) -> (r: OracleTarget)
        ensures
            r.name@ == name@,
            r.address@ == address@,
    {
        OracleTarget { name, address }
    }

    /// The contract address as bytes; `None` where it is not an address.
    pub fn address_bytes(&self) -> (r: Option<[u8; 20]>)
        ensures
            is_address_text(self.address@) ==> r is Some && r->Some_0@ == address_bytes_of(
                self.address@,
            ),
    {
        parse_address(self.address.as_str())
    }

    /// The file the oracle's rounds go to: `{name}_oracle_data.csv`.
    pub fn output_path(&self) -> (r: String)
        ensures
            r@ == output_path_of(self.name@),
    {
        self.name.clone().concat("_oracle_data.csv")
    }
}

/// The oracles that a run visits, in order.
pub fn default_targets() -> (r: Vec<OracleTarget>)
    ensures
        r@.len() == 1,
        r@[0].name@ == "ETH-BTC-CL"@,
        r@[0].address@ == "0xdeb288F737066589598e9214E782fa5A8eD689e8"@,
{
    let mut targets: Vec<OracleTarget> = Vec::new();
    targets.push(
        OracleTarget::new(
            String::from_str("ETH-BTC-CL"),
            String::from_str("0xdeb288F737066589598e9214E782fa5A8eD689e8"),
        ),
    );
    targets
}

} // verus!
