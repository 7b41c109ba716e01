use vstd::prelude::*;

verus! {

/// The character of decimal digit `d`.
pub open spec fn digit_char(d: nat) -> char {
    ('0' as int + d) as char
}

/// The decimal digits of `n`, most significant first, with no sign or padding.
pub open spec fn decimal(n: nat) -> Seq<char>
    decreases n,
{
    if n < 10 {
        seq![digit_char(n)]
    } else {
        decimal(n / 10).push(digit_char(n % 10))
    }
}

/// Relies on `ToString::to_string` through `u32`'s `Display`, which writes
/// the number in decimal digits with no sign or padding.
#[verifier::external_body]
pub(crate) fn decimal_string(n: u32) -> (r: String)
    ensures
        r@ == decimal(n as nat),
{
    n.to_string()
}

/// The state of a change-data-capture split, which is persisted to checkpoints.
/// Such a source has a single split, identified by the source id.
#[derive(Debug, Clone, PartialEq, Eq, Hash)]
pub struct CdcSplit {
    pub split_id: u32,
    /// The host and port of the node that holds the shard tables.
    pub server_addr: Option<String>,
    pub start_offset: Option<String>,
}

pub open spec fn opt_view(s: Option<String>) -> Option<Seq<char>> {
    match s {
        Some(x) => Some(x@),
        None => None,
    }
}

impl CdcSplit {
    /// A split with no server address that starts at `start_offset`.
    pub fn new(split_id: u32, start_offset: String) -> (r: CdcSplit)
        ensures
            r.split_id == split_id,
            r.server_addr is None,
            opt_view(r.start_offset) == Some(start_offset@),
    {
        CdcSplit { split_id, server_addr: None, start_offset: Some(start_offset) }
    }

    /// The same split, starting at `start_offset`.
    pub fn copy_with_offset(&self, start_offset: String) -> (r: Self)
        ensures
            r.split_id == self.split_id,
            opt_view(r.server_addr) == opt_view(self.server_addr),
            opt_view(r.start_offset) == Some(start_offset@),
    {
        let server_addr = match &self.server_addr {
            Some(a) => Some(a.clone()),
            None => None,
        };
        CdcSplit { split_id: self.split_id, server_addr, start_offset: Some(start_offset) }
    }

    /// The split's id: its number in decimal.
    pub fn id(&self) -> (r: String)
        ensures
            r@ == decimal(self.split_id as nat),
    {
        decimal_string(self.split_id)
    }
}

} // verus!
