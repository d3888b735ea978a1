use vstd::prelude::*;
use crate::text::{dec_digits, push_char, push_uint};

verus! {

/// A MariaDB GTID: domain, originating server and sequence number.
#[derive(Debug, Clone, Copy, PartialEq, Eq, Structural)]
pub struct MariadbGTID {
    pub domain_id: u32,
    pub server_id: u32,
    pub sequence_number: u64,
}

/// `domain-server-sequence`.
pub open spec fn mariadb_gtid_text(g: MariadbGTID) -> Seq<char> {
    dec_digits(g.domain_id as nat) + seq!['-'] + dec_digits(g.server_id as nat) + seq!['-']
        + dec_digits(g.sequence_number as nat)
}

impl MariadbGTID {
    /// The GTID as `domain-server-sequence`.
    pub fn to_text(&self) -> (r: String)
        ensures
            r@ == mariadb_gtid_text(*self),
    {
        let mut s = String::new();
        push_uint(&mut s, self.domain_id as u64);
        push_char(&mut s, '-');
        push_uint(&mut s, self.server_id as u64);
        push_char(&mut s, '-');
        push_uint(&mut s, self.sequence_number as u64);
        assert(s@ =~= mariadb_gtid_text(*self));
        s
    }
}

impl Default for MariadbGTID {
    fn default() -> (r: MariadbGTID)
        ensures
            r == (MariadbGTID { domain_id: 0, server_id: 0, sequence_number: 0 }),
    {
        MariadbGTID { domain_id: 0, server_id: 0, sequence_number: 0 }
    }
}

} // verus!
