use vstd::prelude::*;

verus! {

/// The largest number of rows that a backend can be told to skip or to hand
/// out.
pub const MAX_ROWS: u64 = 0x7FFF_FFFF_FFFF_FFFF;

/// Which part of a listing is asked for: `offset` rows are skipped, and at
/// most `limit` rows are handed out.
#[derive(Clone, Copy, Debug)]
pub struct ListQueryParams {
    pub limit: u64,
    pub offset: u64,
}

impl ListQueryParams {
    /// The limit as a signed number, as a backend takes it. A limit above
    /// [`MAX_ROWS`] becomes `MAX_ROWS`: no table has more rows than that.
    pub fn signed_limit(&self) -> (limit: i64)
        ensures
            limit == if self.limit <= MAX_ROWS {
                self.limit as int
            } else {
                MAX_ROWS as int
            },
    {
        if self.limit <= MAX_ROWS {
            self.limit as i64
        } else {
            MAX_ROWS as i64
        }
    }

    /// The offset as a signed number, as a backend takes it. An offset above
    /// [`MAX_ROWS`] becomes `MAX_ROWS`: no table has more rows than that.
    pub fn signed_offset(&self) -> (offset: i64)
        ensures
            offset == if self.offset <= MAX_ROWS {
                self.offset as int
            } else {
                MAX_ROWS as int
            },
    {
        if self.offset <= MAX_ROWS {
            self.offset as i64
        } else {
            MAX_ROWS as i64
        }
    }
}

} // verus!
