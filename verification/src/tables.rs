//! The fixed encoding tables delivered by configuration before any
//! interception is enabled: four byte-to-byte mappings (simplify, uppercase,
//! lowercase, capitalize) and a sparse mapping from extended input code
//! points to substitute bytes. They are immutable for the process lifetime
//! and are passed by shared reference into the components that need them.

use vstd::prelude::*;

verus! {

/// The process-wide encoding tables.
pub struct EncodingTables {
    /// Diacritic-folding byte substitution.
    pub simplify: Vec<u8>,
    /// Uppercase byte substitution.
    pub uppercase: Vec<u8>,
    /// Lowercase byte substitution.
    pub lowercase: Vec<u8>,
    /// Capitalization byte substitution.
    pub capitalize: Vec<u8>,
    /// Sparse mapping of extended input code points to substitute bytes.
    pub utf: Vec<(u32, u8)>,
}

/// The first substitute byte paired with `cp` in `entries`, if any.
pub open spec fn utf_entry(entries: Seq<(u32, u8)>, cp: u32) -> Option<u8>
    decreases entries.len(),
{
    if entries.len() == 0 {
        None
    } else if entries[0].0 == cp {
        Some(entries[0].1)
    } else {
        utf_entry(entries.drop_first(), cp)
    }
}

impl EncodingTables {
    /// Every byte table covers all 256 byte values, and the sparse code point
    /// table maps each code point at most once.
    pub open spec fn wf(&self) -> bool {
        &&& self.simplify@.len() == 256
        &&& self.uppercase@.len() == 256
        &&& self.lowercase@.len() == 256
        &&& self.capitalize@.len() == 256
        &&& forall|i: int, j: int|
            0 <= i < j < self.utf@.len() ==> self.utf@[i].0 != self.utf@[j].0
    }

    /// The substitute byte for the extended code point `cp`, if the sparse
    /// table maps it.
    pub fn utf_lookup(&self, cp: u32) -> (r: Option<u8>)
        ensures
            r == utf_entry(self.utf@, cp),
    {
        proof {
            assert(self.utf@.subrange(0, self.utf@.len() as int) =~= self.utf@);
        }
        let mut i: usize = 0;
        while i < self.utf.len()
            invariant
                i <= self.utf@.len(),
                utf_entry(self.utf@, cp) == utf_entry(
                    self.utf@.subrange(i as int, self.utf@.len() as int),
                    cp,
                ),
            decreases self.utf@.len() - i,
        {
            proof {
                assert(self.utf@.subrange(i as int, self.utf@.len() as int).drop_first()
                    =~= self.utf@.subrange(i as int + 1, self.utf@.len() as int));
            }
            if self.utf[i].0 == cp {
                return Some(self.utf[i].1);
            }
            i = i + 1;
        }
        None
    }
}

/// The capitalized form of `symbol` under the capitalize table.
pub fn capitalize(tables: &EncodingTables, symbol: u8) -> (r: u8)
    requires
        tables.wf(),
    ensures
        r == tables.capitalize@[symbol as int],
{
    tables.capitalize[symbol as usize]
}

/// The lowercase form of `symbol` under the lowercase table.
pub fn lowercast(tables: &EncodingTables, symbol: u8) -> (r: u8)
    requires
        tables.wf(),
    ensures
        r == tables.lowercase@[symbol as int],
{
    tables.lowercase[symbol as usize]
}

} // verus!
