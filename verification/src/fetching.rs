//! Which files of a source a run looks at, by the mode it runs in.

use vstd::prelude::*;
use crate::checksum::Checksum;
use crate::error::StreamError;
use crate::indexing::record::as_stored;
use crate::media::Packet;

verus! {

/// How much of a source a run indexes.
#[derive(Clone, Copy, Debug, PartialEq, Eq, Structural)]
pub enum IndexMode {
    /// The source's records are deleted first, then every file is indexed.
    Purge,
    /// Only files whose name the catalog does not hold yet are indexed.
    New,
    /// Every file is indexed.
    Initial,
}

/// What has to happen in the store before the files of a source are walked.
#[derive(Clone, Copy, Debug, PartialEq, Eq, Structural)]
pub enum Preparation {
    /// Delete every record of the source.
    DeleteRecords,
    /// Load the file names of the source's records.
    LoadFilenames,
    Nothing,
}

/// Whether one of `names` is `name`.
pub open spec fn holds(names: Seq<String>, name: Seq<char>) -> bool {
    exists|i: int| 0 <= i < names.len() && (#[trigger] names[i])@ == name
}

impl IndexMode {
    /// What the mode asks of the store before the walk.
    pub fn preparation(&self) -> (first: Preparation)
        ensures
            first == match self {
                IndexMode::Purge => Preparation::DeleteRecords,
                IndexMode::New => Preparation::LoadFilenames,
                IndexMode::Initial => Preparation::Nothing,
            },
    {
        match self {
            IndexMode::Purge => Preparation::DeleteRecords,
            IndexMode::New => Preparation::LoadFilenames,
            IndexMode::Initial => Preparation::Nothing,
        }
    }

    /// Whether a file is left out of the run: only a run for new files
    /// leaves any out, namely those whose name is among `existing`, the
    /// names that the catalog holds for the source.
    pub fn leaves_out(&self, existing: &Vec<String>, filename: &str) -> (left_out: bool)
        ensures
            left_out == (*self == IndexMode::New && holds(existing@, filename@)),
    {
        if *self != IndexMode::New {
            return false;
        }
        let name = String::from_str(filename);
        let mut i: usize = 0;
        while i < existing.len()
            invariant
                i <= existing.len(),
                *self == IndexMode::New,
                name@ == filename@,
                forall|k: int| 0 <= k < i ==> (#[trigger] existing@[k])@ != filename@,
            decreases existing.len() - i,
        {
            if existing[i] == name {
                return true;
            }
            i += 1;
        }
        false
    }
}

/// Takes what the container's reader gave into a checksum of the whole
/// file: a packet's bytes are written, and anything else ends the file,
/// the end of the input and a failure alike.
pub fn hash_next(hash: &mut Checksum, read: Result<Packet, StreamError>) -> (more: bool)
    ensures
        more == (read is Ok),
        final(hash)@ == match read {
            Ok(packet) => old(hash)@ + packet.data@,
            Err(_) => old(hash)@,
        },
{
    match read {
        Ok(packet) => {
            hash.write(packet.data);
            true
        },
        Err(_) => {
            false
        },
    }
}

/// The year that the catalog keeps for a tag's year: year zero is no year.
pub fn year(tagged: Option<u32>) -> (kept: Option<i32>)
    ensures
        kept == match tagged {
            Some(year) => if year == 0 {
                None
            } else {
                Some(as_stored(year))
            },
            None => None,
        },
{
    match tagged {
        Some(year) => if year == 0 {
            None
        } else if year <= 0x7fff_ffff {
            Some(year as i32)
        } else {
            Some((year as i64 - 0x1_0000_0000) as i32)
        },
        None => None,
    }
}

} // verus!
