//! Links between planes, on the host and in the device record.

use vstd::prelude::*;

verus! {

/// The device word that stands for "no connection".
pub const NO_CONNECTION: u32 = 0xffff_ffff;

/// One side of a plane: the plane it leads to, if any.
///
/// `other_index` is a position in the scene's list of planes. `flip` is kept
/// with the link and has no effect on any rule.
#[derive(Clone, Copy, Debug, PartialEq, Eq, Structural)]
pub struct PortalConnection {
    pub other_index: Option<usize>,
    pub flip: bool,
}

/// A link as the device reads it: one word, `NO_CONNECTION` for none.
#[derive(Clone, Copy, Debug, PartialEq, Eq, Structural)]
pub struct GpuPortalConnection {
    pub other_index: u32,
}

impl Default for PortalConnection {
    fn default() -> (r: Self)
        ensures
            r == (PortalConnection { other_index: None, flip: false }),
    {
        PortalConnection { other_index: None, flip: false }
    }
}

/// The low 32 bits of an index or a count.
pub(crate) fn low_word(k: usize) -> (r: u32)
    ensures
        r as int == (k as int) % 0x1_0000_0000,
{
    let wide: u64 = k as u64;
    let low: u64 = wide & 0xffff_ffff;
    assert(low == wide % 0x1_0000_0000 && low <= 0xffff_ffff) by (bit_vector)
        requires
            low == wide & 0xffff_ffff,
    ;
    low as u32
}

impl PortalConnection {
    /// The link is absent or names one of the first `count` planes.
    pub open spec fn valid_for(self, count: int) -> bool {
        self.other_index matches Some(k) ==> k < count
    }

    /// The word that the device record holds for this link: the sentinel for
    /// no link, else the index reduced to 32 bits.
    pub open spec fn encoded(self) -> int {
        match self.other_index {
            None => NO_CONNECTION as int,
            Some(k) => (k as int) % 0x1_0000_0000,
        }
    }

    /// The link as it stands once the plane at `removed` has left the list:
    /// a link to that plane is cut, a link to a later plane follows it one
    /// place down, any other link stays.
    pub open spec fn reindexed(self, removed: int) -> PortalConnection {
        match self.other_index {
            None => self,
            Some(k) => if k == removed {
                PortalConnection { other_index: None, flip: self.flip }
            } else if k > removed {
                PortalConnection { other_index: Some((k - 1) as usize), flip: self.flip }
            } else {
                self
            },
        }
    }

    /// The plane this link leads to among `count` planes. A link that names
    /// no existing plane counts as no link.
    pub fn target(&self, count: usize) -> (r: Option<usize>)
        ensures
            r == (match self.other_index {
                Some(k) if k < count => Some(k),
                _ => None,
            }),
    {
        match self.other_index {
            Some(k) => if k < count {
                Some(k)
            } else {
                None
            },
            None => None,
        }
    }

    /// Packs the link for the device.
    pub fn to_gpu(&self) -> (r: GpuPortalConnection)
        ensures
            r.other_index as int == self.encoded(),
            self.other_index is None ==> r.other_index == NO_CONNECTION,
            self.other_index matches Some(k) ==> (k < NO_CONNECTION ==> r.other_index == k),
    {
        match self.other_index {
            Some(k) => GpuPortalConnection { other_index: low_word(k) },
            None => GpuPortalConnection { other_index: NO_CONNECTION },
        }
    }

    /// Re-targets the link after the plane at `removed` has left the list.
    pub fn after_removal(&self, removed: usize) -> (r: PortalConnection)
        ensures
            r == self.reindexed(removed as int),
    {
        match self.other_index {
            Some(k) => if k == removed {
                PortalConnection { other_index: None, flip: self.flip }
            } else if k > removed {
                PortalConnection { other_index: Some(k - 1), flip: self.flip }
            } else {
                *self
            },
            None => *self,
        }
    }
}

} // verus!
