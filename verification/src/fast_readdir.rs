//! Directory entries as the fast directory reader returns them.

use vstd::prelude::*;

verus! {

/// A directory entry with its size and type read along with the listing.
#[derive(Debug)]
pub struct FastEntry {
    pub path: String,
    pub is_dir: bool,
    pub is_symlink: bool,
    /// File size; zero for directories.
    pub size: u64,
    /// Raw file attributes (Windows); zero elsewhere.
    pub attributes: u32,
}

/// Is a UTF-16 file name `.` or `..`, the entries a listing skips?
pub fn is_dot_or_dotdot(name: &[u16]) -> (r: bool)
    ensures
        r == (name@ == seq![46u16] || name@ == seq![46u16, 46u16]),
{
    if name.len() == 1 {
        let r = name[0] == 46u16;
        proof {
            if r {
                assert(name@ =~= seq![46u16]);
            }
        }
        r
    } else if name.len() == 2 {
        let r = name[0] == 46u16 && name[1] == 46u16;
        proof {
            if r {
                assert(name@ =~= seq![46u16, 46u16]);
            }
        }
        r
    } else {
        false
    }
}

} // verus!
