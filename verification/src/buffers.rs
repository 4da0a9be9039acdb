//! The two interchangeable on-disk capture buffers, "a" and "b".

use vstd::prelude::*;

verus! {

/// Identity of one of the two capture buffers. Exactly one of them receives
/// new frames at any time; the orchestrator alternates between them.
#[derive(Clone, Copy, Debug, PartialEq, Eq, Structural)]
pub enum PicsFolders {
    A,
    B,
}

impl PicsFolders {
    /// The buffer's single-letter directory name.
    pub open spec fn name_view(self) -> Seq<char> {
        match self {
            PicsFolders::A => "a"@,
            PicsFolders::B => "b"@,
        }
    }

    /// The buffer's directory under the frame-storage root.
    pub open spec fn path_view(self) -> Seq<char> {
        "/mnt/skynet/pics/"@ + self.name_view()
    }

    /// The identity of the buffer this one alternates with.
    pub open spec fn other(self) -> PicsFolders {
        match self {
            PicsFolders::A => PicsFolders::B,
            PicsFolders::B => PicsFolders::A,
        }
    }

    pub fn to_string(&self) -> (r: String)
        ensures
            r@ == self.name_view(),
    {
        match self {
            PicsFolders::A => String::from_str("a"),
            PicsFolders::B => String::from_str("b"),
        }
    }

    pub fn path(&self) -> (r: String)
        ensures
            r@ == self.path_view(),
    {
        let mut r = String::from_str("/mnt/skynet/pics/");
        let name = self.to_string();
        r.append(name.as_str());
        r
    }

    pub fn get_other_one(&self) -> (r: PicsFolders)
        ensures
            r == self.other(),
    {
        match self {
            PicsFolders::A => PicsFolders::B,
            PicsFolders::B => PicsFolders::A,
        }
    }

    pub fn switch_folders(&mut self)
        ensures
            *final(self) == old(self).other(),
    {
        match self {
            PicsFolders::A => {
                *self = PicsFolders::B;
            },
            PicsFolders::B => {
                *self = PicsFolders::A;
            },
        }
    }
}

} // verus!
