//! Types whose wire values are specific to draft-16.

use vstd::prelude::*;

verus! {

/// Object Status values of draft-16 (Section 10.2.1.1).
///
/// The wire field is a varint; any value the draft does not assign is a
/// protocol error, and [`ObjectStatus::from_u64`] answers `None` for it.
#[derive(Debug, Clone, Copy, PartialEq, Eq, Structural)]
pub enum ObjectStatus {
    /// Normal object; implicit for any object that carries a payload. Wire value 0x0.
    Normal,
    /// End of Group. Wire value 0x3.
    EndOfGroup,
    /// End of Track. Wire value 0x4.
    EndOfTrack,
}

impl ObjectStatus {

    /// Every status draft-16 assigns, in registry order.
    pub fn all() -> (r: Vec<ObjectStatus>)
        ensures
            r@ == seq![ObjectStatus::Normal, ObjectStatus::EndOfGroup, ObjectStatus::EndOfTrack],
    {
        let mut v: Vec<ObjectStatus> = Vec::new();
        v.push(ObjectStatus::Normal);
        v.push(ObjectStatus::EndOfGroup);
        v.push(ObjectStatus::EndOfTrack);
        assert(v@ =~= seq![ObjectStatus::Normal, ObjectStatus::EndOfGroup, ObjectStatus::EndOfTrack]);
        v
    }
    /// The wire value of this status.
    pub open spec fn spec_code(self) -> u64 {
        match self {
            ObjectStatus::Normal => 0x0,
            ObjectStatus::EndOfGroup => 0x3,
            ObjectStatus::EndOfTrack => 0x4,
        }
    }

    /// The status with wire value `v`, if the draft assigns it.
    pub open spec fn spec_from_code(v: u64) -> Option<ObjectStatus> {
        if v == 0x0 {
            Some(ObjectStatus::Normal)
        } else if v == 0x3 {
            Some(ObjectStatus::EndOfGroup)
        } else if v == 0x4 {
            Some(ObjectStatus::EndOfTrack)
        } else {
            None
        }
    }

    /// The status with wire value `v`, or `None` when the draft does not assign `v`.
    pub fn from_u64(v: u64) -> (r: Option<Self>)
        ensures
            r == ObjectStatus::spec_from_code(v),
            match r {
                Some(s) => s.spec_code() == v,
                None => forall|s: Self| #[trigger] s.spec_code() != v,
            },
    {
        match v {
            0x0 => Some(ObjectStatus::Normal),
            0x3 => Some(ObjectStatus::EndOfGroup),
            0x4 => Some(ObjectStatus::EndOfTrack),
            _ => None,
        }
    }

    /// The wire value of this status.
    pub fn as_u64(self) -> (r: u64)
        ensures
            r == self.spec_code(),
    {
        match self {
            ObjectStatus::Normal => 0x0,
            ObjectStatus::EndOfGroup => 0x3,
            ObjectStatus::EndOfTrack => 0x4,
        }
    }

    /// No two statuses share a wire value.
    pub proof fn lemma_code_injective(a: ObjectStatus, b: ObjectStatus)
        ensures
            a.spec_code() == b.spec_code() ==> a == b,
    {
    }

    /// Reading back the wire value of a status gives the status.
    pub broadcast proof fn lemma_from_code_of_code(s: ObjectStatus)
        ensures
            #[trigger] ObjectStatus::spec_from_code(s.spec_code()) == Some(s),
    {
    }
}

} // verus!
