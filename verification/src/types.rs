//! Identifier and value types shared by every operation, and the error
//! taxonomy of the manifest engine.

use vstd::prelude::*;

verus! {

/// Content identifier of a stored payload.
#[derive(Debug)]
pub struct Cid {
    pub value: String,
}

impl View for Cid {
    type V = Seq<char>;

    open spec fn view(&self) -> Seq<char> {
        self.value@
    }
}

impl Clone for Cid {
    fn clone(&self) -> (r: Self)
        ensures
            r@ == self@,
    {
        Cid { value: self.value.clone() }
    }
}

/// Account on the ledger: an uploader or a storer.
#[derive(Debug)]
pub struct Account {
    pub value: String,
}

impl View for Account {
    type V = Seq<char>;

    open spec fn view(&self) -> Seq<char> {
        self.value@
    }
}

impl Clone for Account {
    fn clone(&self) -> (r: Self)
        ensures
            r@ == self@,
    {
        Account { value: self.value.clone() }
    }
}

/// Secret seed a caller signs requests with.  The engine never reads it:
/// the surrounding service resolves it to the caller's `Account` before the
/// engine is invoked.
#[derive(Debug)]
pub struct Seed {
    pub value: String,
}

impl View for Seed {
    type V = Seq<char>;

    open spec fn view(&self) -> Seq<char> {
        self.value@
    }
}

impl Clone for Seed {
    fn clone(&self) -> (r: Self)
        ensures
            r@ == self@,
    {
        Seed { value: self.value.clone() }
    }
}

/// Storage pool identifier.
#[derive(Clone, Copy, PartialEq, Eq, Structural, Debug)]
pub struct PoolId {
    pub value: u32,
}

/// Target number of storers for one uploader's copy of a manifest.
#[derive(Clone, Copy, PartialEq, Eq, Structural, Debug)]
pub struct ReplicationFactor {
    pub value: u16,
}

/// Externally produced proof-of-activity verdict for a storer's claim.
/// This subsystem only reads it (read-only join into accounting queries).
#[derive(Clone, Copy, PartialEq, Eq, Structural, Debug)]
pub enum ChallengeStateValue {
    /// No challenge has been decided yet.
    Open,
    /// The storer answered the latest challenge correctly.
    Successful,
    /// The storer failed the latest challenge.
    Failed,
}

/// Why a manifest operation was refused.  Every error is decided before any
/// state is mutated: a failed operation leaves the ledger model unchanged.
#[derive(Clone, Copy, PartialEq, Eq, Structural, Debug)]
pub enum FulaError {
    /// The `(pool_id, cid, uploader)` triple is already registered.
    DuplicateUpload,
    /// No manifest (or no matching uploader entry) exists for the key.
    ManifestNotFound,
    /// Every uploader entry of the manifest has zero open slots.
    NoAvailableSlot,
    /// The storer already holds a slot on this manifest.
    AlreadyStoring,
}

} // verus!
