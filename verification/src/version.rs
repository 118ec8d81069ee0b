//! GameMaker versions and the ordering used to decide which format applies.

use vstd::prelude::*;

verus! {

/// The release channel of a GameMaker version.
#[derive(Clone, Copy, Debug, PartialEq, Eq, Structural)]
pub enum LTSBranch {
    PreLTS,
    LTS,
    PostLTS,
}

pub open spec fn branch_rank(b: LTSBranch) -> int {
    match b {
        LTSBranch::PreLTS => 0,
        LTSBranch::LTS => 1,
        LTSBranch::PostLTS => 2,
    }
}

/// A GameMaker version `major.minor.release.build` on a branch.
#[derive(Clone, Copy, Debug, PartialEq, Eq, Structural)]
pub struct GMVersion {
    pub major: u32,
    pub minor: u32,
    pub release: u32,
    pub build: u32,
    pub branch: LTSBranch,
}

/// Lexicographic order on (major, minor, release, build, branch).
pub open spec fn version_at_least(v: GMVersion, r: GMVersion) -> bool {
    if v.major != r.major {
        v.major > r.major
    } else if v.minor != r.minor {
        v.minor > r.minor
    } else if v.release != r.release {
        v.release > r.release
    } else if v.build != r.build {
        v.build > r.build
    } else {
        branch_rank(v.branch) >= branch_rank(r.branch)
    }
}

/// The version `major.minor.0.0` (pre-LTS), as version requirements are written.
pub open spec fn version_req(major: u32, minor: u32) -> GMVersion {
    GMVersion { major, minor, release: 0, build: 0, branch: LTSBranch::PreLTS }
}

fn branch_rank_exec(b: LTSBranch) -> (r: u8)
    ensures
        r == branch_rank(b),
{
    match b {
        LTSBranch::PreLTS => 0,
        LTSBranch::LTS => 1,
        LTSBranch::PostLTS => 2,
    }
}

impl GMVersion {
    /// A version on the pre-LTS branch.
    pub fn new(major: u32, minor: u32, release: u32, build: u32) -> (v: GMVersion)
        ensures
            v == (GMVersion { major, minor, release, build, branch: LTSBranch::PreLTS }),
    {
        GMVersion { major, minor, release, build, branch: LTSBranch::PreLTS }
    }

    /// Whether this version is the same as or newer than `req`.
    pub fn is_version_at_least(&self, req: &GMVersion) -> (r: bool)
        ensures
            r == version_at_least(*self, *req),
    {
        if self.major != req.major {
            self.major > req.major
        } else if self.minor != req.minor {
            self.minor > req.minor
        } else if self.release != req.release {
            self.release > req.release
        } else if self.build != req.build {
            self.build > req.build
        } else {
            branch_rank_exec(self.branch) >= branch_rank_exec(req.branch)
        }
    }

    /// Raises this version to `req` when it is older; keeps it otherwise.
    pub fn set_version_at_least(&mut self, req: &GMVersion)
        ensures
            *final(self) == (if version_at_least(*old(self), *req) { *old(self) } else { *req }),
            version_at_least(*final(self), *req),
    {
        if !self.is_version_at_least(req) {
            *self = *req;
        }
        proof {
            lemma_version_at_least_reflexive(*req);
        }
    }
}

/// Every version is at least itself.
pub proof fn lemma_version_at_least_reflexive(v: GMVersion)
    ensures
        version_at_least(v, v),
{
}

/// Being at least a version is transitive.
pub proof fn lemma_version_at_least_transitive(a: GMVersion, b: GMVersion, c: GMVersion)
    requires
        version_at_least(a, b),
        version_at_least(b, c),
    ensures
        version_at_least(a, c),
{
}

/// Any two versions are ordered one way or the other.
pub proof fn lemma_version_at_least_total(a: GMVersion, b: GMVersion)
    ensures
        version_at_least(a, b) || version_at_least(b, a),
{
}

} // verus!
