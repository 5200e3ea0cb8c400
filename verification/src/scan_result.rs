//! The terminal value of a scan: the member and group records, each kind in
//! discovery order, with no sorting and no deduplication.
use crate::markdown_objects::{GroupV, MarkdownGroup, MarkdownMember, MemberV};
use vstd::prelude::*;

verus! {

/// The sole externally visible artifact of a successful scan.
#[derive(Debug)]
pub struct ScanResult {
    pub members: Vec<MarkdownMember>,
    pub groups: Vec<MarkdownGroup>,
}

/// Model of a scan result.
pub struct ScanResultV {
    pub members: Seq<MemberV>,
    pub groups: Seq<GroupV>,
}

impl View for ScanResult {
    type V = ScanResultV;

    open spec fn view(&self) -> ScanResultV {
        ScanResultV { members: self.members.deep_view(), groups: self.groups.deep_view() }
    }
}

} // verus!
