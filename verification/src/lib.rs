//! Extraction of structured member and group records from a tree of text
//! notes. Each note carries a leading key-value header; records are selected
//! either by fixed per-kind directories (path strategy) or by required-tag
//! subset matching under one shared root (tag strategy). The engine here is
//! pure: callers hand it a snapshot of the relevant directory listings and
//! file contents, and it returns the scan result together with the scan
//! events for display.
use vstd::prelude::*;

pub mod config;
pub mod events;
pub mod frontmatter;
pub mod markdown;
pub mod markdown_objects;
pub mod scan_result;
pub mod scanner_paths;
pub mod scanner_tags;

use crate::config::Config;
use crate::events::{ScanError, ScanEvent};
use crate::markdown::{walk, walk_events, FsItem};
use crate::scan_result::ScanResult;
use crate::scanner_paths::{group_dir_out, member_dir_out};
use crate::scanner_tags::tags_out;

verus! {

/// A snapshot of the directory listings a scan may consume: the two per-kind
/// directories of the path strategy and the shared root of the tag strategy.
/// `None` stands for a listing the caller could not take; for a directory
/// the configuration asks for, that makes the scan fatal.
pub struct FsSnapshot {
    pub member_dir: Option<Vec<FsItem>>,
    pub group_dir: Option<Vec<FsItem>>,
    pub root_dir: Option<Vec<FsItem>>,
}

/// Runs the scan strategy the configuration selects against the snapshot:
/// `tags` runs the tag strategy on the root listing, `path` runs the path
/// strategy on the two per-kind listings, and anything else is rejected
/// without touching the snapshot.
pub fn get_files(conf: &Config, fs: &FsSnapshot, events: &mut Vec<ScanEvent>) -> (r: Result<
    ScanResult,
    ScanError,
>)
    ensures
        conf.scan_type@ == "tags"@ ==> {
            &&& fs.root_dir is None ==> (r matches Err(ScanError::RootUnavailable { dir: d })
                && d@ == conf.scanner.tags.root_dir@ && final(events)@ == old(events)@)
            &&& fs.root_dir matches Some(items) ==> ({
                let notes = walk(items.deep_view(), conf.scanner.tags.root_dir@, true);
                let out = tags_out(
                    notes,
                    conf.scanner.tags@.member_tags,
                    conf.scanner.tags@.group_tags,
                    conf.fields@.member,
                    conf.fields@.group,
                );
                &&& r matches Ok(res) && res@.members == out.members && res@.groups == out.groups
                &&& final(events).deep_view() == old(events).deep_view() + walk_events(
                    items.deep_view(),
                    conf.scanner.tags.root_dir@,
                    true,
                ) + out.events
            })
        },
        conf.scan_type@ == "path"@ ==> ({
            let mo = member_dir_out(
                conf.scanner.path@.member_dir,
                fs.member_dir.deep_view(),
                conf.scanner.path.recursive,
                conf.fields@.member,
            );
            let go = group_dir_out(
                conf.scanner.path@.group_dir,
                fs.group_dir.deep_view(),
                conf.scanner.path.recursive,
                conf.fields@.group,
            );
            &&& mo is None ==> (r matches Err(ScanError::RootUnavailable { dir: d }) && Some(d@)
                == conf.scanner.path@.member_dir && final(events)@ == old(events)@)
            &&& mo matches Some(m) ==> {
                &&& go is None ==> (r matches Err(ScanError::RootUnavailable { dir: d }) && Some(
                    d@,
                ) == conf.scanner.path@.group_dir && final(events).deep_view() == old(
                    events,
                ).deep_view() + m.events)
                &&& go matches Some(g) ==> (r matches Ok(res) && res@.members == m.records
                    && res@.groups == g.records && final(events).deep_view() == old(
                    events,
                ).deep_view() + m.events + g.events)
            }
        }),
        conf.scan_type@ != "tags"@ && conf.scan_type@ != "path"@ ==> (r matches Err(
            ScanError::UnknownScanType { scan_type: st },
        ) && st@ == conf.scan_type@ && final(events)@ == old(events)@),
{
    proof {
        reveal_strlit("tags");
        reveal_strlit("path");
        assert("tags"@[0] != "path"@[0]);
    }
    let tags_name: String = "tags".to_owned();
    let path_name: String = "path".to_owned();
    if conf.scan_type == tags_name {
        scanner_tags::run(&conf.scanner.tags, &conf.fields, &fs.root_dir, events)
    } else if conf.scan_type == path_name {
        scanner_paths::run(
            &conf.scanner.path,
            &conf.fields,
            &fs.member_dir,
            &fs.group_dir,
            events,
        )
    } else {
        Err(ScanError::UnknownScanType { scan_type: conf.scan_type.clone() })
    }
}

/// Determinism law: what a scan returns is a function of the walked listings
/// and the configuration alone, so scanning an unchanged tree twice gives
/// two results with identical record contents, in the same order.
pub proof fn lemma_scan_deterministic(
    items1: Seq<crate::markdown::FsItemV>,
    items2: Seq<crate::markdown::FsItemV>,
    root: Seq<char>,
    recursive: bool,
    mt: Option<Seq<Seq<char>>>,
    gt: Option<Seq<Seq<char>>>,
    fm: crate::config::MemberFieldConfigV,
    fg: crate::config::GroupFieldConfigV,
)
    requires
        items1 == items2,
    ensures
        tags_out(walk(items1, root, true), mt, gt, fm, fg) == tags_out(
            walk(items2, root, true),
            mt,
            gt,
            fm,
            fg,
        ),
        member_dir_out(Some(root), Some(items1), recursive, fm) == member_dir_out(
            Some(root),
            Some(items2),
            recursive,
            fm,
        ),
        group_dir_out(Some(root), Some(items1), recursive, fg) == group_dir_out(
            Some(root),
            Some(items2),
            recursive,
            fg,
        ),
{
}

} // verus!
