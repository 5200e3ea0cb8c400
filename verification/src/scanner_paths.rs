//! The path strategy: up to two independent directories, one per record
//! kind, sharing one recursion flag. Each configured directory is walked and
//! every yielded note is read, its header extracted, and the kind's field
//! mapping applied. All failures are note-scoped events, except an
//! unavailable configured directory, which aborts the whole scan.
use crate::config::{
    FieldConfig, GroupFieldConfig, GroupFieldConfigV, MemberFieldConfig, MemberFieldConfigV,
    PathScanConfig,
};
use crate::events::{RecordKind, ScanError, ScanEvent, ScanEventV};
use crate::frontmatter::{extract, extract_spec};
use crate::markdown::{walk, walk_events, walker, FsItem, FsItemV, NoteFile, NoteFileV};
use crate::markdown_objects::{
    group_of, member_of, GroupV, MarkdownGroup, MarkdownMember, MemberV,
};
use crate::scan_result::ScanResult;
use vstd::prelude::*;

verus! {

/// What a member scan of a sequence of notes produces: the records, in
/// discovery order, and the per-note events.
pub struct MemberScanV {
    pub records: Seq<MemberV>,
    pub events: Seq<ScanEventV>,
}

/// What a group scan of a sequence of notes produces.
pub struct GroupScanV {
    pub records: Seq<GroupV>,
    pub events: Seq<ScanEventV>,
}

/// What one note contributes to a member scan: its record when its content
/// reads, its header parses, and the field mapping succeeds; otherwise no
/// record and the one event that says why the note was skipped.
pub open spec fn member_note_out(note: NoteFileV, cfg: MemberFieldConfigV) -> MemberScanV {
    match note.content {
        Option::None => MemberScanV {
            records: Seq::empty(),
            events: seq![ScanEventV::ReadError { path: note.path }],
        },
        Option::Some(text) => match extract_spec(text) {
            Option::None => MemberScanV {
                records: Seq::empty(),
                events: seq![ScanEventV::HeaderError { path: note.path }],
            },
            Option::Some(p) => match member_of(note.path, p.0, cfg) {
                Option::None => MemberScanV {
                    records: Seq::empty(),
                    events: seq![
                        ScanEventV::MissingField { path: note.path, kind: RecordKind::Member },
                    ],
                },
                Option::Some(m) => MemberScanV { records: seq![m], events: Seq::empty() },
            },
        },
    }
}

/// What one note contributes to a group scan.
pub open spec fn group_note_out(note: NoteFileV, cfg: GroupFieldConfigV) -> GroupScanV {
    match note.content {
        Option::None => GroupScanV {
            records: Seq::empty(),
            events: seq![ScanEventV::ReadError { path: note.path }],
        },
        Option::Some(text) => match extract_spec(text) {
            Option::None => GroupScanV {
                records: Seq::empty(),
                events: seq![ScanEventV::HeaderError { path: note.path }],
            },
            Option::Some(p) => match group_of(note.path, p.0, cfg) {
                Option::None => GroupScanV {
                    records: Seq::empty(),
                    events: seq![
                        ScanEventV::MissingField { path: note.path, kind: RecordKind::Group },
                    ],
                },
                Option::Some(g) => GroupScanV { records: seq![g], events: Seq::empty() },
            },
        },
    }
}

/// A member scan of the notes from index `i` on.
pub open spec fn members_out_from(notes: Seq<NoteFileV>, cfg: MemberFieldConfigV, i: int) -> MemberScanV
    decreases notes.len() - i,
    when 0 <= i <= notes.len()
{
    if i >= notes.len() {
        MemberScanV { records: Seq::empty(), events: Seq::empty() }
    } else {
        let h = member_note_out(notes[i], cfg);
        let rest = members_out_from(notes, cfg, i + 1);
        MemberScanV { records: h.records + rest.records, events: h.events + rest.events }
    }
}

/// A member scan of a whole sequence of notes.
pub open spec fn members_out(notes: Seq<NoteFileV>, cfg: MemberFieldConfigV) -> MemberScanV {
    members_out_from(notes, cfg, 0)
}

/// A group scan of the notes from index `i` on.
pub open spec fn groups_out_from(notes: Seq<NoteFileV>, cfg: GroupFieldConfigV, i: int) -> GroupScanV
    decreases notes.len() - i,
    when 0 <= i <= notes.len()
{
    if i >= notes.len() {
        GroupScanV { records: Seq::empty(), events: Seq::empty() }
    } else {
        let h = group_note_out(notes[i], cfg);
        let rest = groups_out_from(notes, cfg, i + 1);
        GroupScanV { records: h.records + rest.records, events: h.events + rest.events }
    }
}

/// A group scan of a whole sequence of notes.
pub open spec fn groups_out(notes: Seq<NoteFileV>, cfg: GroupFieldConfigV) -> GroupScanV {
    groups_out_from(notes, cfg, 0)
}

fn scan_member_note(
    note: &NoteFile,
    cfg: &MemberFieldConfig,
    members: &mut Vec<MarkdownMember>,
    events: &mut Vec<ScanEvent>,
)
    ensures
        final(members).deep_view() == old(members).deep_view() + member_note_out(
            note@,
            cfg@,
        ).records,
        final(events).deep_view() == old(events).deep_view() + member_note_out(
            note@,
            cfg@,
        ).events,
{
    match &note.content {
        Option::None => {
            events.push(ScanEvent::ReadError { path: note.path.clone() });
            assert(events.deep_view() =~= old(events).deep_view() + member_note_out(
                note@,
                cfg@,
            ).events);
            assert(members.deep_view() =~= old(members).deep_view() + member_note_out(
                note@,
                cfg@,
            ).records);
        },
        Option::Some(text) => match extract(text.as_str()) {
            Result::Err(_) => {
                events.push(ScanEvent::HeaderError { path: note.path.clone() });
                assert(events.deep_view() =~= old(events).deep_view() + member_note_out(
                    note@,
                    cfg@,
                ).events);
                assert(members.deep_view() =~= old(members).deep_view() + member_note_out(
                    note@,
                    cfg@,
                ).records);
            },
            Result::Ok(p) => {
                let (header, _body) = p;
                match MarkdownMember::from_markdown(&note.path, &header, cfg) {
                    Result::Err(_) => {
                        events.push(
                            ScanEvent::MissingField {
                                path: note.path.clone(),
                                kind: RecordKind::Member,
                            },
                        );
                        assert(events.deep_view() =~= old(events).deep_view() + member_note_out(
                            note@,
                            cfg@,
                        ).events);
                        assert(members.deep_view() =~= old(members).deep_view() + member_note_out(
                            note@,
                            cfg@,
                        ).records);
                    },
                    Result::Ok(m) => {
                        members.push(m);
                        assert(events.deep_view() =~= old(events).deep_view() + member_note_out(
                            note@,
                            cfg@,
                        ).events);
                        assert(members.deep_view() =~= old(members).deep_view() + member_note_out(
                            note@,
                            cfg@,
                        ).records);
                    },
                }
            },
        },
    }
}

fn scan_group_note(
    note: &NoteFile,
    cfg: &GroupFieldConfig,
    groups: &mut Vec<MarkdownGroup>,
    events: &mut Vec<ScanEvent>,
)
    ensures
        final(groups).deep_view() == old(groups).deep_view() + group_note_out(
            note@,
            cfg@,
        ).records,
        final(events).deep_view() == old(events).deep_view() + group_note_out(
            note@,
            cfg@,
        ).events,
{
    match &note.content {
        Option::None => {
            events.push(ScanEvent::ReadError { path: note.path.clone() });
            assert(events.deep_view() =~= old(events).deep_view() + group_note_out(
                note@,
                cfg@,
            ).events);
            assert(groups.deep_view() =~= old(groups).deep_view() + group_note_out(
                note@,
                cfg@,
            ).records);
        },
        Option::Some(text) => match extract(text.as_str()) {
            Result::Err(_) => {
                events.push(ScanEvent::HeaderError { path: note.path.clone() });
                assert(events.deep_view() =~= old(events).deep_view() + group_note_out(
                    note@,
                    cfg@,
                ).events);
                assert(groups.deep_view() =~= old(groups).deep_view() + group_note_out(
                    note@,
                    cfg@,
                ).records);
            },
            Result::Ok(p) => {
                let (header, _body) = p;
                match MarkdownGroup::from_markdown(&note.path, &header, cfg) {
                    Result::Err(_) => {
                        events.push(
                            ScanEvent::MissingField {
                                path: note.path.clone(),
                                kind: RecordKind::Group,
                            },
                        );
                        assert(events.deep_view() =~= old(events).deep_view() + group_note_out(
                            note@,
                            cfg@,
                        ).events);
                        assert(groups.deep_view() =~= old(groups).deep_view() + group_note_out(
                            note@,
                            cfg@,
                        ).records);
                    },
                    Result::Ok(g) => {
                        groups.push(g);
                        assert(events.deep_view() =~= old(events).deep_view() + group_note_out(
                            note@,
                            cfg@,
                        ).events);
                        assert(groups.deep_view() =~= old(groups).deep_view() + group_note_out(
                            note@,
                            cfg@,
                        ).records);
                    },
                }
            },
        },
    }
}

/// Scans one configured member directory: walks its listing, processes every
/// yielded note, and returns the member records in discovery order. Fails
/// exactly when the listing is unavailable.
pub fn scan_members(
    dir: &String,
    recursive: bool,
    listing: &Option<Vec<FsItem>>,
    cfg: &MemberFieldConfig,
    events: &mut Vec<ScanEvent>,
) -> (r: Result<Vec<MarkdownMember>, ScanError>)
    ensures
        listing is None ==> (r matches Err(ScanError::RootUnavailable { dir: d }) && d@ == dir@
            && final(events)@ == old(events)@),
        listing matches Some(items) ==> ({
            let notes = walk(items.deep_view(), dir@, recursive);
            let out = members_out(notes, cfg@);
            &&& r matches Ok(ms) && ms.deep_view() == out.records
            &&& final(events).deep_view() == old(events).deep_view() + walk_events(
                items.deep_view(),
                dir@,
                recursive,
            ) + out.events
        }),
{
    match listing {
        Option::None => Err(ScanError::RootUnavailable { dir: dir.clone() }),
        Option::Some(items) => {
            let notes = walker(items, dir, recursive, events);
            let ghost notesv = notes.deep_view();
            let ghost base = events.deep_view();
            let mut members: Vec<MarkdownMember> = Vec::new();
            let mut i: usize = 0;
            while i < notes.len()
                invariant
                    i <= notes.len(),
                    notesv == notes.deep_view(),
                    notesv.len() == notes@.len(),
                    base == old(events).deep_view() + walk_events(
                        items.deep_view(),
                        dir@,
                        recursive,
                    ),
                    members_out(notesv, cfg@).records =~= members.deep_view() + members_out_from(
                        notesv,
                        cfg@,
                        i as int,
                    ).records,
                    base + members_out(notesv, cfg@).events =~= events.deep_view()
                        + members_out_from(notesv, cfg@, i as int).events,
                decreases notes.len() - i,
            {
                assert(notes@[i as int].deep_view() == notesv[i as int]);
                scan_member_note(&notes[i], cfg, &mut members, events);
                proof {
                    let ii = i as int;
                    let h = member_note_out(notesv[ii], cfg@);
                    let rest = members_out_from(notesv, cfg@, ii + 1);
                    assert(members_out_from(notesv, cfg@, ii).records == h.records + rest.records);
                    assert(members_out_from(notesv, cfg@, ii).events == h.events + rest.events);
                }
                i = i + 1;
            }
            proof {
                assert(members.deep_view() =~= members_out(notesv, cfg@).records);
                assert(events.deep_view() =~= base + members_out(notesv, cfg@).events);
            }
            Ok(members)
        },
    }
}

/// Scans one configured group directory, as `scan_members` does for members.
pub fn scan_groups(
    dir: &String,
    recursive: bool,
    listing: &Option<Vec<FsItem>>,
    cfg: &GroupFieldConfig,
    events: &mut Vec<ScanEvent>,
) -> (r: Result<Vec<MarkdownGroup>, ScanError>)
    ensures
        listing is None ==> (r matches Err(ScanError::RootUnavailable { dir: d }) && d@ == dir@
            && final(events)@ == old(events)@),
        listing matches Some(items) ==> ({
            let notes = walk(items.deep_view(), dir@, recursive);
            let out = groups_out(notes, cfg@);
            &&& r matches Ok(gs) && gs.deep_view() == out.records
            &&& final(events).deep_view() == old(events).deep_view() + walk_events(
                items.deep_view(),
                dir@,
                recursive,
            ) + out.events
        }),
{
    match listing {
        Option::None => Err(ScanError::RootUnavailable { dir: dir.clone() }),
        Option::Some(items) => {
            let notes = walker(items, dir, recursive, events);
            let ghost notesv = notes.deep_view();
            let ghost base = events.deep_view();
            let mut groups: Vec<MarkdownGroup> = Vec::new();
            let mut i: usize = 0;
            while i < notes.len()
                invariant
                    i <= notes.len(),
                    notesv == notes.deep_view(),
                    notesv.len() == notes@.len(),
                    base == old(events).deep_view() + walk_events(
                        items.deep_view(),
                        dir@,
                        recursive,
                    ),
                    groups_out(notesv, cfg@).records =~= groups.deep_view() + groups_out_from(
                        notesv,
                        cfg@,
                        i as int,
                    ).records,
                    base + groups_out(notesv, cfg@).events =~= events.deep_view()
                        + groups_out_from(notesv, cfg@, i as int).events,
                decreases notes.len() - i,
            {
                assert(notes@[i as int].deep_view() == notesv[i as int]);
                scan_group_note(&notes[i], cfg, &mut groups, events);
                proof {
                    let ii = i as int;
                    let h = group_note_out(notesv[ii], cfg@);
                    let rest = groups_out_from(notesv, cfg@, ii + 1);
                    assert(groups_out_from(notesv, cfg@, ii).records == h.records + rest.records);
                    assert(groups_out_from(notesv, cfg@, ii).events == h.events + rest.events);
                }
                i = i + 1;
            }
            proof {
                assert(groups.deep_view() =~= groups_out(notesv, cfg@).records);
                assert(events.deep_view() =~= base + groups_out(notesv, cfg@).events);
            }
            Ok(groups)
        },
    }
}

/// What scanning an optional member directory amounts to: an unconfigured
/// directory contributes nothing, an unavailable listing is fatal (`None`),
/// and otherwise the walk's events and records.
pub open spec fn member_dir_out(
    dir: Option<Seq<char>>,
    listing: Option<Seq<FsItemV>>,
    recursive: bool,
    cfg: MemberFieldConfigV,
) -> Option<MemberScanV> {
    match dir {
        Option::None => Some(MemberScanV { records: Seq::empty(), events: Seq::empty() }),
        Option::Some(d) => match listing {
            Option::None => None,
            Option::Some(items) => {
                let out = members_out(walk(items, d, recursive), cfg);
                Some(
                    MemberScanV {
                        records: out.records,
                        events: walk_events(items, d, recursive) + out.events,
                    },
                )
            },
        },
    }
}

/// What scanning an optional group directory amounts to.
pub open spec fn group_dir_out(
    dir: Option<Seq<char>>,
    listing: Option<Seq<FsItemV>>,
    recursive: bool,
    cfg: GroupFieldConfigV,
) -> Option<GroupScanV> {
    match dir {
        Option::None => Some(GroupScanV { records: Seq::empty(), events: Seq::empty() }),
        Option::Some(d) => match listing {
            Option::None => None,
            Option::Some(items) => {
                let out = groups_out(walk(items, d, recursive), cfg);
                Some(
                    GroupScanV {
                        records: out.records,
                        events: walk_events(items, d, recursive) + out.events,
                    },
                )
            },
        },
    }
}

/// Runs the path strategy: scans the configured member directory, then the
/// configured group directory, each against the listing the caller walked
/// for it. An unavailable configured directory aborts the whole scan and
/// discards any partial progress; the member directory is checked first.
pub fn run(
    cfg: &PathScanConfig,
    field_cfg: &FieldConfig,
    member_listing: &Option<Vec<FsItem>>,
    group_listing: &Option<Vec<FsItem>>,
    events: &mut Vec<ScanEvent>,
) -> (r: Result<ScanResult, ScanError>)
    ensures
        ({
            let mo = member_dir_out(
                cfg@.member_dir,
                member_listing.deep_view(),
                cfg.recursive,
                field_cfg@.member,
            );
            let go = group_dir_out(
                cfg@.group_dir,
                group_listing.deep_view(),
                cfg.recursive,
                field_cfg@.group,
            );
            &&& mo is None ==> (r matches Err(ScanError::RootUnavailable { dir: d }) && Some(d@)
                == cfg@.member_dir && final(events)@ == old(events)@)
            &&& mo matches Some(m) ==> {
                &&& go is None ==> (r matches Err(ScanError::RootUnavailable { dir: d }) && Some(
                    d@,
                ) == cfg@.group_dir && final(events).deep_view() == old(events).deep_view()
                    + m.events)
                &&& go matches Some(g) ==> (r matches Ok(res) && res@.members == m.records
                    && res@.groups == g.records && final(events).deep_view() == old(
                    events,
                ).deep_view() + m.events + g.events)
            }
        }),
{
    let members = match &cfg.member_dir {
        Option::Some(d) => match scan_members(
            d,
            cfg.recursive,
            member_listing,
            &field_cfg.member,
            events,
        ) {
            Result::Ok(ms) => ms,
            Result::Err(e) => {
                return Err(e);
            },
        },
        Option::None => {
            let ms: Vec<MarkdownMember> = Vec::new();
            assert(ms.deep_view() =~= Seq::<MemberV>::empty());
            ms
        },
    };
    let groups = match &cfg.group_dir {
        Option::Some(d) => match scan_groups(
            d,
            cfg.recursive,
            group_listing,
            &field_cfg.group,
            events,
        ) {
            Result::Ok(gs) => gs,
            Result::Err(e) => {
                return Err(e);
            },
        },
        Option::None => {
            let gs: Vec<MarkdownGroup> = Vec::new();
            assert(gs.deep_view() =~= Seq::<GroupV>::empty());
            gs
        },
    };
    Ok(ScanResult { members, groups })
}

// ---------------------------------------------------------------------------
// Laws.
// ---------------------------------------------------------------------------
proof fn lemma_member_records_accepted(
    notes: Seq<NoteFileV>,
    cfg: MemberFieldConfigV,
    root: Seq<char>,
    recursive: bool,
    i: int,
)
    requires
        0 <= i <= notes.len(),
        forall|j: int| 0 <= j < notes.len() ==> crate::markdown::accepted_path(
            #[trigger] notes[j].path,
            root,
            recursive,
        ),
    ensures
        forall|k: int| 0 <= k < members_out_from(notes, cfg, i).records.len()
            ==> crate::markdown::accepted_path(
            #[trigger] members_out_from(notes, cfg, i).records[k].path,
            root,
            recursive,
        ),
    decreases notes.len() - i,
{
    if i < notes.len() {
        lemma_member_records_accepted(notes, cfg, root, recursive, i + 1);
        let h = member_note_out(notes[i], cfg);
        let rest = members_out_from(notes, cfg, i + 1);
        let cur = members_out_from(notes, cfg, i);
        assert(forall|k: int| 0 <= k < h.records.len() ==> (#[trigger] h.records[k]).path
            == notes[i].path);
        assert forall|k: int| 0 <= k < cur.records.len() implies crate::markdown::accepted_path(
            cur.records[k].path,
            root,
            recursive,
        ) by {
            if k < h.records.len() {
                assert(cur.records[k] == h.records[k]);
            } else {
                assert(cur.records[k] == rest.records[k - h.records.len()]);
            }
        }
    }
}

proof fn lemma_group_records_accepted(
    notes: Seq<NoteFileV>,
    cfg: GroupFieldConfigV,
    root: Seq<char>,
    recursive: bool,
    i: int,
)
    requires
        0 <= i <= notes.len(),
        forall|j: int| 0 <= j < notes.len() ==> crate::markdown::accepted_path(
            #[trigger] notes[j].path,
            root,
            recursive,
        ),
    ensures
        forall|k: int| 0 <= k < groups_out_from(notes, cfg, i).records.len()
            ==> crate::markdown::accepted_path(
            #[trigger] groups_out_from(notes, cfg, i).records[k].path,
            root,
            recursive,
        ),
    decreases notes.len() - i,
{
    if i < notes.len() {
        lemma_group_records_accepted(notes, cfg, root, recursive, i + 1);
        let h = group_note_out(notes[i], cfg);
        let rest = groups_out_from(notes, cfg, i + 1);
        let cur = groups_out_from(notes, cfg, i);
        assert(forall|k: int| 0 <= k < h.records.len() ==> (#[trigger] h.records[k]).path
            == notes[i].path);
        assert forall|k: int| 0 <= k < cur.records.len() implies crate::markdown::accepted_path(
            cur.records[k].path,
            root,
            recursive,
        ) by {
            if k < h.records.len() {
                assert(cur.records[k] == h.records[k]);
            } else {
                assert(cur.records[k] == rest.records[k - h.records.len()]);
            }
        }
    }
}

/// Containment law for the path strategy: every record a scan of a
/// directory's walked listing returns has a source path strictly under that
/// directory (trailing separators of the configured name ignored), and, with
/// recursion off, the path is an immediate child of it. This holds for both
/// kinds.
pub proof fn lemma_path_records_under_dir(
    items: Seq<FsItemV>,
    dir: Seq<char>,
    recursive: bool,
    mcfg: MemberFieldConfigV,
    gcfg: GroupFieldConfigV,
)
    ensures
        forall|k: int|
            0 <= k < members_out(walk(items, dir, recursive), mcfg).records.len() ==> {
                let p = (#[trigger] members_out(
                    walk(items, dir, recursive),
                    mcfg,
                ).records[k]).path;
                crate::markdown::is_under(p, crate::markdown::strip_seps(dir)) && (!recursive
                    ==> crate::markdown::depth_one(p, crate::markdown::strip_seps(dir)))
            },
        forall|k: int|
            0 <= k < groups_out(walk(items, dir, recursive), gcfg).records.len() ==> {
                let p = (#[trigger] groups_out(walk(items, dir, recursive), gcfg).records[k]).path;
                crate::markdown::is_under(p, crate::markdown::strip_seps(dir)) && (!recursive
                    ==> crate::markdown::depth_one(p, crate::markdown::strip_seps(dir)))
            },
{
    crate::markdown::lemma_walk_accepted(items, dir, recursive, 0);
    lemma_member_records_accepted(walk(items, dir, recursive), mcfg, dir, recursive, 0);
    lemma_group_records_accepted(walk(items, dir, recursive), gcfg, dir, recursive, 0);
}

/// Graceful degradation law for the path strategy: a note with no parseable
/// header yields no record for its kind, exactly one header-error event, and
/// never a fatal outcome — the scan's success does not depend on it.
pub proof fn lemma_unparseable_note_skipped(
    note: NoteFileV,
    mcfg: MemberFieldConfigV,
    gcfg: GroupFieldConfigV,
)
    requires
        (note.content matches Some(t) && extract_spec(t) is None),
    ensures
        member_note_out(note, mcfg) == (MemberScanV {
            records: Seq::<MemberV>::empty(),
            events: seq![ScanEventV::HeaderError { path: note.path }],
        }),
        group_note_out(note, gcfg) == (GroupScanV {
            records: Seq::<GroupV>::empty(),
            events: seq![ScanEventV::HeaderError { path: note.path }],
        }),
{
}

proof fn lemma_members_out_shift(
    n1: Seq<NoteFileV>,
    n2: Seq<NoteFileV>,
    cfg: MemberFieldConfigV,
    j: int,
)
    requires
        0 <= j <= n2.len(),
    ensures
        members_out_from(n1 + n2, cfg, n1.len() + j) == members_out_from(n2, cfg, j),
    decreases n2.len() - j,
{
    if j < n2.len() {
        lemma_members_out_shift(n1, n2, cfg, j + 1);
        assert((n1 + n2)[n1.len() + j] == n2[j]);
    }
}

proof fn lemma_members_out_append_from(
    n1: Seq<NoteFileV>,
    n2: Seq<NoteFileV>,
    cfg: MemberFieldConfigV,
    i: int,
)
    requires
        0 <= i <= n1.len(),
    ensures
        members_out_from(n1 + n2, cfg, i).records == members_out_from(n1, cfg, i).records
            + members_out(n2, cfg).records,
        members_out_from(n1 + n2, cfg, i).events == members_out_from(n1, cfg, i).events
            + members_out(n2, cfg).events,
    decreases n1.len() - i,
{
    let nn = n1 + n2;
    if i == n1.len() {
        lemma_members_out_shift(n1, n2, cfg, 0);
        assert(members_out_from(nn, cfg, i).records =~= members_out_from(n1, cfg, i).records
            + members_out(n2, cfg).records);
        assert(members_out_from(nn, cfg, i).events =~= members_out_from(n1, cfg, i).events
            + members_out(n2, cfg).events);
    } else {
        lemma_members_out_append_from(n1, n2, cfg, i + 1);
        assert(nn[i] == n1[i]);
        assert(members_out_from(nn, cfg, i).records =~= members_out_from(n1, cfg, i).records
            + members_out(n2, cfg).records);
        assert(members_out_from(nn, cfg, i).events =~= members_out_from(n1, cfg, i).events
            + members_out(n2, cfg).events);
    }
}

proof fn lemma_groups_out_shift(
    n1: Seq<NoteFileV>,
    n2: Seq<NoteFileV>,
    cfg: GroupFieldConfigV,
    j: int,
)
    requires
        0 <= j <= n2.len(),
    ensures
        groups_out_from(n1 + n2, cfg, n1.len() + j) == groups_out_from(n2, cfg, j),
    decreases n2.len() - j,
{
    if j < n2.len() {
        lemma_groups_out_shift(n1, n2, cfg, j + 1);
        assert((n1 + n2)[n1.len() + j] == n2[j]);
    }
}

proof fn lemma_groups_out_append_from(
    n1: Seq<NoteFileV>,
    n2: Seq<NoteFileV>,
    cfg: GroupFieldConfigV,
    i: int,
)
    requires
        0 <= i <= n1.len(),
    ensures
        groups_out_from(n1 + n2, cfg, i).records == groups_out_from(n1, cfg, i).records
            + groups_out(n2, cfg).records,
        groups_out_from(n1 + n2, cfg, i).events == groups_out_from(n1, cfg, i).events
            + groups_out(n2, cfg).events,
    decreases n1.len() - i,
{
    let nn = n1 + n2;
    if i == n1.len() {
        lemma_groups_out_shift(n1, n2, cfg, 0);
        assert(groups_out_from(nn, cfg, i).records =~= groups_out_from(n1, cfg, i).records
            + groups_out(n2, cfg).records);
        assert(groups_out_from(nn, cfg, i).events =~= groups_out_from(n1, cfg, i).events
            + groups_out(n2, cfg).events);
    } else {
        lemma_groups_out_append_from(n1, n2, cfg, i + 1);
        assert(nn[i] == n1[i]);
        assert(groups_out_from(nn, cfg, i).records =~= groups_out_from(n1, cfg, i).records
            + groups_out(n2, cfg).records);
        assert(groups_out_from(nn, cfg, i).events =~= groups_out_from(n1, cfg, i).events
            + groups_out(n2, cfg).events);
    }
}

/// Independence law for the path strategy: each note is evaluated on its
/// own, and records are concatenated in discovery order — a scan of one run
/// of notes followed by another is the two scans concatenated. So two notes
/// that resolve to the same id both stay in the output of their kind;
/// nothing is deduplicated.
pub proof fn lemma_path_scan_append(
    n1: Seq<NoteFileV>,
    n2: Seq<NoteFileV>,
    mcfg: MemberFieldConfigV,
    gcfg: GroupFieldConfigV,
)
    ensures
        members_out(n1 + n2, mcfg).records == members_out(n1, mcfg).records + members_out(
            n2,
            mcfg,
        ).records,
        members_out(n1 + n2, mcfg).events == members_out(n1, mcfg).events + members_out(
            n2,
            mcfg,
        ).events,
        groups_out(n1 + n2, gcfg).records == groups_out(n1, gcfg).records + groups_out(
            n2,
            gcfg,
        ).records,
        groups_out(n1 + n2, gcfg).events == groups_out(n1, gcfg).events + groups_out(
            n2,
            gcfg,
        ).events,
{
    lemma_members_out_append_from(n1, n2, mcfg, 0);
    lemma_groups_out_append_from(n1, n2, gcfg, 0);
}

} // verus!
