//! The tag strategy: one root walked recursively; each note's header is
//! extracted once and tested against both kinds' required tag sets, and for
//! every kind it qualifies for, that kind's field mapping is applied to the
//! same header. A note may yield a member record, a group record, both, or
//! neither; the kinds are tested independently.
use crate::config::{
    FieldConfig, GroupFieldConfigV, MemberFieldConfigV, TagScanConfig,
};
use crate::events::{RecordKind, ScanError, ScanEvent, ScanEventV};
use crate::frontmatter::{extract, extract_spec, lookup, EntryV, Header, HeaderScalar, HeaderValue, ScalarV, ValueV};
use crate::markdown::{walk, walk_events, walker, FsItem, NoteFile, NoteFileV};
use crate::markdown_objects::{
    group_of, member_of, str_elems, GroupV, MarkdownGroup, MarkdownMember, MemberV,
};
use crate::scan_result::ScanResult;
use vstd::prelude::*;

verus! {

// ---------------------------------------------------------------------------
// The tag matcher.
// ---------------------------------------------------------------------------
/// The note's tag set, read from the header key `tags`: the string elements
/// of the array there, or `None` when the key is absent or its value is not
/// an array.
pub open spec fn tags_of(h: Seq<EntryV>) -> Option<Seq<Seq<char>>> {
    match lookup(h, "tags"@) {
        Option::Some(ValueV::Arr(es)) => Some(str_elems(es, 0)),
        _ => None,
    }
}

/// One dropped-element event per non-string element of the `tags` array,
/// from index `i` on.
pub open spec fn nonstring_tag_events(es: Seq<ScalarV>, i: int, path: Seq<char>) -> Seq<
    ScanEventV,
>
    decreases es.len() - i,
    when 0 <= i <= es.len()
{
    if i >= es.len() {
        Seq::empty()
    } else {
        let rest = nonstring_tag_events(es, i + 1, path);
        match es[i] {
            ScalarV::Str(_) => rest,
            _ => seq![ScanEventV::TagNotString { path }] + rest,
        }
    }
}

/// The events reading a note's tags reports: a missing key, a non-array
/// value, or one event per dropped non-string element.
pub open spec fn tag_events(h: Seq<EntryV>, path: Seq<char>) -> Seq<ScanEventV> {
    match lookup(h, "tags"@) {
        Option::None => seq![ScanEventV::NoTags { path }],
        Option::Some(ValueV::Arr(es)) => nonstring_tag_events(es, 0, path),
        Option::Some(_) => seq![ScanEventV::TagsNotArray { path }],
    }
}

/// Reads a note's tag set from its header, reporting why when there is none
/// and which elements were dropped.
pub fn parse_tags(header: &Header, path: &String, events: &mut Vec<ScanEvent>) -> (r: Option<
    Vec<String>,
>)
    ensures
        r.deep_view() == tags_of(header@),
        final(events).deep_view() == old(events).deep_view() + tag_events(header@, path@),
{
    let key: String = "tags".to_owned();
    match header.get(&key) {
        Option::None => {
            events.push(ScanEvent::NoTags { path: path.clone() });
            assert(events.deep_view() =~= old(events).deep_view() + tag_events(header@, path@));
            None
        },
        Option::Some(HeaderValue::Arr(es)) => {
            let ghost esv = es.deep_view();
            let mut tags: Vec<String> = Vec::new();
            let mut i: usize = 0;
            while i < es.len()
                invariant
                    i <= es.len(),
                    esv == es.deep_view(),
                    esv.len() == es@.len(),
                    str_elems(esv, 0) =~= tags.deep_view() + str_elems(esv, i as int),
                    old(events).deep_view() + nonstring_tag_events(esv, 0, path@)
                        =~= events.deep_view() + nonstring_tag_events(esv, i as int, path@),
                decreases es.len() - i,
            {
                assert(es@[i as int].deep_view() == esv[i as int]);
                match &es[i] {
                    HeaderScalar::Str(s) => {
                        tags.push(s.clone());
                    },
                    _ => {
                        events.push(ScanEvent::TagNotString { path: path.clone() });
                    },
                }
                proof {
                    let ii = i as int;
                    assert(str_elems(esv, ii) == (match esv[ii] {
                        ScalarV::Str(s) => seq![s] + str_elems(esv, ii + 1),
                        _ => str_elems(esv, ii + 1),
                    }));
                    assert(nonstring_tag_events(esv, ii, path@) == (match esv[ii] {
                        ScalarV::Str(_) => nonstring_tag_events(esv, ii + 1, path@),
                        _ => seq![ScanEventV::TagNotString { path: path@ }]
                            + nonstring_tag_events(esv, ii + 1, path@),
                    }));
                }
                i = i + 1;
            }
            proof {
                assert(tags.deep_view() =~= str_elems(esv, 0));
                assert(events.deep_view() =~= old(events).deep_view() + tag_events(
                    header@,
                    path@,
                ));
            }
            Some(tags)
        },
        Option::Some(_) => {
            events.push(ScanEvent::TagsNotArray { path: path.clone() });
            assert(events.deep_view() =~= old(events).deep_view() + tag_events(header@, path@));
            None
        },
    }
}

/// Whether a note's tag set qualifies for a kind: the kind's required tag
/// set must be configured, non-empty, and a subset of the note's tags. A
/// kind with an empty or unconfigured required tag set is disabled — no note
/// ever qualifies for it.
pub open spec fn qualifies(required: Option<Seq<Seq<char>>>, tags: Seq<Seq<char>>) -> bool {
    match required {
        Option::None => false,
        Option::Some(req) => req.len() > 0 && req.to_set().subset_of(tags.to_set()),
    }
}

fn contains_str(tags: &Vec<String>, s: &String) -> (r: bool)
    ensures
        r == tags.deep_view().contains(s@),
{
    let ghost tv = tags.deep_view();
    let mut i: usize = 0;
    while i < tags.len()
        invariant
            i <= tags.len(),
            tv == tags.deep_view(),
            tv.len() == tags@.len(),
            forall|k: int| 0 <= k < i ==> tv[k] != s@,
        decreases tags.len() - i,
    {
        assert(tags@[i as int].deep_view() == tv[i as int]);
        if tags[i] == *s {
            assert(tv.contains(s@)) by {
                assert(tv[i as int] == s@);
            }
            return true;
        }
        i = i + 1;
    }
    proof {
        if tv.contains(s@) {
            let k = choose|k: int| 0 <= k < tv.len() && tv[k] == s@;
            assert(tv[k] != s@);
        }
    }
    false
}

/// Tests required-tag-set inclusion for one kind against a note's tags.
pub fn qualifies_exec(required: &Option<Vec<String>>, tags: &Vec<String>) -> (r: bool)
    ensures
        r == qualifies(required.deep_view(), tags.deep_view()),
{
    match required {
        Option::None => false,
        Option::Some(req) => {
            let ghost reqv = req.deep_view();
            let ghost tv = tags.deep_view();
            assert(required.deep_view() == Some(reqv));
            if req.len() == 0 {
                assert(reqv.len() == 0);
                return false;
            }
            let mut i: usize = 0;
            while i < req.len()
                invariant
                    i <= req.len(),
                    reqv == req.deep_view(),
                    tv == tags.deep_view(),
                    required.deep_view() == Some(reqv),
                    reqv.len() == req@.len(),
                    forall|k: int| 0 <= k < i ==> tv.contains(#[trigger] reqv[k]),
                decreases req.len() - i,
            {
                assert(req@[i as int].deep_view() == reqv[i as int]);
                if !contains_str(tags, &req[i]) {
                    proof {
                        assert(reqv.contains(reqv[i as int]));
                        assert(reqv.to_set().contains(reqv[i as int]));
                        assert(!tv.to_set().contains(reqv[i as int]));
                        assert(!reqv.to_set().subset_of(tv.to_set()));
                    }
                    return false;
                }
                i = i + 1;
            }
            proof {
                assert forall|x: Seq<char>| reqv.to_set().contains(x) implies tv.to_set().contains(
                    x,
                ) by {
                    assert(reqv.contains(x));
                    let k = choose|k: int| 0 <= k < reqv.len() && reqv[k] == x;
                    assert(tv.contains(reqv[k]));
                };
                assert(reqv.to_set().subset_of(tv.to_set()));
            }
            true
        },
    }
}

// ---------------------------------------------------------------------------
// The strategy itself.
// ---------------------------------------------------------------------------
/// What one note contributes under the tag strategy.
pub struct TagNoteOutV {
    pub members: Seq<MemberV>,
    pub groups: Seq<GroupV>,
    pub events: Seq<ScanEventV>,
}

/// What one note contributes under the tag strategy: for each kind the note
/// qualifies for, the kind's record — or a missing-field event when that
/// kind's mapping fails; the kinds are independent. A note whose content
/// cannot be read, whose header does not parse, or which has no tag set
/// contributes no record and the event that says why.
pub open spec fn tag_note_out(
    note: NoteFileV,
    member_tags: Option<Seq<Seq<char>>>,
    group_tags: Option<Seq<Seq<char>>>,
    fm: MemberFieldConfigV,
    fg: GroupFieldConfigV,
) -> TagNoteOutV {
    match note.content {
        Option::None => TagNoteOutV {
            members: Seq::empty(),
            groups: Seq::empty(),
            events: seq![ScanEventV::ReadError { path: note.path }],
        },
        Option::Some(text) => match extract_spec(text) {
            Option::None => TagNoteOutV {
                members: Seq::empty(),
                groups: Seq::empty(),
                events: seq![ScanEventV::HeaderError { path: note.path }],
            },
            Option::Some(p) => {
                let h = p.0;
                match tags_of(h) {
                    Option::None => TagNoteOutV {
                        members: Seq::empty(),
                        groups: Seq::empty(),
                        events: tag_events(h, note.path),
                    },
                    Option::Some(tags) => {
                        let m = if qualifies(member_tags, tags) {
                            match member_of(note.path, h, fm) {
                                Option::Some(mr) => (seq![mr], Seq::<ScanEventV>::empty()),
                                Option::None => (
                                    Seq::<MemberV>::empty(),
                                    seq![
                                        ScanEventV::MissingField {
                                            path: note.path,
                                            kind: RecordKind::Member,
                                        },
                                    ],
                                ),
                            }
                        } else {
                            (Seq::<MemberV>::empty(), Seq::<ScanEventV>::empty())
                        };
                        let g = if qualifies(group_tags, tags) {
                            match group_of(note.path, h, fg) {
                                Option::Some(gr) => (seq![gr], Seq::<ScanEventV>::empty()),
                                Option::None => (
                                    Seq::<GroupV>::empty(),
                                    seq![
                                        ScanEventV::MissingField {
                                            path: note.path,
                                            kind: RecordKind::Group,
                                        },
                                    ],
                                ),
                            }
                        } else {
                            (Seq::<GroupV>::empty(), Seq::<ScanEventV>::empty())
                        };
                        TagNoteOutV {
                            members: m.0,
                            groups: g.0,
                            events: tag_events(h, note.path) + m.1 + g.1,
                        }
                    },
                }
            },
        },
    }
}

/// A tag scan of the notes from index `i` on.
pub open spec fn tags_out_from(
    notes: Seq<NoteFileV>,
    member_tags: Option<Seq<Seq<char>>>,
    group_tags: Option<Seq<Seq<char>>>,
    fm: MemberFieldConfigV,
    fg: GroupFieldConfigV,
    i: int,
) -> TagNoteOutV
    decreases notes.len() - i,
    when 0 <= i <= notes.len()
{
    if i >= notes.len() {
        TagNoteOutV { members: Seq::empty(), groups: Seq::empty(), events: Seq::empty() }
    } else {
        let h = tag_note_out(notes[i], member_tags, group_tags, fm, fg);
        let rest = tags_out_from(notes, member_tags, group_tags, fm, fg, i + 1);
        TagNoteOutV {
            members: h.members + rest.members,
            groups: h.groups + rest.groups,
            events: h.events + rest.events,
        }
    }
}

/// A tag scan of a whole sequence of notes.
pub open spec fn tags_out(
    notes: Seq<NoteFileV>,
    member_tags: Option<Seq<Seq<char>>>,
    group_tags: Option<Seq<Seq<char>>>,
    fm: MemberFieldConfigV,
    fg: GroupFieldConfigV,
) -> TagNoteOutV {
    tags_out_from(notes, member_tags, group_tags, fm, fg, 0)
}

fn scan_tag_note(
    note: &NoteFile,
    cfg: &TagScanConfig,
    field_cfg: &FieldConfig,
    members: &mut Vec<MarkdownMember>,
    groups: &mut Vec<MarkdownGroup>,
    events: &mut Vec<ScanEvent>,
)
    ensures
        ({
            let out = tag_note_out(
                note@,
                cfg@.member_tags,
                cfg@.group_tags,
                field_cfg@.member,
                field_cfg@.group,
            );
            &&& final(members).deep_view() == old(members).deep_view() + out.members
            &&& final(groups).deep_view() == old(groups).deep_view() + out.groups
            &&& final(events).deep_view() == old(events).deep_view() + out.events
        }),
{
    let ghost out = tag_note_out(
        note@,
        cfg@.member_tags,
        cfg@.group_tags,
        field_cfg@.member,
        field_cfg@.group,
    );
    match &note.content {
        Option::None => {
            events.push(ScanEvent::ReadError { path: note.path.clone() });
            assert(events.deep_view() =~= old(events).deep_view() + out.events);
            assert(members.deep_view() =~= old(members).deep_view() + out.members);
            assert(groups.deep_view() =~= old(groups).deep_view() + out.groups);
        },
        Option::Some(text) => match extract(text.as_str()) {
            Result::Err(_) => {
                events.push(ScanEvent::HeaderError { path: note.path.clone() });
                assert(events.deep_view() =~= old(events).deep_view() + out.events);
                assert(members.deep_view() =~= old(members).deep_view() + out.members);
                assert(groups.deep_view() =~= old(groups).deep_view() + out.groups);
            },
            Result::Ok(p) => {
                let (header, _body) = p;
                match parse_tags(&header, &note.path, events) {
                    Option::None => {
                        proof {
                            assert(tags_of(header@) is None);
                            assert(out.events == tag_events(header@, note@.path));
                        }
                        assert(events.deep_view() =~= old(events).deep_view() + out.events);
                        assert(members.deep_view() =~= old(members).deep_view() + out.members);
                        assert(groups.deep_view() =~= old(groups).deep_view() + out.groups);
                    },
                    Option::Some(tags) => {
                        let ghost tagsv = tags.deep_view();
                        let ghost h = header@;
                        let ghost pathv = note@.path;
                        let ghost fm = field_cfg@.member;
                        let ghost fg = field_cfg@.group;
                        proof {
                            assert(note@.content == Some(text@));
                            assert(extract_spec(text@) == Some((header@, _body@)));
                            assert(tags_of(h) == Some(tagsv));
                        }
                        let ghost tev = tag_events(h, pathv);
                        let ghost ev1 = events.deep_view();
                        let ghost mem1 = members.deep_view();
                        let ghost mrec: Seq<MemberV> = if qualifies(cfg@.member_tags, tagsv) {
                            match member_of(pathv, h, fm) {
                                Option::Some(mr) => seq![mr],
                                Option::None => Seq::empty(),
                            }
                        } else {
                            Seq::empty()
                        };
                        let ghost mev: Seq<ScanEventV> = if qualifies(cfg@.member_tags, tagsv) {
                            match member_of(pathv, h, fm) {
                                Option::Some(_) => Seq::empty(),
                                Option::None => seq![
                                    ScanEventV::MissingField {
                                        path: pathv,
                                        kind: RecordKind::Member,
                                    },
                                ],
                            }
                        } else {
                            Seq::empty()
                        };
                        if qualifies_exec(&cfg.member_tags, &tags) {
                            match MarkdownMember::from_markdown(
                                &note.path,
                                &header,
                                &field_cfg.member,
                            ) {
                                Result::Ok(m) => {
                                    members.push(m);
                                },
                                Result::Err(_) => {
                                    events.push(
                                        ScanEvent::MissingField {
                                            path: note.path.clone(),
                                            kind: RecordKind::Member,
                                        },
                                    );
                                },
                            }
                        }
                        assert(members.deep_view() =~= mem1 + mrec);
                        assert(events.deep_view() =~= ev1 + mev);
                        let ghost ev2 = events.deep_view();
                        let ghost grp1 = groups.deep_view();
                        let ghost grec: Seq<GroupV> = if qualifies(cfg@.group_tags, tagsv) {
                            match group_of(pathv, h, fg) {
                                Option::Some(gr) => seq![gr],
                                Option::None => Seq::empty(),
                            }
                        } else {
                            Seq::empty()
                        };
                        let ghost gev: Seq<ScanEventV> = if qualifies(cfg@.group_tags, tagsv) {
                            match group_of(pathv, h, fg) {
                                Option::Some(_) => Seq::empty(),
                                Option::None => seq![
                                    ScanEventV::MissingField {
                                        path: pathv,
                                        kind: RecordKind::Group,
                                    },
                                ],
                            }
                        } else {
                            Seq::empty()
                        };
                        if qualifies_exec(&cfg.group_tags, &tags) {
                            match MarkdownGroup::from_markdown(
                                &note.path,
                                &header,
                                &field_cfg.group,
                            ) {
                                Result::Ok(g) => {
                                    groups.push(g);
                                },
                                Result::Err(_) => {
                                    events.push(
                                        ScanEvent::MissingField {
                                            path: note.path.clone(),
                                            kind: RecordKind::Group,
                                        },
                                    );
                                },
                            }
                        }
                        assert(groups.deep_view() =~= grp1 + grec);
                        assert(events.deep_view() =~= ev2 + gev);
                        proof {
                            assert(out.members == mrec);
                            assert(out.groups == grec);
                            assert(out.events == tev + mev + gev);
                        }
                        assert(events.deep_view() =~= old(events).deep_view() + out.events);
                        assert(members.deep_view() =~= old(members).deep_view() + out.members);
                        assert(groups.deep_view() =~= old(groups).deep_view() + out.groups);
                    },
                }
            },
        },
    }
}

/// Runs the tag strategy against the listing the caller walked for the
/// configured root, which is always walked recursively. Fails exactly when
/// the listing is unavailable.
pub fn run(
    cfg: &TagScanConfig,
    field_cfg: &FieldConfig,
    listing: &Option<Vec<FsItem>>,
    events: &mut Vec<ScanEvent>,
) -> (r: Result<ScanResult, ScanError>)
    ensures
        listing is None ==> (r matches Err(ScanError::RootUnavailable { dir: d }) && d@
            == cfg.root_dir@ && final(events)@ == old(events)@),
        listing matches Some(items) ==> ({
            let notes = walk(items.deep_view(), cfg.root_dir@, true);
            let out = tags_out(
                notes,
                cfg@.member_tags,
                cfg@.group_tags,
                field_cfg@.member,
                field_cfg@.group,
            );
            &&& r matches Ok(res) && res@.members == out.members && res@.groups == out.groups
            &&& final(events).deep_view() == old(events).deep_view() + walk_events(
                items.deep_view(),
                cfg.root_dir@,
                true,
            ) + out.events
        }),
{
    match listing {
        Option::None => Err(ScanError::RootUnavailable { dir: cfg.root_dir.clone() }),
        Option::Some(items) => {
            let notes = walker(items, &cfg.root_dir, true, events);
            let ghost notesv = notes.deep_view();
            let ghost base = events.deep_view();
            let ghost mt = cfg@.member_tags;
            let ghost gt = cfg@.group_tags;
            let ghost fm = field_cfg@.member;
            let ghost fg = field_cfg@.group;
            let mut members: Vec<MarkdownMember> = Vec::new();
            let mut groups: Vec<MarkdownGroup> = Vec::new();
            let mut i: usize = 0;
            while i < notes.len()
                invariant
                    i <= notes.len(),
                    notesv == notes.deep_view(),
                    notesv.len() == notes@.len(),
                    mt == cfg@.member_tags,
                    gt == cfg@.group_tags,
                    fm == field_cfg@.member,
                    fg == field_cfg@.group,
                    base == old(events).deep_view() + walk_events(
                        items.deep_view(),
                        cfg.root_dir@,
                        true,
                    ),
                    tags_out(notesv, mt, gt, fm, fg).members =~= members.deep_view()
                        + tags_out_from(notesv, mt, gt, fm, fg, i as int).members,
                    tags_out(notesv, mt, gt, fm, fg).groups =~= groups.deep_view()
                        + tags_out_from(notesv, mt, gt, fm, fg, i as int).groups,
                    base + tags_out(notesv, mt, gt, fm, fg).events =~= events.deep_view()
                        + tags_out_from(notesv, mt, gt, fm, fg, i as int).events,
                decreases notes.len() - i,
            {
                assert(notes@[i as int].deep_view() == notesv[i as int]);
                scan_tag_note(&notes[i], cfg, field_cfg, &mut members, &mut groups, events);
                proof {
                    let ii = i as int;
                    let h = tag_note_out(notesv[ii], mt, gt, fm, fg);
                    let rest = tags_out_from(notesv, mt, gt, fm, fg, ii + 1);
                    assert(tags_out_from(notesv, mt, gt, fm, fg, ii).members == h.members
                        + rest.members);
                    assert(tags_out_from(notesv, mt, gt, fm, fg, ii).groups == h.groups
                        + rest.groups);
                    assert(tags_out_from(notesv, mt, gt, fm, fg, ii).events == h.events
                        + rest.events);
                }
                i = i + 1;
            }
            proof {
                assert(members.deep_view() =~= tags_out(notesv, mt, gt, fm, fg).members);
                assert(groups.deep_view() =~= tags_out(notesv, mt, gt, fm, fg).groups);
                assert(events.deep_view() =~= base + tags_out(notesv, mt, gt, fm, fg).events);
            }
            Ok(ScanResult { members, groups })
        },
    }
}

// ---------------------------------------------------------------------------
// Laws.
// ---------------------------------------------------------------------------
/// The tag-subset law: a note's tags qualify for a kind exactly when the
/// kind's required tag set is configured, non-empty, and included — as a set
/// — in the note's tag set; an unconfigured or empty required set never
/// qualifies any note.
pub proof fn lemma_tag_subset(required: Option<Seq<Seq<char>>>, tags: Seq<Seq<char>>)
    ensures
        required is None ==> !qualifies(required, tags),
        (required matches Some(req) && req.len() == 0) ==> !qualifies(required, tags),
        required matches Some(req) ==> (qualifies(required, tags) <==> (req.len() > 0
            && req.to_set().subset_of(tags.to_set()))),
{
}

/// Graceful degradation law for the tag strategy: a note with no parseable
/// header yields no record of either kind, exactly one header-error event,
/// and never a fatal outcome.
pub proof fn lemma_unparseable_note_skipped(
    note: NoteFileV,
    member_tags: Option<Seq<Seq<char>>>,
    group_tags: Option<Seq<Seq<char>>>,
    fm: MemberFieldConfigV,
    fg: GroupFieldConfigV,
)
    requires
        (note.content matches Some(t) && extract_spec(t) is None),
    ensures
        tag_note_out(note, member_tags, group_tags, fm, fg) == (TagNoteOutV {
            members: Seq::<MemberV>::empty(),
            groups: Seq::<GroupV>::empty(),
            events: seq![ScanEventV::HeaderError { path: note.path }],
        }),
{
}

proof fn lemma_tags_out_shift(
    n1: Seq<NoteFileV>,
    n2: Seq<NoteFileV>,
    mt: Option<Seq<Seq<char>>>,
    gt: Option<Seq<Seq<char>>>,
    fm: MemberFieldConfigV,
    fg: GroupFieldConfigV,
    j: int,
)
    requires
        0 <= j <= n2.len(),
    ensures
        tags_out_from(n1 + n2, mt, gt, fm, fg, n1.len() + j) == tags_out_from(
            n2,
            mt,
            gt,
            fm,
            fg,
            j,
        ),
    decreases n2.len() - j,
{
    let nn = n1 + n2;
    if j < n2.len() {
        lemma_tags_out_shift(n1, n2, mt, gt, fm, fg, j + 1);
        assert(nn[n1.len() + j] == n2[j]);
    }
}

proof fn lemma_tags_out_append_from(
    n1: Seq<NoteFileV>,
    n2: Seq<NoteFileV>,
    mt: Option<Seq<Seq<char>>>,
    gt: Option<Seq<Seq<char>>>,
    fm: MemberFieldConfigV,
    fg: GroupFieldConfigV,
    i: int,
)
    requires
        0 <= i <= n1.len(),
    ensures
        tags_out_from(n1 + n2, mt, gt, fm, fg, i).members == tags_out_from(
            n1,
            mt,
            gt,
            fm,
            fg,
            i,
        ).members + tags_out(n2, mt, gt, fm, fg).members,
        tags_out_from(n1 + n2, mt, gt, fm, fg, i).groups == tags_out_from(
            n1,
            mt,
            gt,
            fm,
            fg,
            i,
        ).groups + tags_out(n2, mt, gt, fm, fg).groups,
        tags_out_from(n1 + n2, mt, gt, fm, fg, i).events == tags_out_from(
            n1,
            mt,
            gt,
            fm,
            fg,
            i,
        ).events + tags_out(n2, mt, gt, fm, fg).events,
    decreases n1.len() - i,
{
    let nn = n1 + n2;
    if i == n1.len() {
        lemma_tags_out_shift(n1, n2, mt, gt, fm, fg, 0);
        assert(tags_out_from(nn, mt, gt, fm, fg, i).members =~= tags_out_from(
            n1,
            mt,
            gt,
            fm,
            fg,
            i,
        ).members + tags_out(n2, mt, gt, fm, fg).members);
        assert(tags_out_from(nn, mt, gt, fm, fg, i).groups =~= tags_out_from(
            n1,
            mt,
            gt,
            fm,
            fg,
            i,
        ).groups + tags_out(n2, mt, gt, fm, fg).groups);
        assert(tags_out_from(nn, mt, gt, fm, fg, i).events =~= tags_out_from(
            n1,
            mt,
            gt,
            fm,
            fg,
            i,
        ).events + tags_out(n2, mt, gt, fm, fg).events);
    } else {
        lemma_tags_out_append_from(n1, n2, mt, gt, fm, fg, i + 1);
        assert(nn[i] == n1[i]);
        assert(tags_out_from(nn, mt, gt, fm, fg, i).members =~= tags_out_from(
            n1,
            mt,
            gt,
            fm,
            fg,
            i,
        ).members + tags_out(n2, mt, gt, fm, fg).members);
        assert(tags_out_from(nn, mt, gt, fm, fg, i).groups =~= tags_out_from(
            n1,
            mt,
            gt,
            fm,
            fg,
            i,
        ).groups + tags_out(n2, mt, gt, fm, fg).groups);
        assert(tags_out_from(nn, mt, gt, fm, fg, i).events =~= tags_out_from(
            n1,
            mt,
            gt,
            fm,
            fg,
            i,
        ).events + tags_out(n2, mt, gt, fm, fg).events);
    }
}

/// Independence law: every note is evaluated on its own, and records are
/// concatenated in discovery order — a scan of one run of notes followed by
/// another is exactly the two scans concatenated. In particular two distinct
/// notes that resolve to the same id both appear in the output for their
/// kind; nothing is deduplicated.
pub proof fn lemma_tags_out_append(
    n1: Seq<NoteFileV>,
    n2: Seq<NoteFileV>,
    mt: Option<Seq<Seq<char>>>,
    gt: Option<Seq<Seq<char>>>,
    fm: MemberFieldConfigV,
    fg: GroupFieldConfigV,
)
    ensures
        tags_out(n1 + n2, mt, gt, fm, fg).members == tags_out(n1, mt, gt, fm, fg).members
            + tags_out(n2, mt, gt, fm, fg).members,
        tags_out(n1 + n2, mt, gt, fm, fg).groups == tags_out(n1, mt, gt, fm, fg).groups
            + tags_out(n2, mt, gt, fm, fg).groups,
        tags_out(n1 + n2, mt, gt, fm, fg).events == tags_out(n1, mt, gt, fm, fg).events
            + tags_out(n2, mt, gt, fm, fg).events,
{
    lemma_tags_out_append_from(n1, n2, mt, gt, fm, fg, 0);
}

} // verus!
