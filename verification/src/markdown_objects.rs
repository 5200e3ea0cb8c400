//! The field mapper: projects a parsed header into a member or group record
//! under a per-kind field-mapping configuration. Either a fully valid record
//! comes back, or construction fails atomically with the missing-field
//! error; no partially populated record escapes.
use crate::config::{GroupFieldConfig, GroupFieldConfigV, MemberFieldConfig, MemberFieldConfigV};
use crate::frontmatter::{lookup, EntryV, Header, HeaderScalar, HeaderValue, ScalarV, ValueV};
use crate::markdown::stem_of;
use vstd::prelude::*;

verus! {

/// The configured id key did not resolve to a string in the header; the
/// record under construction is discarded, and nothing else is affected.
#[derive(Debug)]
pub struct MissingFieldError {
    pub field: String,
}

/// A member record extracted from one note.
#[derive(Debug)]
pub struct MarkdownMember {
    pub path: String,
    pub id: String,
    pub uuid: Option<String>,
    pub name: Option<String>,
    pub display_name: Option<String>,
    pub pronouns: Vec<String>,
    pub proxy_tags: Vec<String>,
    pub private: Option<bool>,
}

/// Model of a member record.
pub struct MemberV {
    pub path: Seq<char>,
    pub id: Seq<char>,
    pub uuid: Option<Seq<char>>,
    pub name: Option<Seq<char>>,
    pub display_name: Option<Seq<char>>,
    pub pronouns: Seq<Seq<char>>,
    pub proxy_tags: Seq<Seq<char>>,
    pub private: Option<bool>,
}

impl View for MarkdownMember {
    type V = MemberV;

    open spec fn view(&self) -> MemberV {
        MemberV {
            path: self.path@,
            id: self.id@,
            uuid: self.uuid.deep_view(),
            name: self.name.deep_view(),
            display_name: self.display_name.deep_view(),
            pronouns: self.pronouns.deep_view(),
            proxy_tags: self.proxy_tags.deep_view(),
            private: self.private,
        }
    }
}

impl DeepView for MarkdownMember {
    type V = MemberV;

    open spec fn deep_view(&self) -> MemberV {
        self.view()
    }
}

/// A group record extracted from one note.
#[derive(Debug)]
pub struct MarkdownGroup {
    pub path: String,
    pub id: String,
    pub uuid: Option<String>,
    pub name: Option<String>,
    pub display_name: Option<String>,
    pub private: Option<bool>,
}

/// Model of a group record.
pub struct GroupV {
    pub path: Seq<char>,
    pub id: Seq<char>,
    pub uuid: Option<Seq<char>>,
    pub name: Option<Seq<char>>,
    pub display_name: Option<Seq<char>>,
    pub private: Option<bool>,
}

impl View for MarkdownGroup {
    type V = GroupV;

    open spec fn view(&self) -> GroupV {
        GroupV {
            path: self.path@,
            id: self.id@,
            uuid: self.uuid.deep_view(),
            name: self.name.deep_view(),
            display_name: self.display_name.deep_view(),
            private: self.private,
        }
    }
}

impl DeepView for MarkdownGroup {
    type V = GroupV;

    open spec fn deep_view(&self) -> GroupV {
        self.view()
    }
}

// ---------------------------------------------------------------------------
// Optional field lookups.
// ---------------------------------------------------------------------------
/// The string at the configured key: `None` when no key is configured, the
/// key is absent, or its value is not a string. Never an error.
pub open spec fn opt_str(h: Seq<EntryV>, key: Option<Seq<char>>) -> Option<Seq<char>> {
    match key {
        Option::None => None,
        Option::Some(k) => match lookup(h, k) {
            Option::Some(ValueV::Str(s)) => Some(s),
            _ => None,
        },
    }
}

/// The boolean at the configured key, `None` when unresolved: an explicit
/// unknown state, distinct from `false`.
pub open spec fn opt_bool(h: Seq<EntryV>, key: Option<Seq<char>>) -> Option<bool> {
    match key {
        Option::None => None,
        Option::Some(k) => match lookup(h, k) {
            Option::Some(ValueV::Bool(b)) => Some(b),
            _ => None,
        },
    }
}

/// The string elements of `es` from `i` on, in order; non-string elements
/// are dropped individually.
pub open spec fn str_elems(es: Seq<ScalarV>, i: int) -> Seq<Seq<char>>
    decreases es.len() - i,
    when 0 <= i <= es.len()
{
    if i >= es.len() {
        Seq::empty()
    } else {
        let rest = str_elems(es, i + 1);
        match es[i] {
            ScalarV::Str(s) => seq![s] + rest,
            _ => rest,
        }
    }
}

/// The list of strings at the configured key: the string elements of the
/// array there, or the empty list when no key is configured, the key is
/// absent, or its value is not an array.
pub open spec fn opt_str_list(h: Seq<EntryV>, key: Option<Seq<char>>) -> Seq<Seq<char>> {
    match key {
        Option::None => Seq::empty(),
        Option::Some(k) => match lookup(h, k) {
            Option::Some(ValueV::Arr(es)) => str_elems(es, 0),
            _ => Seq::empty(),
        },
    }
}

/// The name field: the configured lookup, falling back to the note's base
/// filename without extension when unresolved.
pub open spec fn name_field(
    path: Seq<char>,
    h: Seq<EntryV>,
    key: Option<Seq<char>>,
) -> Option<Seq<char>> {
    match opt_str(h, key) {
        Option::Some(s) => Some(s),
        Option::None => stem_of(path),
    }
}

/// The member record a header yields under a field mapping, or `None` when
/// the configured id key does not resolve to a non-empty string.
pub open spec fn member_of(path: Seq<char>, h: Seq<EntryV>, cfg: MemberFieldConfigV) -> Option<
    MemberV,
> {
    match lookup(h, cfg.id) {
        Option::Some(ValueV::Str(id)) => if id.len() == 0 {
            None
        } else {
            Some(
            MemberV {
                path: path,
                id: id,
                uuid: opt_str(h, cfg.uuid),
                name: name_field(path, h, cfg.name),
                display_name: opt_str(h, cfg.display_name),
                pronouns: opt_str_list(h, cfg.pronouns),
                proxy_tags: opt_str_list(h, cfg.proxy_tags),
                private: opt_bool(h, cfg.private),
            },
        )
        },
        _ => None,
    }
}

/// The group record a header yields under a field mapping, or `None` when
/// the configured id key does not resolve to a non-empty string.
pub open spec fn group_of(path: Seq<char>, h: Seq<EntryV>, cfg: GroupFieldConfigV) -> Option<
    GroupV,
> {
    match lookup(h, cfg.id) {
        Option::Some(ValueV::Str(id)) => if id.len() == 0 {
            None
        } else {
            Some(
            GroupV {
                path: path,
                id: id,
                uuid: opt_str(h, cfg.uuid),
                name: name_field(path, h, cfg.name),
                display_name: opt_str(h, cfg.display_name),
                private: opt_bool(h, cfg.private),
            },
        )
        },
        _ => None,
    }
}

/// The id law: a constructed record's id is exactly the — always non-empty —
/// string bound to the configured id key, its source path is the note's own,
/// and a header where that key is missing, bound to anything but a string,
/// or bound to the empty string yields no record for the kind. This holds
/// for both kinds.
pub proof fn lemma_record_id(
    path: Seq<char>,
    h: Seq<EntryV>,
    mcfg: MemberFieldConfigV,
    gcfg: GroupFieldConfigV,
)
    ensures
        member_of(path, h, mcfg) matches Some(m) ==> lookup(h, mcfg.id) == Some(
            ValueV::Str(m.id),
        ) && m.id.len() > 0 && m.path == path,
        lookup(h, mcfg.id) is None ==> member_of(path, h, mcfg) is None,
        lookup(h, mcfg.id) == Some(ValueV::Str(Seq::<char>::empty())) ==> member_of(
            path,
            h,
            mcfg,
        ) is None,
        group_of(path, h, gcfg) matches Some(g) ==> lookup(h, gcfg.id) == Some(ValueV::Str(g.id))
            && g.id.len() > 0 && g.path == path,
        lookup(h, gcfg.id) is None ==> group_of(path, h, gcfg) is None,
        lookup(h, gcfg.id) == Some(ValueV::Str(Seq::<char>::empty())) ==> group_of(
            path,
            h,
            gcfg,
        ) is None,
{
}

// ---------------------------------------------------------------------------
// Executable lookups.
// ---------------------------------------------------------------------------
fn get_opt_str(h: &Header, key: &Option<String>) -> (r: Option<String>)
    ensures
        r.deep_view() == opt_str(h@, key.deep_view()),
{
    match key {
        Option::None => None,
        Option::Some(k) => match h.get(k) {
            Option::Some(HeaderValue::Str(s)) => Some(s.clone()),
            _ => None,
        },
    }
}

fn get_opt_bool(h: &Header, key: &Option<String>) -> (r: Option<bool>)
    ensures
        r == opt_bool(h@, key.deep_view()),
{
    match key {
        Option::None => None,
        Option::Some(k) => match h.get(k) {
            Option::Some(HeaderValue::Bool(b)) => Some(*b),
            _ => None,
        },
    }
}

fn strings_of(es: &Vec<HeaderScalar>) -> (r: Vec<String>)
    ensures
        r.deep_view() == str_elems(es.deep_view(), 0),
{
    let ghost esv = es.deep_view();
    let mut r: Vec<String> = Vec::new();
    let mut i: usize = 0;
    while i < es.len()
        invariant
            i <= es.len(),
            esv == es.deep_view(),
            esv.len() == es@.len(),
            str_elems(esv, 0) =~= r.deep_view() + str_elems(esv, i as int),
        decreases es.len() - i,
    {
        assert(es@[i as int].deep_view() == esv[i as int]);
        match &es[i] {
            HeaderScalar::Str(s) => {
                r.push(s.clone());
            },
            _ => {},
        }
        proof {
            let ii = i as int;
            assert(str_elems(esv, ii) == (match esv[ii] {
                ScalarV::Str(s) => seq![s] + str_elems(esv, ii + 1),
                _ => str_elems(esv, ii + 1),
            }));
        }
        i = i + 1;
    }
    assert(r.deep_view() =~= str_elems(esv, 0));
    r
}

fn get_str_list(h: &Header, key: &Option<String>) -> (r: Vec<String>)
    ensures
        r.deep_view() == opt_str_list(h@, key.deep_view()),
{
    match key {
        Option::None => {
            let r: Vec<String> = Vec::new();
            assert(r.deep_view() =~= Seq::<Seq<char>>::empty());
            r
        },
        Option::Some(k) => match h.get(k) {
            Option::Some(HeaderValue::Arr(es)) => strings_of(es),
            _ => {
                let r: Vec<String> = Vec::new();
                assert(r.deep_view() =~= Seq::<Seq<char>>::empty());
                r
            },
        },
    }
}

fn get_name(path: &String, h: &Header, key: &Option<String>) -> (r: Option<String>)
    ensures
        r.deep_view() == name_field(path@, h@, key.deep_view()),
{
    match get_opt_str(h, key) {
        Option::Some(s) => Some(s),
        Option::None => crate::markdown::stem_exec(path.as_str()),
    }
}

impl MarkdownMember {
    /// Builds the member record a note's header yields under a field
    /// mapping. Succeeds exactly when the configured id key resolves to a
    /// non-empty string; the error names that key.
    pub fn from_markdown(path: &String, header: &Header, cfg: &MemberFieldConfig) -> (r: Result<
        MarkdownMember,
        MissingFieldError,
    >)
        ensures
            r is Ok <==> member_of(path@, header@, cfg@) is Some,
            r matches Ok(m) ==> member_of(path@, header@, cfg@) == Some(m@),
            r matches Err(e) ==> e.field@ == cfg@.id,
    {
        let id = match header.get(&cfg.id) {
            Option::Some(HeaderValue::Str(s)) => {
                if s.as_str().is_empty() {
                    return Err(MissingFieldError { field: cfg.id.clone() });
                }
                s.clone()
            },
            _ => {
                return Err(MissingFieldError { field: cfg.id.clone() });
            },
        };
        Ok(
            MarkdownMember {
                path: path.clone(),
                id: id,
                uuid: get_opt_str(header, &cfg.uuid),
                name: get_name(path, header, &cfg.name),
                display_name: get_opt_str(header, &cfg.display_name),
                pronouns: get_str_list(header, &cfg.pronouns),
                proxy_tags: get_str_list(header, &cfg.proxy_tags),
                private: get_opt_bool(header, &cfg.private),
            },
        )
    }
}

impl MarkdownGroup {
    /// Builds the group record a note's header yields under a field mapping.
    /// Succeeds exactly when the configured id key resolves to a non-empty
    /// string; the error names that key.
    pub fn from_markdown(path: &String, header: &Header, cfg: &GroupFieldConfig) -> (r: Result<
        MarkdownGroup,
        MissingFieldError,
    >)
        ensures
            r is Ok <==> group_of(path@, header@, cfg@) is Some,
            r matches Ok(g) ==> group_of(path@, header@, cfg@) == Some(g@),
            r matches Err(e) ==> e.field@ == cfg@.id,
    {
        let id = match header.get(&cfg.id) {
            Option::Some(HeaderValue::Str(s)) => {
                if s.as_str().is_empty() {
                    return Err(MissingFieldError { field: cfg.id.clone() });
                }
                s.clone()
            },
            _ => {
                return Err(MissingFieldError { field: cfg.id.clone() });
            },
        };
        Ok(
            MarkdownGroup {
                path: path.clone(),
                id: id,
                uuid: get_opt_str(header, &cfg.uuid),
                name: get_name(path, header, &cfg.name),
                display_name: get_opt_str(header, &cfg.display_name),
                private: get_opt_bool(header, &cfg.private),
            },
        )
    }
}

} // verus!
