//! Configuration values consumed by the scanning engine: per-kind field
//! mappings and the parameters of the two scan strategies.
use vstd::prelude::*;

verus! {

/// Field-mapping configuration for member records: each logical field names
/// the header key it is read from. `id` is mandatory; the others are optional
/// (an unmapped field is simply left unset).
pub struct MemberFieldConfig {
    pub id: String,
    pub uuid: Option<String>,
    pub name: Option<String>,
    pub display_name: Option<String>,
    pub pronouns: Option<String>,
    pub proxy_tags: Option<String>,
    pub private: Option<String>,
}

/// Mathematical model of a member field mapping: every key as a sequence of
/// characters.
pub struct MemberFieldConfigV {
    pub id: Seq<char>,
    pub uuid: Option<Seq<char>>,
    pub name: Option<Seq<char>>,
    pub display_name: Option<Seq<char>>,
    pub pronouns: Option<Seq<char>>,
    pub proxy_tags: Option<Seq<char>>,
    pub private: Option<Seq<char>>,
}

impl View for MemberFieldConfig {
    type V = MemberFieldConfigV;

    open spec fn view(&self) -> MemberFieldConfigV {
        MemberFieldConfigV {
            id: self.id@,
            uuid: self.uuid.deep_view(),
            name: self.name.deep_view(),
            display_name: self.display_name.deep_view(),
            pronouns: self.pronouns.deep_view(),
            proxy_tags: self.proxy_tags.deep_view(),
            private: self.private.deep_view(),
        }
    }
}

impl Default for MemberFieldConfig {
    /// The conventional mapping: every logical field is read from the header
    /// key of the same name, and no uuid key is configured.
    fn default() -> (r: Self)
        ensures
            r@.id == "id"@,
            r@.uuid is None,
            r@.name == Some("name"@),
            r@.display_name == Some("display_name"@),
            r@.pronouns == Some("pronouns"@),
            r@.proxy_tags == Some("proxy_tags"@),
            r@.private == Some("private"@),
    {
        MemberFieldConfig {
            id: "id".to_owned(),
            uuid: None,
            name: Some("name".to_owned()),
            display_name: Some("display_name".to_owned()),
            pronouns: Some("pronouns".to_owned()),
            proxy_tags: Some("proxy_tags".to_owned()),
            private: Some("private".to_owned()),
        }
    }
}

/// Field-mapping configuration for group records; groups carry no pronouns
/// or proxy tags, so only the remaining fields are mapped.
pub struct GroupFieldConfig {
    pub id: String,
    pub uuid: Option<String>,
    pub name: Option<String>,
    pub display_name: Option<String>,
    pub private: Option<String>,
}

/// Mathematical model of a group field mapping.
pub struct GroupFieldConfigV {
    pub id: Seq<char>,
    pub uuid: Option<Seq<char>>,
    pub name: Option<Seq<char>>,
    pub display_name: Option<Seq<char>>,
    pub private: Option<Seq<char>>,
}

impl View for GroupFieldConfig {
    type V = GroupFieldConfigV;

    open spec fn view(&self) -> GroupFieldConfigV {
        GroupFieldConfigV {
            id: self.id@,
            uuid: self.uuid.deep_view(),
            name: self.name.deep_view(),
            display_name: self.display_name.deep_view(),
            private: self.private.deep_view(),
        }
    }
}

impl Default for GroupFieldConfig {
    /// The conventional mapping, as for members.
    fn default() -> (r: Self)
        ensures
            r@.id == "id"@,
            r@.uuid is None,
            r@.name == Some("name"@),
            r@.display_name == Some("display_name"@),
            r@.private == Some("private"@),
    {
        GroupFieldConfig {
            id: "id".to_owned(),
            uuid: None,
            name: Some("name".to_owned()),
            display_name: Some("display_name".to_owned()),
            private: Some("private".to_owned()),
        }
    }
}

/// The two field mappings together, one per record kind.
pub struct FieldConfig {
    pub member: MemberFieldConfig,
    pub group: GroupFieldConfig,
}

/// Model of the paired field mappings.
pub struct FieldConfigV {
    pub member: MemberFieldConfigV,
    pub group: GroupFieldConfigV,
}

impl View for FieldConfig {
    type V = FieldConfigV;

    open spec fn view(&self) -> FieldConfigV {
        FieldConfigV { member: self.member@, group: self.group@ }
    }
}

impl Default for FieldConfig {
    fn default() -> (r: Self)
        ensures
            r.member@ == MemberFieldConfig::default_spec(),
            r.group@ == GroupFieldConfig::default_spec(),
    {
        FieldConfig { member: MemberFieldConfig::default(), group: GroupFieldConfig::default() }
    }
}

impl MemberFieldConfig {
    /// The model of the conventional member mapping.
    pub open spec fn default_spec() -> MemberFieldConfigV {
        MemberFieldConfigV {
            id: "id"@,
            uuid: None,
            name: Some("name"@),
            display_name: Some("display_name"@),
            pronouns: Some("pronouns"@),
            proxy_tags: Some("proxy_tags"@),
            private: Some("private"@),
        }
    }
}

impl GroupFieldConfig {
    /// The model of the conventional group mapping.
    pub open spec fn default_spec() -> GroupFieldConfigV {
        GroupFieldConfigV {
            id: "id"@,
            uuid: None,
            name: Some("name"@),
            display_name: Some("display_name"@),
            private: Some("private"@),
        }
    }
}

/// Parameters of the tag strategy: one root that is always walked
/// recursively, and one required tag set per kind. A kind whose tag set is
/// unconfigured or empty is disabled.
pub struct TagScanConfig {
    pub root_dir: String,
    pub member_tags: Option<Vec<String>>,
    pub group_tags: Option<Vec<String>>,
}

/// Model of the tag-strategy parameters.
pub struct TagScanConfigV {
    pub root_dir: Seq<char>,
    pub member_tags: Option<Seq<Seq<char>>>,
    pub group_tags: Option<Seq<Seq<char>>>,
}

impl View for TagScanConfig {
    type V = TagScanConfigV;

    open spec fn view(&self) -> TagScanConfigV {
        TagScanConfigV {
            root_dir: self.root_dir@,
            member_tags: self.member_tags.deep_view(),
            group_tags: self.group_tags.deep_view(),
        }
    }
}

impl Default for TagScanConfig {
    fn default() -> (r: Self)
        ensures
            r.root_dir@ == "~/notes/system"@,
            r.member_tags.deep_view() == Some(seq!["#plurality"@, "#system/member"@]),
            r.group_tags.deep_view() == Some(seq!["#plurality"@, "#system/group"@]),
    {
        let member_tags: Vec<String> = vec!["#plurality".to_owned(), "#system/member".to_owned()];
        let group_tags: Vec<String> = vec!["#plurality".to_owned(), "#system/group".to_owned()];
        assert(member_tags.deep_view() =~= seq!["#plurality"@, "#system/member"@]);
        assert(group_tags.deep_view() =~= seq!["#plurality"@, "#system/group"@]);
        TagScanConfig {
            root_dir: "~/notes/system".to_owned(),
            member_tags: Some(member_tags),
            group_tags: Some(group_tags),
        }
    }
}

/// Parameters of the path strategy: up to two independent directories, one
/// per kind, sharing a single recursion flag.
pub struct PathScanConfig {
    pub recursive: bool,
    pub member_dir: Option<String>,
    pub group_dir: Option<String>,
}

/// Model of the path-strategy parameters.
pub struct PathScanConfigV {
    pub recursive: bool,
    pub member_dir: Option<Seq<char>>,
    pub group_dir: Option<Seq<char>>,
}

impl View for PathScanConfig {
    type V = PathScanConfigV;

    open spec fn view(&self) -> PathScanConfigV {
        PathScanConfigV {
            recursive: self.recursive,
            member_dir: self.member_dir.deep_view(),
            group_dir: self.group_dir.deep_view(),
        }
    }
}

impl Default for PathScanConfig {
    fn default() -> (r: Self)
        ensures
            r.recursive == false,
            r.member_dir.deep_view() == Some("~/notes/system/members"@),
            r.group_dir.deep_view() == Some("~/notes/system/groups"@),
    {
        PathScanConfig {
            recursive: false,
            member_dir: Some("~/notes/system/members".to_owned()),
            group_dir: Some("~/notes/system/groups".to_owned()),
        }
    }
}

/// The strategy parameters side by side; `Config::scan_type` selects which
/// one a scan actually uses.
pub struct ScanConfig {
    pub tags: TagScanConfig,
    pub path: PathScanConfig,
}

impl Default for ScanConfig {
    fn default() -> (r: Self)
        ensures
            r.tags.root_dir@ == "~/notes/system"@,
            r.path.recursive == false,
    {
        ScanConfig { tags: TagScanConfig::default(), path: PathScanConfig::default() }
    }
}

/// Presentation flags; kept with the rest of the configuration but not read
/// by the scanning engine itself.
pub struct NameConfig {
    pub display_name_pronouns: bool,
}

impl Default for NameConfig {
    fn default() -> (r: Self)
        ensures
            r.display_name_pronouns == false,
    {
        NameConfig { display_name_pronouns: false }
    }
}

/// The whole configuration: strategy selection, field mappings, strategy
/// parameters, and the collaborator-facing token and display flags.
pub struct Config {
    pub scan_type: String,
    pub fields: FieldConfig,
    pub scanner: ScanConfig,
    pub token: String,
    pub name: NameConfig,
}

impl Default for Config {
    fn default() -> (r: Self)
        ensures
            r.scan_type@ == "path"@,
            r.token@ == "YOUR_PK_TOKEN"@,
            r.fields.member@ == MemberFieldConfig::default_spec(),
            r.fields.group@ == GroupFieldConfig::default_spec(),
    {
        Config {
            scan_type: "path".to_owned(),
            fields: FieldConfig::default(),
            scanner: ScanConfig::default(),
            token: "YOUR_PK_TOKEN".to_owned(),
            name: NameConfig::default(),
        }
    }
}

} // verus!
