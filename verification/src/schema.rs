//! The user pool's attribute schema, as the screens and the patch rules read it.

use vstd::prelude::*;

use crate::order::{sort_by_key, sorted_by_key, stable_from, SortKey};
use crate::password::Policy;
use crate::session::{contains_name, has_name};
use crate::order::lemma_map_keeps_permutation;
use crate::text::{
    append_str, has_prefix, integer_value, lemma_text_le_total, lemma_text_le_transitive, parse_i64,
    starts_with, str_eq, str_le, text_le,
};

verus! {

#[derive(Debug, Clone, Copy, PartialEq, Eq, Structural)]
pub enum DataType {
    String,
    Number,
    DateTime,
    Boolean,
}

/// One attribute of the pool schema.
#[derive(Debug)]
pub struct AttributeField {
    /// Attribute name as Cognito stores it; custom ones keep the "custom:" prefix.
    pub name: String,
    pub data_type: DataType,
    pub mutable: bool,
    pub required: bool,
    pub is_custom: bool,
    /// Never sent to a screen.
    pub developer_only: bool,
    pub min_length: Option<i64>,
    pub max_length: Option<i64>,
    pub min_value: Option<i64>,
    pub max_value: Option<i64>,
}

impl Clone for AttributeField {
    fn clone(&self) -> (r: Self)
        ensures
            r == *self,
    {
        AttributeField {
            name: self.name.clone(),
            data_type: self.data_type,
            mutable: self.mutable,
            required: self.required,
            is_custom: self.is_custom,
            developer_only: self.developer_only,
            min_length: self.min_length,
            max_length: self.max_length,
            min_value: self.min_value,
            max_value: self.max_value,
        }
    }
}

/// Standard OIDC attributes of a Cognito user pool. Anything else is custom.
pub open spec fn standard_names() -> Seq<Seq<char>> {
    seq![
        "sub"@,
        "name"@,
        "given_name"@,
        "family_name"@,
        "middle_name"@,
        "nickname"@,
        "preferred_username"@,
        "profile"@,
        "picture"@,
        "website"@,
        "email"@,
        "email_verified"@,
        "gender"@,
        "birthdate"@,
        "zoneinfo"@,
        "locale"@,
        "phone_number"@,
        "phone_number_verified"@,
        "address"@,
        "updated_at"@,
    ]
}

fn standard_list() -> (r: Vec<&'static str>)
    ensures
        r@.map_values(|s: &'static str| s@) == standard_names(),
{
    let r = vec![
        "sub",
        "name",
        "given_name",
        "family_name",
        "middle_name",
        "nickname",
        "preferred_username",
        "profile",
        "picture",
        "website",
        "email",
        "email_verified",
        "gender",
        "birthdate",
        "zoneinfo",
        "locale",
        "phone_number",
        "phone_number_verified",
        "address",
        "updated_at",
    ];
    assert(r@.map_values(|s: &'static str| s@) =~= standard_names());
    r
}

pub fn is_standard(name: &str) -> (r: bool)
    ensures
        r == standard_names().contains(name@),
{
    let list = standard_list();
    let ghost spec = standard_names();
    let mut i: usize = 0;
    while i < list.len()
        invariant
            list@.map_values(|s: &'static str| s@) == spec,
            spec == standard_names(),
            i <= list@.len(),
            forall|j: int| 0 <= j < i ==> #[trigger] spec[j] != name@,
        decreases list@.len() - i,
    {
        assert(spec[i as int] == list@[i as int]@);
        if str_eq(list[i], name) {
            assert(spec.contains(spec[i as int]));
            return true;
        }
        i = i + 1;
    }
    false
}

/// Never shown: `sub` is assigned by Cognito and `updated_at` is bookkeeping.
pub open spec fn hidden(name: Seq<char>) -> bool {
    name == "sub"@ || name == "updated_at"@
}

/// Attributes a user cannot set on themselves; they need Cognito's
/// verification flow instead.
pub open spec fn self_readonly(name: Seq<char>) -> bool {
    name == "email_verified"@ || name == "phone_number_verified"@
}

/// Which subset of the schema a screen works with.
#[derive(Clone, Copy, PartialEq, Eq, Structural)]
pub enum FieldSet {
    /// Everything an admin may see, immutable attributes included: the create
    /// screen can still set those.
    AdminVisible,
    /// What an admin may change on an existing user.
    Editable,
    /// What users may change on themselves.
    SelfEditable,
}

pub open spec fn keeps(set: FieldSet, f: AttributeField) -> bool {
    match set {
        FieldSet::AdminVisible => !f.developer_only,
        FieldSet::Editable => f.mutable && !f.developer_only,
        FieldSet::SelfEditable => f.mutable && !f.developer_only && !self_readonly(f.name@),
    }
}

#[derive(Debug)]
pub struct PoolInfo {
    pub id: String,
    pub name: Option<String>,
    pub fields: Vec<AttributeField>,
    /// True when the pool signs users in by email rather than a username.
    pub username_is_email: bool,
    /// `OFF`, `ON` or `OPTIONAL`. A pool with MFA off rejects every per-user
    /// preference, so the screens say so rather than offering a form that
    /// cannot work.
    pub mfa_configuration: String,
    /// Server-side only: it drives the generated temporary passwords.
    pub password_policy: Policy,
    /// False only for a pool that signs users in without passwords at all,
    /// where Cognito rejects a new user that comes with one.
    pub password_sign_in: bool,
    /// `WEB_AUTHN` among the pool's first factors.
    pub passkeys: bool,
    /// The above *and* `ALLOW_USER_AUTH` on the app client, which is what
    /// registering a passkey and signing in with one both need.
    pub passkeys_usable: bool,
}

impl PoolInfo {
    fn filter(&self, set: FieldSet) -> (r: Vec<AttributeField>)
        ensures
            r@ == self.fields@.filter(|f: AttributeField| keeps(set, f)),
    {
        let mut r: Vec<AttributeField> = Vec::new();
        let mut i: usize = 0;
        let ghost pred = |f: AttributeField| keeps(set, f);
        assert(self.fields@.subrange(0, 0).filter(pred) =~= Seq::empty()) by {
            reveal(Seq::filter);
        }
        while i < self.fields.len()
            invariant
                i <= self.fields@.len(),
                pred == (|f: AttributeField| keeps(set, f)),
                r@ == self.fields@.subrange(0, i as int).filter(pred),
            decreases self.fields@.len() - i,
        {
            let f = &self.fields[i];
            let keep = match set {
                FieldSet::AdminVisible => !f.developer_only,
                FieldSet::Editable => f.mutable && !f.developer_only,
                FieldSet::SelfEditable => f.mutable && !f.developer_only && !(str_eq(
                    f.name.as_str(),
                    "email_verified",
                ) || str_eq(f.name.as_str(), "phone_number_verified")),
            };
            proof {
                reveal(Seq::filter);
                assert(self.fields@.subrange(0, i + 1).drop_last() =~= self.fields@.subrange(0, i as int));
            }
            if keep {
                r.push(f.clone());
            }
            i = i + 1;
        }
        assert(self.fields@.subrange(0, self.fields@.len() as int) =~= self.fields@);
        r
    }

    /// Everything an admin may see, immutable attributes included: the create
    /// screen can still set those.
    pub fn admin_visible(&self) -> (r: Vec<AttributeField>)
        ensures
            r@ == self.fields@.filter(|f: AttributeField| keeps(FieldSet::AdminVisible, f)),
    {
        self.filter(FieldSet::AdminVisible)
    }

    pub fn editable(&self) -> (r: Vec<AttributeField>)
        ensures
            r@ == self.fields@.filter(|f: AttributeField| keeps(FieldSet::Editable, f)),
    {
        self.filter(FieldSet::Editable)
    }

    pub fn self_editable(&self) -> (r: Vec<AttributeField>)
        ensures
            r@ == self.fields@.filter(|f: AttributeField| keeps(FieldSet::SelfEditable, f)),
    {
        self.filter(FieldSet::SelfEditable)
    }
}

/// The subsets nest: what users may change on themselves an admin may change,
/// and what an admin may change an admin may see.
pub proof fn law_field_sets_nest(f: AttributeField)
    ensures
        keeps(FieldSet::SelfEditable, f) ==> keeps(FieldSet::Editable, f),
        keeps(FieldSet::Editable, f) ==> keeps(FieldSet::AdminVisible, f),
        keeps(FieldSet::AdminVisible, f) ==> !f.developer_only,
{
}

/// Two descriptions of the pool that say the same.
pub open spec fn same_pool(a: PoolInfo, b: PoolInfo) -> bool {
    &&& a.id == b.id
    &&& a.name == b.name
    &&& a.fields@ == b.fields@
    &&& a.username_is_email == b.username_is_email
    &&& a.mfa_configuration == b.mfa_configuration
    &&& a.password_policy == b.password_policy
    &&& a.password_sign_in == b.password_sign_in
    &&& a.passkeys == b.passkeys
    &&& a.passkeys_usable == b.passkeys_usable
}

impl Clone for PoolInfo {
    fn clone(&self) -> (r: Self)
        ensures
            same_pool(r, *self),
    {
        let fields = self.fields.clone();
        assert(fields@ =~= self.fields@);
        PoolInfo {
            id: self.id.clone(),
            name: match &self.name {
                Some(n) => Some(n.clone()),
                None => None,
            },
            fields,
            username_is_email: self.username_is_email,
            mfa_configuration: self.mfa_configuration.clone(),
            password_policy: self.password_policy,
            password_sign_in: self.password_sign_in,
            passkeys: self.passkeys,
            passkeys_usable: self.passkeys_usable,
        }
    }
}

/// A limit as DescribeUserPool writes it, a decimal string, read as a number;
/// `None` when it is not one that fits.
pub open spec fn parse_spec(value: Seq<char>) -> Option<i64> {
    match integer_value(value) {
        Some(v) => if i64::MIN <= v <= i64::MAX {
            Some(v as i64)
        } else {
            None
        },
        None => None,
    }
}

pub fn parse(value: &str) -> (r: Option<i64>)
    ensures
        r == parse_spec(value@),
{
    parse_i64(value)
}

/// One schema attribute as DescribeUserPool describes it, with the data type
/// by its name (`String`, `Number`, `DateTime`, `Boolean`) and the limits as
/// the strings the service sends.
pub struct SchemaAttribute {
    pub name: Option<String>,
    pub data_type: Option<String>,
    pub mutable: Option<bool>,
    pub required: Option<bool>,
    pub developer_only: Option<bool>,
    pub min_length: Option<String>,
    pub max_length: Option<String>,
    pub min_value: Option<String>,
    pub max_value: Option<String>,
}

pub open spec fn data_type_of(name: Option<String>) -> DataType {
    match name {
        Some(n) => if n@ == "Number"@ {
            DataType::Number
        } else if n@ == "DateTime"@ {
            DataType::DateTime
        } else if n@ == "Boolean"@ {
            DataType::Boolean
        } else {
            DataType::String
        },
        None => DataType::String,
    }
}

pub open spec fn limit_of(value: Option<String>) -> Option<i64> {
    match value {
        Some(v) => parse_spec(v@),
        None => None,
    }
}

/// The name a field is stored under: standard ones as they are, custom ones
/// with the `custom:` prefix, which the service usually sends already.
pub open spec fn stored_name(raw: Seq<char>) -> Seq<char> {
    if standard_names().contains(raw) || starts_with(raw, "custom:"@) || starts_with(raw, "dev:"@) {
        raw
    } else {
        "custom:"@ + raw
    }
}

/// An attribute field with its name as characters.
pub ghost struct FieldView {
    pub name: Seq<char>,
    pub data_type: DataType,
    pub mutable: bool,
    pub required: bool,
    pub is_custom: bool,
    pub developer_only: bool,
    pub min_length: Option<i64>,
    pub max_length: Option<i64>,
    pub min_value: Option<i64>,
    pub max_value: Option<i64>,
}

impl View for AttributeField {
    type V = FieldView;

    open spec fn view(&self) -> FieldView {
        FieldView {
            name: self.name@,
            data_type: self.data_type,
            mutable: self.mutable,
            required: self.required,
            is_custom: self.is_custom,
            developer_only: self.developer_only,
            min_length: self.min_length,
            max_length: self.max_length,
            min_value: self.min_value,
            max_value: self.max_value,
        }
    }
}

/// The field a schema attribute describes, if it has a name.
pub open spec fn field_of(a: SchemaAttribute) -> Option<FieldView> {
    match a.name {
        None => None,
        Some(raw) => Some(
            FieldView {
                name: stored_name(raw@),
                data_type: data_type_of(a.data_type),
                mutable: a.mutable.unwrap_or(false),
                required: a.required.unwrap_or(false),
                is_custom: !standard_names().contains(raw@),
                developer_only: a.developer_only.unwrap_or(false),
                min_length: limit_of(a.min_length),
                max_length: limit_of(a.max_length),
                min_value: limit_of(a.min_value),
                max_value: limit_of(a.max_value),
            },
        ),
    }
}

/// Each limit of a field is its own constraint of the schema attribute, read
/// as a number: the minimum and maximum length from `MinLength` and
/// `MaxLength`, the minimum and maximum value from `MinValue` and
/// `MaxValue`; a constraint that is missing or not a number sets no limit.
pub proof fn law_limits_come_from_their_own_constraint(a: SchemaAttribute)
    requires
        a.name is Some,
    ensures
        field_of(a) matches Some(f) && {
            &&& f.min_length == match a.min_length {
                Some(s) => parse_spec(s@),
                None => None,
            }
            &&& f.max_length == match a.max_length {
                Some(s) => parse_spec(s@),
                None => None,
            }
            &&& f.min_value == match a.min_value {
                Some(s) => parse_spec(s@),
                None => None,
            }
            &&& f.max_value == match a.max_value {
                Some(s) => parse_spec(s@),
                None => None,
            }
        },
{
}

/// A field is what its schema attribute says: mutable, required and
/// developer-only exactly where the attribute says so (a missing flag reads
/// as no), and of the data type the attribute names, text where it names
/// none or one not known here.
pub proof fn law_field_reads_its_attribute(a: SchemaAttribute)
    requires
        a.name is Some,
    ensures
        field_of(a) matches Some(f) && {
            &&& f.mutable == (a.mutable == Some(true))
            &&& f.required == (a.required == Some(true))
            &&& f.developer_only == (a.developer_only == Some(true))
            &&& (a.data_type matches Some(n) && n@ == "Number"@ ==> f.data_type is Number)
            &&& (a.data_type matches Some(n) && n@ == "DateTime"@ ==> f.data_type is DateTime)
            &&& (a.data_type matches Some(n) && n@ == "Boolean"@ ==> f.data_type is Boolean)
            &&& (a.data_type is None ==> f.data_type is String)
        },
{
    reveal_strlit("Number");
    reveal_strlit("DateTime");
    reveal_strlit("Boolean");
    assert("DateTime"@.len() != "Number"@.len());
    assert("Boolean"@.len() != "Number"@.len());
    assert("Boolean"@.len() != "DateTime"@.len());
}

/// Changing one constraint of a schema attribute changes no other limit of
/// its field: two attributes that agree on `MaxLength` give fields with the
/// same maximum length, and likewise for each of the other three.
pub proof fn law_limits_are_independent(a: SchemaAttribute, b: SchemaAttribute)
    requires
        a.name is Some,
        b.name is Some,
    ensures
        a.min_length == b.min_length ==> field_of(a)->0.min_length == field_of(b)->0.min_length,
        a.max_length == b.max_length ==> field_of(a)->0.max_length == field_of(b)->0.max_length,
        a.min_value == b.min_value ==> field_of(a)->0.min_value == field_of(b)->0.min_value,
        a.max_value == b.max_value ==> field_of(a)->0.max_value == field_of(b)->0.max_value,
{
}

fn limit(value: &Option<String>) -> (r: Option<i64>)
    ensures
        r == limit_of(*value),
{
    match value {
        Some(v) => parse(v.as_str()),
        None => None,
    }
}

fn data_type(name: &Option<String>) -> (r: DataType)
    ensures
        r == data_type_of(*name),
{
    match name {
        Some(n) => if str_eq(n.as_str(), "Number") {
            DataType::Number
        } else if str_eq(n.as_str(), "DateTime") {
            DataType::DateTime
        } else if str_eq(n.as_str(), "Boolean") {
            DataType::Boolean
        } else {
            DataType::String
        },
        None => DataType::String,
    }
}

fn flag(value: Option<bool>) -> (r: bool)
    ensures
        r == value.unwrap_or(false),
{
    match value {
        Some(b) => b,
        None => false,
    }
}

/// The field `attribute` describes; `None` for one without a name.
pub fn to_field(attribute: &SchemaAttribute) -> (r: Option<AttributeField>)
    ensures
        match r {
            Some(f) => field_of(*attribute) == Some(f@),
            None => field_of(*attribute) is None,
        },
{
    let raw = match &attribute.name {
        Some(raw) => raw,
        None => return None,
    };
    let is_custom = !is_standard(raw.as_str());
    let name = if !is_custom || has_prefix(raw.as_str(), "custom:") || has_prefix(raw.as_str(), "dev:") {
        raw.clone()
    } else {
        let mut n = String::new();
        append_str(&mut n, "custom:");
        append_str(&mut n, raw.as_str());
        n
    };
    proof {
        reveal_strlit("custom:");
        reveal_strlit("dev:");
    }
    Some(
        AttributeField {
            name,
            data_type: data_type(&attribute.data_type),
            mutable: flag(attribute.mutable),
            required: flag(attribute.required),
            is_custom,
            developer_only: flag(attribute.developer_only),
            min_length: limit(&attribute.min_length),
            max_length: limit(&attribute.max_length),
            min_value: limit(&attribute.min_value),
            max_value: limit(&attribute.max_value),
        },
    )
}

/// Standard fields first, then custom ones, each by name.
impl SortKey for AttributeField {
    open spec fn key_le(self, other: Self) -> bool {
        ||| (!self.is_custom && other.is_custom)
        ||| (self.is_custom == other.is_custom && text_le(self.name@, other.name@))
    }

    proof fn lemma_key_total(a: Self, b: Self) {
        lemma_text_le_total(a.name@, b.name@);
    }

    proof fn lemma_key_transitive(a: Self, b: Self, c: Self) {
        if a.is_custom == b.is_custom && b.is_custom == c.is_custom {
            lemma_text_le_transitive(a.name@, b.name@, c.name@);
        }
    }

    fn key_le_exec(&self, other: &Self) -> (r: bool) {
        (!self.is_custom && other.is_custom) || (self.is_custom == other.is_custom && str_le(
            self.name.as_str(),
            other.name.as_str(),
        ))
    }
}

pub open spec fn views(fields: Seq<AttributeField>) -> Seq<FieldView> {
    fields.map_values(|f: AttributeField| f@)
}

/// The fields the screens get from a schema, in the schema's order: every
/// named attribute but the hidden ones.
pub open spec fn shown_fields(attributes: Seq<SchemaAttribute>) -> Seq<FieldView>
    decreases attributes.len(),
{
    if attributes.len() == 0 {
        Seq::empty()
    } else {
        let rest = shown_fields(attributes.drop_last());
        match field_of(attributes.last()) {
            Some(f) => if hidden(f.name) {
                rest
            } else {
                rest.push(f)
            },
            None => rest,
        }
    }
}

fn is_hidden(name: &str) -> (r: bool)
    ensures
        r == hidden(name@),
{
    str_eq(name, "sub") || str_eq(name, "updated_at")
}

/// The schema's fields as the screens list them: hidden and unnamed
/// attributes left out, standard fields first, then custom ones, each by name
/// (fields of the same kind and name in schema order).
pub fn arrange_fields(attributes: &Vec<SchemaAttribute>) -> (r: Vec<AttributeField>)
    ensures
        sorted_by_key(r@),
        views(r@).to_multiset() == shown_fields(attributes@).to_multiset(),
        exists|shown: Seq<AttributeField>, from: Seq<int>|
            views(shown) == shown_fields(attributes@) && stable_from(shown, r@, from),
{
    let mut out: Vec<AttributeField> = Vec::new();
    let mut i: usize = 0;
    assert(views(out@) =~= shown_fields(attributes@.subrange(0, 0)));
    while i < attributes.len()
        invariant
            i <= attributes@.len(),
            views(out@) == shown_fields(attributes@.subrange(0, i as int)),
        decreases attributes@.len() - i,
    {
        let ghost before = out@;
        assert(attributes@.subrange(0, i + 1).drop_last() =~= attributes@.subrange(0, i as int));
        match to_field(&attributes[i]) {
            Some(f) => {
                if !is_hidden(f.name.as_str()) {
                    out.push(f);
                    assert(views(out@) =~= views(before).push(f@));
                }
            },
            None => {},
        }
        i = i + 1;
    }
    assert(attributes@.subrange(0, attributes@.len() as int) =~= attributes@);
    let ghost shown = out@;
    let sorted = sort_by_key(out);
    proof {
        lemma_map_keeps_permutation(sorted@, shown, |f: AttributeField| f@);
        let from = choose|from: Seq<int>| stable_from(shown, sorted@, from);
        assert(views(shown) == shown_fields(attributes@) && stable_from(shown, sorted@, from));
    }
    sorted
}

/// What DescribeUserPool said about the pool, as plain values: the factor
/// and flow names are those the service uses (`WEB_AUTHN`, `PASSWORD`, ...).
pub struct PoolDescription {
    pub name: Option<String>,
    pub attributes: Vec<SchemaAttribute>,
    pub username_attributes: Vec<String>,
    pub mfa_configuration: Option<String>,
    pub password_policy: Option<Policy>,
    /// The first factors the pool allows; empty for a pool that never opted
    /// into choice-based authentication.
    pub first_factors: Vec<String>,
}

/// Whether the pool allows passkeys as a first factor; only then is the app
/// client asked about choice-based sign-in.
pub fn offers_passkeys(first_factors: &Vec<String>) -> (r: bool)
    ensures
        r == contains_name(first_factors@, "WEB_AUTHN"@),
{
    has_name(first_factors, "WEB_AUTHN")
}

/// Whether the app client allows choice-based authentication, the only flow
/// passkeys exist in, given its explicit flows or `None` when the client
/// could not be read. An unreadable client leaves the pool's own setting to
/// decide.
pub fn choice_sign_in(flows: &Option<Vec<String>>) -> (r: bool)
    ensures
        r == match flows {
            Some(f) => contains_name(f@, "ALLOW_USER_AUTH"@),
            None => true,
        },
{
    match flows {
        Some(f) => has_name(f, "ALLOW_USER_AUTH"),
        None => true,
    }
}

impl PoolInfo {
    /// The pool `description` describes, under `id`. `choice_sign_in` is the
    /// app client's answer, which matters only where the pool offers passkeys.
    pub fn from_description(id: String, description: PoolDescription, choice_sign_in: bool) -> (r: PoolInfo)
        ensures
            r.id == id,
            r.name == description.name,
            sorted_by_key(r.fields@),
            views(r.fields@).to_multiset() == shown_fields(description.attributes@).to_multiset(),
            exists|shown: Seq<AttributeField>, from: Seq<int>|
                views(shown) == shown_fields(description.attributes@) && stable_from(shown, r.fields@, from),
            r.username_is_email == contains_name(description.username_attributes@, "email"@),
            r.mfa_configuration@ == match description.mfa_configuration {
                Some(m) => m@,
                None => "OFF"@,
            },
            match description.password_policy {
                Some(p) => r.password_policy == p,
                None => r.password_policy == (Policy {
                    minimum_length: 8,
                    require_uppercase: true,
                    require_lowercase: true,
                    require_numbers: true,
                    require_symbols: true,
                }),
            },
            r.passkeys == contains_name(description.first_factors@, "WEB_AUTHN"@),
            r.passkeys_usable == (r.passkeys && choice_sign_in),
            r.password_sign_in == (description.first_factors@.len() == 0 || contains_name(
                description.first_factors@,
                "PASSWORD"@,
            )),
    {
        let fields = arrange_fields(&description.attributes);
        let passkeys = offers_passkeys(&description.first_factors);
        let password_sign_in = description.first_factors.len() == 0 || has_name(
            &description.first_factors,
            "PASSWORD",
        );
        let username_is_email = has_name(&description.username_attributes, "email");
        let mfa_configuration = match description.mfa_configuration {
            Some(m) => m,
            None => String::from_str("OFF"),
        };
        let password_policy = match description.password_policy {
            Some(p) => p,
            None => Policy::default(),
        };
        PoolInfo {
            id,
            name: description.name,
            fields,
            username_is_email,
            mfa_configuration,
            password_policy,
            password_sign_in,
            passkeys,
            passkeys_usable: passkeys && choice_sign_in,
        }
    }
}

/// How long a described pool is served before it is described again.
pub const SCHEMA_TTL_SECS: u64 = 300;

/// Whether an entry stored at `at` is still served at `now` (seconds on a
/// monotonic clock; a clock that seems to run back counts as no time passed).
pub open spec fn fresh(at: u64, now: u64) -> bool {
    (if now >= at {
        now - at
    } else {
        0
    }) < SCHEMA_TTL_SECS
}

/// The pool schema last described, and when.
pub struct SchemaCache {
    pub entry: Option<(PoolInfo, u64)>,
}

impl SchemaCache {
    pub fn new() -> (r: SchemaCache)
        ensures
            r.entry is None,
    {
        SchemaCache { entry: None }
    }

    /// The stored pool while it is fresh.
    pub fn cached(&self, now: u64) -> (r: Option<PoolInfo>)
        ensures
            match (r, self.entry) {
                (Some(p), Some((q, at))) => fresh(at, now) && same_pool(p, q),
                (None, Some((q, at))) => !fresh(at, now),
                (None, None) => true,
                (Some(_), None) => false,
            },
    {
        match &self.entry {
            Some((info, at)) => {
                let age = if now >= *at {
                    now - *at
                } else {
                    0
                };
                if age < SCHEMA_TTL_SECS {
                    Some(info.clone())
                } else {
                    None
                }
            },
            None => None,
        }
    }

    pub fn store(&mut self, info: PoolInfo, now: u64)
        ensures
            final(self).entry == Some((info, now)),
    {
        self.entry = Some((info, now));
    }
}

} // verus!
