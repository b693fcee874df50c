//! Groups: the pool's groups as the screens list them, and how the calls that
//! name a group are answered when they fail.
//!
//! The one confusing thing about these calls, that a missing group is
//! reported as a missing user pool, is answered here in a single place.

use vstd::prelude::*;

use crate::error::{answers, entry, says, ApiError, Failure, Text, NOT_FOUND};
use crate::order::{sort_by_key, sorted_by_key, stable_from, SortKey};
use crate::text::{lemma_text_le_total, lemma_text_le_transitive, str_le, text_le};

verus! {

/// The most groups ListGroups returns in one page.
pub const LIST_LIMIT: i32 = 60;

/// A group as ListGroups or GetGroup describes it, timestamps already in
/// RFC 3339. Cognito may leave out even the name.
pub struct GroupRecord {
    pub name: Option<String>,
    pub description: Option<String>,
    pub precedence: Option<i32>,
    pub role_arn: Option<String>,
    pub created_at: Option<String>,
    pub updated_at: Option<String>,
}

#[derive(Debug)]
pub struct GroupInfo {
    pub name: String,
    pub description: Option<String>,
    /// Lower wins when a user is in several groups; Cognito uses it to order
    /// the `cognito:groups` claim.
    pub precedence: Option<i32>,
    pub role_arn: Option<String>,
    pub created_at: Option<String>,
    pub updated_at: Option<String>,
}

/// The group a record describes; `None` for one without a name, which cannot
/// be acted on and would only show as an empty row.
pub open spec fn info_of(record: GroupRecord) -> Option<GroupInfo> {
    match record.name {
        Some(name) => Some(
            GroupInfo {
                name,
                description: record.description,
                precedence: record.precedence,
                role_arn: record.role_arn,
                created_at: record.created_at,
                updated_at: record.updated_at,
            },
        ),
        None => None,
    }
}

pub fn to_info(record: GroupRecord) -> (r: Option<GroupInfo>)
    ensures
        r == info_of(record),
{
    match record.name {
        Some(name) => Some(
            GroupInfo {
                name,
                description: record.description,
                precedence: record.precedence,
                role_arn: record.role_arn,
                created_at: record.created_at,
                updated_at: record.updated_at,
            },
        ),
        None => None,
    }
}

/// Groups are listed by name.
impl SortKey for GroupInfo {
    open spec fn key_le(self, other: Self) -> bool {
        text_le(self.name@, other.name@)
    }

    proof fn lemma_key_total(a: Self, b: Self) {
        lemma_text_le_total(a.name@, b.name@);
    }

    proof fn lemma_key_transitive(a: Self, b: Self, c: Self) {
        lemma_text_le_transitive(a.name@, b.name@, c.name@);
    }

    fn key_le_exec(&self, other: &Self) -> (r: bool) {
        str_le(self.name.as_str(), other.name.as_str())
    }
}

/// The named groups among `records`, in the order they came.
pub open spec fn named(records: Seq<GroupRecord>) -> Seq<GroupInfo>
    decreases records.len(),
{
    if records.len() == 0 {
        Seq::empty()
    } else {
        match info_of(records.last()) {
            Some(g) => named(records.drop_last()).push(g),
            None => named(records.drop_last()),
        }
    }
}

/// `g` is what `record` says of its group, field for field.
pub open spec fn describes(record: GroupRecord, g: GroupInfo) -> bool {
    &&& record.name == Some(g.name)
    &&& record.description == g.description
    &&& record.precedence == g.precedence
    &&& record.role_arn == g.role_arn
    &&& record.created_at == g.created_at
    &&& record.updated_at == g.updated_at
}

/// A group looked up carries exactly what its record says: its name, and its
/// description, precedence, role and timestamps as they came; a record without
/// a name gives no group.
pub proof fn law_group_keeps_its_record(record: GroupRecord)
    ensures
        record.name is Some <==> info_of(record) is Some,
        info_of(record) matches Some(g) ==> describes(record, g),
{
}

/// `g` is what one of `records` says of its group.
pub open spec fn from_a_record(records: Seq<GroupRecord>, g: GroupInfo) -> bool {
    exists|i: int| 0 <= i < records.len() && #[trigger] describes(records[i], g)
}

/// Every group listed is one of the records, field for field, and every
/// record that has a name is listed, field for field.
pub proof fn law_listed_groups_are_their_records(records: Seq<GroupRecord>)
    ensures
        forall|j: int| 0 <= j < named(records).len() ==> from_a_record(records, #[trigger] named(records)[j]),
        forall|i: int|
            0 <= i < records.len() && (#[trigger] records[i]).name is Some ==> named(records).contains(
                info_of(records[i])->0,
            ),
    decreases records.len(),
{
    if records.len() > 0 {
        let init = records.drop_last();
        let last = records.last();
        let before = named(init);
        law_listed_groups_are_their_records(init);
        assert(named(records) == match info_of(last) {
            Some(g) => before.push(g),
            None => before,
        });
        assert forall|j: int| 0 <= j < named(records).len() implies from_a_record(
            records,
            #[trigger] named(records)[j],
        ) by {
            if j < before.len() {
                assert(named(records)[j] == before[j]);
                assert(from_a_record(init, before[j]));
                let i = choose|i: int| 0 <= i < init.len() && #[trigger] describes(init[i], before[j]);
                assert(records[i] == init[i]);
                assert(describes(records[i], named(records)[j]));
            } else {
                let i = records.len() - 1;
                assert(describes(records[i], named(records)[j]));
            }
        }
        assert forall|i: int| 0 <= i < records.len() && (#[trigger] records[i]).name is Some implies named(
            records,
        ).contains(info_of(records[i])->0) by {
            if i < init.len() {
                assert(records[i] == init[i]);
                let j = choose|j: int| 0 <= j < before.len() && before[j] == info_of(init[i])->0;
                assert(named(records)[j] == before[j]);
            } else {
                let j = before.len() as int;
                assert(named(records)[j] == info_of(records[i])->0);
            }
        }
    }
}

fn copied(o: &Option<String>) -> (r: Option<String>)
    ensures
        r == *o,
{
    match o {
        Some(t) => Some(t.clone()),
        None => None,
    }
}

/// Every group of the pool as the screens list them: the named ones, sorted
/// by name (groups of the same name in the order they came).
pub fn arrange(records: Vec<GroupRecord>) -> (r: Vec<GroupInfo>)
    ensures
        sorted_by_key(r@),
        r@.to_multiset() == named(records@).to_multiset(),
        exists|from: Seq<int>| stable_from(named(records@), r@, from),
{
    let mut groups: Vec<GroupInfo> = Vec::new();
    let mut i: usize = 0;
    assert(named(records@.subrange(0, 0)) =~= Seq::<GroupInfo>::empty());
    while i < records.len()
        invariant
            i <= records@.len(),
            groups@ == named(records@.subrange(0, i as int)),
        decreases records@.len() - i,
    {
        let record = &records[i];
        assert(records@.subrange(0, i + 1).drop_last() =~= records@.subrange(0, i as int));
        match &record.name {
            Some(name) => {
                groups.push(
                    GroupInfo {
                        name: name.clone(),
                        description: copied(&record.description),
                        precedence: record.precedence,
                        role_arn: copied(&record.role_arn),
                        created_at: copied(&record.created_at),
                        updated_at: copied(&record.updated_at),
                    },
                );
            },
            None => {},
        }
        i = i + 1;
    }
    assert(records@.subrange(0, records@.len() as int) =~= records@);
    sort_by_key(groups)
}

/// Just the names, for the membership checkboxes on the user screens.
pub fn names(groups: &Vec<GroupInfo>) -> (r: Vec<String>)
    ensures
        r@ == groups@.map_values(|g: GroupInfo| g.name),
{
    let mut r: Vec<String> = Vec::new();
    let mut i: usize = 0;
    while i < groups.len()
        invariant
            i <= groups@.len(),
            r@ == groups@.subrange(0, i as int).map_values(|g: GroupInfo| g.name),
        decreases groups@.len() - i,
    {
        r.push(groups[i].name.clone());
        assert(groups@.subrange(0, i + 1) =~= groups@.subrange(0, i as int).push(groups@[i as int]));
        assert(r@ =~= groups@.subrange(0, i + 1).map_values(|g: GroupInfo| g.name));
        i = i + 1;
    }
    assert(groups@.subrange(0, groups@.len() as int) =~= groups@);
    r
}

/// A group-scoped call whose `ResourceNotFoundException` means the group, not
/// the pool.
pub fn failed(failure: &Failure) -> (r: ApiError)
    ensures
        crate::error::is_missing(*failure) ==> says(r, NOT_FOUND, entry("error_group_not_found"@)),
        !crate::error::is_missing(*failure) ==> answers(r, *failure),
{
    failure.answer_or_missing("error_group_not_found")
}

pub fn not_found() -> (r: ApiError)
    ensures
        says(r, NOT_FOUND, entry("error_group_not_found"@)),
{
    ApiError::not_found(Text::key("error_group_not_found"))
}

/// What GetGroup's answer means: the group, `None` when there is no such
/// group (so the caller can answer 404 with its own wording), or the error.
pub fn looked_up(answer: Result<Option<GroupRecord>, Failure>) -> (r: Result<Option<GroupInfo>, ApiError>)
    ensures
        match answer {
            Ok(Some(record)) => r == Ok::<Option<GroupInfo>, ApiError>(info_of(record)),
            Ok(None) => r == Ok::<Option<GroupInfo>, ApiError>(None),
            Err(f) => if crate::error::is_missing(f) {
                r == Ok::<Option<GroupInfo>, ApiError>(None)
            } else {
                r matches Err(e) && answers(e, f)
            },
        },
{
    match answer {
        Ok(Some(record)) => Ok(to_info(record)),
        Ok(None) => Ok(None),
        Err(f) => if f.has_code("ResourceNotFoundException") {
            Ok(None)
        } else {
            Err(f.answer())
        },
    }
}

/// The group, for the callers that have nothing to do without one.
pub fn require(found: Option<GroupInfo>) -> (r: Result<GroupInfo, ApiError>)
    ensures
        match found {
            Some(g) => r == Ok::<GroupInfo, ApiError>(g),
            None => r matches Err(e) && says(e, NOT_FOUND, entry("error_group_not_found"@)),
        },
{
    match found {
        Some(g) => Ok(g),
        None => Err(not_found()),
    }
}

} // verus!
