//! Turning an attribute patch into the Cognito calls it implies.

use vstd::prelude::*;

use crate::error::{entry_with, entry_with2, says, ApiError, TextView, BAD_REQUEST};
use crate::schema::{AttributeField, DataType};
use crate::text::{decimal, decimal_of, str_eq, trim, trimmed};

verus! {

/// Attribute values as stored on a user, by name.
pub type Values = Vec<(String, String)>;

/// What the client submits, by attribute name: `None` asks for the attribute
/// to be deleted.
pub type Patch = Vec<(String, Option<String>)>;

/// One attribute to write.
pub struct Attribute {
    pub name: String,
    pub value: String,
}

/// The calls a patch implies: the attributes to write, and the names of those
/// to delete.
pub struct Changes {
    pub attributes: Vec<Attribute>,
    pub to_delete: Vec<String>,
}

pub open spec fn attributes_view(a: Seq<Attribute>) -> Seq<(Seq<char>, Seq<char>)> {
    a.map_values(|x: Attribute| (x.name@, x.value@))
}

pub open spec fn names_view(a: Seq<String>) -> Seq<Seq<char>> {
    a.map_values(|x: String| x@)
}

impl Changes {
    pub fn is_empty(&self) -> (r: bool)
        ensures
            r == (self.attributes@.len() == 0 && self.to_delete@.len() == 0),
    {
        self.attributes.len() == 0 && self.to_delete.len() == 0
    }
}

/// How a submitted number compares with its field's bounds. Parsing a number
/// is floating-point work and happens before the patch is diffed; this is
/// what it found.
#[derive(Clone, Copy)]
pub enum NumberCheck {
    /// The value does not read as a number.
    NotANumber,
    /// It does; `below_min` when the field has a minimum and the value is
    /// under it, `above_max` when it has a maximum and the value is over it.
    Compared { below_min: bool, above_max: bool },
}

/// The value stored for `name` in a list of entries keyed by name: the first
/// entry so named.
pub open spec fn find<V>(entries: Seq<(String, V)>, name: Seq<char>) -> Option<V>
    decreases entries.len(),
{
    if entries.len() == 0 {
        None
    } else if entries[0].0@ == name {
        Some(entries[0].1)
    } else {
        find(entries.drop_first(), name)
    }
}

proof fn lemma_find_from(entries: Seq<(String, String)>, name: Seq<char>, i: int)
    requires
        0 <= i < entries.len(),
    ensures
        find(entries.subrange(i, entries.len() as int), name) == if entries[i].0@ == name {
            Some(entries[i].1)
        } else {
            find(entries.subrange(i + 1, entries.len() as int), name)
        },
{
    let s = entries.subrange(i, entries.len() as int);
    assert(s.drop_first() =~= entries.subrange(i + 1, entries.len() as int));
}

proof fn lemma_find_from_patch(entries: Seq<(String, Option<String>)>, name: Seq<char>, i: int)
    requires
        0 <= i < entries.len(),
    ensures
        find(entries.subrange(i, entries.len() as int), name) == if entries[i].0@ == name {
            Some(entries[i].1)
        } else {
            find(entries.subrange(i + 1, entries.len() as int), name)
        },
{
    let s = entries.subrange(i, entries.len() as int);
    assert(s.drop_first() =~= entries.subrange(i + 1, entries.len() as int));
}

/// The index of the value stored for `name`.
pub fn position(entries: &Vec<(String, String)>, name: &str) -> (r: Option<usize>)
    ensures
        match r {
            Some(i) => i < entries@.len() && find(entries@, name@) == Some(entries@[i as int].1),
            None => find(entries@, name@) is None,
        },
{
    let n = entries.len();
    let mut i: usize = 0;
    assert(entries@.subrange(0, n as int) =~= entries@);
    while i < n
        invariant
            n == entries@.len(),
            i <= n,
            find(entries@, name@) == find(entries@.subrange(i as int, n as int), name@),
        decreases n - i,
    {
        proof {
            lemma_find_from(entries@, name@, i as int);
        }
        if str_eq(entries[i].0.as_str(), name) {
            return Some(i);
        }
        i = i + 1;
    }
    None
}

/// The index of the entry a patch holds for `name`.
pub fn patch_position(entries: &Vec<(String, Option<String>)>, name: &str) -> (r: Option<usize>)
    ensures
        match r {
            Some(i) => i < entries@.len() && find(entries@, name@) == Some(entries@[i as int].1),
            None => find(entries@, name@) is None,
        },
{
    let n = entries.len();
    let mut i: usize = 0;
    assert(entries@.subrange(0, n as int) =~= entries@);
    while i < n
        invariant
            n == entries@.len(),
            i <= n,
            find(entries@, name@) == find(entries@.subrange(i as int, n as int), name@),
        decreases n - i,
    {
        proof {
            lemma_find_from_patch(entries@, name@, i as int);
        }
        if str_eq(entries[i].0.as_str(), name) {
            return Some(i);
        }
        i = i + 1;
    }
    None
}

/// The value a patch submits for `name`, trimmed, with `None` (delete) read as
/// empty; `None` when the patch does not name it.
pub open spec fn submitted_value(patch: Seq<(String, Option<String>)>, name: Seq<char>) -> Option<
    Seq<char>,
> {
    match find(patch, name) {
        None => None,
        Some(Some(v)) => Some(trim(v@)),
        Some(None) => Some(Seq::empty()),
    }
}

/// `submitted_value`, for computing the number checks before a diff.
pub fn submitted(patch: &Patch, name: &str) -> (r: Option<String>)
    ensures
        match r {
            Some(v) => submitted_value(patch@, name@) == Some(v@),
            None => submitted_value(patch@, name@) is None,
        },
{
    match patch_position(patch, name) {
        None => None,
        Some(i) => match &patch[i].1 {
            Some(v) => Some(trimmed(v.as_str())),
            None => Some(String::new()),
        },
    }
}

/// What is wrong with the non-empty value `v` for `field`, if anything.
pub open spec fn invalid_value(field: AttributeField, v: Seq<char>, check: NumberCheck) -> Option<
    TextView,
> {
    match field.data_type {
        DataType::Number => match check {
            NumberCheck::NotANumber => Some(
                entry_with("error_number_expected"@, "attr"@, field.name@),
            ),
            NumberCheck::Compared { below_min, above_max } => {
                if below_min && field.min_value is Some {
                    Some(
                        entry_with2(
                            "error_min_value"@,
                            "attr"@,
                            field.name@,
                            "limit"@,
                            decimal(field.min_value->0 as int),
                        ),
                    )
                } else if above_max && field.max_value is Some {
                    Some(
                        entry_with2(
                            "error_max_value"@,
                            "attr"@,
                            field.name@,
                            "limit"@,
                            decimal(field.max_value->0 as int),
                        ),
                    )
                } else {
                    None
                }
            },
        },
        DataType::String => {
            if field.min_length is Some && v.len() < field.min_length->0 {
                Some(
                    entry_with2(
                        "error_min_length"@,
                        "attr"@,
                        field.name@,
                        "limit"@,
                        decimal(field.min_length->0 as int),
                    ),
                )
            } else if field.max_length is Some && v.len() > field.max_length->0 {
                Some(
                    entry_with2(
                        "error_max_length"@,
                        "attr"@,
                        field.name@,
                        "limit"@,
                        decimal(field.max_length->0 as int),
                    ),
                )
            } else {
                None
            }
        },
        DataType::Boolean | DataType::DateTime => None,
    }
}

/// What a patch does to one field.
pub ghost enum Decision {
    /// Not touched.
    Skip,
    /// The attribute is deleted.
    Delete,
    /// The attribute is written with this value.
    Write(Seq<char>),
    /// The whole patch is refused with this wording (always a 400).
    Fail(TextView),
}

/// The decision for `field`, given what the patch submits for it, its current
/// value, and how a submitted number compared with its bounds.
pub open spec fn decide(field: AttributeField, submitted: Option<Seq<char>>, current: Option<String>, check: NumberCheck) -> Decision {
    match submitted {
        None => Decision::Skip,
        Some(v) => {
            if v.len() == 0 {
                if field.required {
                    Decision::Fail(entry_with("error_required_attribute"@, "attr"@, field.name@))
                } else if current matches Some(c) && c@.len() > 0 {
                    Decision::Delete
                } else {
                    Decision::Skip
                }
            } else {
                match invalid_value(field, v, check) {
                    Some(t) => Decision::Fail(t),
                    None => {
                        if current matches Some(c) && c@ == v {
                            Decision::Skip
                        } else {
                            Decision::Write(v)
                        }
                    },
                }
            }
        },
    }
}

/// The decision for the `i`th field.
pub open spec fn decision_at(
    patch: Seq<(String, Option<String>)>,
    fields: Seq<AttributeField>,
    current: Seq<(String, String)>,
    checks: Seq<NumberCheck>,
    i: int,
) -> Decision {
    decide(
        fields[i],
        submitted_value(patch, fields[i].name@),
        find(current, fields[i].name@),
        checks[i],
    )
}

/// The writes and deletes the first `k` fields imply, in field order, or the
/// refusal of the first field that fails.
pub open spec fn plan(
    patch: Seq<(String, Option<String>)>,
    fields: Seq<AttributeField>,
    current: Seq<(String, String)>,
    checks: Seq<NumberCheck>,
    k: int,
) -> Result<(Seq<(Seq<char>, Seq<char>)>, Seq<Seq<char>>), TextView>
    decreases k,
{
    if k <= 0 {
        Ok((Seq::empty(), Seq::empty()))
    } else {
        match plan(patch, fields, current, checks, k - 1) {
            Err(t) => Err(t),
            Ok((writes, deletes)) => match decision_at(patch, fields, current, checks, k - 1) {
                Decision::Skip => Ok((writes, deletes)),
                Decision::Delete => Ok((writes, deletes.push(fields[k - 1].name@))),
                Decision::Write(v) => Ok((writes.push((fields[k - 1].name@, v)), deletes)),
                Decision::Fail(t) => Err(t),
            },
        }
    }
}

/// What `diff` answers for the whole patch.
pub open spec fn diff_result(
    patch: Seq<(String, Option<String>)>,
    fields: Seq<AttributeField>,
    current: Seq<(String, String)>,
    checks: Seq<NumberCheck>,
) -> Result<(Seq<(Seq<char>, Seq<char>)>, Seq<Seq<char>>), TextView> {
    plan(patch, fields, current, checks, fields.len() as int)
}

/// One field's decision, made.
enum Step {
    Skip,
    Delete,
    Write(String),
    Fail(ApiError),
}

spec fn step_is(s: Step, d: Decision) -> bool {
    match (s, d) {
        (Step::Skip, Decision::Skip) => true,
        (Step::Delete, Decision::Delete) => true,
        (Step::Write(v), Decision::Write(w)) => v@ == w,
        (Step::Fail(e), Decision::Fail(t)) => says(e, BAD_REQUEST, t),
        _ => false,
    }
}

fn length_exceeds(len: usize, limit: i64) -> (r: bool)
    ensures
        r == (len > limit),
{
    (len as i128) > (limit as i128)
}

fn length_below(len: usize, limit: i64) -> (r: bool)
    ensures
        r == (len < limit),
{
    (len as i128) < (limit as i128)
}

/// Checks a non-empty value against its field's type and bounds.
fn validate(field: &AttributeField, value: &String, check: NumberCheck) -> (r: Option<ApiError>)
    ensures
        match (r, invalid_value(*field, value@, check)) {
            (None, None) => true,
            (Some(e), Some(t)) => says(e, BAD_REQUEST, t),
            _ => false,
        },
{
    let name = field.name.as_str();
    match field.data_type {
        DataType::Number => match check {
            NumberCheck::NotANumber => Some(
                ApiError::rejected_with("error_number_expected", "attr", name),
            ),
            NumberCheck::Compared { below_min, above_max } => {
                if below_min && field.min_value.is_some() {
                    let limit = decimal_of(field.min_value.unwrap());
                    Some(
                        ApiError::rejected_with2(
                            "error_min_value",
                            "attr",
                            name,
                            "limit",
                            limit.as_str(),
                        ),
                    )
                } else if above_max && field.max_value.is_some() {
                    let limit = decimal_of(field.max_value.unwrap());
                    Some(
                        ApiError::rejected_with2(
                            "error_max_value",
                            "attr",
                            name,
                            "limit",
                            limit.as_str(),
                        ),
                    )
                } else {
                    None
                }
            },
        },
        DataType::String => {
            let length = value.as_str().unicode_len();
            if field.min_length.is_some() && length_below(length, field.min_length.unwrap()) {
                let limit = decimal_of(field.min_length.unwrap());
                Some(
                    ApiError::rejected_with2(
                        "error_min_length",
                        "attr",
                        name,
                        "limit",
                        limit.as_str(),
                    ),
                )
            } else if field.max_length.is_some() && length_exceeds(
                length,
                field.max_length.unwrap(),
            ) {
                let limit = decimal_of(field.max_length.unwrap());
                Some(
                    ApiError::rejected_with2(
                        "error_max_length",
                        "attr",
                        name,
                        "limit",
                        limit.as_str(),
                    ),
                )
            } else {
                None
            }
        },
        // Listed rather than caught by a wildcard, so a new data type has to
        // decide here instead of silently skipping validation.
        DataType::Boolean | DataType::DateTime => None,
    }
}

fn decide_field(field: &AttributeField, patch: &Patch, current: &Values, check: NumberCheck) -> (r:
    Step)
    ensures
        step_is(r, decide(*field, submitted_value(patch@, field.name@), find(current@, field.name@), check)),
{
    let value = match submitted(patch, field.name.as_str()) {
        None => return Step::Skip,
        Some(v) => v,
    };
    let existing = position(current, field.name.as_str());
    if value.as_str().unicode_len() == 0 {
        if field.required {
            return Step::Fail(
                ApiError::rejected_with("error_required_attribute", "attr", field.name.as_str()),
            );
        }
        return match existing {
            Some(i) => if current[i].1.as_str().unicode_len() > 0 {
                Step::Delete
            } else {
                Step::Skip
            },
            None => Step::Skip,
        };
    }
    match validate(field, &value, check) {
        Some(e) => Step::Fail(e),
        None => match existing {
            Some(i) => if str_eq(current[i].1.as_str(), value.as_str()) {
                Step::Skip
            } else {
                Step::Write(value)
            },
            None => Step::Write(value),
        },
    }
}

/// Turns a patch into the Cognito calls it implies.
///
/// Only attributes named in the patch are touched, so a screen that shows a
/// subset of the schema cannot clear the rest. Attributes not in `fields` are
/// ignored: that is what keeps a client from writing an immutable or
/// developer-only attribute. `checks[i]` is how the value submitted for
/// `fields[i]` compared as a number; it is read only for number fields.
pub fn diff(patch: &Patch, fields: &[AttributeField], current: &Values, checks: &[NumberCheck]) -> (r:
    Result<Changes, ApiError>)
    requires
        checks@.len() == fields@.len(),
    ensures
        match r {
            Ok(changes) => diff_result(patch@, fields@, current@, checks@) == Ok::<
                (Seq<(Seq<char>, Seq<char>)>, Seq<Seq<char>>),
                TextView,
            >((attributes_view(changes.attributes@), names_view(changes.to_delete@))),
            Err(e) => e.status == BAD_REQUEST && diff_result(patch@, fields@, current@, checks@)
                == Err::<(Seq<(Seq<char>, Seq<char>)>, Seq<Seq<char>>), TextView>(e.text@),
        },
{
    let mut attributes: Vec<Attribute> = Vec::new();
    let mut to_delete: Vec<String> = Vec::new();
    let n = fields.len();
    let mut i: usize = 0;
    assert(attributes_view(attributes@) =~= Seq::empty());
    assert(names_view(to_delete@) =~= Seq::empty());
    while i < n
        invariant
            n == fields@.len() == checks@.len(),
            i <= n,
            plan(patch@, fields@, current@, checks@, i as int) == Ok::<
                (Seq<(Seq<char>, Seq<char>)>, Seq<Seq<char>>),
                TextView,
            >((attributes_view(attributes@), names_view(to_delete@))),
        decreases n - i,
    {
        let field = &fields[i];
        match decide_field(field, patch, current, checks[i]) {
            Step::Skip => {},
            Step::Delete => {
                let ghost before = to_delete@;
                to_delete.push(field.name.clone());
                assert(names_view(to_delete@) =~= names_view(before).push(field.name@));
            },
            Step::Write(v) => {
                let ghost before = attributes@;
                attributes.push(Attribute { name: field.name.clone(), value: v });
                assert(attributes_view(attributes@) =~= attributes_view(before).push(
                    (field.name@, attributes@.last().value@),
                ));
            },
            Step::Fail(e) => {
                assert(plan(patch@, fields@, current@, checks@, (i + 1) as int) is Err);
                proof {
                    lemma_plan_err_persists(patch@, fields@, current@, checks@, (i + 1) as int, n as int);
                }
                return Err(e);
            },
        }
        i = i + 1;
    }
    Ok(Changes { attributes, to_delete })
}

proof fn lemma_plan_err_persists(
    patch: Seq<(String, Option<String>)>,
    fields: Seq<AttributeField>,
    current: Seq<(String, String)>,
    checks: Seq<NumberCheck>,
    k: int,
    m: int,
)
    requires
        0 <= k <= m,
        plan(patch, fields, current, checks, k) is Err,
    ensures
        plan(patch, fields, current, checks, m) == plan(patch, fields, current, checks, k),
    decreases m - k,
{
    if k < m {
        lemma_plan_err_persists(patch, fields, current, checks, k, m - 1);
    }
}

/// `w` is a write that only an allowed field named in the patch could cause:
/// its value is what was submitted, trimmed, non-empty, and not what is stored.
pub open spec fn write_allowed(
    patch: Seq<(String, Option<String>)>,
    fields: Seq<AttributeField>,
    current: Seq<(String, String)>,
    w: (Seq<char>, Seq<char>),
) -> bool {
    &&& exists|i: int| 0 <= i < fields.len() && #[trigger] fields[i].name@ == w.0
    &&& submitted_value(patch, w.0) == Some(w.1)
    &&& w.1.len() > 0
    &&& !(find(current, w.0) matches Some(c) && c@ == w.1)
}

/// `d` is a delete that only a null for an allowed, optional field that has a
/// value could cause.
pub open spec fn delete_allowed(
    patch: Seq<(String, Option<String>)>,
    fields: Seq<AttributeField>,
    current: Seq<(String, String)>,
    d: Seq<char>,
) -> bool {
    &&& exists|i: int| 0 <= i < fields.len() && #[trigger] fields[i].name@ == d && !fields[i].required
    &&& submitted_value(patch, d) == Some(Seq::<char>::empty())
    &&& find(current, d) matches Some(c) && c@.len() > 0
}

proof fn lemma_plan_touches_only_named(
    patch: Seq<(String, Option<String>)>,
    fields: Seq<AttributeField>,
    current: Seq<(String, String)>,
    checks: Seq<NumberCheck>,
    k: int,
)
    requires
        0 <= k <= fields.len(),
    ensures
        plan(patch, fields, current, checks, k) matches Ok((writes, deletes)) ==> {
            &&& forall|j: int| 0 <= j < writes.len() ==> #[trigger] write_allowed(patch, fields, current, writes[j])
            &&& forall|j: int| 0 <= j < deletes.len() ==> #[trigger] delete_allowed(patch, fields, current, deletes[j])
        },
    decreases k,
{
    if k > 0 {
        lemma_plan_touches_only_named(patch, fields, current, checks, k - 1);
        let f = fields[k - 1];
        if let Ok((writes, deletes)) = plan(patch, fields, current, checks, k - 1) {
            match decision_at(patch, fields, current, checks, k - 1) {
                Decision::Write(v) => {
                    assert(fields[k - 1].name@ == f.name@);
                    let w = writes.push((f.name@, v));
                    assert forall|j: int| 0 <= j < w.len() implies #[trigger] write_allowed(patch, fields, current, w[j]) by {
                        if j == writes.len() {
                            assert(fields[k - 1].name@ == w[j].0);
                        } else {
                            assert(w[j] == writes[j]);
                        }
                    }
                },
                Decision::Delete => {
                    let d = deletes.push(f.name@);
                    assert forall|j: int| 0 <= j < d.len() implies #[trigger] delete_allowed(patch, fields, current, d[j]) by {
                        if j == deletes.len() {
                            assert(submitted_value(patch, f.name@)->0 =~= Seq::<char>::empty());
                            assert(fields[k - 1].name@ == d[j] && !fields[k - 1].required);
                        } else {
                            assert(d[j] == deletes[j]);
                        }
                    }
                },
                _ => {},
            }
        }
    }
}

/// Only the allowed fields that the patch names are touched: every write is of
/// an allowed field, with the trimmed value submitted for it, and differs from
/// what is stored; every delete is of an allowed, optional field that was sent
/// as null or blank and has a value.
pub proof fn law_diff_touches_only_named(
    patch: Seq<(String, Option<String>)>,
    fields: Seq<AttributeField>,
    current: Seq<(String, String)>,
    checks: Seq<NumberCheck>,
)
    ensures
        diff_result(patch, fields, current, checks) matches Ok((writes, deletes)) ==> {
            &&& forall|j: int| 0 <= j < writes.len() ==> #[trigger] write_allowed(patch, fields, current, writes[j])
            &&& forall|j: int| 0 <= j < deletes.len() ==> #[trigger] delete_allowed(patch, fields, current, deletes[j])
        },
{
    lemma_plan_touches_only_named(patch, fields, current, checks, fields.len() as int);
}

/// A required attribute cannot be cleared: a patch that sends one of the
/// allowed required fields as null or blank is refused as a whole.
pub proof fn law_required_cannot_be_cleared(
    patch: Seq<(String, Option<String>)>,
    fields: Seq<AttributeField>,
    current: Seq<(String, String)>,
    checks: Seq<NumberCheck>,
    i: int,
)
    requires
        0 <= i < fields.len(),
        fields[i].required,
        submitted_value(patch, fields[i].name@) == Some(Seq::<char>::empty()),
    ensures
        diff_result(patch, fields, current, checks) is Err,
{
    assert(plan(patch, fields, current, checks, i + 1) is Err);
    lemma_plan_err_persists(patch, fields, current, checks, i + 1, fields.len() as int);
}

/// A field refused makes the whole patch refused, with that field's wording
/// where no earlier field was refused.
proof fn lemma_refused_at(
    patch: Seq<(String, Option<String>)>,
    fields: Seq<AttributeField>,
    current: Seq<(String, String)>,
    checks: Seq<NumberCheck>,
    i: int,
    t: TextView,
)
    requires
        0 <= i < fields.len(),
        decision_at(patch, fields, current, checks, i) == Decision::Fail(t),
    ensures
        diff_result(patch, fields, current, checks) is Err,
        plan(patch, fields, current, checks, i) is Ok ==> diff_result(patch, fields, current, checks)
            == Err::<(Seq<(Seq<char>, Seq<char>)>, Seq<Seq<char>>), TextView>(t),
{
    assert(plan(patch, fields, current, checks, i + 1) is Err);
    lemma_plan_err_persists(patch, fields, current, checks, i + 1, fields.len() as int);
}

/// A number under its field's minimum is never written: when the value
/// submitted for a number field with a minimum compared below it, the patch
/// is refused, and where no earlier field was refused, with `error_min_value`
/// naming the field and its minimum.
pub proof fn law_below_minimum_is_refused(
    patch: Seq<(String, Option<String>)>,
    fields: Seq<AttributeField>,
    current: Seq<(String, String)>,
    checks: Seq<NumberCheck>,
    i: int,
    v: Seq<char>,
    above_max: bool,
)
    requires
        0 <= i < fields.len(),
        checks.len() == fields.len(),
        fields[i].data_type is Number,
        fields[i].min_value is Some,
        checks[i] == (NumberCheck::Compared { below_min: true, above_max }),
        submitted_value(patch, fields[i].name@) == Some(v),
        v.len() > 0,
    ensures
        diff_result(patch, fields, current, checks) is Err,
        plan(patch, fields, current, checks, i) is Ok ==> diff_result(patch, fields, current, checks)
            == Err::<(Seq<(Seq<char>, Seq<char>)>, Seq<Seq<char>>), TextView>(
            entry_with2(
                "error_min_value"@,
                "attr"@,
                fields[i].name@,
                "limit"@,
                decimal(fields[i].min_value->0 as int),
            ),
        ),
{
    lemma_refused_at(
        patch,
        fields,
        current,
        checks,
        i,
        entry_with2(
            "error_min_value"@,
            "attr"@,
            fields[i].name@,
            "limit"@,
            decimal(fields[i].min_value->0 as int),
        ),
    );
}

/// A number over its field's maximum is never written: when the value
/// submitted for a number field with a maximum compared above it (and not
/// below a minimum), the patch is refused, and where no earlier field was
/// refused, with `error_max_value` naming the field and its maximum.
pub proof fn law_above_maximum_is_refused(
    patch: Seq<(String, Option<String>)>,
    fields: Seq<AttributeField>,
    current: Seq<(String, String)>,
    checks: Seq<NumberCheck>,
    i: int,
    v: Seq<char>,
)
    requires
        0 <= i < fields.len(),
        checks.len() == fields.len(),
        fields[i].data_type is Number,
        fields[i].max_value is Some,
        checks[i] == (NumberCheck::Compared { below_min: false, above_max: true }),
        submitted_value(patch, fields[i].name@) == Some(v),
        v.len() > 0,
    ensures
        diff_result(patch, fields, current, checks) is Err,
        plan(patch, fields, current, checks, i) is Ok ==> diff_result(patch, fields, current, checks)
            == Err::<(Seq<(Seq<char>, Seq<char>)>, Seq<Seq<char>>), TextView>(
            entry_with2(
                "error_max_value"@,
                "attr"@,
                fields[i].name@,
                "limit"@,
                decimal(fields[i].max_value->0 as int),
            ),
        ),
{
    lemma_refused_at(
        patch,
        fields,
        current,
        checks,
        i,
        entry_with2(
            "error_max_value"@,
            "attr"@,
            fields[i].name@,
            "limit"@,
            decimal(fields[i].max_value->0 as int),
        ),
    );
}

/// A text outside its field's length bounds is never written: the patch is
/// refused, with `error_min_length` or `error_max_length` naming the field
/// and the bound where no earlier field was refused.
pub proof fn law_length_out_of_bounds_is_refused(
    patch: Seq<(String, Option<String>)>,
    fields: Seq<AttributeField>,
    current: Seq<(String, String)>,
    checks: Seq<NumberCheck>,
    i: int,
    v: Seq<char>,
)
    requires
        0 <= i < fields.len(),
        checks.len() == fields.len(),
        fields[i].data_type is String,
        submitted_value(patch, fields[i].name@) == Some(v),
        v.len() > 0,
        (fields[i].min_length matches Some(m) && v.len() < m) || (fields[i].max_length matches Some(
            m,
        ) && v.len() > m),
    ensures
        diff_result(patch, fields, current, checks) is Err,
        plan(patch, fields, current, checks, i) is Ok ==> diff_result(patch, fields, current, checks)
            == Err::<(Seq<(Seq<char>, Seq<char>)>, Seq<Seq<char>>), TextView>(
            if fields[i].min_length is Some && v.len() < fields[i].min_length->0 {
                entry_with2(
                    "error_min_length"@,
                    "attr"@,
                    fields[i].name@,
                    "limit"@,
                    decimal(fields[i].min_length->0 as int),
                )
            } else {
                entry_with2(
                    "error_max_length"@,
                    "attr"@,
                    fields[i].name@,
                    "limit"@,
                    decimal(fields[i].max_length->0 as int),
                )
            },
        ),
{
    let t = if fields[i].min_length is Some && v.len() < fields[i].min_length->0 {
        entry_with2(
                    "error_min_length"@,
                    "attr"@,
                    fields[i].name@,
                    "limit"@,
                    decimal(fields[i].min_length->0 as int),
                )
    } else {
        entry_with2(
            "error_max_length"@,
            "attr"@,
            fields[i].name@,
            "limit"@,
            decimal(fields[i].max_length->0 as int),
        )
    };
    lemma_refused_at(patch, fields, current, checks, i, t);
}

/// What a plan has written or deleted stays in every longer plan.
proof fn lemma_plan_grows(
    patch: Seq<(String, Option<String>)>,
    fields: Seq<AttributeField>,
    current: Seq<(String, String)>,
    checks: Seq<NumberCheck>,
    k: int,
    m: int,
)
    requires
        0 <= k <= m,
        plan(patch, fields, current, checks, m) is Ok,
    ensures
        plan(patch, fields, current, checks, k) matches Ok((w, d)) && ({
            let (wm, dm) = plan(patch, fields, current, checks, m)->Ok_0;
            &&& w.len() <= wm.len()
            &&& wm.subrange(0, w.len() as int) == w
            &&& d.len() <= dm.len()
            &&& dm.subrange(0, d.len() as int) == d
        }),
    decreases m - k,
{
    if k < m {
        lemma_plan_grows(patch, fields, current, checks, k + 1, m);
        let (w1, d1) = plan(patch, fields, current, checks, k + 1)->Ok_0;
        let (wm, dm) = plan(patch, fields, current, checks, m)->Ok_0;
        assert(plan(patch, fields, current, checks, k) is Ok);
        let (w, d) = plan(patch, fields, current, checks, k)->Ok_0;
        assert(w1.subrange(0, w.len() as int) == w);
        assert(d1.subrange(0, d.len() as int) == d);
        assert(wm.subrange(0, w.len() as int) =~= w1.subrange(0, w.len() as int));
        assert(dm.subrange(0, d.len() as int) =~= d1.subrange(0, d.len() as int));
    } else {
        let (w, d) = plan(patch, fields, current, checks, k)->Ok_0;
        assert(w.subrange(0, w.len() as int) =~= w);
        assert(d.subrange(0, d.len() as int) =~= d);
    }
}

/// A valid change is made: when the patch submits a non-empty value for an
/// allowed field that is within the field's bounds and differs from what is
/// stored, an accepted patch writes exactly that value to that field.
pub proof fn law_valid_change_is_written(
    patch: Seq<(String, Option<String>)>,
    fields: Seq<AttributeField>,
    current: Seq<(String, String)>,
    checks: Seq<NumberCheck>,
    i: int,
    v: Seq<char>,
)
    requires
        0 <= i < fields.len(),
        checks.len() == fields.len(),
        submitted_value(patch, fields[i].name@) == Some(v),
        v.len() > 0,
        match fields[i].data_type {
            DataType::Number => checks[i] == (NumberCheck::Compared { below_min: false, above_max: false }),
            DataType::String => !(fields[i].min_length matches Some(m) && v.len() < m) && !(
            fields[i].max_length matches Some(m) && v.len() > m),
            _ => true,
        },
        !(find(current, fields[i].name@) matches Some(c) && c@ == v),
    ensures
        diff_result(patch, fields, current, checks) matches Ok((writes, deletes)) ==> writes.contains(
            (fields[i].name@, v),
        ),
{
    if diff_result(patch, fields, current, checks) is Ok {
        lemma_plan_grows(patch, fields, current, checks, i + 1, fields.len() as int);
        let (w, d) = plan(patch, fields, current, checks, i + 1)->Ok_0;
        let (wm, dm) = diff_result(patch, fields, current, checks)->Ok_0;
        assert(w.last() == (fields[i].name@, v));
        assert(wm[w.len() - 1] == w[w.len() - 1]);
    }
}

/// A clear is made: when the patch sends an allowed optional field as null or
/// blank and the field has a value, an accepted patch deletes it.
pub proof fn law_clear_is_deleted(
    patch: Seq<(String, Option<String>)>,
    fields: Seq<AttributeField>,
    current: Seq<(String, String)>,
    checks: Seq<NumberCheck>,
    i: int,
)
    requires
        0 <= i < fields.len(),
        checks.len() == fields.len(),
        !fields[i].required,
        submitted_value(patch, fields[i].name@) == Some(Seq::<char>::empty()),
        find(current, fields[i].name@) matches Some(c) && c@.len() > 0,
    ensures
        diff_result(patch, fields, current, checks) matches Ok((writes, deletes)) ==> deletes.contains(
            fields[i].name@,
        ),
{
    if diff_result(patch, fields, current, checks) is Ok {
        lemma_plan_grows(patch, fields, current, checks, i + 1, fields.len() as int);
        let (w, d) = plan(patch, fields, current, checks, i + 1)->Ok_0;
        let (wm, dm) = diff_result(patch, fields, current, checks)->Ok_0;
        assert(d.last() == fields[i].name@);
        assert(dm[d.len() - 1] == d[d.len() - 1]);
    }
}

/// The value a user's attribute list gives `name`: the value of its last
/// entry so named (an attribute without a value reads as empty), or `None`.
pub open spec fn last_value(entries: Seq<(String, Option<String>)>, name: Seq<char>) -> Option<Seq<char>>
    decreases entries.len(),
{
    if entries.len() == 0 {
        None
    } else if entries.last().0@ == name {
        Some(
            match entries.last().1 {
                Some(v) => v@,
                None => Seq::empty(),
            },
        )
    } else {
        last_value(entries.drop_last(), name)
    }
}

proof fn lemma_find_push(values: Seq<(String, String)>, entry: (String, String), name: Seq<char>)
    ensures
        find(values.push(entry), name) == match find(values, name) {
            Some(v) => Some(v),
            None => if entry.0@ == name {
                Some(entry.1)
            } else {
                None
            },
        },
    decreases values.len(),
{
    if values.len() > 0 {
        assert(values.push(entry).drop_first() =~= values.drop_first().push(entry));
        assert(values.push(entry)[0] == values[0]);
        lemma_find_push(values.drop_first(), entry, name);
    } else {
        assert(values.push(entry).drop_first() =~= values);
        assert(values.push(entry)[0] == entry);
    }
}

/// A user's attributes as Cognito lists them, by name: one entry per name,
/// holding the value of the last entry so named.
pub fn to_values(entries: Vec<(String, Option<String>)>) -> (r: Values)
    ensures
        forall|name: Seq<char>| #![trigger last_value(entries@, name)]
            match (find(r@, name), last_value(entries@, name)) {
                (Some(v), Some(w)) => v@ == w,
                (None, None) => true,
                _ => false,
            },
{
    let ghost all = entries@;
    let mut entries = entries;
    let mut values: Values = Vec::new();
    // Taken from the back, so the entry kept for a name is its last one.
    assert(all.subrange(0, all.len() as int) =~= all);
    while entries.len() > 0
        invariant
            entries@ == all.subrange(0, entries@.len() as int),
            entries@.len() <= all.len(),
            forall|name: Seq<char>| #![trigger find(values@, name)]
                match (find(values@, name), last_value(entries@, name), last_value(all, name)) {
                    (Some(v), _, Some(w)) => v@ == w,
                    (None, l, w) => l == w,
                    _ => false,
                },
        decreases entries@.len(),
    {
        let ghost before = entries@;
        let ghost old_values = values@;
        let (name, value) = entries.pop().unwrap();
        proof {
            assert(before.drop_last() =~= entries@);
            assert(entries@ =~= all.subrange(0, entries@.len() as int));
        }
        if position(&values, name.as_str()).is_none() {
            let v = match value {
                Some(v) => v,
                None => String::new(),
            };
            let ghost entry = (name, v);
            values.push((name, v));
            proof {
                assert forall|q: Seq<char>| #![trigger find(values@, q)]
                    match (find(values@, q), last_value(entries@, q), last_value(all, q)) {
                        (Some(x), _, Some(w)) => x@ == w,
                        (None, l, w) => l == w,
                        _ => false,
                    } by {
                    lemma_find_push(old_values, entry, q);
                }
            }
        }
    }
    proof {
        assert forall|name: Seq<char>| #![trigger last_value(all, name)]
            match (find(values@, name), last_value(all, name)) {
                (Some(v), Some(w)) => v@ == w,
                (None, None) => true,
                _ => false,
            } by {
            assert(last_value(entries@, name) is None);
        }
    }
    values
}

} // verus!
