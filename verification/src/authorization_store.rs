//! What authorization reads: policies, boundaries, sessions and tags.
use serde_json::Value;
use vstd::prelude::*;
use crate::cassandra_util::{get_column, get_optional, Cell, Row};
use crate::catalog_store::{hold_pairs, pair_readable, read_pairs};
use crate::cql::{stmt, stmt1, stmt2, stmt3, text_value, CqlView, Statement};
use crate::error::{FromDbError, OpError};
use crate::text::{cat3, cat5, str_eq};

verus! {

/// The principals that policies are attached to.
#[derive(Clone, Copy, Debug, PartialEq, Eq, Structural)]
pub enum Principal {
    User,
    Group,
    Role,
}

/// The stored name of a kind of principal.
pub open spec fn principal_text(p: Principal) -> Seq<char> {
    match p {
        Principal::User => "'user'"@,
        Principal::Group => "'group'"@,
        Principal::Role => "'role'"@,
    }
}

fn principal_name(p: Principal) -> (r: &'static str)
    ensures
        r@ == principal_text(p),
{
    match p {
        Principal::User => "'user'",
        Principal::Group => "'group'",
        Principal::Role => "'role'",
    }
}

/// The statement that reads the policies of a principal.
pub fn select_policies(catalog: &str, account_id: &str, p: Principal, name: &str) -> (r: Statement)
    ensures
        r@ == stmt(
            "SELECT policy_document FROM "@ + catalog@
                + ".iam_policies WHERE account_id = ? AND principal_type = "@ + principal_text(p)
                + " AND principal_name = ?"@,
            seq![CqlView::Text(account_id@), CqlView::Text(name@)],
        ),
{
    stmt2(
        cat5(
            "SELECT policy_document FROM ",
            catalog,
            ".iam_policies WHERE account_id = ? AND principal_type = ",
            principal_name(p),
            " AND principal_name = ?",
        ),
        text_value(account_id),
        text_value(name),
    )
}

/// The statement that reads the permissions boundary of a user or a role.
pub fn select_boundary(catalog: &str, account_id: &str, p: Principal, name: &str) -> (r: Statement)
    ensures
        r@ == stmt(
            "SELECT policy_document FROM "@ + catalog@
                + ".iam_permissions_boundaries WHERE account_id = ? AND principal_type = "@
                + principal_text(p) + " AND principal_name = ?"@,
            seq![CqlView::Text(account_id@), CqlView::Text(name@)],
        ),
{
    stmt2(
        cat5(
            "SELECT policy_document FROM ",
            catalog,
            ".iam_permissions_boundaries WHERE account_id = ? AND principal_type = ",
            principal_name(p),
            " AND principal_name = ?",
        ),
        text_value(account_id),
        text_value(name),
    )
}

/// The statement that reads the groups of a user.
pub fn select_groups(catalog: &str, account_id: &str, user_name: &str) -> (r: Statement)
    ensures
        r@ == stmt(
            "SELECT group_name FROM "@ + catalog@
                + ".iam_group_members WHERE account_id = ? AND user_name = ? ALLOW FILTERING"@,
            seq![CqlView::Text(account_id@), CqlView::Text(user_name@)],
        ),
{
    stmt2(
        cat3(
            "SELECT group_name FROM ",
            catalog,
            ".iam_group_members WHERE account_id = ? AND user_name = ? ALLOW FILTERING",
        ),
        text_value(account_id),
        text_value(user_name),
    )
}

/// The group that a row names.
pub fn group_name(row: &Row) -> (r: Result<String, OpError>)
    ensures
        match r {
            Ok(s) => row.cell("group_name"@) == Cell::Text(s),
            Err(e) => !(row.cell("group_name"@) is Text) && e.carries("Database error"@),
        },
{
    get_column(row, "group_name")
}

/// The policy documents of every row, in their order. One row that cannot be read
/// fails them all.
pub fn fetch_policies(rows: &Vec<Row>) -> (r: Result<Vec<String>, OpError>)
    ensures
        match r {
            Ok(v) => v@.len() == rows@.len() && forall|i: int|
                #![trigger rows@[i]]
                #![trigger v@[i]]
                0 <= i < v@.len() ==> rows@[i].cell("policy_document"@) == Cell::Text(v@[i]),
            Err(e) => e.carries("Database error"@) && exists|i: int|
                0 <= i < rows@.len() && !((#[trigger] rows@[i]).cell("policy_document"@) is Text),
        },
{
    let mut out: Vec<String> = Vec::new();
    let mut i: usize = 0;
    while i < rows.len()
        invariant
            i <= rows@.len(),
            out@.len() == i,
            forall|k: int|
                #![trigger rows@[k]]
                #![trigger out@[k]]
                0 <= k < i ==> rows@[k].cell("policy_document"@) == Cell::Text(out@[k]),
        decreases rows@.len() - i,
    {
        let doc: Result<String, OpError> = get_column(&rows[i], "policy_document");
        match doc {
            Ok(d) => {
                out.push(d);
            },
            Err(e) => {
                assert(!(rows@[i as int].cell("policy_document"@) is Text));
                return Err(e);
            },
        }
        i = i + 1;
    }
    Ok(out)
}

/// Add the policies of one more group to those of the groups before it.
pub fn add_group_policies(policies: Vec<String>, rows: &Vec<Row>) -> (r: Result<
    Vec<String>,
    OpError,
>)
    ensures
        match r {
            Ok(v) => {
                &&& v@.len() == policies@.len() + rows@.len()
                &&& v@.take(policies@.len() as int) == policies@
                &&& forall|i: int|
                    #![trigger rows@[i]]
                    0 <= i < rows@.len() ==> rows@[i].cell("policy_document"@) == Cell::Text(
                        v@[policies@.len() + i],
                    )
            },
            Err(e) => e.carries("Database error"@) && exists|i: int|
                0 <= i < rows@.len() && !((#[trigger] rows@[i]).cell("policy_document"@) is Text),
        },
{
    let mut more = fetch_policies(rows)?;
    let ghost added = more@;
    let mut all = policies;
    all.append(&mut more);
    proof {
        assert(all@ =~= policies@ + added);
        assert(all@.take(policies@.len() as int) =~= policies@);
    }
    Ok(all)
}

/// The permissions boundary: that of the first row, `None` without one.
pub fn fetch_boundary(rows: &Vec<Row>) -> (r: Result<Option<String>, OpError>)
    ensures
        if rows@.len() == 0 {
            r == Ok::<Option<String>, OpError>(None)
        } else {
            match rows@[0].cell("policy_document"@) {
                Cell::Text(s) => r == Ok::<Option<String>, OpError>(Some(s)),
                _ => r matches Err(e) && e.carries("Database error"@),
            }
        },
{
    if rows.len() == 0 {
        return Ok(None);
    }
    let doc: String = get_column(&rows[0], "policy_document")?;
    Ok(Some(doc))
}

/// The fields of a JSON object, with their texts where they are strings.
pub type Fields = Vec<(String, Option<String>)>;

/// The tags of a session as JSON: a list of objects (`None` for an element of
/// another kind), one object, or something else.
#[derive(Debug, PartialEq, Eq)]
pub enum TagsJson {
    List(Vec<Option<Fields>>),
    Object(Fields),
    Other,
}

/// A field of a JSON object.
#[verifier::ext_equal]
pub struct FieldView {
    pub name: Seq<char>,
    pub text: Option<Seq<char>>,
}

/// The tags of a session as JSON.
#[verifier::ext_equal]
pub enum TagsView {
    List(Seq<Option<Seq<FieldView>>>),
    Object(Seq<FieldView>),
    Other,
}

/// The fields as views.
pub open spec fn fields_view(f: Seq<(String, Option<String>)>) -> Seq<FieldView> {
    f.map_values(
        |p: (String, Option<String>)|
            FieldView {
                name: p.0@,
                text: match p.1 {
                    Some(s) => Some(s@),
                    None => None,
                },
            },
    )
}

impl View for TagsJson {
    type V = TagsView;

    open spec fn view(&self) -> TagsView {
        match *self {
            TagsJson::List(v) => TagsView::List(
                v@.map_values(
                    |o: Option<Fields>|
                        match o {
                            Some(f) => Some(fields_view(f@)),
                            None => None,
                        },
                ),
            ),
            TagsJson::Object(f) => TagsView::Object(fields_view(f@)),
            TagsJson::Other => TagsView::Other,
        }
    }
}

/// What `serde_json` reads in the text of session tags; `None` where it is no JSON.
pub uninterp spec fn tags_parse_of(text: Seq<char>) -> Option<TagsView>;

/// `serde_json::from_str` for a `serde_json::Value`, as far down as the tags of a
/// session reach; `None` where the text is no JSON. It depends on the text alone.
#[verifier::external_body]
fn parse_tags(text: &str) -> (r: Option<TagsJson>)
    ensures
        match r {
            Some(t) => tags_parse_of(text@) == Some(t@),
            None => tags_parse_of(text@) is None,
        },
{
    let fields = |m: serde_json::Map<String, Value>| {
        m.into_iter().map(|(k, v)| (k, v.as_str().map(str::to_owned))).collect::<Fields>()
    };
    serde_json::from_str::<Value>(text).ok().map(|v| match v {
        Value::Array(a) => TagsJson::List(a.into_iter().map(|t| match t {
            Value::Object(m) => Some(fields(m)),
            _ => None,
        }).collect()),
        Value::Object(m) => TagsJson::Object(fields(m)),
        _ => TagsJson::Other,
    })
}

/// The text of the first field of a name; `None` where it is missing or no string.
pub open spec fn field_text(f: Seq<FieldView>, name: Seq<char>) -> Option<Seq<char>>
    decreases f.len(),
{
    if f.len() == 0 {
        None
    } else if f[0].name == name {
        f[0].text
    } else {
        field_text(f.drop_first(), name)
    }
}

/// What an optional text holds.
pub open spec fn opt_text(t: Option<String>) -> Option<Seq<char>> {
    match t {
        Some(s) => Some(s@),
        None => None,
    }
}

fn find_field(f: &Fields, name: &str) -> (r: Option<String>)
    ensures
        opt_text(r) == field_text(fields_view(f@), name@),
{
    let ghost all = fields_view(f@);
    let mut i: usize = 0;
    proof {
        assert(all.skip(0) =~= all);
    }
    while i < f.len()
        invariant
            i <= f@.len(),
            all == fields_view(f@),
            field_text(all, name@) == field_text(all.skip(i as int), name@),
        decreases f@.len() - i,
    {
        proof {
            assert(all.skip(i as int)[0] == all[i as int]);
        }
        if str_eq(f[i].0.as_str(), name) {
            return match &f[i].1 {
                Some(s) => Some(s.clone()),
                None => None,
            };
        }
        proof {
            assert(all.skip(i as int).drop_first() =~= all.skip(i + 1));
        }
        i = i + 1;
    }
    None
}

/// The tag that an element of a list stands for: an object with the texts `Key` and
/// `Value`.
pub open spec fn list_tag(o: Option<Seq<FieldView>>) -> Option<(Seq<char>, Seq<char>)> {
    match o {
        Some(f) => match (field_text(f, "Key"@), field_text(f, "Value"@)) {
            (Some(k), Some(v)) => Some((k, v)),
            _ => None,
        },
        None => None,
    }
}

/// The tags of a list, in their order; elements that stand for none are left out.
pub open spec fn list_tags(v: Seq<Option<Seq<FieldView>>>) -> Seq<(Seq<char>, Seq<char>)>
    decreases v.len(),
{
    if v.len() == 0 {
        Seq::empty()
    } else {
        let rest = list_tags(v.drop_last());
        match list_tag(v.last()) {
            Some(t) => rest.push(t),
            None => rest,
        }
    }
}

/// The tags of an object, in their order: its fields that are strings.
pub open spec fn object_tags(f: Seq<FieldView>) -> Seq<(Seq<char>, Seq<char>)>
    decreases f.len(),
{
    if f.len() == 0 {
        Seq::empty()
    } else {
        let rest = object_tags(f.drop_last());
        match f.last().text {
            Some(s) => rest.push((f.last().name, s)),
            None => rest,
        }
    }
}

/// The tags that the JSON of a session gives: none where there is none.
pub open spec fn tags_in(json: Option<TagsView>) -> Seq<(Seq<char>, Seq<char>)> {
    match json {
        Some(TagsView::List(v)) => list_tags(v),
        Some(TagsView::Object(f)) => object_tags(f),
        _ => Seq::empty(),
    }
}

/// What optional JSON holds.
pub open spec fn opt_tags(json: Option<TagsJson>) -> Option<TagsView> {
    match json {
        Some(j) => Some(j@),
        None => None,
    }
}

/// The pairs as the texts that they hold.
pub open spec fn pairs_view(v: Seq<(String, String)>) -> Seq<(Seq<char>, Seq<char>)> {
    v.map_values(|p: (String, String)| (p.0@, p.1@))
}

fn push_pair(v: &mut Vec<(String, String)>, a: String, b: String)
    ensures
        pairs_view(final(v)@) == pairs_view(old(v)@).push((a@, b@)),
{
    v.push((a, b));
    proof {
        assert(pairs_view(v@) =~= pairs_view(old(v)@).push((a@, b@)));
    }
}

/// The tags of a session, from its JSON: a list of objects with `Key` and `Value`,
/// or an object whose fields are the tags. Anything that is not a string is left
/// out.
pub fn session_tags(json: &Option<TagsJson>) -> (r: Vec<(String, String)>)
    ensures
        pairs_view(r@) == tags_in(opt_tags(*json)),
{
    let mut out: Vec<(String, String)> = Vec::new();
    proof {
        assert(pairs_view(out@) =~= Seq::empty());
    }
    match json {
        Some(TagsJson::List(v)) => {
            let ghost all = TagsJson::List(*v)@->List_0;
            let mut i: usize = 0;
            proof {
                assert(all.take(0) =~= Seq::empty());
            }
            while i < v.len()
                invariant
                    i <= v@.len(),
                    all == TagsJson::List(*v)@->List_0,
                    pairs_view(out@) == list_tags(all.take(i as int)),
                decreases v@.len() - i,
            {
                proof {
                    assert(all.take(i + 1).drop_last() =~= all.take(i as int));
                    assert(all.take(i + 1).last() == all[i as int]);
                }
                match &v[i] {
                    Some(f) => {
                        match (find_field(f, "Key"), find_field(f, "Value")) {
                            (Some(k), Some(x)) => {
                                push_pair(&mut out, k, x);
                            },
                            _ => {},
                        }
                    },
                    None => {},
                }
                i = i + 1;
            }
            proof {
                assert(all.take(i as int) =~= all);
            }
        },
        Some(TagsJson::Object(f)) => {
            let ghost all = fields_view(f@);
            let mut i: usize = 0;
            proof {
                assert(all.take(0) =~= Seq::empty());
            }
            while i < f.len()
                invariant
                    i <= f@.len(),
                    all == fields_view(f@),
                    pairs_view(out@) == object_tags(all.take(i as int)),
                decreases f@.len() - i,
            {
                proof {
                    assert(all.take(i + 1).drop_last() =~= all.take(i as int));
                    assert(all.take(i + 1).last() == all[i as int]);
                }
                match &f[i].1 {
                    Some(s) => {
                        push_pair(&mut out, f[i].0.clone(), s.clone());
                    },
                    None => {},
                }
                i = i + 1;
            }
            proof {
                assert(all.take(i as int) =~= all);
            }
        },
        _ => {},
    }
    out
}

/// The statement that reads a session.
pub fn select_session(catalog: &str, account_id: &str, role_name: &str, session_name: &str) -> (r:
    Statement)
    ensures
        r@ == stmt(
            "SELECT session_policy, session_tags FROM "@ + catalog@
                + ".iam_sessions WHERE account_id = ? AND role_name = ? AND session_name = ? ALLOW FILTERING"@,
            seq![
                CqlView::Text(account_id@),
                CqlView::Text(role_name@),
                CqlView::Text(session_name@),
            ],
        ),
{
    stmt3(
        cat3(
            "SELECT session_policy, session_tags FROM ",
            catalog,
            ".iam_sessions WHERE account_id = ? AND role_name = ? AND session_name = ? ALLOW FILTERING",
        ),
        text_value(account_id),
        text_value(role_name),
        text_value(session_name),
    )
}

/// What authorization knows of a session.
#[derive(Debug, PartialEq, Eq)]
pub struct SessionData {
    pub session_policy: Option<String>,
    pub session_tags: Vec<(String, String)>,
}

/// The text of a column, where it has one.
pub open spec fn text_in(cell: Cell) -> Option<String> {
    match cell {
        Cell::Text(s) => Some(s),
        _ => None,
    }
}

/// What authorization knows of the session in the first row; `None` without one.
/// Tags that are no JSON count as none.
pub fn fetch_session_data(rows: &Vec<Row>) -> (r: Option<SessionData>)
    ensures
        match r {
            None => rows@.len() == 0,
            Some(d) => {
                &&& rows@.len() > 0
                &&& d.session_policy == text_in(rows@[0].cell("session_policy"@))
                &&& pairs_view(d.session_tags@) == tags_in(
                    match text_in(rows@[0].cell("session_tags"@)) {
                        Some(t) => tags_parse_of(t@),
                        None => None,
                    },
                )
            },
        },
{
    if rows.len() == 0 {
        return None;
    }
    let session_policy: Option<String> = get_optional(&rows[0], "session_policy");
    let text: Option<String> = get_optional(&rows[0], "session_tags");
    let json: Option<TagsJson> = match &text {
        Some(t) => parse_tags(t.as_str()),
        None => None,
    };
    let tags = session_tags(&json);
    Some(SessionData { session_policy, session_tags: tags })
}

/// The statement that reads the tags of a user.
pub fn select_user_tags(catalog: &str, account_id: &str, user_name: &str) -> (r: Statement)
    ensures
        r@ == stmt(
            "SELECT tag_key, tag_value FROM "@ + catalog@
                + ".iam_user_tags WHERE account_id = ? AND user_name = ?"@,
            seq![CqlView::Text(account_id@), CqlView::Text(user_name@)],
        ),
{
    stmt2(
        cat3(
            "SELECT tag_key, tag_value FROM ",
            catalog,
            ".iam_user_tags WHERE account_id = ? AND user_name = ?",
        ),
        text_value(account_id),
        text_value(user_name),
    )
}

/// The statement that reads the tags of a role.
pub fn select_role_tags(catalog: &str, account_id: &str, role_name: &str) -> (r: Statement)
    ensures
        r@ == stmt(
            "SELECT tag_key, tag_value FROM "@ + catalog@
                + ".iam_role_tags WHERE account_id = ? AND role_name = ?"@,
            seq![CqlView::Text(account_id@), CqlView::Text(role_name@)],
        ),
{
    stmt2(
        cat3(
            "SELECT tag_key, tag_value FROM ",
            catalog,
            ".iam_role_tags WHERE account_id = ? AND role_name = ?",
        ),
        text_value(account_id),
        text_value(role_name),
    )
}

/// The statement that reads the tags of a resource.
pub fn select_resource_tags(catalog: &str, arn: &str) -> (r: Statement)
    ensures
        r@ == stmt(
            "SELECT tag_key, tag_value FROM "@ + catalog@ + ".tags WHERE resource_arn = ?"@,
            seq![CqlView::Text(arn@)],
        ),
{
    stmt1(
        cat3("SELECT tag_key, tag_value FROM ", catalog, ".tags WHERE resource_arn = ?"),
        text_value(arn),
    )
}

/// The tags of a user, a role or a resource, in row order. One row that cannot be
/// read fails them all.
pub fn fetch_tags(rows: &Vec<Row>) -> (r: Result<Vec<(String, String)>, OpError>)
    ensures
        match r {
            Ok(v) => hold_pairs(rows@, "tag_key"@, "tag_value"@, v@),
            Err(e) => e.carries("Database error"@) && exists|i: int|
                0 <= i < rows@.len() && !pair_readable(
                    #[trigger] rows@[i],
                    "tag_key"@,
                    "tag_value"@,
                ),
        },
{
    read_pairs(rows, "tag_key", "tag_value")
}

} // verus!
