//! The database query behind the user listing: its conditions and its
//! ordering.
use vstd::prelude::*;
use crate::filter::{Clause, Field};
use crate::text::{chars_of, starts_with_chars};

verus! {

/// The column the listing is sorted by, and the direction.
#[derive(Clone, Copy, PartialEq, Eq, Structural, Debug)]
pub struct UserOrder {
    pub field: Field,
    pub descending: bool,
}

/// The ordering that an `order` parameter asks for: a column name, sorted
/// ascending, or a column name followed by `.desc`. Anything else leaves the
/// listing unsorted.
pub open spec fn order_of(s: Seq<char>) -> Option<UserOrder> {
    if s == "id"@ {
        Some(UserOrder { field: Field::Id, descending: false })
    } else if s == "username"@ {
        Some(UserOrder { field: Field::Username, descending: false })
    } else if s == "displayname"@ {
        Some(UserOrder { field: Field::Displayname, descending: false })
    } else if s == "descriptions"@ {
        Some(UserOrder { field: Field::Descriptions, descending: false })
    } else if s == "id.desc"@ {
        Some(UserOrder { field: Field::Id, descending: true })
    } else if s == "username.desc"@ {
        Some(UserOrder { field: Field::Username, descending: true })
    } else if s == "displayname.desc"@ {
        Some(UserOrder { field: Field::Displayname, descending: true })
    } else if s == "descriptions.desc"@ {
        Some(UserOrder { field: Field::Descriptions, descending: true })
    } else {
        None
    }
}

/// The name of a column as the `order` parameter writes it.
pub open spec fn column_name(f: Field) -> Seq<char> {
    match f {
        Field::Id => seq!['i', 'd'],
        Field::Username => seq!['u', 's', 'e', 'r', 'n', 'a', 'm', 'e'],
        Field::Displayname => seq!['d', 'i', 's', 'p', 'l', 'a', 'y', 'n', 'a', 'm', 'e'],
        Field::Descriptions => seq!['d', 'e', 's', 'c', 'r', 'i', 'p', 't', 'i', 'o', 'n', 's'],
    }
}

/// The suffix that asks for a descending order.
pub open spec fn descending_suffix() -> Seq<char> {
    seq!['.', 'd', 'e', 's', 'c']
}

/// A bare column name sorts by that column ascending; the name followed by
/// `.desc` sorts by it descending.
pub proof fn lemma_order_names(f: Field)
    ensures
        order_of(column_name(f)) == Some(UserOrder { field: f, descending: false }),
        order_of(column_name(f) + descending_suffix()) == Some(
            UserOrder { field: f, descending: true },
        ),
{
    reveal_strlit("id");
    reveal_strlit("username");
    reveal_strlit("displayname");
    reveal_strlit("descriptions");
    reveal_strlit("id.desc");
    reveal_strlit("username.desc");
    reveal_strlit("displayname.desc");
    reveal_strlit("descriptions.desc");
    let name = column_name(f);
    let desc = column_name(f) + descending_suffix();
    match f {
        Field::Id => {
            assert(name =~= "id"@);
            assert(desc =~= "id.desc"@);
            assert(desc != "id"@);
        },
        Field::Username => {
            assert(name =~= "username"@);
            assert(name != "id"@);
            assert(desc =~= "username.desc"@);
            assert(desc != "id"@);
            assert(desc != "username"@);
            assert(desc != "displayname"@);
            assert(desc != "descriptions"@);
            assert(desc != "id.desc"@);
        },
        Field::Displayname => {
            assert(name =~= "displayname"@);
            assert(name != "id"@);
            assert(name != "username"@);
            assert(desc =~= "displayname.desc"@);
            assert(desc != "id"@);
            assert(desc != "username"@);
            assert(desc != "displayname"@);
            assert(desc != "descriptions"@);
            assert(desc != "id.desc"@);
            assert(desc != "username.desc"@);
        },
        Field::Descriptions => {
            assert(name =~= "descriptions"@);
            assert(name != "id"@);
            assert(name != "username"@);
            assert(name != "displayname"@);
            assert(desc =~= "descriptions.desc"@);
            assert(desc != "id"@);
            assert(desc != "username"@);
            assert(desc != "displayname"@);
            assert(desc != "descriptions"@);
            assert(desc != "id.desc"@);
            assert(desc != "username.desc"@);
            assert(desc != "displayname.desc"@);
        },
    }
}

/// Whether the characters of `s` are those of `word`.
fn is_word(s: &Vec<char>, word: &str) -> (r: bool)
    ensures
        r == (s@ == word@),
{
    let w = chars_of(word);
    if s.len() != w.len() {
        return false;
    }
    let r = starts_with_chars(s, &w);
    proof {
        assert(s@.subrange(0, w@.len() as int) =~= s@);
    }
    r
}

/// Reads an `order` parameter.
pub fn parse_order(s: &str) -> (r: Option<UserOrder>)
    ensures
        r == order_of(s@),
{
    let c = chars_of(s);
    if is_word(&c, "id") {
        Some(UserOrder { field: Field::Id, descending: false })
    } else if is_word(&c, "username") {
        Some(UserOrder { field: Field::Username, descending: false })
    } else if is_word(&c, "displayname") {
        Some(UserOrder { field: Field::Displayname, descending: false })
    } else if is_word(&c, "descriptions") {
        Some(UserOrder { field: Field::Descriptions, descending: false })
    } else if is_word(&c, "id.desc") {
        Some(UserOrder { field: Field::Id, descending: true })
    } else if is_word(&c, "username.desc") {
        Some(UserOrder { field: Field::Username, descending: true })
    } else if is_word(&c, "displayname.desc") {
        Some(UserOrder { field: Field::Displayname, descending: true })
    } else if is_word(&c, "descriptions.desc") {
        Some(UserOrder { field: Field::Descriptions, descending: true })
    } else {
        None
    }
}

/// The query to run against the users table: the clauses apply in order,
/// each `And` clause narrowing and each `Or` clause widening the rows
/// selected so far; then the rows are sorted as `order` says.
#[derive(Debug)]
pub struct UserQuery {
    pub clauses: Vec<Clause>,
    pub order: Option<UserOrder>,
}

} // verus!
