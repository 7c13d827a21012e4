//! The filter language of the user listing.
//!
//! A filter is a sequence of words. A word that names a column (`id`,
//! `username`, `displayname`, `descriptions`) starts a condition whose value
//! is the word two places further on (the word between is the operator, such
//! as `=`). A word starting with `or` or `and` joins the condition that
//! follows it to the ones before. Conditions on `descriptions` match a
//! substring (`LIKE '%value%'`), except after `or` when the column word
//! itself holds `=`. Other words are skipped.
use vstd::prelude::*;
use crate::text::{
    chars_of, contains_chars, has_infix, has_prefix, parse_i32, parse_i32_spec, split_words,
    starts_with_chars, views, words,
};

verus! {

/// A column of the users table.
#[derive(Clone, Copy, PartialEq, Eq, Structural, Debug)]
pub enum Field {
    Id,
    Username,
    Displayname,
    Descriptions,
}

/// How a condition combines with the conditions before it: `And` keeps only
/// the rows that also meet it, `Or` adds the rows that meet it.
#[derive(Clone, Copy, PartialEq, Eq, Structural, Debug)]
pub enum Join {
    And,
    Or,
}

/// A condition on one column of a user row.
#[derive(Debug, PartialEq, Eq)]
pub enum Condition {
    IdEquals(i32),
    UsernameEquals(String),
    DisplaynameEquals(String),
    DescriptionsEquals(String),
    /// The descriptions match this SQL `LIKE` pattern.
    DescriptionsLike(String),
}

/// A condition, with its strings taken by their characters.
pub enum ConditionView {
    IdEquals(i32),
    UsernameEquals(Seq<char>),
    DisplaynameEquals(Seq<char>),
    DescriptionsEquals(Seq<char>),
    DescriptionsLike(Seq<char>),
}

impl View for Condition {
    type V = ConditionView;

    open spec fn view(&self) -> ConditionView {
        match self {
            Condition::IdEquals(n) => ConditionView::IdEquals(*n),
            Condition::UsernameEquals(s) => ConditionView::UsernameEquals(s@),
            Condition::DisplaynameEquals(s) => ConditionView::DisplaynameEquals(s@),
            Condition::DescriptionsEquals(s) => ConditionView::DescriptionsEquals(s@),
            Condition::DescriptionsLike(s) => ConditionView::DescriptionsLike(s@),
        }
    }
}

/// One condition of a filter with the way it joins the earlier ones.
#[derive(Debug, PartialEq, Eq)]
pub struct Clause {
    pub join: Join,
    pub condition: Condition,
}

pub struct ClauseView {
    pub join: Join,
    pub condition: ConditionView,
}

impl View for Clause {
    type V = ClauseView;

    open spec fn view(&self) -> ClauseView {
        ClauseView { join: self.join, condition: self.condition@ }
    }
}

/// The views of a sequence of clauses.
pub open spec fn clause_views(v: Seq<Clause>) -> Seq<ClauseView> {
    v.map_values(|c: Clause| c@)
}

/// The column a word names; the checks go in this order, so a word holding
/// `id` anywhere names `id`.
pub open spec fn field_of(t: Seq<char>) -> Option<Field> {
    if has_infix(t, "id"@) {
        Some(Field::Id)
    } else if has_infix(t, "username"@) {
        Some(Field::Username)
    } else if has_infix(t, "displayname"@) {
        Some(Field::Displayname)
    } else if has_infix(t, "descriptions"@) {
        Some(Field::Descriptions)
    } else {
        None
    }
}

/// The `LIKE` pattern that matches the texts containing `v`.
pub open spec fn like_pattern(v: Seq<char>) -> Seq<char> {
    "%"@ + v + "%"@
}

/// The equality of column `f` with the value word `v`; an `id` value must
/// read as an `i32`.
pub open spec fn equality(f: Field, v: Seq<char>) -> Option<ConditionView> {
    match f {
        Field::Id => match parse_i32_spec(v) {
            Some(n) => Some(ConditionView::IdEquals(n)),
            None => None,
        },
        Field::Username => Some(ConditionView::UsernameEquals(v)),
        Field::Displayname => Some(ConditionView::DisplaynameEquals(v)),
        Field::Descriptions => Some(ConditionView::DescriptionsEquals(v)),
    }
}

/// The result of reading one condition: the filter is malformed (`Fail`),
/// nothing was read up to and including a position (`Skip`), or a clause
/// was read whose last position is given (`Emit`).
pub enum Step {
    Fail,
    Skip(int),
    Emit(ClauseView, int),
}

/// An equality whose value is the word at `at`, which is also the last
/// position read.
pub open spec fn compare_step(toks: Seq<Seq<char>>, join: Join, f: Field, at: int) -> Step {
    if at >= toks.len() {
        Step::Fail
    } else {
        match equality(f, toks[at]) {
            Some(c) => Step::Emit(ClauseView { join, condition: c }, at),
            None => Step::Fail,
        }
    }
}

/// A substring match on the descriptions with the word at `at`; the last
/// position read counts as `last`.
pub open spec fn like_step(toks: Seq<Seq<char>>, join: Join, at: int, last: int) -> Step {
    if at >= toks.len() {
        Step::Fail
    } else {
        Step::Emit(
            ClauseView { join, condition: ConditionView::DescriptionsLike(like_pattern(toks[at])) },
            last,
        )
    }
}

/// The condition after a joining word, whose column word is at `k`.
pub open spec fn joined_step(toks: Seq<Seq<char>>, join: Join, k: int) -> Step {
    if k >= toks.len() {
        Step::Fail
    } else {
        let u = toks[k];
        match field_of(u) {
            None => Step::Skip(k),
            Some(Field::Descriptions) => if join == Join::Or && has_infix(u, "="@) {
                compare_step(toks, Join::Or, Field::Descriptions, k + 2)
            } else {
                like_step(toks, join, k + 2, k + 1)
            },
            Some(f) => compare_step(toks, join, f, k + 2),
        }
    }
}

/// Reads the condition that starts at word `c`. A leading `descriptions`
/// condition always takes its value from the third word of the filter.
pub open spec fn step(toks: Seq<Seq<char>>, c: int) -> Step {
    let t = toks[c];
    match field_of(t) {
        Some(Field::Descriptions) => like_step(toks, Join::And, 2, c + 2),
        Some(f) => compare_step(toks, Join::And, f, c + 2),
        None => if has_prefix(t, "or"@) {
            joined_step(toks, Join::Or, c + 1)
        } else if has_prefix(t, "and"@) {
            joined_step(toks, Join::And, c + 1)
        } else {
            Step::Skip(c)
        },
    }
}

/// A condition read at a column word joins with `And`; one read after a
/// word starting with `and` joins with `And`, and one read after a word
/// starting with `or` joins with `Or`, whatever its column.
pub proof fn lemma_step_joins(toks: Seq<Seq<char>>, c: int)
    requires
        0 <= c < toks.len(),
    ensures
        field_of(toks[c]) is Some ==> (step(toks, c) matches Step::Emit(cl, _) ==> cl.join
            == Join::And),
        field_of(toks[c]) is None && has_prefix(toks[c], "or"@) ==> (step(toks, c) matches Step::Emit(
            cl,
            _,
        ) ==> cl.join == Join::Or),
        field_of(toks[c]) is None && !has_prefix(toks[c], "or"@) && has_prefix(toks[c], "and"@)
            ==> (step(toks, c) matches Step::Emit(cl, _) ==> cl.join == Join::And),
{
}

/// Reading a condition never moves backwards.
pub proof fn lemma_step_advances(toks: Seq<Seq<char>>, c: int)
    requires
        0 <= c < toks.len(),
    ensures
        match step(toks, c) {
            Step::Fail => true,
            Step::Skip(n) => c <= n < toks.len(),
            Step::Emit(_, n) => c <= n,
        },
{
}

/// The clauses read from word `c` on, or `None` if the filter is malformed.
pub open spec fn parse_from(toks: Seq<Seq<char>>, c: int) -> Option<Seq<ClauseView>>
    decreases (if c < toks.len() { toks.len() - c } else { 0 }),
{
    if c < 0 || c >= toks.len() {
        Some(seq![])
    } else {
        proof {
            lemma_step_advances(toks, c);
        }
        match step(toks, c) {
            Step::Fail => None,
            Step::Skip(n) => parse_from(toks, n + 1),
            Step::Emit(cl, n) => prefixed(seq![cl], parse_from(toks, n + 1)),
        }
    }
}

/// The clauses of a filter, or `None` if the filter is malformed: a
/// condition lacks its value word, an `id` value is not an `i32`, or a
/// joining word is the last word.
pub open spec fn filter_clauses(filter: Seq<char>) -> Option<Seq<ClauseView>> {
    parse_from(words(filter), 0)
}

/// `prefix` followed by the clauses of `rest`, if there are any.
pub open spec fn prefixed(prefix: Seq<ClauseView>, rest: Option<Seq<ClauseView>>) -> Option<
    Seq<ClauseView>,
> {
    match rest {
        Some(r) => Some(prefix + r),
        None => None,
    }
}

/// The outcome of reading one condition, with the position where reading
/// goes on.
enum Parsed {
    Fail,
    Skip(usize),
    Emit(Clause, usize),
}

/// Whether `p` is `s` read over `len` words: the position where reading goes
/// on is the one after the last position read, or `len` if that is past
/// the end.
spec fn parsed_is(p: Parsed, s: Step, len: int) -> bool {
    match (p, s) {
        (Parsed::Fail, Step::Fail) => true,
        (Parsed::Skip(a), Step::Skip(n)) => a == n + 1,
        (Parsed::Emit(cl, a), Step::Emit(cv, n)) => cl@ == cv && a == (if n + 1 < len {
            n + 1
        } else {
            len
        }),
        _ => false,
    }
}

/// The column a word names.
fn field_of_word(t: &Vec<char>) -> (r: Option<Field>)
    ensures
        r == field_of(t@),
{
    if contains_chars(t, &chars_of("id")) {
        Some(Field::Id)
    } else if contains_chars(t, &chars_of("username")) {
        Some(Field::Username)
    } else if contains_chars(t, &chars_of("displayname")) {
        Some(Field::Displayname)
    } else if contains_chars(t, &chars_of("descriptions")) {
        Some(Field::Descriptions)
    } else {
        None
    }
}

/// The `LIKE` pattern that matches the texts containing `v`.
pub fn like_pattern_of(v: &str) -> (r: String)
    ensures
        r@ == like_pattern(v@),
{
    let mut p = String::from_str("%");
    p.append(v);
    p.append("%");
    p
}

fn compare_exec(toks: &Vec<String>, join: Join, f: Field, at: usize) -> (r: Parsed)
    requires
        at < toks@.len(),
    ensures
        parsed_is(r, compare_step(views(toks@), join, f, at as int), toks@.len() as int),
{
    let len = toks.len();
    let ghost tv = views(toks@);
    assert(tv[at as int] == toks@[at as int]@);
    let v = &toks[at];
    let condition = match f {
        Field::Id => match parse_i32(v.as_str()) {
            Some(n) => Condition::IdEquals(n),
            None => {
                return Parsed::Fail;
            },
        },
        Field::Username => Condition::UsernameEquals(v.clone()),
        Field::Displayname => Condition::DisplaynameEquals(v.clone()),
        Field::Descriptions => Condition::DescriptionsEquals(v.clone()),
    };
    Parsed::Emit(Clause { join, condition }, at + 1)
}

fn like_exec(toks: &Vec<String>, join: Join, at: usize, resume: usize) -> (r: Parsed)
    requires
        at < toks@.len(),
        resume <= toks@.len(),
    ensures
        forall|last: int|
            (if last + 1 < toks@.len() { last + 1 } else { toks@.len() as int }) == resume
                ==> parsed_is(r, like_step(views(toks@), join, at as int, last), toks@.len() as int),
{
    let ghost tv = views(toks@);
    assert(tv[at as int] == toks@[at as int]@);
    let pattern = like_pattern_of(toks[at].as_str());
    Parsed::Emit(Clause { join, condition: Condition::DescriptionsLike(pattern) }, resume)
}

fn joined_exec(toks: &Vec<String>, join: Join, k: usize) -> (r: Parsed)
    requires
        k <= toks@.len(),
    ensures
        parsed_is(r, joined_step(views(toks@), join, k as int), toks@.len() as int),
{
    let len = toks.len();
    if k >= len {
        return Parsed::Fail;
    }
    let ghost tv = views(toks@);
    let u = chars_of(toks[k].as_str());
    assert(tv[k as int] == u@);
    match field_of_word(&u) {
        None => Parsed::Skip(k + 1),
        Some(Field::Descriptions) => {
            let is_or = match join {
                Join::Or => true,
                Join::And => false,
            };
            if is_or && contains_chars(&u, &chars_of("=")) {
                if len - k > 2 {
                    compare_exec(toks, Join::Or, Field::Descriptions, k + 2)
                } else {
                    Parsed::Fail
                }
            } else {
                if len - k > 2 {
                    like_exec(toks, join, k + 2, k + 2)
                } else {
                    Parsed::Fail
                }
            }
        },
        Some(f) => {
            if len - k > 2 {
                compare_exec(toks, join, f, k + 2)
            } else {
                Parsed::Fail
            }
        },
    }
}

fn step_exec(toks: &Vec<String>, c: usize) -> (r: Parsed)
    requires
        c < toks@.len(),
    ensures
        parsed_is(r, step(views(toks@), c as int), toks@.len() as int),
{
    let len = toks.len();
    let ghost tv = views(toks@);
    let t = chars_of(toks[c].as_str());
    assert(tv[c as int] == t@);
    match field_of_word(&t) {
        Some(Field::Descriptions) => {
            if len > 2 {
                let resume = if len - c > 3 {
                    c + 3
                } else {
                    len
                };
                like_exec(toks, Join::And, 2, resume)
            } else {
                Parsed::Fail
            }
        },
        Some(f) => {
            if len - c > 2 {
                compare_exec(toks, Join::And, f, c + 2)
            } else {
                Parsed::Fail
            }
        },
        None => {
            if starts_with_chars(&t, &chars_of("or")) {
                joined_exec(toks, Join::Or, c + 1)
            } else if starts_with_chars(&t, &chars_of("and")) {
                joined_exec(toks, Join::And, c + 1)
            } else {
                Parsed::Skip(c + 1)
            }
        },
    }
}

/// Reads the clauses of a filter. `None` exactly when the filter is
/// malformed (see `filter_clauses`).
pub fn parse_filter(filter: &str) -> (r: Option<Vec<Clause>>)
    ensures
        match r {
            Some(v) => filter_clauses(filter@) == Some(clause_views(v@)),
            None => filter_clauses(filter@) is None,
        },
{
    let toks = split_words(filter);
    let len = toks.len();
    let ghost tv = views(toks@);
    let mut out: Vec<Clause> = Vec::new();
    let mut count: usize = 0;
    proof {
        assert(clause_views(out@) =~= Seq::<ClauseView>::empty());
        assert(prefixed(clause_views(out@), parse_from(tv, 0)) =~= parse_from(tv, 0)) by {
            match parse_from(tv, 0) {
                Some(r) => {
                    assert(clause_views(out@) + r =~= r);
                },
                None => {},
            }
        }
    }
    while count < len
        invariant
            tv == views(toks@),
            tv == words(filter@),
            len == toks@.len(),
            count <= len,
            parse_from(tv, 0) == prefixed(clause_views(out@), parse_from(tv, count as int)),
        decreases len - count,
    {
        let ghost before = clause_views(out@);
        proof {
            lemma_step_advances(tv, count as int);
        }
        match step_exec(&toks, count) {
            Parsed::Fail => {
                return None;
            },
            Parsed::Skip(next) => {
                count = next;
            },
            Parsed::Emit(cl, next) => {
                let ghost n = match step(tv, count as int) {
                    Step::Emit(_, n) => n,
                    _ => 0,
                };
                proof {
                    assert(parse_from(tv, n + 1) == parse_from(tv, next as int));
                }
                out.push(cl);
                proof {
                    assert(clause_views(out@) =~= before.push(cl@));
                    match parse_from(tv, next as int) {
                        Some(r) => {
                            assert(before + (seq![cl@] + r) =~= clause_views(out@) + r);
                        },
                        None => {},
                    }
                }
                count = next;
            },
        }
    }
    Some(out)
}

} // verus!
