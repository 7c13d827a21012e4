//! User rows, the requests that create, change and list them, and the
//! listing logic: which query runs and which page of its rows is answered.
use vstd::prelude::*;
use crate::filter::{clause_views, filter_clauses, parse_filter, ClauseView};
use crate::query::{order_of, parse_order, UserOrder, UserQuery};

verus! {

/// A row of the users table.
#[derive(Debug, PartialEq, Eq)]
pub struct Users {
    pub id: i32,
    pub username: String,
    pub displayname: String,
    pub descriptions: String,
}

/// The fields of a user to be created; the database assigns the id.
#[derive(Debug)]
pub struct NewUser {
    pub username: String,
    pub displayname: String,
    pub descriptions: String,
}

/// The new fields of an existing user.
#[derive(Debug)]
pub struct UpdateUser {
    pub username: String,
    pub displayname: String,
    pub descriptions: String,
}

/// The parameters of the user listing. `offset` and `limit` select a page
/// of the rows; `limit_full`, when present, asks that a page running past
/// the last row be shifted back to hold `limit` rows.
#[derive(Debug)]
pub struct QueryInfo {
    pub order: Option<String>,
    pub offset: Option<i64>,
    pub filter: Option<String>,
    pub limit: Option<i64>,
    pub limit_full: Option<bool>,
}

/// A page of the user listing.
#[derive(Debug)]
pub struct CustomStruct {
    pub total_count: i64,
    pub has_more: bool,
    pub limit: Option<i64>,
    pub items: Vec<Users>,
}

impl NewUser {
    /// Rebuilds the fields of a user to be created.
    pub fn from(user: NewUser) -> (r: NewUser)
        ensures
            r == user,
    {
        NewUser {
            username: user.username,
            displayname: user.displayname,
            descriptions: user.descriptions,
        }
    }
}

impl QueryInfo {
    /// Whether the filter, if any, can be read.
    pub open spec fn filter_well_formed(&self) -> bool {
        match self.filter {
            Some(f) => filter_clauses(f@) is Some,
            None => true,
        }
    }

    /// Whether the page parameters can be applied to `total` rows: the row
    /// count fits in `i64`; a limit comes with an offset; offset and limit
    /// are not negative, the offset is at most `total`, their sum fits in
    /// `i64`, and a page to be filled up to its limit asks for no more than
    /// `total` rows.
    pub open spec fn page_well_formed(&self, total: int) -> bool {
        &&& total <= i64::MAX
        &&& (self.limit is Some ==> self.offset is Some)
        &&& match (self.offset, self.limit) {
            (Some(o), Some(l)) => {
                &&& 0 <= o <= total
                &&& 0 <= l
                &&& o + l <= i64::MAX
                &&& (self.limit_full is Some ==> l <= total)
            },
            _ => true,
        }
    }

    /// Tests `filter_well_formed`.
    pub fn filter_is_well_formed(&self) -> (b: bool)
        ensures
            b == self.filter_well_formed(),
    {
        match &self.filter {
            Some(f) => parse_filter(f.as_str()).is_some(),
            None => true,
        }
    }

    /// Tests `page_well_formed` for `total` rows.
    pub fn page_is_well_formed(&self, total: usize) -> (b: bool)
        ensures
            b == self.page_well_formed(total as int),
    {
        if (total as u128) > (i64::MAX as u128) {
            return false;
        }
        match self.offset {
            None => self.limit.is_none(),
            Some(o) => match self.limit {
                None => true,
                Some(l) => {
                    if o < 0 || l < 0 || (o as i128) > (total as i128) {
                        false
                    } else if l > i64::MAX - o {
                        false
                    } else if self.limit_full.is_some() && (l as i128) > (total as i128) {
                        false
                    } else {
                        true
                    }
                },
            },
        }
    }
}

/// The clauses of the listing query: those of the filter, or none.
pub open spec fn planned_clauses(req: QueryInfo) -> Seq<ClauseView> {
    match req.filter {
        Some(f) => filter_clauses(f@).unwrap(),
        None => seq![],
    }
}

/// The ordering of the listing query.
pub open spec fn planned_order(req: QueryInfo) -> Option<UserOrder> {
    match req.order {
        Some(o) => order_of(o@),
        None => None,
    }
}

/// The first and the end position of the page that `req` selects from
/// `total` rows.
pub open spec fn page_bounds(req: QueryInfo, total: int) -> (int, int) {
    match (req.offset, req.limit) {
        (Some(o), Some(l)) => if o + l <= total {
            (o as int, o + l)
        } else if req.limit_full is Some {
            (total - l, total)
        } else {
            (o as int, total)
        },
        _ => (0, total),
    }
}

/// Whether rows are left over after the page: a nonzero limit and more
/// rows than offset and limit together.
pub open spec fn more_after_page(req: QueryInfo, total: int) -> bool {
    match (req.offset, req.limit) {
        (Some(o), Some(l)) => total > l + o && l != 0,
        _ => false,
    }
}

/// The rows of the page that `req` selects from `data`.
pub open spec fn page_items(req: QueryInfo, data: Seq<Users>) -> Seq<Users> {
    data.subrange(page_bounds(req, data.len() as int).0, page_bounds(req, data.len() as int).1)
}

/// A well-formed page lies within the rows.
pub proof fn lemma_page_within_rows(req: QueryInfo, total: int)
    requires
        0 <= total,
        req.page_well_formed(total),
    ensures
        0 <= page_bounds(req, total).0 <= page_bounds(req, total).1 <= total,
{
}

/// Rows are left over after a page exactly when a nonzero limit was given
/// and the page ends before the last row.
pub proof fn lemma_more_iff_rows_remain(req: QueryInfo, total: int)
    requires
        0 <= total,
        req.page_well_formed(total),
    ensures
        more_after_page(req, total) <==> (req.limit matches Some(l) && l != 0 && page_bounds(
            req,
            total,
        ).1 < total),
{
}

/// A page holds `limit` rows, or the rows left after the offset if fewer;
/// a page filled up to its limit holds exactly `limit` rows; without a
/// limit the page is every row.
pub proof fn lemma_page_size(req: QueryInfo, total: int)
    requires
        0 <= total,
        req.page_well_formed(total),
    ensures
        ({
            let (start, end) = page_bounds(req, total);
            match (req.offset, req.limit) {
                (Some(o), Some(l)) => if req.limit_full is Some {
                    end - start == l
                } else {
                    end - start == if l <= total - o {
                        l as int
                    } else {
                        total - o
                    }
                },
                _ => start == 0 && end == total,
            }
        }),
{
}

/// Two consecutive pages of the same limit, read one after the other, give
/// the rows of one page of twice that limit.
pub proof fn lemma_consecutive_pages(
    first: QueryInfo,
    second: QueryInfo,
    both: QueryInfo,
    data: Seq<Users>,
)
    requires
        first.page_well_formed(data.len() as int),
        second.page_well_formed(data.len() as int),
        both.page_well_formed(data.len() as int),
        first.limit_full is None,
        second.limit_full is None,
        both.limit_full is None,
        first.offset matches Some(o) && first.limit matches Some(l) && second.offset == Some(
            (o + l) as i64,
        ) && second.limit == Some(l) && both.offset == Some(o) && both.limit == Some(
            (2 * l) as i64,
        ),
    ensures
        page_items(first, data) + page_items(second, data) == page_items(both, data),
{
    let o = first.offset.unwrap() as int;
    let l = first.limit.unwrap() as int;
    let n = data.len() as int;
    let mid = if o + l <= n { o + l } else { n };
    let end = if o + 2 * l <= n { o + 2 * l } else { n };
    assert(page_bounds(first, n) == (o, mid));
    assert(page_bounds(second, n) == (o + l, end));
    assert(page_bounds(both, n) == (o, end));
    assert(data.subrange(o, mid) + data.subrange(mid, end) =~= data.subrange(o, end));
}

/// A page that ends within the rows is the rows from the offset on, `limit`
/// of them, whether or not it was asked to be filled; rows are left over
/// exactly when the limit is nonzero and rows follow the page.
pub proof fn lemma_page_inside_rows(req: QueryInfo, data: Seq<Users>, o: i64, l: i64)
    requires
        req.page_well_formed(data.len() as int),
        req.offset == Some(o),
        req.limit == Some(l),
        o + l <= data.len(),
    ensures
        page_items(req, data) == data.subrange(o as int, o + l),
        page_items(req, data).len() == l,
        more_after_page(req, data.len() as int) == (data.len() > o + l && l != 0),
{
}

/// A page that would run past the last row, when asked to be filled, is the
/// last `limit` rows; such a request is well formed whenever offset and
/// limit are each at most the row count.
pub proof fn lemma_filled_last_page(req: QueryInfo, data: Seq<Users>, o: i64, l: i64)
    requires
        data.len() <= i64::MAX,
        req.offset == Some(o),
        req.limit == Some(l),
        req.limit_full is Some,
        0 <= o <= data.len(),
        0 <= l <= data.len(),
        o + l <= i64::MAX,
        o + l > data.len(),
    ensures
        req.page_well_formed(data.len() as int),
        page_items(req, data) == data.subrange(data.len() - l, data.len() as int),
        page_items(req, data).len() == l,
        !more_after_page(req, data.len() as int),
{
}

/// The ordering of the listing query comes from the `order` parameter
/// alone: the filter and the page parameters do not change it, and without
/// an `order` parameter the listing is unsorted.
pub proof fn lemma_order_from_order_parameter(req: QueryInfo, other: QueryInfo)
    requires
        req.order == other.order,
    ensures
        planned_order(req) == planned_order(other),
        req.order matches Some(o) ==> planned_order(req) == order_of(o@),
        req.order is None ==> planned_order(req) is None,
{
}

impl Users {
    /// The query that lists the users as `req` asks: the clauses of its
    /// filter and the ordering of its `order`.
    pub fn find_all_query(req: &QueryInfo) -> (q: UserQuery)
        requires
            req.filter_well_formed(),
        ensures
            clause_views(q.clauses@) == planned_clauses(*req),
            q.order == planned_order(*req),
    {
        let clauses = match &req.filter {
            Some(f) => match parse_filter(f.as_str()) {
                Some(v) => v,
                None => Vec::new(),
            },
            None => {
                let v = Vec::new();
                proof {
                    assert(clause_views(v@) =~= Seq::<ClauseView>::empty());
                }
                v
            },
        };
        let order = match &req.order {
            Some(o) => parse_order(o.as_str()),
            None => None,
        };
        UserQuery { clauses, order }
    }

    /// The page of the listing: `data` holds the rows that the query of
    /// `req` returned, in order.
    pub fn find_all(req: &QueryInfo, data: Vec<Users>) -> (r: CustomStruct)
        requires
            req.page_well_formed(data@.len() as int),
        ensures
            r.total_count == data@.len(),
            r.limit == req.limit,
            r.has_more == more_after_page(*req, data@.len() as int),
            r.items@ == page_items(*req, data@),
    {
        let total = data.len();
        let total_count = total as i64;
        let (start, end): (usize, usize) = match (req.offset, req.limit) {
            (Some(o), Some(l)) => {
                if l <= total_count - o {
                    (o as usize, (o + l) as usize)
                } else if req.limit_full.is_some() {
                    ((total_count - l) as usize, total)
                } else {
                    (o as usize, total)
                }
            },
            _ => (0, total),
        };
        let has_more = match (req.offset, req.limit) {
            (Some(o), Some(l)) => total_count > l + o && l != 0,
            _ => false,
        };
        let mut items = data;
        items.truncate(end);
        let items = items.split_off(start);
        proof {
            assert(items@ =~= data@.subrange(start as int, end as int));
        }
        CustomStruct { total_count, has_more, limit: req.limit, items }
    }
}

} // verus!
