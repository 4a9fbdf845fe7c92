use vstd::prelude::*;
use vstd::string::*;

use crate::text::{
    eq_ignore_ascii_case, same_text, same_text_ignore_ascii_case, split_on, split_text, to_upper,
    trim, trimmed, upper_of,
};

verus! {

/// One sort key: a logical field name and a direction.
pub struct SortOrder {
    pub property: String,
    /// `"asc"` or `"desc"`, in any case.
    pub direction: String,
}

impl View for SortOrder {
    type V = (Seq<char>, Seq<char>);

    open spec fn view(&self) -> (Seq<char>, Seq<char>) {
        (self.property@, self.direction@)
    }
}

impl Clone for SortOrder {
    fn clone(&self) -> (r: Self)
        ensures
            r@ == self@,
    {
        SortOrder { property: self.property.clone(), direction: self.direction.clone() }
    }
}

/// The requested ordering of a listing.
pub struct Sort {
    pub empty: bool,
    pub sorted: bool,
    pub unsorted: bool,
    pub orders: Vec<SortOrder>,
}

impl View for Sort {
    type V = Seq<(Seq<char>, Seq<char>)>;

    open spec fn view(&self) -> Seq<(Seq<char>, Seq<char>)> {
        self.orders@.map_values(|o: SortOrder| o@)
    }
}

impl Clone for Sort {
    fn clone(&self) -> (r: Self)
        ensures
            r@ == self@,
            r.empty == self.empty,
            r.sorted == self.sorted,
            r.unsorted == self.unsorted,
    {
        let mut orders: Vec<SortOrder> = Vec::new();
        let mut i: usize = 0;
        while i < self.orders.len()
            invariant
                i <= self.orders@.len(),
                orders@.len() == i,
                forall|j: int| 0 <= j < i ==> #[trigger] orders@[j]@ == self.orders@[j]@,
            decreases self.orders@.len() - i,
        {
            orders.push(self.orders[i].clone());
            i = i + 1;
        }
        let r = Sort { empty: self.empty, sorted: self.sorted, unsorted: self.unsorted, orders };
        assert(r@ =~= self@);
        r
    }
}

/// The field that orders a listing when the request names no usable one.
pub open spec fn default_property() -> Seq<char> {
    "dateAdded"@
}

/// The orders that a sort parameter `"field,direction"` asks for.
///
/// The field and the direction are the first two comma-separated pieces,
/// without surrounding white space; a missing direction is `desc`. The
/// direction is kept in upper case. Unless the field is the creation time,
/// the creation time, descending, follows as a tie-breaker.
pub open spec fn query_orders(q: Seq<char>) -> Seq<(Seq<char>, Seq<char>)> {
    let parts = split_on(q, ',');
    let property = trim(parts[0]);
    let direction = if parts.len() > 1 {
        upper_of(trim(parts[1]))
    } else {
        upper_of("desc"@)
    };
    if property == default_property() {
        seq![(property, direction)]
    } else {
        seq![(property, direction), (default_property(), "desc"@)]
    }
}

/// The storage column that a logical sort field stands for; `None` for a
/// field that cannot be sorted on.
pub open spec fn column_of(p: Seq<char>) -> Option<Seq<char>> {
    if p == "title"@ {
        Some("m.title"@)
    } else if p == "dateAdded"@ {
        Some("m.date_added"@)
    } else if p == "likeCount"@ {
        Some("like_count"@)
    } else if p == "hateCount"@ {
        Some("hate_count"@)
    } else if p == "username"@ {
        Some("u.username"@)
    } else {
        None
    }
}

/// A direction is ascending when it reads `asc` in any case; anything else
/// is descending.
pub open spec fn is_ascending(d: Seq<char>) -> bool {
    eq_ignore_ascii_case(d, "asc"@)
}

pub open spec fn direction_keyword(d: Seq<char>) -> Seq<char> {
    if is_ascending(d) {
        "ASC"@
    } else {
        "DESC"@
    }
}

/// The ORDER BY terms of `os`: one per order whose field can be sorted on,
/// in the same order; the others are dropped.
pub open spec fn order_terms(os: Seq<(Seq<char>, Seq<char>)>) -> Seq<Seq<char>>
    decreases os.len(),
{
    if os.len() == 0 {
        Seq::empty()
    } else {
        let rest = order_terms(os.drop_last());
        match column_of(os.last().0) {
            Some(c) => rest.push(c + " "@ + direction_keyword(os.last().1)),
            None => rest,
        }
    }
}

/// The terms joined by `", "`.
pub open spec fn join_terms(ts: Seq<Seq<char>>) -> Seq<char>
    decreases ts.len(),
{
    if ts.len() == 0 {
        Seq::empty()
    } else if ts.len() == 1 {
        ts[0]
    } else {
        join_terms(ts.drop_last()) + ", "@ + ts.last()
    }
}

/// The ORDER BY clause for `os`; when no term is left, `default` descending.
pub open spec fn order_clause(os: Seq<(Seq<char>, Seq<char>)>, default: Seq<char>) -> Seq<char> {
    let ts = order_terms(os);
    if ts.len() == 0 {
        default + " DESC"@
    } else {
        join_terms(ts)
    }
}

fn column_for(p: &str) -> (r: Option<&'static str>)
    ensures
        r matches Some(c) ==> column_of(p@) == Some(c@),
        r is None ==> column_of(p@) is None,
{
    if same_text(p, "title") {
        Some("m.title")
    } else if same_text(p, "dateAdded") {
        Some("m.date_added")
    } else if same_text(p, "likeCount") {
        Some("like_count")
    } else if same_text(p, "hateCount") {
        Some("hate_count")
    } else if same_text(p, "username") {
        Some("u.username")
    } else {
        None
    }
}

impl Sort {
    /// Reads a sort parameter of the form `"field,direction"`.
    pub fn from_query(sort_param: &str) -> (r: Sort)
        ensures
            r@ == query_orders(sort_param@),
            !r.empty,
            r.sorted,
            !r.unsorted,
    {
        let parts = split_text(sort_param, ',');
        proof {
            crate::text::lemma_split_nonempty(sort_param@, ',');
        }
        let property = trimmed(parts[0]);
        let raw_direction: &str = if parts.len() > 1 {
            trimmed(parts[1])
        } else {
            "desc"
        };
        let order = SortOrder {
            property: String::from_str(property),
            direction: to_upper(raw_direction),
        };
        let is_default = same_text(property, "dateAdded");
        let mut orders: Vec<SortOrder> = Vec::new();
        orders.push(order);
        if !is_default {
            orders.push(
                SortOrder {
                    property: String::from_str("dateAdded"),
                    direction: String::from_str("desc"),
                },
            );
        }
        let r = Sort { empty: false, sorted: true, unsorted: false, orders };
        assert(r@ =~= query_orders(sort_param@));
        r
    }

    /// The ORDER BY clause for these orders, over the storage columns.
    pub fn to_sql(&self, default_field: &str) -> (r: String)
        ensures
            r@ == order_clause(self@, default_field@),
    {
        let mut out = String::new();
        let mut count: usize = 0;
        let mut i: usize = 0;
        while i < self.orders.len()
            invariant
                i <= self.orders@.len(),
                count == order_terms(self@.take(i as int)).len(),
                count <= i,
                out@ == join_terms(order_terms(self@.take(i as int))),
            decreases self.orders@.len() - i,
        {
            let o = &self.orders[i];
            assert(self@.take(i + 1).drop_last() =~= self@.take(i as int));
            assert(self@.take(i + 1).last() == o@);
            match column_for(o.property.as_str()) {
                Some(column) => {
                    let mut term = String::from_str(column);
                    term.append(" ");
                    if same_text_ignore_ascii_case(o.direction.as_str(), "asc") {
                        term.append("ASC");
                    } else {
                        term.append("DESC");
                    }
                    let ghost before = out@;
                    if count > 0 {
                        out.append(", ");
                    }
                    out.append(term.as_str());
                    proof {
                        let ts = order_terms(self@.take(i as int));
                        assert(order_terms(self@.take(i + 1)) == ts.push(term@));
                        assert(ts.push(term@).drop_last() =~= ts);
                        if count == 0 {
                            assert(before =~= Seq::<char>::empty());
                            assert(out@ =~= term@);
                        } else {
                            assert(out@ =~= before + ", "@ + term@);
                        }
                    }
                    count = count + 1;
                },
                None => {},
            }
            i = i + 1;
        }
        assert(self@.take(self.orders@.len() as int) =~= self@);
        if count == 0 {
            let mut d = String::from_str(default_field);
            d.append(" DESC");
            d
        } else {
            out
        }
    }
}

/// A sort parameter whose field cannot be sorted on orders a listing by
/// creation time, newest first, whatever direction it names and whatever
/// default column the caller supplies.
pub proof fn lemma_unknown_field_orders_by_creation(q: Seq<char>, default: Seq<char>)
    requires
        column_of(trim(split_on(q, ',')[0])) is None,
    ensures
        order_clause(query_orders(q), default) == "m.date_added DESC"@,
{
    crate::text::lemma_split_nonempty(q, ',');
    reveal_strlit("title");
    reveal_strlit("dateAdded");
    reveal_strlit("m.date_added");
    reveal_strlit("desc");
    reveal_strlit("asc");
    reveal_strlit("DESC");
    reveal_strlit(" ");
    reveal_strlit("m.date_added DESC");
    let os = query_orders(q);
    let property = trim(split_on(q, ',')[0]);
    assert(column_of(default_property()) is Some);
    assert(property != default_property());
    assert(os.len() == 2);
    assert(os.drop_last().drop_last() =~= Seq::<(Seq<char>, Seq<char>)>::empty());
    assert(os.drop_last().last().0 == property);
    assert(order_terms(os.drop_last().drop_last()) =~= Seq::<Seq<char>>::empty());
    assert(order_terms(os.drop_last()) =~= Seq::<Seq<char>>::empty());
    assert(os.last().0 == "dateAdded"@);
    assert("dateAdded"@.len() != "title"@.len());
    assert(column_of(os.last().0) == Some("m.date_added"@));
    assert(!is_ascending("desc"@));
    let term = "m.date_added"@ + " "@ + "DESC"@;
    assert(order_terms(os) =~= seq![term]);
    assert(term =~= "m.date_added DESC"@);
}

/// Which page of a listing is asked for, and in what order.
pub struct Pageable {
    pub page_number: u32,
    pub page_size: u32,
    pub sort: Sort,
    /// Number of rows before the first row of the page.
    pub offset: u64,
    pub paged: bool,
    pub unpaged: bool,
}

impl Pageable {
    /// Page `page_number` (counted from zero) of `page_size` rows, in the
    /// order `sort` gives.
    pub fn new(page_number: u32, page_size: u32, sort: Sort) -> (r: Pageable)
        ensures
            r.page_number == page_number,
            r.page_size == page_size,
            r.sort == sort,
            r.offset == page_number * page_size,
            r.paged,
            !r.unpaged,
    {
        assert((page_number as u64) * (page_size as u64) <= u64::MAX) by (nonlinear_arith)
            requires
                page_number <= u32::MAX,
                page_size <= u32::MAX,
        ;
        let offset = (page_number as u64) * (page_size as u64);
        Pageable { page_number, page_size, offset, paged: true, unpaged: false, sort }
    }
}

/// Number of pages of `size` rows that `total` rows fill: `ceil(total / size)`.
pub open spec fn page_count(total: nat, size: nat) -> nat
    recommends
        size > 0,
{
    if total % size == 0 {
        total / size
    } else {
        total / size + 1
    }
}

/// One page of a listing, with what a client needs to move between pages.
pub struct Page<T> {
    pub content: Vec<T>,
    pub pageable: Pageable,
    /// Number of pages, at most `u32::MAX`.
    pub total_pages: u32,
    pub total_elements: u64,
    pub last: bool,
    pub size: u32,
    pub number: u32,
    pub sort: Sort,
    pub first: bool,
    pub number_of_elements: u32,
    pub empty: bool,
}

impl<T> Page<T> {
    /// The page `pageable` asks for, holding `content`, of a listing of
    /// `total_elements` rows.
    pub fn new(content: Vec<T>, pageable: Pageable, total_elements: u64) -> (r: Page<T>)
        requires
            pageable.page_size > 0,
            content@.len() <= u32::MAX,
        ensures
            r.content@ == content@,
            r.pageable == pageable,
            r.total_elements == total_elements,
            r.total_pages as nat == if page_count(total_elements as nat, pageable.page_size as nat)
                > u32::MAX {
                u32::MAX as nat
            } else {
                page_count(total_elements as nat, pageable.page_size as nat)
            },
            r.last == (pageable.page_number + 1 >= r.total_pages),
            r.size == pageable.page_size,
            r.number == pageable.page_number,
            r.sort@ == pageable.sort@,
            r.first == (pageable.page_number == 0),
            r.number_of_elements == content@.len(),
            r.empty == (content@.len() == 0),
    {
        let size = pageable.page_size as u64;
        let whole = total_elements / size;
        let pages: u64 = if total_elements % size == 0 {
            whole
        } else {
            assert(whole < total_elements) by (nonlinear_arith)
                requires
                    whole == total_elements / size,
                    size >= 1,
                    total_elements % size != 0,
            ;
            whole + 1
        };
        let total_pages: u32 = if pages > u32::MAX as u64 {
            u32::MAX
        } else {
            pages as u32
        };
        let number_of_elements = content.len() as u32;
        let last = pageable.page_number as u64 + 1 >= total_pages as u64;
        let sort = pageable.sort.clone();
        Page {
            content,
            total_pages,
            total_elements,
            last,
            size: pageable.page_size,
            number: pageable.page_number,
            sort,
            first: pageable.page_number == 0,
            number_of_elements,
            empty: number_of_elements == 0,
            pageable,
        }
    }
}

/// The rows of the page that starts after `offset` rows and holds at most
/// `size` of them; empty past the end.
pub open spec fn page_window<T>(rows: Seq<T>, offset: nat, size: nat) -> Seq<T> {
    let start = if offset < rows.len() {
        offset
    } else {
        rows.len()
    };
    let end = if offset + size < rows.len() {
        offset + size
    } else {
        rows.len()
    };
    rows.subrange(start as int, end as int)
}

/// Number of rows that a listing matches, counted before paging.
pub open spec fn listing_total<T>(rows: Seq<T>) -> nat {
    rows.len()
}

/// One page of `rows`, which are the rows that the listing's filter keeps,
/// in the order asked for; and the number of those rows. The number is
/// counted before paging, so no page or sort changes it.
///
/// This is an in-memory model of LIMIT/OFFSET over a filtered, ordered
/// query with a separate count; a store-backed listing runs the same
/// arithmetic as SQL. The total-invariance law is proved of this model.
pub fn page_of<T>(rows: Vec<T>, pageable: &Pageable) -> (r: (Vec<T>, u64))
    requires
        rows@.len() <= u64::MAX,
    ensures
        r.0@ == page_window(rows@, pageable.offset as nat, pageable.page_size as nat),
        r.1 == listing_total(rows@),
{
    let ghost all = rows@;
    let n = rows.len();
    let total = n as u64;
    let start: usize = if pageable.offset < total {
        pageable.offset as usize
    } else {
        n
    };
    let mut rows = rows;
    let mut page = rows.split_off(start);
    let room = (n - start) as u64;
    if (pageable.page_size as u64) < room {
        page.truncate(pageable.page_size as usize);
    }
    assert(page@ =~= page_window(all, pageable.offset as nat, pageable.page_size as nat));
    (page, total)
}

/// Listings whose rows are the same up to order, that is the same filter
/// under two sort orders, report the same total.
///
/// Stated of the totals that the in-memory model `page_of` reports.
pub proof fn lemma_total_ignores_order<T>(a: Seq<T>, b: Seq<T>)
    requires
        a.to_multiset() == b.to_multiset(),
    ensures
        listing_total(a) == listing_total(b),
{
    a.to_multiset_ensures();
    b.to_multiset_ensures();
}

/// Paging parameters of a listing request, each of them optional.
pub struct PageableQuery {
    pub page: Option<u32>,
    pub size: Option<u32>,
    pub sort: Option<String>,
}

/// Page asked for when a request names none.
pub const DEFAULT_PAGE: u32 = 0;

/// Page size used when a request names none.
pub const DEFAULT_SIZE: u32 = 10;

/// The sort parameter that a request without one stands for.
pub open spec fn default_sort_param() -> Seq<char> {
    "dateAdded,desc"@
}

impl PageableQuery {
    /// The page that these parameters ask for: page 0, 10 rows and the
    /// newest first where they are left out.
    pub fn to_pageable(&self) -> (r: Pageable)
        ensures
            r.page_number == match self.page {
                Some(p) => p,
                None => DEFAULT_PAGE,
            },
            r.page_size == match self.size {
                Some(s) => s,
                None => DEFAULT_SIZE,
            },
            r.offset == r.page_number * r.page_size,
            r.sort@ == query_orders(
                match self.sort {
                    Some(s) => s@,
                    None => default_sort_param(),
                },
            ),
    {
        let page = match self.page {
            Some(p) => p,
            None => DEFAULT_PAGE,
        };
        let size = match self.size {
            Some(s) => s,
            None => DEFAULT_SIZE,
        };
        let sort = match &self.sort {
            Some(s) => Sort::from_query(s.as_str()),
            None => Sort::from_query("dateAdded,desc"),
        };
        Pageable::new(page, size, sort)
    }
}

} // verus!
