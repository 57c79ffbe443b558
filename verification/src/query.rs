//! Queries: what a paginated request asks for, and the body that says so.

use crate::date::{Date, DateView};
use crate::decimal::{decimal, push_decimal};
use crate::error::{Error, ErrorView};
use crate::field::ConsolidatedShortInterestField;
use crate::outside::{json_string, quote_json};
use core::ops::Range;
use vstd::prelude::*;

verus! {

/// The number of records asked for in one page.
pub const MAX_RESULTS_PER_PAGE: u64 = 1000;

/// What the paginator needs of a query: a cursor it can read and move, and
/// the body of the request that fetches the page at the cursor.
pub trait Query: Sized {
    /// The number of records asked for in one page.
    spec fn page_limit(&self) -> u64;

    /// The number of records that precede the page asked for.
    spec fn page_offset(&self) -> u64;

    /// The same query with its cursor at `offset`.
    spec fn at_offset(self, offset: u64) -> Self;

    /// The body of the request, or why none can be composed.
    spec fn body(&self) -> Result<Seq<char>, ErrorView>;

    /// Moving the cursor changes the offset and leaves the page size alone.
    proof fn lemma_at_offset(self, offset: u64)
        ensures
            self.at_offset(offset).page_offset() == offset,
            self.at_offset(offset).page_limit() == self.page_limit(),
    ;

    fn limit(&self) -> (r: u64)
        ensures
            r == self.page_limit(),
    ;

    fn offset(&self) -> (r: u64)
        ensures
            r == self.page_offset(),
    ;

    /// Advances the cursor by `by` records.
    fn move_cursor(self, by: u64) -> (r: Self)
        requires
            self.page_offset() + by <= u64::MAX,
        ensures
            r == self.at_offset((self.page_offset() + by) as u64),
            r.page_offset() == self.page_offset() + by,
            r.page_limit() == self.page_limit(),
    ;

    /// Composes the body of the request for the page at the cursor.
    fn request_body(&self) -> (r: Result<String, Error>)
        ensures
            match r {
                Ok(text) => self.body() == Ok::<Seq<char>, ErrorView>(text@),
                Err(e) => self.body() == Err::<Seq<char>, ErrorView>(e@),
            },
    ;
}

/// Represents the query to limit the number of results. This does not
/// correspond to the generic nature of the queries supported by the service
/// but supports the common usecases.
#[derive(Debug)]
pub struct ConsolidatedShortInterestQuery {
    /// If `None`, all fields are included.
    pub fields: Option<Vec<ConsolidatedShortInterestField>>,
    /// If `None`, the full available history is included.
    pub date_range: Option<Range<Date>>,
    /// If `None` the data for all symbols is included.
    pub symbol: Option<String>,
    /// The number of records asked for in one page.
    pub limit: u64,
    /// The number of records that precede the page asked for.
    pub offset: u64,
}

/// What a [`ConsolidatedShortInterestQuery`] holds, as a mathematical value.
pub struct QueryView {
    pub fields: Option<Seq<ConsolidatedShortInterestField>>,
    pub date_range: Option<(DateView, DateView)>,
    pub symbol: Option<Seq<char>>,
    pub limit: u64,
    pub offset: u64,
}

/// One member of a JSON object: its key, and its value as JSON text.
pub struct Member {
    pub key: Seq<char>,
    pub value: Seq<char>,
}

/// `text` between double quotes.
pub open spec fn quoted(text: Seq<char>) -> Seq<char> {
    seq!['"'] + text + seq!['"']
}

/// The names of `fields`, each between double quotes, joined by commas.
pub open spec fn name_list(fields: Seq<ConsolidatedShortInterestField>) -> Seq<char>
    decreases fields.len(),
{
    if fields.len() == 0 {
        Seq::empty()
    } else if fields.len() == 1 {
        quoted(fields[0].name())
    } else {
        name_list(fields.drop_last()) + seq![','] + quoted(fields.last().name())
    }
}

/// The value of the member that selects fields: the array of their names.
pub open spec fn fields_value(fields: Seq<ConsolidatedShortInterestField>) -> Seq<char> {
    seq!['['] + name_list(fields) + seq![']']
}

/// The value of the member that bounds the settlement date: an array of one
/// filter, from `start` to `end`.
pub open spec fn date_range_value(start: DateView, end: DateView) -> Seq<char> {
    "[{\"fieldName\":\"settlementDate\",\"startDate\":\""@ + start.text()
        + "\",\"endDate\":\""@ + end.text() + "\"}]"@
}

/// The value of the member that fixes the symbol: an array of one filter,
/// which compares the symbol code with the JSON string `literal`.
pub open spec fn symbol_value(literal: Seq<char>) -> Seq<char> {
    "[{\"fieldName\":\"symbolCode\",\"fieldValue\":"@ + literal
        + ",\"compareType\":\"EQUAL\"}]"@
}

/// The member that selects fields, where the query selects any.
pub open spec fn fields_member(query: QueryView) -> Seq<Member> {
    match query.fields {
        Some(fields) => seq![Member { key: "fields"@, value: fields_value(fields) }],
        None => Seq::empty(),
    }
}

/// The member that bounds the settlement date, where the query bounds it.
pub open spec fn date_range_member(query: QueryView) -> Seq<Member> {
    match query.date_range {
        Some((start, end)) => seq![
            Member { key: "dateRangeFilters"@, value: date_range_value(start, end) },
        ],
        None => Seq::empty(),
    }
}

/// The member that fixes the symbol, where the query fixes one; `literal` is
/// the symbol as a JSON string.
pub open spec fn symbol_member(query: QueryView, literal: Seq<char>) -> Seq<Member> {
    match query.symbol {
        Some(_) => seq![Member { key: "compareFilters"@, value: symbol_value(literal) }],
        None => Seq::empty(),
    }
}

/// The two members of the cursor.
pub open spec fn cursor_members(query: QueryView) -> Seq<Member> {
    seq![
        Member { key: "limit"@, value: decimal(query.limit as nat) },
        Member { key: "offset"@, value: decimal(query.offset as nat) },
    ]
}

/// The members of the request body, in the order in which they are written.
/// A filter that the query does not set has no member.
pub open spec fn members(query: QueryView, literal: Seq<char>) -> Seq<Member> {
    fields_member(query) + date_range_member(query) + symbol_member(query, literal)
        + cursor_members(query)
}

/// One member as JSON text.
pub open spec fn member_text(member: Member) -> Seq<char> {
    quoted(member.key) + seq![':'] + member.value
}

/// The members as JSON text, joined by commas.
pub open spec fn member_list(members: Seq<Member>) -> Seq<char>
    decreases members.len(),
{
    if members.len() == 0 {
        Seq::empty()
    } else if members.len() == 1 {
        member_text(members[0])
    } else {
        member_list(members.drop_last()) + seq![','] + member_text(members.last())
    }
}

/// The JSON object with the given members.
pub open spec fn object_text(members: Seq<Member>) -> Seq<char> {
    seq!['{'] + member_list(members) + seq!['}']
}

/// The request body of a query: a JSON object of its [`members`].  Only the
/// symbol needs escaping, and where that fails no body can be composed.
pub open spec fn body_of(query: QueryView) -> Result<Seq<char>, ErrorView> {
    match query.symbol {
        None => Ok(object_text(members(query, Seq::empty()))),
        Some(symbol) => match json_string(symbol) {
            Some(literal) => Ok(object_text(members(query, literal))),
            None => Err(
                ErrorView::QuerySerialization("the symbol cannot be written as a JSON string"@),
            ),
        },
    }
}

/// Appends the names of `fields` to `out`, quoted and joined by commas.
fn push_name_list(out: &mut String, fields: &Vec<ConsolidatedShortInterestField>)
    ensures
        final(out)@ == old(out)@ + name_list(fields@),
{
    let ghost before = out@;
    let mut i: usize = 0;
    assert(fields@.take(0) =~= Seq::empty());
    assert(out@ =~= before + name_list(fields@.take(0)));
    while i < fields.len()
        invariant
            i <= fields@.len(),
            out@ == before + name_list(fields@.take(i as int)),
        decreases fields@.len() - i,
    {
        let ghost seen = fields@.take(i as int);
        let ghost written = out@;
        if i > 0 {
            out.push(',');
        }
        out.push('"');
        out.append(fields[i].as_str());
        out.push('"');
        proof {
            let next = fields@.take(i + 1);
            assert(next.drop_last() =~= seen);
            assert(next.last() == fields@[i as int]);
            assert(out@ =~= before + name_list(next));
        }
        i = i + 1;
    }
    assert(fields@.take(fields@.len() as int) =~= fields@);
}

/// Appends one more member to an object under construction, whose members
/// so far are `written`.
fn push_member(
    out: &mut String,
    Ghost(written): Ghost<Seq<Member>>,
    first: bool,
    key: &str,
    value: &str,
)
    requires
        old(out)@ == seq!['{'] + member_list(written),
        first == (written.len() == 0),
    ensures
        final(out)@ == seq!['{'] + member_list(written.push(Member { key: key@, value: value@ })),
{
    if !first {
        out.push(',');
    }
    out.push('"');
    out.append(key);
    out.push('"');
    out.push(':');
    out.append(value);
    proof {
        let member = Member { key: key@, value: value@ };
        let all = written.push(member);
        assert(all.drop_last() =~= written);
        assert(all.last() == member);
        assert(out@ =~= seq!['{'] + member_list(all));
    }
}

impl View for ConsolidatedShortInterestQuery {
    type V = QueryView;

    open spec fn view(&self) -> QueryView {
        QueryView {
            fields: match self.fields {
                Some(fields) => Some(fields@),
                None => None,
            },
            date_range: match self.date_range {
                Some(range) => Some((range.start@, range.end@)),
                None => None,
            },
            symbol: match self.symbol {
                Some(symbol) => Some(symbol@),
                None => None,
            },
            limit: self.limit,
            offset: self.offset,
        }
    }
}

impl ConsolidatedShortInterestQuery {
    /// A query for the first page of the records that pass the given
    /// filters.
    pub fn new(
        fields: Option<Vec<ConsolidatedShortInterestField>>,
        date_range: Option<Range<Date>>,
        symbol: Option<String>,
    ) -> (r: Self)
        ensures
            r.fields == fields,
            r.date_range == date_range,
            r.symbol == symbol,
            r.limit == MAX_RESULTS_PER_PAGE,
            r.offset == 0,
    {
        Self { fields, date_range, symbol, limit: MAX_RESULTS_PER_PAGE, offset: 0 }
    }

    /// The cursor of the view is the cursor that the paginator reads, and
    /// moving it changes nothing else: the three filters and the page size
    /// stay as they were.
    pub proof fn lemma_cursor(self, offset: u64)
        ensures
            self@.limit == self.page_limit(),
            self@.offset == self.page_offset(),
            self.at_offset(offset).fields == self.fields,
            self.at_offset(offset).date_range == self.date_range,
            self.at_offset(offset).symbol == self.symbol,
            self.at_offset(offset).limit == self.limit,
            self.at_offset(offset).offset == offset,
            self.at_offset(offset)@ == (QueryView { offset, ..self@ }),
    {
    }
}

impl Query for ConsolidatedShortInterestQuery {
    open spec fn page_limit(&self) -> u64 {
        self.limit
    }

    open spec fn page_offset(&self) -> u64 {
        self.offset
    }

    open spec fn at_offset(self, offset: u64) -> Self {
        Self {
            fields: self.fields,
            date_range: self.date_range,
            symbol: self.symbol,
            limit: self.limit,
            offset,
        }
    }

    open spec fn body(&self) -> Result<Seq<char>, ErrorView> {
        body_of(self@)
    }

    proof fn lemma_at_offset(self, offset: u64) {
    }

    fn limit(&self) -> (r: u64) {
        self.limit
    }

    fn offset(&self) -> (r: u64) {
        self.offset
    }

    fn move_cursor(self, by: u64) -> (r: Self) {
        Self {
            fields: self.fields,
            date_range: self.date_range,
            symbol: self.symbol,
            limit: self.limit,
            offset: self.offset + by,
        }
    }

    fn request_body(&self) -> (r: Result<String, Error>) {
        let literal: String = match &self.symbol {
            None => String::new(),
            Some(symbol) => match quote_json(symbol.as_str()) {
                Some(literal) => literal,
                None => {
                    return Err(
                        Error::QuerySerialization(
                            "the symbol cannot be written as a JSON string".to_owned(),
                        ),
                    );
                },
            },
        };
        let mut out = String::new();
        out.push('{');
        let ghost mut written: Seq<Member> = Seq::empty();
        let mut first = true;
        assert(out@ =~= seq!['{'] + member_list(written));
        if let Some(fields) = &self.fields {
            let mut value = String::new();
            value.push('[');
            push_name_list(&mut value, fields);
            value.push(']');
            assert(value@ =~= fields_value(fields@));
            push_member(&mut out, Ghost(written), first, "fields", value.as_str());
            proof {
                written = written.push(Member { key: "fields"@, value: value@ });
            }
            first = false;
        }
        assert(written =~= fields_member(self@));
        if let Some(range) = &self.date_range {
            let mut value = "[{\"fieldName\":\"settlementDate\",\"startDate\":\"".to_owned();
            range.start.push_text(&mut value);
            value.append("\",\"endDate\":\"");
            range.end.push_text(&mut value);
            value.append("\"}]");
            assert(value@ =~= date_range_value(range.start@, range.end@));
            push_member(&mut out, Ghost(written), first, "dateRangeFilters", value.as_str());
            proof {
                written = written.push(Member { key: "dateRangeFilters"@, value: value@ });
            }
            first = false;
        }
        assert(written =~= fields_member(self@) + date_range_member(self@));
        if self.symbol.is_some() {
            let mut value = "[{\"fieldName\":\"symbolCode\",\"fieldValue\":".to_owned();
            value.append(literal.as_str());
            value.append(",\"compareType\":\"EQUAL\"}]");
            assert(value@ =~= symbol_value(literal@));
            push_member(&mut out, Ghost(written), first, "compareFilters", value.as_str());
            proof {
                written = written.push(Member { key: "compareFilters"@, value: value@ });
            }
            first = false;
        }
        assert(written =~= fields_member(self@) + date_range_member(self@) + symbol_member(
            self@,
            literal@,
        ));
        let mut limit = String::new();
        push_decimal(&mut limit, self.limit);
        assert(limit@ =~= decimal(self.limit as nat));
        push_member(&mut out, Ghost(written), first, "limit", limit.as_str());
        proof {
            written = written.push(Member { key: "limit"@, value: limit@ });
        }
        let mut offset = String::new();
        push_decimal(&mut offset, self.offset);
        assert(offset@ =~= decimal(self.offset as nat));
        push_member(&mut out, Ghost(written), false, "offset", offset.as_str());
        proof {
            written = written.push(Member { key: "offset"@, value: offset@ });
            assert(written =~= members(self@, literal@));
        }
        out.push('}');
        assert(out@ =~= object_text(members(self@, literal@)));
        Ok(out)
    }
}

/// Whether one of `members` has the key `key`.
pub open spec fn has_key(members: Seq<Member>, key: Seq<char>) -> bool {
    exists|i: int| 0 <= i < members.len() && (#[trigger] members[i]).key == key
}

proof fn lemma_keys_spelled()
    ensures
        "fields"@.len() == 6,
        "dateRangeFilters"@.len() == 16,
        "compareFilters"@.len() == 14,
        "limit"@.len() == 5,
        "offset"@.len() == 6,
        "fields"@[0] == 'f',
        "offset"@[0] == 'o',
{
    reveal_strlit("fields");
    reveal_strlit("dateRangeFilters");
    reveal_strlit("compareFilters");
    reveal_strlit("limit");
    reveal_strlit("offset");
}

/// Where the members of a request body stand: the filters that are set come
/// first, each under its key, and the two members of the cursor come last.
proof fn lemma_member_positions(query: QueryView, literal: Seq<char>)
    ensures
        ({
            let all = members(query, literal);
            let f = fields_member(query).len() as int;
            let d = date_range_member(query).len() as int;
            let c = symbol_member(query, literal).len() as int;
            &&& f == if query.fields is Some { 1int } else { 0int }
            &&& d == if query.date_range is Some { 1int } else { 0int }
            &&& c == if query.symbol is Some { 1int } else { 0int }
            &&& all.len() == f + d + c + 2
            &&& query.fields is Some ==> all[0].key == "fields"@
            &&& query.date_range is Some ==> all[f].key == "dateRangeFilters"@
            &&& query.symbol is Some ==> all[f + d].key == "compareFilters"@
            &&& all[f + d + c].key == "limit"@
            &&& all[f + d + c + 1].key == "offset"@
        }),
{
}

/// A request body has a member for a filter exactly where the query sets
/// that filter: a query without date range has no member `dateRangeFilters`,
/// one without symbol no member `compareFilters`, one that selects no fields
/// no member `fields`.  The two members of the cursor are always there.
pub proof fn lemma_unset_filters_are_omitted(query: QueryView, literal: Seq<char>)
    ensures
        has_key(members(query, literal), "fields"@) <==> query.fields is Some,
        has_key(members(query, literal), "dateRangeFilters"@) <==> query.date_range is Some,
        has_key(members(query, literal), "compareFilters"@) <==> query.symbol is Some,
        has_key(members(query, literal), "limit"@),
        has_key(members(query, literal), "offset"@),
{
    lemma_keys_spelled();
    lemma_member_positions(query, literal);
    let all = members(query, literal);
    let f = fields_member(query).len() as int;
    let d = date_range_member(query).len() as int;
    let c = symbol_member(query, literal).len() as int;
    assert forall|i: int| 0 <= i < all.len() implies {
        &&& (#[trigger] all[i]).key == "fields"@ ==> query.fields is Some
        &&& all[i].key == "dateRangeFilters"@ ==> query.date_range is Some
        &&& all[i].key == "compareFilters"@ ==> query.symbol is Some
    } by {
        if i < f {
            assert(all[i].key == "fields"@);
        } else if i < f + d {
            assert(all[i].key == "dateRangeFilters"@);
        } else if i < f + d + c {
            assert(all[i].key == "compareFilters"@);
        } else if i == f + d + c {
            assert(all[i].key == "limit"@);
        } else {
            assert(all[i].key == "offset"@);
        }
    }
}

/// No two members of a request body have the same key: whoever reads the
/// body by key finds each value, in whatever order the members stand.
pub proof fn lemma_member_keys_differ(query: QueryView, literal: Seq<char>, i: int, j: int)
    requires
        0 <= i < j < members(query, literal).len(),
    ensures
        members(query, literal)[i].key != members(query, literal)[j].key,
{
    lemma_keys_spelled();
    lemma_member_positions(query, literal);
}

/// The value of the first of `members` that has the key `key`.
pub open spec fn value_of(members: Seq<Member>, key: Seq<char>) -> Option<Seq<char>>
    decreases members.len(),
{
    if members.len() == 0 {
        None
    } else if members[0].key == key {
        Some(members[0].value)
    } else {
        value_of(members.drop_first(), key)
    }
}

/// The member that a reader finds under `key`, where there is one.
pub open spec fn member_read(members: Seq<Member>, key: Seq<char>) -> Seq<Member> {
    match value_of(members, key) {
        Some(value) => seq![Member { key, value }],
        None => Seq::empty(),
    }
}

/// What a reader finds that looks for each key of a request body in turn.
pub open spec fn read_by_key(members: Seq<Member>) -> Seq<Member> {
    member_read(members, "fields"@) + member_read(members, "dateRangeFilters"@) + member_read(
        members,
        "compareFilters"@,
    ) + member_read(members, "limit"@) + member_read(members, "offset"@)
}

proof fn lemma_value_of(members: Seq<Member>, key: Seq<char>)
    ensures
        match value_of(members, key) {
            Some(value) => members.contains(Member { key, value }),
            None => !has_key(members, key),
        },
    decreases members.len(),
{
    if members.len() > 0 {
        if members[0].key == key {
            assert(members[0] == Member { key, value: members[0].value });
        } else {
            let rest = members.drop_first();
            lemma_value_of(rest, key);
            match value_of(rest, key) {
                Some(value) => {
                    let i = choose|i: int| 0 <= i < rest.len() && rest[i] == Member { key, value };
                    assert(members[i + 1] == Member { key, value });
                },
                None => {
                    assert forall|i: int| 0 <= i < members.len() implies (
                    #[trigger] members[i]).key != key by {
                        if i > 0 {
                            assert(rest[i - 1] == members[i]);
                        }
                    }
                },
            }
        }
    }
}

/// Under a key, a reader of the shuffled members finds the member that the
/// body has under that key, and nothing where the body has none.
proof fn lemma_member_read(
    query: QueryView,
    literal: Seq<char>,
    shuffled: Seq<Member>,
    key: Seq<char>,
    at: int,
)
    requires
        forall|m: Member| shuffled.contains(m) <==> members(query, literal).contains(m),
        0 <= at < members(query, literal).len() ==> members(query, literal)[at].key == key,
        !(0 <= at < members(query, literal).len()) ==> !has_key(members(query, literal), key),
    ensures
        member_read(shuffled, key) == if 0 <= at < members(query, literal).len() {
            seq![members(query, literal)[at]]
        } else {
            Seq::<Member>::empty()
        },
{
    let all = members(query, literal);
    lemma_value_of(shuffled, key);
    match value_of(shuffled, key) {
        Some(value) => {
            let found = Member { key, value };
            assert(all.contains(found));
            let i = choose|i: int| 0 <= i < all.len() && all[i] == found;
            assert(all[i].key == key);
            if 0 <= at < all.len() {
                if i < at {
                    lemma_member_keys_differ(query, literal, i, at);
                } else if at < i {
                    lemma_member_keys_differ(query, literal, at, i);
                }
                assert(seq![found] =~= seq![all[at]]);
            } else {
                assert(has_key(all, key));
            }
        },
        None => {
            if 0 <= at < all.len() {
                assert(all.contains(all[at]));
                assert(shuffled.contains(all[at]));
                let j = choose|j: int| 0 <= j < shuffled.len() && shuffled[j] == all[at];
                assert(shuffled[j].key == key);
                assert(has_key(shuffled, key));
            }
        },
    }
}

/// A request body that is read back by key is the same body, in whatever
/// order its members stood: whoever holds exactly the members of the body
/// and looks for each key in turn finds the members of the body, with the same
/// keys and the same values.
pub proof fn lemma_body_read_by_key_is_the_same(
    query: QueryView,
    literal: Seq<char>,
    shuffled: Seq<Member>,
)
    requires
        forall|m: Member| shuffled.contains(m) <==> members(query, literal).contains(m),
    ensures
        read_by_key(shuffled) == members(query, literal),
{
    lemma_keys_spelled();
    lemma_unset_filters_are_omitted(query, literal);
    lemma_member_positions(query, literal);
    let all = members(query, literal);
    let f = fields_member(query).len() as int;
    let d = date_range_member(query).len() as int;
    let c = symbol_member(query, literal).len() as int;
    lemma_member_read(query, literal, shuffled, "fields"@, if query.fields is Some {
        0
    } else {
        -1
    });
    lemma_member_read(
        query,
        literal,
        shuffled,
        "dateRangeFilters"@,
        if query.date_range is Some {
            f
        } else {
            -1
        },
    );
    lemma_member_read(
        query,
        literal,
        shuffled,
        "compareFilters"@,
        if query.symbol is Some {
            f + d
        } else {
            -1
        },
    );
    lemma_member_read(query, literal, shuffled, "limit"@, f + d + c);
    lemma_member_read(query, literal, shuffled, "offset"@, f + d + c + 1);
    assert(read_by_key(shuffled) =~= all);
}

} // verus!
