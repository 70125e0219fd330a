//! SQL text of the full-text search index: table and column names, column
//! types, sort clauses and the `WHERE` clause that a filter list compiles to.

use vstd::prelude::*;
use crate::text::{decimal, push_char, push_decimal, push_str};

verus! {

/// The search indexes kept by the store.
#[derive(Clone, Copy, PartialEq, Eq, Structural)]
pub enum SearchIndex {
    Email,
    Calendar,
    Contacts,
    File,
    Tracing,
    InMemory,
}

#[derive(Clone, Copy, PartialEq, Eq, Structural)]
pub enum EmailSearchField {
    From,
    To,
    Cc,
    Bcc,
    Subject,
    Body,
    Attachment,
    ReceivedAt,
    SentAt,
    Size,
    HasAttachment,
    Headers,
}

#[derive(Clone, Copy, PartialEq, Eq, Structural)]
pub enum CalendarSearchField {
    Title,
    Description,
    Location,
    Owner,
    Attendee,
    Start,
    Uid,
}

#[derive(Clone, Copy, PartialEq, Eq, Structural)]
pub enum ContactSearchField {
    Member,
    Kind,
    Name,
    Nickname,
    Organization,
    Email,
    Phone,
    OnlineService,
    Address,
    Note,
    Uid,
}

#[derive(Clone, Copy, PartialEq, Eq, Structural)]
pub enum FileSearchField {
    Name,
    Content,
}

#[derive(Clone, Copy, PartialEq, Eq, Structural)]
pub enum TracingSearchField {
    EventType,
    QueueId,
    Keywords,
}

/// A column of a search index.
#[derive(Clone, Copy, PartialEq, Eq, Structural)]
pub enum SearchField {
    AccountId,
    DocumentId,
    Id,
    Email(EmailSearchField),
    Calendar(CalendarSearchField),
    Contact(ContactSearchField),
    File(FileSearchField),
    Tracing(TracingSearchField),
}

/// Comparison of a column with a value.
#[derive(Clone, Copy, PartialEq, Eq, Structural)]
pub enum SearchOperator {
    LowerThan,
    LowerEqualThan,
    GreaterThan,
    GreaterEqualThan,
    Equal,
    Contains,
}

/// Languages that text values are tagged with.
#[derive(Clone, Copy, PartialEq, Eq, Structural)]
pub enum Language {
    Esperanto,
    English,
    Russian,
    Mandarin,
    Spanish,
    Portuguese,
    Italian,
    Bengali,
    French,
    German,
    Ukrainian,
    Georgian,
    Arabic,
    Hindi,
    Japanese,
    Hebrew,
    Yiddish,
    Polish,
    Amharic,
    Javanese,
    Korean,
    Bokmal,
    Danish,
    Swedish,
    Finnish,
    Turkish,
    Dutch,
    Hungarian,
    Czech,
    Greek,
    Bulgarian,
    Belarusian,
    Marathi,
    Kannada,
    Romanian,
    Slovene,
    Croatian,
    Serbian,
    Macedonian,
    Lithuanian,
    Latvian,
    Estonian,
    Tamil,
    Vietnamese,
    Urdu,
    Thai,
    Gujarati,
    Uzbek,
    Punjabi,
    Azerbaijani,
    Indonesian,
    Telugu,
    Persian,
    Malayalam,
    Oriya,
    Burmese,
    Nepali,
    Sinhalese,
    Khmer,
    Turkmen,
    Akan,
    Zulu,
    Shona,
    Afrikaans,
    Latin,
    Slovak,
    Catalan,
    Tagalog,
    Armenian,
    Unknown,
    NoLanguage,
}

/// A value that a column is compared with.
pub enum SearchValue {
    Text { value: String, language: Language },
    KeyValues(Vec<(String, String)>),
    Int(i64),
    Uint(u64),
    Boolean(bool),
}

/// One element of a filter list in prefix form: a comparison, the opening of
/// a group (`And`, `Or`, `Not`) or the end of the innermost group.
pub enum SearchFilter {
    Operator { field: SearchField, op: SearchOperator, value: SearchValue },
    And,
    Or,
    Not,
    End,
    DocumentSet(Vec<u32>),
}

/// One element of a sort list.
#[derive(Clone, Copy)]
pub enum SearchComparator {
    Field { field: SearchField, ascending: bool },
    DocumentSet,
    SortedSet,
}

/// What a query parameter is bound to, by the position of its filter in the
/// filter list: the filter's value; the key of the first key-value pair of
/// that value (in MySQL as the JSON path `$.` and the quoted key); the value
/// of that pair, or (MySQL) that value between two `%` wildcards; and, for a
/// MySQL full-text match, the text value as a quoted phrase or its words,
/// each marked as required.
#[derive(Clone, Copy, Debug, PartialEq, Eq, Structural)]
pub enum FilterParam {
    Value(usize),
    Key(usize),
    KeyValue(usize),
    KeyPattern(usize),
    Phrase(usize),
    Words(usize),
}

// ---------------------------------------------------------------------------
// Names and types
// ---------------------------------------------------------------------------

/// The table that holds a search index.
pub open spec fn table_name(i: SearchIndex) -> Seq<char> {
    match i {
        SearchIndex::Email => "s_email"@,
        SearchIndex::Calendar => "s_cal"@,
        SearchIndex::Contacts => "s_card"@,
        SearchIndex::File => "s_file"@,
        SearchIndex::Tracing => "s_trace"@,
        SearchIndex::InMemory => ""@,
    }
}

pub open spec fn email_column(f: EmailSearchField) -> Seq<char> {
    match f {
        EmailSearchField::From => "fadr"@,
        EmailSearchField::To => "tadr"@,
        EmailSearchField::Cc => "cc"@,
        EmailSearchField::Bcc => "bcc"@,
        EmailSearchField::Subject => "subj"@,
        EmailSearchField::Body => "body"@,
        EmailSearchField::Attachment => "atta"@,
        EmailSearchField::ReceivedAt => "rcvd"@,
        EmailSearchField::SentAt => "sent"@,
        EmailSearchField::Size => "size"@,
        EmailSearchField::HasAttachment => "hatt"@,
        EmailSearchField::Headers => "hdrs"@,
    }
}

pub open spec fn calendar_column(f: CalendarSearchField) -> Seq<char> {
    match f {
        CalendarSearchField::Title => "titl"@,
        CalendarSearchField::Description => "dscd"@,
        CalendarSearchField::Location => "locn"@,
        CalendarSearchField::Owner => "ownr"@,
        CalendarSearchField::Attendee => "atnd"@,
        CalendarSearchField::Start => "strt"@,
        CalendarSearchField::Uid => "uid"@,
    }
}

pub open spec fn contact_column(f: ContactSearchField) -> Seq<char> {
    match f {
        ContactSearchField::Member => "mmbr"@,
        ContactSearchField::Name => "name"@,
        ContactSearchField::Nickname => "nick"@,
        ContactSearchField::Organization => "orgn"@,
        ContactSearchField::Email => "eml"@,
        ContactSearchField::Phone => "phon"@,
        ContactSearchField::OnlineService => "olsv"@,
        ContactSearchField::Address => "addr"@,
        ContactSearchField::Note => "note"@,
        ContactSearchField::Kind => "kind"@,
        ContactSearchField::Uid => "uid"@,
    }
}

pub open spec fn file_column(f: FileSearchField) -> Seq<char> {
    match f {
        FileSearchField::Name => "name"@,
        FileSearchField::Content => "body"@,
    }
}

pub open spec fn tracing_column(f: TracingSearchField) -> Seq<char> {
    match f {
        TracingSearchField::QueueId => "qid"@,
        TracingSearchField::EventType => "etyp"@,
        TracingSearchField::Keywords => "kwds"@,
    }
}

/// The column of a field; the SQL backends share the names.
pub open spec fn column_name(f: SearchField) -> Seq<char> {
    match f {
        SearchField::AccountId => "accid"@,
        SearchField::DocumentId => "docid"@,
        SearchField::Id => "id"@,
        SearchField::Email(e) => email_column(e),
        SearchField::Calendar(c) => calendar_column(c),
        SearchField::Contact(c) => contact_column(c),
        SearchField::File(c) => file_column(c),
        SearchField::Tracing(c) => tracing_column(c),
    }
}

/// The MySQL column type of a field.
pub open spec fn mysql_type(f: SearchField) -> Seq<char> {
    match f {
        SearchField::AccountId => "INT NOT NULL"@,
        SearchField::DocumentId => "INT NOT NULL"@,
        SearchField::Id => "BIGINT NOT NULL"@,
        SearchField::Email(e) => match e {
            EmailSearchField::ReceivedAt | EmailSearchField::SentAt => "BIGINT"@,
            EmailSearchField::Size => "INT"@,
            EmailSearchField::HasAttachment => "BOOLEAN"@,
            EmailSearchField::Headers => "JSON"@,
            EmailSearchField::Body | EmailSearchField::Attachment => "MEDIUMTEXT"@,
            _ => "TEXT"@,
        },
        SearchField::Calendar(c) => match c {
            CalendarSearchField::Start => "BIGINT NOT NULL"@,
            _ => "TEXT"@,
        },
        SearchField::Contact(_) => "TEXT"@,
        SearchField::File(c) => match c {
            FileSearchField::Name => "TEXT"@,
            FileSearchField::Content => "MEDIUMTEXT"@,
        },
        SearchField::Tracing(c) => match c {
            TracingSearchField::Keywords => "TEXT"@,
            _ => "BIGINT"@,
        },
    }
}

/// The PostgreSQL column type of a field.
pub open spec fn psql_type(f: SearchField) -> Seq<char> {
    match f {
        SearchField::AccountId => "INTEGER NOT NULL"@,
        SearchField::DocumentId => "INTEGER NOT NULL"@,
        SearchField::Id => "BIGINT NOT NULL"@,
        SearchField::Email(e) => match e {
            EmailSearchField::ReceivedAt | EmailSearchField::SentAt => "BIGINT"@,
            EmailSearchField::Size => "INTEGER"@,
            EmailSearchField::HasAttachment => "BOOLEAN"@,
            EmailSearchField::Headers => "JSONB"@,
            _ => "TSVECTOR"@,
        },
        SearchField::Calendar(c) => match c {
            CalendarSearchField::Start => "BIGINT"@,
            CalendarSearchField::Uid => "TEXT"@,
            _ => "TSVECTOR"@,
        },
        SearchField::Contact(c) => match c {
            ContactSearchField::Kind | ContactSearchField::Uid => "TEXT"@,
            _ => "TSVECTOR"@,
        },
        SearchField::File(_) => "TSVECTOR"@,
        SearchField::Tracing(c) => match c {
            TracingSearchField::Keywords => "TSVECTOR"@,
            _ => "BIGINT"@,
        },
    }
}

/// Whether a field is indexed for full-text search: exactly the fields that
/// PostgreSQL stores as a `TSVECTOR`.
pub open spec fn is_text_field(f: SearchField) -> bool {
    match f {
        SearchField::Email(e) => match e {
            EmailSearchField::From | EmailSearchField::To | EmailSearchField::Cc
            | EmailSearchField::Bcc | EmailSearchField::Subject | EmailSearchField::Body
            | EmailSearchField::Attachment => true,
            _ => false,
        },
        SearchField::Calendar(c) => match c {
            CalendarSearchField::Start | CalendarSearchField::Uid => false,
            _ => true,
        },
        SearchField::Contact(c) => match c {
            ContactSearchField::Kind | ContactSearchField::Uid => false,
            _ => true,
        },
        SearchField::File(_) => true,
        SearchField::Tracing(c) => c is Keywords,
        _ => false,
    }
}

/// The PostgreSQL sort column of a field, where it has one.
pub open spec fn psql_sort(f: SearchField) -> Option<Seq<char>> {
    match f {
        SearchField::Email(EmailSearchField::From) => Some("s_fr"@),
        SearchField::Email(EmailSearchField::To) => Some("s_to"@),
        SearchField::Email(EmailSearchField::Subject) => Some("s_sj"@),
        _ => None,
    }
}

/// The type of the PostgreSQL sort column of a field, where it has one.
pub open spec fn psql_sort_type(f: SearchField) -> Option<Seq<char>> {
    match psql_sort(f) {
        Some(_) => Some("TEXT"@),
        None => None,
    }
}

/// The column that PostgreSQL sorts and compares a field by.
pub open spec fn psql_order_column(f: SearchField) -> Seq<char> {
    match psql_sort(f) {
        Some(s) => s,
        None => column_name(f),
    }
}

impl SearchIndex {
    /// The MySQL table of the index.
    pub fn mysql_table(&self) -> (r: &'static str)
        ensures
            r@ == table_name(*self),
    {
        match self {
            SearchIndex::Email => "s_email",
            SearchIndex::Calendar => "s_cal",
            SearchIndex::Contacts => "s_card",
            SearchIndex::File => "s_file",
            SearchIndex::Tracing => "s_trace",
            SearchIndex::InMemory => "",
        }
    }

    /// The PostgreSQL table of the index.
    pub fn psql_table(&self) -> (r: &'static str)
        ensures
            r@ == table_name(*self),
    {
        match self {
            SearchIndex::Email => "s_email",
            SearchIndex::Calendar => "s_cal",
            SearchIndex::Contacts => "s_card",
            SearchIndex::File => "s_file",
            SearchIndex::Tracing => "s_trace",
            SearchIndex::InMemory => "",
        }
    }
}

impl EmailSearchField {
    /// The column of the field.
    pub fn column(&self) -> (r: &'static str)
        ensures
            r@ == email_column(*self),
    {
        match self {
            EmailSearchField::From => "fadr",
            EmailSearchField::To => "tadr",
            EmailSearchField::Cc => "cc",
            EmailSearchField::Bcc => "bcc",
            EmailSearchField::Subject => "subj",
            EmailSearchField::Body => "body",
            EmailSearchField::Attachment => "atta",
            EmailSearchField::ReceivedAt => "rcvd",
            EmailSearchField::SentAt => "sent",
            EmailSearchField::Size => "size",
            EmailSearchField::HasAttachment => "hatt",
            EmailSearchField::Headers => "hdrs",
        }
    }

    /// The MySQL column type of the field.
    pub fn mysql_column_type(&self) -> (r: &'static str)
        ensures
            r@ == mysql_type(SearchField::Email(*self)),
    {
        match self {
            EmailSearchField::ReceivedAt | EmailSearchField::SentAt => "BIGINT",
            EmailSearchField::Size => "INT",
            EmailSearchField::HasAttachment => "BOOLEAN",
            EmailSearchField::Headers => "JSON",
            EmailSearchField::From => "TEXT",
            EmailSearchField::To => "TEXT",
            EmailSearchField::Cc => "TEXT",
            EmailSearchField::Bcc => "TEXT",
            EmailSearchField::Subject => "TEXT",
            EmailSearchField::Body => "MEDIUMTEXT",
            EmailSearchField::Attachment => "MEDIUMTEXT",
        }
    }

    /// The PostgreSQL column type of the field.
    pub fn psql_column_type(&self) -> (r: &'static str)
        ensures
            r@ == psql_type(SearchField::Email(*self)),
    {
        match self {
            EmailSearchField::ReceivedAt | EmailSearchField::SentAt => "BIGINT",
            EmailSearchField::Size => "INTEGER",
            EmailSearchField::HasAttachment => "BOOLEAN",
            EmailSearchField::Headers => "JSONB",
            _ => "TSVECTOR",
        }
    }

    /// The PostgreSQL sort column of the field, where it has one.
    pub fn psql_sort_column(&self) -> (r: Option<&'static str>)
        ensures
            r is Some == psql_sort(SearchField::Email(*self)) is Some,
            r is Some ==> r->0@ == psql_sort(SearchField::Email(*self))->0,
    {
        match self {
            EmailSearchField::From => Some("s_fr"),
            EmailSearchField::To => Some("s_to"),
            EmailSearchField::Subject => Some("s_sj"),
            _ => None,
        }
    }

    /// The type of the PostgreSQL sort column of the field, where it has one.
    pub fn psql_sort_column_type(&self) -> (r: Option<&'static str>)
        ensures
            r is Some == psql_sort_type(SearchField::Email(*self)) is Some,
            r is Some ==> r->0@ == psql_sort_type(SearchField::Email(*self))->0,
    {
        match self {
            EmailSearchField::From | EmailSearchField::To | EmailSearchField::Subject => {
                Some("TEXT")
            },
            _ => None,
        }
    }
}

impl CalendarSearchField {
    /// The column of the field.
    pub fn column(&self) -> (r: &'static str)
        ensures
            r@ == calendar_column(*self),
    {
        match self {
            CalendarSearchField::Title => "titl",
            CalendarSearchField::Description => "dscd",
            CalendarSearchField::Location => "locn",
            CalendarSearchField::Owner => "ownr",
            CalendarSearchField::Attendee => "atnd",
            CalendarSearchField::Start => "strt",
            CalendarSearchField::Uid => "uid",
        }
    }

    /// The MySQL column type of the field.
    pub fn mysql_column_type(&self) -> (r: &'static str)
        ensures
            r@ == mysql_type(SearchField::Calendar(*self)),
    {
        match self {
            CalendarSearchField::Start => "BIGINT NOT NULL",
            _ => "TEXT",
        }
    }

    /// The PostgreSQL column type of the field.
    pub fn psql_column_type(&self) -> (r: &'static str)
        ensures
            r@ == psql_type(SearchField::Calendar(*self)),
    {
        match self {
            CalendarSearchField::Start => "BIGINT",
            CalendarSearchField::Uid => "TEXT",
            _ => "TSVECTOR",
        }
    }
}

impl ContactSearchField {
    /// The column of the field.
    pub fn column(&self) -> (r: &'static str)
        ensures
            r@ == contact_column(*self),
    {
        match self {
            ContactSearchField::Member => "mmbr",
            ContactSearchField::Name => "name",
            ContactSearchField::Nickname => "nick",
            ContactSearchField::Organization => "orgn",
            ContactSearchField::Email => "eml",
            ContactSearchField::Phone => "phon",
            ContactSearchField::OnlineService => "olsv",
            ContactSearchField::Address => "addr",
            ContactSearchField::Note => "note",
            ContactSearchField::Kind => "kind",
            ContactSearchField::Uid => "uid",
        }
    }

    /// The PostgreSQL column type of the field.
    pub fn psql_column_type(&self) -> (r: &'static str)
        ensures
            r@ == psql_type(SearchField::Contact(*self)),
    {
        match self {
            ContactSearchField::Kind | ContactSearchField::Uid => "TEXT",
            _ => "TSVECTOR",
        }
    }
}

impl FileSearchField {
    /// The column of the field.
    pub fn column(&self) -> (r: &'static str)
        ensures
            r@ == file_column(*self),
    {
        match self {
            FileSearchField::Name => "name",
            FileSearchField::Content => "body",
        }
    }

    /// The MySQL column type of the field.
    pub fn mysql_column_type(&self) -> (r: &'static str)
        ensures
            r@ == mysql_type(SearchField::File(*self)),
    {
        match self {
            FileSearchField::Name => "TEXT",
            FileSearchField::Content => "MEDIUMTEXT",
        }
    }
}

impl TracingSearchField {
    /// The column of the field.
    pub fn column(&self) -> (r: &'static str)
        ensures
            r@ == tracing_column(*self),
    {
        match self {
            TracingSearchField::QueueId => "qid",
            TracingSearchField::EventType => "etyp",
            TracingSearchField::Keywords => "kwds",
        }
    }

    /// The MySQL column type of the field.
    pub fn mysql_column_type(&self) -> (r: &'static str)
        ensures
            r@ == mysql_type(SearchField::Tracing(*self)),
    {
        match self {
            TracingSearchField::EventType => "BIGINT",
            TracingSearchField::QueueId => "BIGINT",
            TracingSearchField::Keywords => "TEXT",
        }
    }

    /// The PostgreSQL column type of the field.
    pub fn psql_column_type(&self) -> (r: &'static str)
        ensures
            r@ == psql_type(SearchField::Tracing(*self)),
    {
        match self {
            TracingSearchField::EventType => "BIGINT",
            TracingSearchField::QueueId => "BIGINT",
            TracingSearchField::Keywords => "TSVECTOR",
        }
    }
}

impl SearchField {
    /// The column of the field.
    pub fn column(&self) -> (r: &'static str)
        ensures
            r@ == column_name(*self),
    {
        match self {
            SearchField::AccountId => "accid",
            SearchField::DocumentId => "docid",
            SearchField::Id => "id",
            SearchField::Email(field) => field.column(),
            SearchField::Calendar(field) => field.column(),
            SearchField::Contact(field) => field.column(),
            SearchField::File(field) => field.column(),
            SearchField::Tracing(field) => field.column(),
        }
    }

    /// The MySQL column type of the field.
    pub fn mysql_column_type(&self) -> (r: &'static str)
        ensures
            r@ == mysql_type(*self),
    {
        match self {
            SearchField::AccountId => "INT NOT NULL",
            SearchField::DocumentId => "INT NOT NULL",
            SearchField::Id => "BIGINT NOT NULL",
            SearchField::Email(field) => field.mysql_column_type(),
            SearchField::Calendar(field) => field.mysql_column_type(),
            SearchField::Contact(_) => "TEXT",
            SearchField::File(field) => field.mysql_column_type(),
            SearchField::Tracing(field) => field.mysql_column_type(),
        }
    }

    /// The PostgreSQL column type of the field.
    pub fn psql_column_type(&self) -> (r: &'static str)
        ensures
            r@ == psql_type(*self),
    {
        match self {
            SearchField::AccountId => "INTEGER NOT NULL",
            SearchField::DocumentId => "INTEGER NOT NULL",
            SearchField::Id => "BIGINT NOT NULL",
            SearchField::Email(field) => field.psql_column_type(),
            SearchField::Calendar(field) => field.psql_column_type(),
            SearchField::Contact(field) => field.psql_column_type(),
            SearchField::File(_) => "TSVECTOR",
            SearchField::Tracing(field) => field.psql_column_type(),
        }
    }

    /// The PostgreSQL sort column of the field, where it has one.
    pub fn psql_sort_column(&self) -> (r: Option<&'static str>)
        ensures
            r is Some == psql_sort(*self) is Some,
            r is Some ==> r->0@ == psql_sort(*self)->0,
    {
        match self {
            SearchField::Email(field) => field.psql_sort_column(),
            _ => None,
        }
    }

    /// The type of the PostgreSQL sort column of the field, where it has one.
    pub fn psql_sort_column_type(&self) -> (r: Option<&'static str>)
        ensures
            r is Some == psql_sort_type(*self) is Some,
            r is Some ==> r->0@ == psql_sort_type(*self)->0,
    {
        match self {
            SearchField::Email(field) => field.psql_sort_column_type(),
            _ => None,
        }
    }

    /// The column that PostgreSQL sorts and compares the field by: its sort
    /// column where it has one, else its column.
    pub fn psql_order_column(&self) -> (r: &'static str)
        ensures
            r@ == psql_order_column(*self),
    {
        match self.psql_sort_column() {
            Some(c) => c,
            None => self.column(),
        }
    }

    /// Whether the field is indexed for full-text search.
    pub fn is_text(&self) -> (r: bool)
        ensures
            r == is_text_field(*self),
    {
        match self {
            SearchField::Email(e) => match e {
                EmailSearchField::From | EmailSearchField::To | EmailSearchField::Cc
                | EmailSearchField::Bcc | EmailSearchField::Subject | EmailSearchField::Body
                | EmailSearchField::Attachment => true,
                _ => false,
            },
            SearchField::Calendar(c) => match c {
                CalendarSearchField::Start | CalendarSearchField::Uid => false,
                _ => true,
            },
            SearchField::Contact(c) => match c {
                ContactSearchField::Kind | ContactSearchField::Uid => false,
                _ => true,
            },
            SearchField::File(_) => true,
            SearchField::Tracing(c) => match c {
                TracingSearchField::Keywords => true,
                _ => false,
            },
            _ => false,
        }
    }
}

// ---------------------------------------------------------------------------
// Operators and sort clauses
// ---------------------------------------------------------------------------

/// The MySQL text of a comparison with a `?` placeholder.
pub open spec fn mysql_operator_text(op: SearchOperator) -> Seq<char> {
    match op {
        SearchOperator::LowerThan => "< ?"@,
        SearchOperator::LowerEqualThan => "<= ?"@,
        SearchOperator::GreaterThan => "> ?"@,
        SearchOperator::GreaterEqualThan => ">= ?"@,
        SearchOperator::Equal => "= ?"@,
        SearchOperator::Contains => "LIKE '%' CONCAT('%', ?, '%')"@,
    }
}

/// The PostgreSQL text of a comparison with the numbered placeholder `$pos`.
pub open spec fn psql_operator_text(op: SearchOperator, pos: nat) -> Seq<char> {
    match op {
        SearchOperator::LowerThan => "< $"@ + decimal(pos),
        SearchOperator::LowerEqualThan => "<= $"@ + decimal(pos),
        SearchOperator::GreaterThan => "> $"@ + decimal(pos),
        SearchOperator::GreaterEqualThan => ">= $"@ + decimal(pos),
        SearchOperator::Equal => "= $"@ + decimal(pos),
        SearchOperator::Contains => "LIKE '%' || $"@ + decimal(pos) + " || '%'"@,
    }
}

impl SearchOperator {
    /// Appends the MySQL text of the comparison.
    pub fn write_mysql(&self, query: &mut String)
        ensures
            final(query)@ == old(query)@ + mysql_operator_text(*self),
    {
        match self {
            SearchOperator::LowerThan => push_str(query, "< ?"),
            SearchOperator::LowerEqualThan => push_str(query, "<= ?"),
            SearchOperator::GreaterThan => push_str(query, "> ?"),
            SearchOperator::GreaterEqualThan => push_str(query, ">= ?"),
            SearchOperator::Equal => push_str(query, "= ?"),
            SearchOperator::Contains => push_str(query, "LIKE '%' CONCAT('%', ?, '%')"),
        }
    }

    /// Appends the PostgreSQL text of the comparison with placeholder `$value_pos`.
    pub fn write_pqsql(&self, query: &mut String, value_pos: usize)
        ensures
            final(query)@ == old(query)@ + psql_operator_text(*self, value_pos as nat),
    {
        match self {
            SearchOperator::LowerThan => push_str(query, "< $"),
            SearchOperator::LowerEqualThan => push_str(query, "<= $"),
            SearchOperator::GreaterThan => push_str(query, "> $"),
            SearchOperator::GreaterEqualThan => push_str(query, ">= $"),
            SearchOperator::Equal => push_str(query, "= $"),
            SearchOperator::Contains => push_str(query, "LIKE '%' || $"),
        }
        push_decimal(query, value_pos as u64);
        match self {
            SearchOperator::Contains => push_str(query, " || '%'"),
            _ => {},
        }
        assert(final(query)@ =~= old(query)@ + psql_operator_text(*self, value_pos as nat));
    }
}

/// The sort key of one comparator; `psql` selects the PostgreSQL column names.
pub open spec fn sort_item(c: SearchComparator, psql: bool) -> Seq<char> {
    match c {
        SearchComparator::Field { field, ascending } => (if psql {
            psql_order_column(field)
        } else {
            column_name(field)
        }) + (if ascending {
            " ASC"@
        } else {
            " DESC"@
        }),
        _ => Seq::empty(),
    }
}

/// The sort keys of a comparator list, separated by `, `.
pub open spec fn sort_list(s: Seq<SearchComparator>, psql: bool) -> Seq<char>
    decreases s.len(),
{
    if s.len() == 0 {
        Seq::empty()
    } else {
        sort_list(s.drop_last(), psql) + (if s.len() > 1 {
            ", "@
        } else {
            Seq::empty()
        }) + sort_item(s.last(), psql)
    }
}

fn write_sort(query: &mut String, sort: &[SearchComparator], psql: bool)
    ensures
        final(query)@ == old(query)@ + " ORDER BY "@ + sort_list(sort@, psql),
{
    push_str(query, " ORDER BY ");
    let mut i: usize = 0;
    while i < sort.len()
        invariant
            i <= sort@.len(),
            query@ == old(query)@ + " ORDER BY "@ + sort_list(sort@.take(i as int), psql),
        decreases sort.len() - i,
    {
        assert(sort@.take(i + 1).drop_last() =~= sort@.take(i as int));
        let ghost before = query@;
        if i > 0 {
            push_str(query, ", ");
        }
        match &sort[i] {
            SearchComparator::Field { field, ascending } => {
                if psql {
                    push_str(query, field.psql_order_column());
                } else {
                    push_str(query, field.column());
                }
                if *ascending {
                    push_str(query, " ASC");
                } else {
                    push_str(query, " DESC");
                }
            },
            _ => {},
        }
        proof {
            reveal_strlit("");
        }
        assert(query@ =~= before + (if i + 1 > 1 {
            ", "@
        } else {
            Seq::<char>::empty()
        }) + sort_item(sort@[i as int], psql));
        i = i + 1;
    }
    assert(sort@.take(sort@.len() as int) =~= sort@);
}

/// Appends the MySQL `ORDER BY` clause of a comparator list.
pub fn build_sort_mysql(query: &mut String, sort: &[SearchComparator])
    ensures
        final(query)@ == old(query)@ + " ORDER BY "@ + sort_list(sort@, false),
{
    write_sort(query, sort, false);
}

/// Appends the PostgreSQL `ORDER BY` clause of a comparator list.
pub fn build_sort_psql(query: &mut String, sort: &[SearchComparator])
    ensures
        final(query)@ == old(query)@ + " ORDER BY "@ + sort_list(sort@, true),
{
    write_sort(query, sort, true);
}

// ---------------------------------------------------------------------------
// PostgreSQL filters
// ---------------------------------------------------------------------------

/// The PostgreSQL text search configuration of a language, where it has one.
pub open spec fn pg_lang_name(l: Language) -> Option<Seq<char>> {
    match l {
        Language::English => Some("english"@),
        Language::Russian => Some("russian"@),
        Language::Spanish => Some("spanish"@),
        Language::Portuguese => Some("portuguese"@),
        Language::Italian => Some("italian"@),
        Language::French => Some("french"@),
        Language::German => Some("german"@),
        Language::Arabic => Some("arabic"@),
        Language::Hindi => Some("hindi"@),
        Language::Yiddish => Some("yiddish"@),
        Language::Polish => Some("polish"@),
        Language::Bokmal => Some("norwegian"@),
        Language::Danish => Some("danish"@),
        Language::Swedish => Some("swedish"@),
        Language::Finnish => Some("finnish"@),
        Language::Turkish => Some("turkish"@),
        Language::Dutch => Some("dutch"@),
        Language::Hungarian => Some("hungarian"@),
        Language::Czech => Some("czech"@),
        Language::Greek => Some("greek"@),
        Language::Romanian => Some("romanian"@),
        Language::Serbian => Some("serbian"@),
        Language::Lithuanian => Some("lithuanian"@),
        Language::Tamil => Some("tamil"@),
        Language::Indonesian => Some("indonesian"@),
        Language::Nepali => Some("nepali"@),
        Language::Catalan => Some("catalan"@),
        Language::Armenian => Some("armenian"@),
        _ => None,
    }
}

/// The PostgreSQL text search configuration of a language, where it has one.
pub fn pg_lang(lang: Language) -> (r: Option<&'static str>)
    ensures
        r is Some == pg_lang_name(lang) is Some,
        r is Some ==> r->0@ == pg_lang_name(lang)->0,
{
    match lang {
        Language::English => Some("english"),
        Language::Russian => Some("russian"),
        Language::Spanish => Some("spanish"),
        Language::Portuguese => Some("portuguese"),
        Language::Italian => Some("italian"),
        Language::French => Some("french"),
        Language::German => Some("german"),
        Language::Arabic => Some("arabic"),
        Language::Hindi => Some("hindi"),
        Language::Yiddish => Some("yiddish"),
        Language::Polish => Some("polish"),
        Language::Bokmal => Some("norwegian"),
        Language::Danish => Some("danish"),
        Language::Swedish => Some("swedish"),
        Language::Finnish => Some("finnish"),
        Language::Turkish => Some("turkish"),
        Language::Dutch => Some("dutch"),
        Language::Hungarian => Some("hungarian"),
        Language::Czech => Some("czech"),
        Language::Greek => Some("greek"),
        Language::Romanian => Some("romanian"),
        Language::Serbian => Some("serbian"),
        Language::Lithuanian => Some("lithuanian"),
        Language::Tamil => Some("tamil"),
        Language::Indonesian => Some("indonesian"),
        Language::Nepali => Some("nepali"),
        Language::Catalan => Some("catalan"),
        Language::Armenian => Some("armenian"),
        _ => None,
    }
}

/// The text search configuration used for a value: the language's own where
/// the store enables that language and PostgreSQL has one, else `simple`.
pub open spec fn text_language(v: SearchValue, langs: Seq<Language>) -> Seq<char> {
    match v {
        SearchValue::Text { language, .. } => if langs.contains(language) {
            match pg_lang_name(language) {
                Some(n) => n,
                None => "simple"@,
            }
        } else {
            "simple"@
        },
        _ => "simple"@,
    }
}

/// The state of the `WHERE` clause writer after a prefix of the filter list:
/// the text so far, the saved (`or_mode`, `first`) pairs of the enclosing
/// groups, whether the current group joins with `OR`, whether the next
/// element is the first of its group, and the bound parameters.
pub struct FilterText {
    pub text: Seq<char>,
    pub stack: Seq<(bool, bool)>,
    pub or_mode: bool,
    pub first: bool,
    pub params: Seq<FilterParam>,
}

/// The writer's state before any filter.
pub open spec fn filter_start() -> FilterText {
    FilterText { text: Seq::empty(), stack: Seq::empty(), or_mode: false, first: true, params: Seq::empty() }
}

/// Joins the next element to its group: ` AND ` or ` OR ` unless it is the first.
pub open spec fn connective(st: FilterText) -> FilterText {
    if st.first {
        FilterText { first: false, ..st }
    } else {
        FilterText { text: st.text + (if st.or_mode { " OR "@ } else { " AND "@ }), ..st }
    }
}

/// Whether a comparison is a full-text match.
pub open spec fn is_text_match(field: SearchField, op: SearchOperator) -> bool {
    is_text_field(field) && (op is Equal || op is Contains)
}

/// The text and parameters of the comparison at position `i`.
pub open spec fn comparison_step(
    s: FilterText,
    i: int,
    field: SearchField,
    op: SearchOperator,
    value: SearchValue,
    langs: Seq<Language>,
) -> FilterText {
    let pos = s.params.len() + 1;
    if is_text_match(field, op) {
        FilterText {
            text: s.text + column_name(field) + " @@ "@ + (if op is Equal {
                "phraseto_tsquery"@
            } else {
                "plainto_tsquery"@
            }) + "('"@ + text_language(value, langs) + "', $"@ + decimal(pos) + ")"@,
            params: s.params.push(FilterParam::Value(i as usize)),
            ..s
        }
    } else if value is KeyValues {
        let kv = value->KeyValues_0@[0];
        if kv.1@.len() > 0 {
            FilterText {
                text: s.text + column_name(field) + " "@ + "->> $"@ + decimal(pos) + " "@
                    + psql_operator_text(op, pos + 1),
                params: s.params.push(FilterParam::Key(i as usize)).push(
                    FilterParam::KeyValue(i as usize),
                ),
                ..s
            }
        } else {
            FilterText {
                text: s.text + column_name(field) + " "@ + " ? $"@ + decimal(pos),
                params: s.params.push(FilterParam::Key(i as usize)),
                ..s
            }
        }
    } else {
        FilterText {
            text: s.text + psql_order_column(field) + " "@ + psql_operator_text(op, pos),
            params: s.params.push(FilterParam::Value(i as usize)),
            ..s
        }
    }
}

/// The MySQL text and parameters of the comparison at position `i`.
pub open spec fn mysql_comparison_step(
    s: FilterText,
    i: int,
    field: SearchField,
    op: SearchOperator,
    value: SearchValue,
) -> FilterText {
    if is_text_match(field, op) {
        if value is Text {
            FilterText {
                text: s.text + "MATCH("@ + column_name(field) + ") AGAINST(? IN BOOLEAN MODE)"@,
                params: s.params.push(
                    if op is Equal {
                        FilterParam::Phrase(i as usize)
                    } else {
                        FilterParam::Words(i as usize)
                    },
                ),
                ..s
            }
        } else {
            s
        }
    } else if value is KeyValues {
        let kv = value->KeyValues_0@[0];
        if kv.1@.len() > 0 {
            if op is Equal {
                FilterText {
                    text: s.text + "JSON_EXTRACT("@ + column_name(field) + ", ?) = ?"@,
                    params: s.params.push(FilterParam::Key(i as usize)).push(
                        FilterParam::KeyValue(i as usize),
                    ),
                    ..s
                }
            } else {
                FilterText {
                    text: s.text + "JSON_EXTRACT("@ + column_name(field) + ", ?) LIKE ?"@,
                    params: s.params.push(FilterParam::Key(i as usize)).push(
                        FilterParam::KeyPattern(i as usize),
                    ),
                    ..s
                }
            }
        } else {
            FilterText {
                text: s.text + "JSON_CONTAINS_PATH("@ + column_name(field) + ", 'one', ?)"@,
                params: s.params.push(FilterParam::Key(i as usize)),
                ..s
            }
        }
    } else {
        FilterText {
            text: s.text + column_name(field) + " "@ + mysql_operator_text(op),
            params: s.params.push(FilterParam::Value(i as usize)),
            ..s
        }
    }
}

/// The writer's state after the filter at position `i`, in the MySQL
/// dialect where `mysql` holds and in the PostgreSQL one otherwise.
pub open spec fn filter_step(
    st: FilterText,
    i: int,
    f: SearchFilter,
    langs: Seq<Language>,
    mysql: bool,
) -> FilterText {
    match f {
        SearchFilter::Operator { field, op, value } => if mysql {
            mysql_comparison_step(connective(st), i, field, op, value)
        } else {
            comparison_step(connective(st), i, field, op, value, langs)
        },
        SearchFilter::And | SearchFilter::Or => {
            let s = connective(st);
            FilterText {
                text: s.text + "("@,
                stack: s.stack.push((s.or_mode, s.first)),
                or_mode: f is Or,
                first: true,
                ..s
            }
        },
        SearchFilter::Not => {
            let s = connective(st);
            FilterText {
                text: s.text + "NOT ("@,
                stack: s.stack.push((s.or_mode, s.first)),
                or_mode: false,
                first: true,
                ..s
            }
        },
        SearchFilter::End => {
            let top = if st.stack.len() > 0 {
                st.stack.last()
            } else {
                (false, true)
            };
            FilterText {
                text: st.text + ")"@,
                stack: if st.stack.len() > 0 {
                    st.stack.drop_last()
                } else {
                    st.stack
                },
                or_mode: top.0,
                first: top.1,
                ..st
            }
        },
        SearchFilter::DocumentSet(_) => st,
    }
}

/// The writer's state after a filter list.
pub open spec fn filter_fold(fs: Seq<SearchFilter>, langs: Seq<Language>, mysql: bool) -> FilterText
    decreases fs.len(),
{
    if fs.len() == 0 {
        filter_start()
    } else {
        filter_step(filter_fold(fs.drop_last(), langs, mysql), fs.len() - 1, fs.last(), langs, mysql)
    }
}

/// The filter position that a parameter is bound to.
pub open spec fn param_filter(p: FilterParam) -> int {
    match p {
        FilterParam::Value(i) => i as int,
        FilterParam::Key(i) => i as int,
        FilterParam::KeyValue(i) => i as int,
        FilterParam::KeyPattern(i) => i as int,
        FilterParam::Phrase(i) => i as int,
        FilterParam::Words(i) => i as int,
    }
}

/// Whether every MySQL full-text match compares with a text value.
pub open spec fn text_matches_have_text(fs: Seq<SearchFilter>) -> bool {
    forall|i: int|
        0 <= i < fs.len() ==> match #[trigger] fs[i] {
            SearchFilter::Operator { field, op, value } => is_text_match(field, op) ==> value is Text,
            _ => true,
        }
}

/// Whether every comparison that binds the first key-value pair of its
/// value has one.
pub open spec fn key_values_present(fs: Seq<SearchFilter>) -> bool {
    forall|i: int|
        0 <= i < fs.len() ==> match #[trigger] fs[i] {
            SearchFilter::Operator { field, op, value } => (!is_text_match(field, op)
                && value is KeyValues) ==> value->KeyValues_0@.len() > 0,
            _ => true,
        }
}

/// What one filter adds to the bound parameters: nothing, or up to two
/// parameters bound to that filter, which is then a comparison.
pub proof fn lemma_step_params(
    st: FilterText,
    i: int,
    f: SearchFilter,
    langs: Seq<Language>,
    mysql: bool,
)
    requires
        0 <= i <= usize::MAX,
    ensures
        filter_step(st, i, f, langs, mysql).params.len() <= st.params.len() + 2,
        filter_step(st, i, f, langs, mysql).params.subrange(0, st.params.len() as int) == st.params,
        forall|k: int|
            st.params.len() <= k < filter_step(st, i, f, langs, mysql).params.len() ==> param_filter(
                #[trigger] filter_step(st, i, f, langs, mysql).params[k],
            ) == i && f is Operator,
{
    let nx = filter_step(st, i, f, langs, mysql);
    assert(nx.params.subrange(0, st.params.len() as int) =~= st.params);
}

/// Every parameter that the `WHERE` clause binds belongs to a comparison of
/// the filter list, and the parameters come in the order of their filters.
pub proof fn lemma_params_bind_comparisons(fs: Seq<SearchFilter>, langs: Seq<Language>, mysql: bool)
    requires
        fs.len() <= usize::MAX,
    ensures
        forall|k: int|
            0 <= k < filter_fold(fs, langs, mysql).params.len() ==> {
                let i = #[trigger] param_filter(filter_fold(fs, langs, mysql).params[k]);
                0 <= i < fs.len() && fs[i] is Operator
            },
        forall|k: int, l: int|
            0 <= k <= l < filter_fold(fs, langs, mysql).params.len() ==> param_filter(
                #[trigger] filter_fold(fs, langs, mysql).params[k],
            ) <= param_filter(#[trigger] filter_fold(fs, langs, mysql).params[l]),
        filter_fold(fs, langs, mysql).params.len() <= 2 * fs.len(),
    decreases fs.len(),
{
    if fs.len() > 0 {
        let prev = fs.drop_last();
        let n = fs.len() - 1;
        lemma_params_bind_comparisons(prev, langs, mysql);
        let st = filter_fold(prev, langs, mysql);
        let nx = filter_fold(fs, langs, mysql);
        lemma_step_params(st, n, fs.last(), langs, mysql);
        assert(nx == filter_step(st, n, fs.last(), langs, mysql));
        assert forall|k: int| 0 <= k < nx.params.len() implies {
            let i = #[trigger] param_filter(nx.params[k]);
            0 <= i < fs.len() && fs[i] is Operator
        } by {
            if k < st.params.len() {
                assert(nx.params[k] == nx.params.subrange(0, st.params.len() as int)[k]);
                let i = param_filter(st.params[k]);
                assert(prev[i] == fs[i]);
            } else {
                assert(param_filter(nx.params[k]) == n);
            }
        }
        assert forall|k: int, l: int| 0 <= k <= l < nx.params.len() implies param_filter(
            #[trigger] nx.params[k],
        ) <= param_filter(#[trigger] nx.params[l]) by {
            if l < st.params.len() {
                assert(nx.params[k] == nx.params.subrange(0, st.params.len() as int)[k]);
                assert(nx.params[l] == nx.params.subrange(0, st.params.len() as int)[l]);
                assert(param_filter(st.params[k]) <= param_filter(st.params[l]));
            } else if k < st.params.len() {
                assert(nx.params[k] == nx.params.subrange(0, st.params.len() as int)[k]);
                assert(param_filter(st.params[k]) < fs.len());
                let i = param_filter(st.params[k]);
                assert(0 <= i < prev.len());
            } else {
            }
        }
    }
}

fn contains_language(langs: &[Language], l: Language) -> (r: bool)
    ensures
        r == langs@.contains(l),
{
    let mut i: usize = 0;
    while i < langs.len()
        invariant
            i <= langs@.len(),
            forall|j: int| 0 <= j < i ==> langs@[j] != l,
        decreases langs.len() - i,
    {
        if langs[i] == l {
            return true;
        }
        i = i + 1;
    }
    false
}

fn write_connective(query: &mut String, or_mode: bool, first: bool)
    ensures
        final(query)@ == old(query)@ + (if first {
            Seq::empty()
        } else if or_mode {
            " OR "@
        } else {
            " AND "@
        }),
{
    if !first {
        if or_mode {
            push_str(query, " OR ");
        } else {
            push_str(query, " AND ");
        }
    }
    proof {
        reveal_strlit("");
    }
    assert(final(query)@ =~= old(query)@ + (if first {
        Seq::empty()
    } else if or_mode {
        " OR "@
    } else {
        " AND "@
    }));
}

fn write_text_match(
    query: &mut String,
    params: &mut Vec<FilterParam>,
    i: usize,
    field: SearchField,
    op: SearchOperator,
    value: &SearchValue,
    langs: &[Language],
    Ghost(pre): Ghost<Seq<char>>,
    Ghost(s): Ghost<FilterText>,
)
    requires
        old(query)@ == pre + s.text,
        old(params)@ == s.params,
        old(params)@.len() < usize::MAX - 2,
        is_text_match(field, op),
    ensures
        final(query)@ == pre + comparison_step(s, i as int, field, op, *value, langs@).text,
        final(params)@ == comparison_step(s, i as int, field, op, *value, langs@).params,
{
    let value_pos = params.len() + 1;
    let ghost want = comparison_step(s, i as int, field, op, *value, langs@);
    push_str(query, field.column());
    push_str(query, " @@ ");
    match op {
        SearchOperator::Equal => push_str(query, "phraseto_tsquery"),
        _ => push_str(query, "plainto_tsquery"),
    }
    push_str(query, "('");
    let language = match value {
        SearchValue::Text { language, .. } => if contains_language(langs, *language) {
            match pg_lang(*language) {
                Some(n) => n,
                None => "simple",
            }
        } else {
            "simple"
        },
        _ => "simple",
    };
    push_str(query, language);
    push_str(query, "', $");
    push_decimal(query, value_pos as u64);
    push_str(query, ")");
    params.push(FilterParam::Value(i));
    assert(query@ =~= pre + want.text);
    assert(params@ =~= want.params);
}

fn write_key_value_match(
    query: &mut String,
    params: &mut Vec<FilterParam>,
    i: usize,
    field: SearchField,
    op: SearchOperator,
    kv: &Vec<(String, String)>,
    Ghost(pre): Ghost<Seq<char>>,
    Ghost(s): Ghost<FilterText>,
    Ghost(langs): Ghost<Seq<Language>>,
)
    requires
        old(query)@ == pre + s.text,
        old(params)@ == s.params,
        old(params)@.len() < usize::MAX - 2,
        !is_text_match(field, op),
        kv@.len() > 0,
    ensures
        final(query)@ == pre + comparison_step(
            s,
            i as int,
            field,
            op,
            SearchValue::KeyValues(*kv),
            langs,
        ).text,
        final(params)@ == comparison_step(
            s,
            i as int,
            field,
            op,
            SearchValue::KeyValues(*kv),
            langs,
        ).params,
{
    let value_pos = params.len() + 1;
    let ghost want = comparison_step(s, i as int, field, op, SearchValue::KeyValues(*kv), langs);
    push_str(query, field.column());
    push_str(query, " ");
    let v = &kv[0].1;
    params.push(FilterParam::Key(i));
    if v.as_str().unicode_len() > 0 {
        push_str(query, "->> $");
        push_decimal(query, value_pos as u64);
        push_str(query, " ");
        op.write_pqsql(query, params.len() + 1);
        params.push(FilterParam::KeyValue(i));
    } else {
        push_str(query, " ? $");
        push_decimal(query, value_pos as u64);
    }
    assert(query@ =~= pre + want.text);
    assert(params@ =~= want.params);
}

fn write_comparison(
    query: &mut String,
    params: &mut Vec<FilterParam>,
    i: usize,
    field: SearchField,
    op: SearchOperator,
    value: &SearchValue,
    langs: &[Language],
    Ghost(pre): Ghost<Seq<char>>,
    Ghost(s): Ghost<FilterText>,
)
    requires
        old(query)@ == pre + s.text,
        old(params)@ == s.params,
        old(params)@.len() < usize::MAX - 2,
        (!is_text_match(field, op) && value is KeyValues) ==> value->KeyValues_0@.len() > 0,
    ensures
        final(query)@ == pre + comparison_step(s, i as int, field, op, *value, langs@).text,
        final(params)@ == comparison_step(s, i as int, field, op, *value, langs@).params,
{
    if field.is_text() && (match op {
        SearchOperator::Equal | SearchOperator::Contains => true,
        _ => false,
    }) {
        write_text_match(query, params, i, field, op, value, langs, Ghost(pre), Ghost(s));
    } else {
        match value {
            SearchValue::KeyValues(kv) => {
                write_key_value_match(
                    query,
                    params,
                    i,
                    field,
                    op,
                    kv,
                    Ghost(pre),
                    Ghost(s),
                    Ghost(langs@),
                );
            },
            _ => {
                let value_pos = params.len() + 1;
                let ghost want = comparison_step(s, i as int, field, op, *value, langs@);
                push_str(query, field.psql_order_column());
                push_str(query, " ");
                op.write_pqsql(query, value_pos);
                params.push(FilterParam::Value(i));
                assert(query@ =~= pre + want.text);
                assert(params@ =~= want.params);
            },
        }
    }
}

fn write_comparison_mysql(
    query: &mut String,
    params: &mut Vec<FilterParam>,
    i: usize,
    field: SearchField,
    op: SearchOperator,
    value: &SearchValue,
    Ghost(pre): Ghost<Seq<char>>,
    Ghost(s): Ghost<FilterText>,
)
    requires
        old(query)@ == pre + s.text,
        old(params)@ == s.params,
        old(params)@.len() < usize::MAX - 2,
        (!is_text_match(field, op) && value is KeyValues) ==> value->KeyValues_0@.len() > 0,
    ensures
        final(query)@ == pre + mysql_comparison_step(s, i as int, field, op, *value).text,
        final(params)@ == mysql_comparison_step(s, i as int, field, op, *value).params,
{
    let ghost want = mysql_comparison_step(s, i as int, field, op, *value);
    let text_match = field.is_text() && (match op {
        SearchOperator::Equal | SearchOperator::Contains => true,
        _ => false,
    });
    if text_match {
        match value {
            SearchValue::Text { .. } => {
                push_str(query, "MATCH(");
                push_str(query, field.column());
                push_str(query, ") AGAINST(? IN BOOLEAN MODE)");
                match op {
                    SearchOperator::Equal => params.push(FilterParam::Phrase(i)),
                    _ => params.push(FilterParam::Words(i)),
                }
            },
            _ => {},
        }
    } else {
        match value {
            SearchValue::KeyValues(kv) => {
                params.push(FilterParam::Key(i));
                if kv[0].1.as_str().unicode_len() > 0 {
                    push_str(query, "JSON_EXTRACT(");
                    push_str(query, field.column());
                    match op {
                        SearchOperator::Equal => {
                            push_str(query, ", ?) = ?");
                            params.push(FilterParam::KeyValue(i));
                        },
                        _ => {
                            push_str(query, ", ?) LIKE ?");
                            params.push(FilterParam::KeyPattern(i));
                        },
                    }
                } else {
                    push_str(query, "JSON_CONTAINS_PATH(");
                    push_str(query, field.column());
                    push_str(query, ", 'one', ?)");
                }
            },
            _ => {
                push_str(query, field.column());
                push_str(query, " ");
                op.write_mysql(query);
                params.push(FilterParam::Value(i));
            },
        }
    }
    assert(query@ =~= pre + want.text);
    assert(params@ =~= want.params);
}

fn apply_filter(
    query: &mut String,
    params: &mut Vec<FilterParam>,
    stack: &mut Vec<(bool, bool)>,
    or_mode: &mut bool,
    first: &mut bool,
    i: usize,
    f: &SearchFilter,
    langs: &[Language],
    mysql: bool,
    Ghost(pre): Ghost<Seq<char>>,
    Ghost(st): Ghost<FilterText>,
)
    requires
        old(query)@ == pre + st.text,
        old(params)@ == st.params,
        old(stack)@ == st.stack,
        *old(or_mode) == st.or_mode,
        *old(first) == st.first,
        old(params)@.len() < usize::MAX - 2,
        match *f {
            SearchFilter::Operator { field, op, value } => (!is_text_match(field, op)
                && value is KeyValues) ==> value->KeyValues_0@.len() > 0,
            _ => true,
        },
    ensures
        final(query)@ == pre + filter_step(st, i as int, *f, langs@, mysql).text,
        final(params)@ == filter_step(st, i as int, *f, langs@, mysql).params,
        final(stack)@ == filter_step(st, i as int, *f, langs@, mysql).stack,
        *final(or_mode) == filter_step(st, i as int, *f, langs@, mysql).or_mode,
        *final(first) == filter_step(st, i as int, *f, langs@, mysql).first,
{
    let ghost want = filter_step(st, i as int, *f, langs@, mysql);
    match f {
        SearchFilter::Operator { field, op, value } => {
            write_connective(query, *or_mode, *first);
            *first = false;
            let ghost s = connective(st);
            assert(query@ =~= pre + s.text);
            if mysql {
                write_comparison_mysql(query, params, i, *field, *op, value, Ghost(pre), Ghost(s));
            } else {
                write_comparison(query, params, i, *field, *op, value, langs, Ghost(pre), Ghost(s));
            }
        },
        SearchFilter::And | SearchFilter::Or => {
            write_connective(query, *or_mode, *first);
            *first = false;
            stack.push((*or_mode, *first));
            *or_mode = match f {
                SearchFilter::Or => true,
                _ => false,
            };
            *first = true;
            push_str(query, "(");
            assert(query@ =~= pre + want.text);
        },
        SearchFilter::Not => {
            write_connective(query, *or_mode, *first);
            *first = false;
            stack.push((*or_mode, *first));
            *or_mode = false;
            *first = true;
            push_str(query, "NOT (");
            assert(query@ =~= pre + want.text);
        },
        SearchFilter::End => {
            let top = match stack.pop() {
                Some(p) => p,
                None => (false, true),
            };
            *or_mode = top.0;
            *first = top.1;
            push_str(query, ")");
            assert(query@ =~= pre + want.text);
        },
        SearchFilter::DocumentSet(_) => {},
    }
}

fn write_where(
    query: &mut String,
    filters: &[SearchFilter],
    languages: &[Language],
    mysql: bool,
) -> (r: Vec<FilterParam>)
    requires
        filters@.len() < usize::MAX / 4,
        key_values_present(filters@),
    ensures
        filters@.len() == 0 ==> final(query)@ == old(query)@ && r@.len() == 0,
        filters@.len() > 0 ==> final(query)@ == old(query)@ + " WHERE "@ + filter_fold(
            filters@,
            languages@,
            mysql,
        ).text,
        r@ == filter_fold(filters@, languages@, mysql).params,
{
    let mut params: Vec<FilterParam> = Vec::new();
    if filters.len() == 0 {
        return params;
    }
    push_str(query, " WHERE ");
    let ghost start = query@;
    let mut stack: Vec<(bool, bool)> = Vec::new();
    let mut or_mode = false;
    let mut first = true;
    let mut i: usize = 0;
    while i < filters.len()
        invariant
            i <= filters@.len(),
            filters@.len() < usize::MAX / 4,
            key_values_present(filters@),
            query@ == start + filter_fold(filters@.take(i as int), languages@, mysql).text,
            stack@ == filter_fold(filters@.take(i as int), languages@, mysql).stack,
            or_mode == filter_fold(filters@.take(i as int), languages@, mysql).or_mode,
            first == filter_fold(filters@.take(i as int), languages@, mysql).first,
            params@ == filter_fold(filters@.take(i as int), languages@, mysql).params,
        decreases filters.len() - i,
    {
        let ghost st = filter_fold(filters@.take(i as int), languages@, mysql);
        assert(filters@.take(i + 1).drop_last() =~= filters@.take(i as int));
        assert(filters@.take(i + 1).last() == filters@[i as int]);
        proof {
            lemma_params_bind_comparisons(filters@.take(i as int), languages@, mysql);
        }
        assert(match filters@[i as int] {
            SearchFilter::Operator { field, op, value } => (!is_text_match(field, op)
                && value is KeyValues) ==> value->KeyValues_0@.len() > 0,
            _ => true,
        });
        apply_filter(
            query,
            &mut params,
            &mut stack,
            &mut or_mode,
            &mut first,
            i,
            &filters[i],
            languages,
            mysql,
            Ghost(start),
            Ghost(st),
        );
        i = i + 1;
    }
    assert(filters@.take(filters@.len() as int) =~= filters@);
    params
}

/// Appends the PostgreSQL `WHERE` clause of a filter list, and returns what
/// its numbered parameters are bound to, in order. An empty list appends
/// nothing. `languages` are the languages that the store enables.
pub fn build_filter_psql(
    query: &mut String,
    filters: &[SearchFilter],
    languages: &[Language],
) -> (r: Vec<FilterParam>)
    requires
        filters@.len() < usize::MAX / 4,
        key_values_present(filters@),
    ensures
        filters@.len() == 0 ==> final(query)@ == old(query)@ && r@.len() == 0,
        filters@.len() > 0 ==> final(query)@ == old(query)@ + " WHERE "@ + filter_fold(
            filters@,
            languages@,
            false,
        ).text,
        r@ == filter_fold(filters@, languages@, false).params,
{
    write_where(query, filters, languages, false)
}

/// Appends the MySQL `WHERE` clause of a filter list, and returns what its
/// `?` placeholders are bound to, in order. An empty list appends nothing.
/// A full-text match is compared with a text value.
pub fn build_filter_mysql(query: &mut String, filters: &[SearchFilter]) -> (r: Vec<FilterParam>)
    requires
        filters@.len() < usize::MAX / 4,
        key_values_present(filters@),
        text_matches_have_text(filters@),
    ensures
        filters@.len() == 0 ==> final(query)@ == old(query)@ && r@.len() == 0,
        filters@.len() > 0 ==> final(query)@ == old(query)@ + " WHERE "@ + filter_fold(
            filters@,
            Seq::empty(),
            true,
        ).text,
        r@ == filter_fold(filters@, Seq::empty(), true).params,
{
    let languages: Vec<Language> = Vec::new();
    assert(languages@ =~= Seq::<Language>::empty());
    write_where(query, filters, languages.as_slice(), true)
}


/// Each comparison is written with the SQL symbol it names: a lower-than
/// comparison starts with `<`, a greater-than one with `>`, an equality with
/// `=`, and the second character is `=` exactly for the inclusive ones; the
/// MySQL text is that symbol and its `?` placeholder, and the PostgreSQL
/// text uses the same symbol before its numbered placeholder.
pub proof fn lemma_comparison_symbols(op: SearchOperator, pos: nat)
    requires
        !(op is Contains),
    ensures
        (op is LowerThan || op is LowerEqualThan) ==> mysql_operator_text(op)[0] == '<',
        (op is GreaterThan || op is GreaterEqualThan) ==> mysql_operator_text(op)[0] == '>',
        op is Equal ==> mysql_operator_text(op)[0] == '=',
        (op is LowerEqualThan || op is GreaterEqualThan) <==> mysql_operator_text(op)[1] == '=',
        mysql_operator_text(op).len() >= 3,
        mysql_operator_text(op).subrange(mysql_operator_text(op).len() - 2, mysql_operator_text(op).len() as int)
            == " ?"@,
        forall|i: int| 0 <= i < mysql_operator_text(op).len() - 2 ==> #[trigger] mysql_operator_text(op)[i] != ' ',
        psql_operator_text(op, pos).len() >= mysql_operator_text(op).len(),
        psql_operator_text(op, pos).subrange(0, mysql_operator_text(op).len() - 1)
            == mysql_operator_text(op).subrange(0, mysql_operator_text(op).len() - 1),
        psql_operator_text(op, pos)[mysql_operator_text(op).len() - 1] == '$',
        psql_operator_text(op, pos).subrange(
            mysql_operator_text(op).len() as int,
            psql_operator_text(op, pos).len() as int,
        ) == decimal(pos),
{
    reveal_strlit("< ?");
    reveal_strlit("<= ?");
    reveal_strlit("> ?");
    reveal_strlit(">= ?");
    reveal_strlit("= ?");
    reveal_strlit("< $");
    reveal_strlit("<= $");
    reveal_strlit("> $");
    reveal_strlit(">= $");
    reveal_strlit("= $");
    reveal_strlit(" ?");
    let m = mysql_operator_text(op);
    let q = psql_operator_text(op, pos);
    assert(m.subrange(m.len() - 2, m.len() as int) =~= " ?"@);
    assert(q.subrange(0, m.len() - 1) =~= m.subrange(0, m.len() - 1));
    assert(q.subrange(m.len() as int, q.len() as int) =~= decimal(pos));
}

} // verus!
