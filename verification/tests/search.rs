use stalwart::search::{
    build_filter_mysql, build_filter_psql, build_sort_mysql, build_sort_psql, pg_lang, EmailSearchField, FilterParam, Language,
    SearchComparator, SearchField, SearchFilter, SearchIndex, SearchOperator, SearchValue, TracingSearchField,
};

#[test]
fn tables_and_columns() {
    assert_eq!(SearchIndex::Email.mysql_table(), "s_email");
    assert_eq!(SearchIndex::Tracing.psql_table(), "s_trace");
    assert_eq!(SearchField::AccountId.column(), "accid");
    assert_eq!(SearchField::Email(EmailSearchField::Subject).column(), "subj");
    assert_eq!(SearchField::Email(EmailSearchField::Subject).psql_sort_column(), Some("s_sj"));
    assert_eq!(SearchField::Email(EmailSearchField::Size).psql_sort_column(), None);
    assert_eq!(SearchField::Email(EmailSearchField::Subject).psql_order_column(), "s_sj");
    assert!(SearchField::Email(EmailSearchField::Body).is_text());
    assert!(!SearchField::Email(EmailSearchField::Size).is_text());
    assert!(SearchField::Tracing(TracingSearchField::Keywords).is_text());
}

#[test]
fn operators() {
    let mut q = String::new();
    SearchOperator::Contains.write_mysql(&mut q);
    assert_eq!(q, "LIKE '%' CONCAT('%', ?, '%')");
    let mut q = String::new();
    SearchOperator::GreaterEqualThan.write_pqsql(&mut q, 12);
    assert_eq!(q, ">= $12");
    let mut q = String::new();
    SearchOperator::Contains.write_pqsql(&mut q, 3);
    assert_eq!(q, "LIKE '%' || $3 || '%'");
}

#[test]
fn sort_clauses() {
    let sort = [
        SearchComparator::Field { field: SearchField::Email(EmailSearchField::Subject), ascending: true },
        SearchComparator::Field { field: SearchField::Email(EmailSearchField::ReceivedAt), ascending: false },
    ];
    let mut q = String::from("SELECT id FROM s_email");
    build_sort_psql(&mut q, &sort);
    assert_eq!(q, "SELECT id FROM s_email ORDER BY s_sj ASC, rcvd DESC");
    let mut q = String::new();
    build_sort_mysql(&mut q, &sort);
    assert_eq!(q, " ORDER BY subj ASC, rcvd DESC");
}

#[test]
fn languages() {
    assert_eq!(pg_lang(Language::English), Some("english"));
    assert_eq!(pg_lang(Language::Bokmal), Some("norwegian"));
    assert_eq!(pg_lang(Language::Esperanto), None);
}

#[test]
fn where_clause_and_parameters() {
    let filters = vec![
        SearchFilter::Operator { field: SearchField::AccountId, op: SearchOperator::Equal, value: SearchValue::Uint(1) },
        SearchFilter::Or,
        SearchFilter::Operator {
            field: SearchField::Email(EmailSearchField::Subject),
            op: SearchOperator::Contains,
            value: SearchValue::Text { value: "hello".to_string(), language: Language::English },
        },
        SearchFilter::Operator {
            field: SearchField::Email(EmailSearchField::Body),
            op: SearchOperator::Equal,
            value: SearchValue::Text { value: "hi there".to_string(), language: Language::German },
        },
        SearchFilter::End,
        SearchFilter::Not,
        SearchFilter::Operator {
            field: SearchField::Email(EmailSearchField::Headers),
            op: SearchOperator::Equal,
            value: SearchValue::KeyValues(vec![("X-Spam".to_string(), "yes".to_string())]),
        },
        SearchFilter::End,
        SearchFilter::Operator {
            field: SearchField::Email(EmailSearchField::Size),
            op: SearchOperator::LowerThan,
            value: SearchValue::Uint(100),
        },
    ];
    let mut q = String::new();
    let params = build_filter_psql(&mut q, &filters, &[Language::English]);
    assert_eq!(
        q,
        " WHERE accid = $1 AND (subj @@ plainto_tsquery('english', $2) OR body @@ phraseto_tsquery('simple', $3)) AND NOT (hdrs ->> $4 = $5) AND size < $6"
    );
    assert_eq!(
        params,
        vec![
            FilterParam::Value(0),
            FilterParam::Value(2),
            FilterParam::Value(3),
            FilterParam::Key(6),
            FilterParam::KeyValue(6),
            FilterParam::Value(8),
        ]
    );
    let mut q = String::from("x");
    assert!(build_filter_psql(&mut q, &[], &[]).is_empty());
    assert_eq!(q, "x");
}

#[test]
fn key_only_match() {
    let filters = vec![SearchFilter::Operator {
        field: SearchField::Email(EmailSearchField::Headers),
        op: SearchOperator::Equal,
        value: SearchValue::KeyValues(vec![("X-Flag".to_string(), String::new())]),
    }];
    let mut q = String::new();
    let params = build_filter_psql(&mut q, &filters, &[]);
    assert_eq!(q, " WHERE hdrs  ? $1");
    assert_eq!(params, vec![FilterParam::Key(0)]);
}

fn mysql_filters() -> Vec<SearchFilter> {
    vec![
        SearchFilter::Operator { field: SearchField::AccountId, op: SearchOperator::Equal, value: SearchValue::Uint(1) },
        SearchFilter::Or,
        SearchFilter::Operator {
            field: SearchField::Email(EmailSearchField::Subject),
            op: SearchOperator::Contains,
            value: SearchValue::Text { value: "hello world".to_string(), language: Language::English },
        },
        SearchFilter::Operator {
            field: SearchField::Email(EmailSearchField::Body),
            op: SearchOperator::Equal,
            value: SearchValue::Text { value: "hi there".to_string(), language: Language::German },
        },
        SearchFilter::End,
        SearchFilter::Not,
        SearchFilter::Operator {
            field: SearchField::Email(EmailSearchField::Headers),
            op: SearchOperator::Equal,
            value: SearchValue::KeyValues(vec![("X-Spam".to_string(), "yes".to_string())]),
        },
        SearchFilter::Operator {
            field: SearchField::Email(EmailSearchField::Headers),
            op: SearchOperator::Contains,
            value: SearchValue::KeyValues(vec![("X-Tag".to_string(), "abc".to_string())]),
        },
        SearchFilter::Operator {
            field: SearchField::Email(EmailSearchField::Headers),
            op: SearchOperator::Equal,
            value: SearchValue::KeyValues(vec![("X-Flag".to_string(), String::new())]),
        },
        SearchFilter::End,
        SearchFilter::Operator {
            field: SearchField::Email(EmailSearchField::Size),
            op: SearchOperator::LowerThan,
            value: SearchValue::Uint(100),
        },
    ]
}

#[test]
fn mysql_where_clause_and_parameters() {
    let mut q = String::from("SELECT id FROM s_email");
    let params = build_filter_mysql(&mut q, &mysql_filters());
    assert_eq!(
        q,
        "SELECT id FROM s_email WHERE accid = ? AND (MATCH(subj) AGAINST(? IN BOOLEAN MODE) OR MATCH(body) AGAINST(? IN BOOLEAN MODE)) AND NOT (JSON_EXTRACT(hdrs, ?) = ? AND JSON_EXTRACT(hdrs, ?) LIKE ? AND JSON_CONTAINS_PATH(hdrs, 'one', ?)) AND size < ?"
    );
    assert_eq!(
        params,
        vec![
            FilterParam::Value(0),
            FilterParam::Words(2),
            FilterParam::Phrase(3),
            FilterParam::Key(6),
            FilterParam::KeyValue(6),
            FilterParam::Key(7),
            FilterParam::KeyPattern(7),
            FilterParam::Key(8),
            FilterParam::Value(10),
        ]
    );
    let mut q = String::from("x");
    assert!(build_filter_mysql(&mut q, &[]).is_empty());
    assert_eq!(q, "x");
}
