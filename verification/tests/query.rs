use finra_rs::date::Date;
use finra_rs::{ConsolidatedShortInterestField, ConsolidatedShortInterestQuery, Query};

fn day(year: i32, month: u8, day: u8) -> Date {
    Date::from_calendar_date(year, month, day).unwrap()
}

fn full_query() -> ConsolidatedShortInterestQuery {
    ConsolidatedShortInterestQuery::new(
        Some(vec![
            ConsolidatedShortInterestField::SymbolCode,
            ConsolidatedShortInterestField::SettlementDate,
            ConsolidatedShortInterestField::ChangePercent,
        ]),
        Some(day(2024, 1, 1)..day(2024, 2, 1)),
        Some("BDRBF".to_string()),
    )
}

fn keys_of(body: &str) -> Vec<String> {
    let value: serde_json::Value = serde_json::from_str(body).unwrap();
    value.as_object().unwrap().keys().cloned().collect()
}

#[test]
fn new_query_starts_at_the_first_page() {
    let query = full_query();
    assert_eq!(query.limit(), 1000);
    assert_eq!(query.offset(), 0);
    assert_eq!(query.symbol, Some("BDRBF".to_string()));
    assert_eq!(query.date_range, Some(day(2024, 1, 1)..day(2024, 2, 1)));
    assert_eq!(
        query.fields,
        Some(vec![
            ConsolidatedShortInterestField::SymbolCode,
            ConsolidatedShortInterestField::SettlementDate,
            ConsolidatedShortInterestField::ChangePercent,
        ])
    );
}

#[test]
fn new_query_holds_what_it_was_made_of() {
    let query = ConsolidatedShortInterestQuery::new(None, None, Some("GME".to_string()));
    assert_eq!(query.fields, None);
    assert_eq!(query.date_range, None);
    assert_eq!(query.symbol, Some("GME".to_string()));
    assert_eq!(query.limit, 1000);
    assert_eq!(query.offset, 0);
}

#[test]
fn cursor_moves_by_the_given_number() {
    let query = full_query().move_cursor(3);
    assert_eq!(query.offset(), 3);
    assert_eq!(query.limit(), 1000);
    let query = query.move_cursor(0);
    assert_eq!(query.offset(), 3);
    let query = query.move_cursor(997);
    assert_eq!(query.offset(), 1000);
    assert_eq!(query.limit(), 1000);
    assert_eq!(query.symbol, Some("BDRBF".to_string()));
    assert_eq!(query.date_range, Some(day(2024, 1, 1)..day(2024, 2, 1)));
    assert_eq!(query.fields.as_ref().map(|fields| fields.len()), Some(3));
}

#[test]
fn cursor_can_reach_the_largest_offset() {
    let query = ConsolidatedShortInterestQuery::new(None, None, None).move_cursor(u64::MAX);
    assert_eq!(query.offset(), u64::MAX);
    assert_eq!(
        query.request_body().unwrap(),
        r#"{"limit":1000,"offset":18446744073709551615}"#
    );
}

#[test]
fn body_of_a_query_with_all_filters() {
    assert_eq!(
        full_query().request_body().unwrap(),
        [
            r#"{"fields":["symbolCode","settlementDate","changePercent"],"#,
            r#""dateRangeFilters":[{"fieldName":"settlementDate","#,
            r#""startDate":"2024-01-01","endDate":"2024-02-01"}],"#,
            r#""compareFilters":[{"fieldName":"symbolCode","fieldValue":"BDRBF","#,
            r#""compareType":"EQUAL"}],"limit":1000,"offset":0}"#
        ].concat()
    );
}

#[test]
fn body_of_a_query_without_filters_has_only_the_cursor() {
    let query = ConsolidatedShortInterestQuery::new(None, None, None);
    let body = query.request_body().unwrap();
    assert_eq!(body, r#"{"limit":1000,"offset":0}"#);
    assert_eq!(keys_of(&body), vec!["limit".to_string(), "offset".to_string()]);
}

#[test]
fn unset_filters_are_omitted_from_the_body() {
    let query = ConsolidatedShortInterestQuery::new(
        Some(vec![ConsolidatedShortInterestField::IssueName]),
        None,
        None,
    );
    let body = query.request_body().unwrap();
    assert_eq!(body, r#"{"fields":["issueName"],"limit":1000,"offset":0}"#);
    assert!(!body.contains("dateRangeFilters"));
    assert!(!body.contains("compareFilters"));
    assert!(!body.contains("null"));
    let value: serde_json::Value = serde_json::from_str(&body).unwrap();
    assert!(value.get("dateRangeFilters").is_none());
    assert!(value.get("compareFilters").is_none());
    assert!(value.get("fields").is_some());
}

#[test]
fn each_filter_has_its_own_member() {
    let only_dates =
        ConsolidatedShortInterestQuery::new(None, Some(day(2023, 12, 31)..day(2024, 1, 15)), None);
    assert_eq!(
        only_dates.request_body().unwrap(),
        [
            r#"{"dateRangeFilters":[{"fieldName":"settlementDate","#,
            r#""startDate":"2023-12-31","endDate":"2024-01-15"}],"limit":1000,"offset":0}"#
        ].concat()
    );
    let only_symbol = ConsolidatedShortInterestQuery::new(None, None, Some("GME".to_string()));
    assert_eq!(
        only_symbol.request_body().unwrap(),
        [
            r#"{"compareFilters":[{"fieldName":"symbolCode","fieldValue":"GME","#,
            r#""compareType":"EQUAL"}],"limit":1000,"offset":0}"#
        ].concat()
    );
}

#[test]
fn empty_field_selection_is_an_empty_array() {
    let query = ConsolidatedShortInterestQuery::new(Some(vec![]), None, None);
    assert_eq!(query.request_body().unwrap(), r#"{"fields":[],"limit":1000,"offset":0}"#);
}

#[test]
fn all_fields_can_be_selected() {
    let query = ConsolidatedShortInterestQuery::new(
        Some(vec![
            ConsolidatedShortInterestField::StockSplitFlag,
            ConsolidatedShortInterestField::PreviousShortPositionQuantity,
            ConsolidatedShortInterestField::AverageDailyVolumeQuantity,
            ConsolidatedShortInterestField::IssueName,
            ConsolidatedShortInterestField::CurrentShortPositionQuantity,
            ConsolidatedShortInterestField::ChangePreviousNumber,
            ConsolidatedShortInterestField::AccountingYearMonthNumber,
            ConsolidatedShortInterestField::SettlementDate,
            ConsolidatedShortInterestField::MarketClassCode,
            ConsolidatedShortInterestField::SymbolCode,
            ConsolidatedShortInterestField::DaysToCoverQuantity,
            ConsolidatedShortInterestField::IssuerServicesGroupExchangeCode,
            ConsolidatedShortInterestField::RevisionFlag,
            ConsolidatedShortInterestField::ChangePercent,
        ]),
        None,
        None,
    );
    let value: serde_json::Value = serde_json::from_str(&query.request_body().unwrap()).unwrap();
    let names: Vec<&str> =
        value["fields"].as_array().unwrap().iter().map(|name| name.as_str().unwrap()).collect();
    assert_eq!(
        names,
        vec![
            "stockSplitFlag",
            "previousShortPositionQuantity",
            "averageDailyVolumeQuantity",
            "issueName",
            "currentShortPositionQuantity",
            "changePreviousNumber",
            "accountingYearMonthNumber",
            "settlementDate",
            "marketClassCode",
            "symbolCode",
            "daysToCoverQuantity",
            "issuerServicesGroupExchangeCode",
            "revisionFlag",
            "changePercent",
        ]
    );
}

#[test]
fn symbol_is_escaped_as_a_json_string() {
    let symbol = "A\"B\\C\n\u{1}é";
    let query = ConsolidatedShortInterestQuery::new(None, None, Some(symbol.to_string()));
    let body = query.request_body().unwrap();
    assert_eq!(
        body,
        [
            r#"{"compareFilters":[{"fieldName":"symbolCode","#,
            r#""fieldValue":"A\"B\\C\n\u0001é","compareType":"EQUAL"}],"#,
            r#""limit":1000,"offset":0}"#
        ].concat()
    );
    let value: serde_json::Value = serde_json::from_str(&body).unwrap();
    assert_eq!(value["compareFilters"][0]["fieldValue"].as_str(), Some(symbol));
}

#[test]
fn body_follows_the_cursor() {
    let query = ConsolidatedShortInterestQuery::new(None, None, None).move_cursor(1);
    assert_eq!(query.request_body().unwrap(), r#"{"limit":1000,"offset":1}"#);
    let query = query.move_cursor(2999);
    assert_eq!(query.request_body().unwrap(), r#"{"limit":1000,"offset":3000}"#);
}

#[test]
fn body_read_back_holds_the_same_keys_and_values() {
    let body = full_query().move_cursor(250).request_body().unwrap();
    let value: serde_json::Value = serde_json::from_str(&body).unwrap();
    let object = value.as_object().unwrap();
    let mut keys: Vec<&str> = object.keys().map(|key| key.as_str()).collect();
    keys.sort();
    assert_eq!(keys, vec!["compareFilters", "dateRangeFilters", "fields", "limit", "offset"]);
    assert_eq!(value["limit"].as_u64(), Some(1000));
    assert_eq!(value["offset"].as_u64(), Some(250));
    let fields: Vec<&str> =
        value["fields"].as_array().unwrap().iter().map(|name| name.as_str().unwrap()).collect();
    assert_eq!(fields, vec!["symbolCode", "settlementDate", "changePercent"]);
    let dates = value["dateRangeFilters"].as_array().unwrap();
    assert_eq!(dates.len(), 1);
    assert_eq!(dates[0].as_object().unwrap().len(), 3);
    assert_eq!(dates[0]["fieldName"].as_str(), Some("settlementDate"));
    assert_eq!(dates[0]["startDate"].as_str(), Some("2024-01-01"));
    assert_eq!(dates[0]["endDate"].as_str(), Some("2024-02-01"));
    let compare = value["compareFilters"].as_array().unwrap();
    assert_eq!(compare.len(), 1);
    assert_eq!(compare[0].as_object().unwrap().len(), 3);
    assert_eq!(compare[0]["fieldName"].as_str(), Some("symbolCode"));
    assert_eq!(compare[0]["fieldValue"].as_str(), Some("BDRBF"));
    assert_eq!(compare[0]["compareType"].as_str(), Some("EQUAL"));
    // written again and read again, the document is the same
    let again: serde_json::Value =
        serde_json::from_str(&serde_json::to_string(&value).unwrap()).unwrap();
    assert_eq!(again, value);
}
