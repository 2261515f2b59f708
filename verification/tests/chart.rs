use chrono::{TimeZone, Utc};
use stockchart::chart::{fetch_stock_chart, FetchOutcome};
use stockchart::commands::{add_item, add_item_at, delete_label, get_data, get_labels, get_range};
use stockchart::coordinator::FetchCoordinator;
use stockchart::error::{ChartError, ParameterFault};
use stockchart::models::series::{
    drop_repeated_times, earliest_time, holds_quote, in_time_order, merge_quotes, select_new,
    without_time,
};
use stockchart::models::stock_model::{StockModel, SymbolTable, TimeframeMap};
use stockchart::types::{
    same_text, step_back, CustomQuote, DateRange, EventsData, MetaData, Price, StockQuote,
    Timeframe, DAY_MS, MIN_DATE,
};
use stockchart::utils::calendar::{label_from, label_of};
use stockchart::utils::fetch_stock_utils::{
    chart_url, clean_rows, fetch_stock_data, fetch_stock_data_for_backtest,
    filter_complete_quotes, search_url, transform_to_custom_quotes, FETCH_TIMEOUT_MS, MIN_ROWS,
};
use stockchart::utils::init_data_utils::{
    fetch_initial_data, fetch_initial_data_at, initialize_data, move_back, startup_model_at,
    startup_symbols,
};
use stockchart::utils::sorting::sort_by_time;

const NOW: i64 = 1_700_000_000_000;
const T0: i64 = 1_640_995_200_000;

fn price(ticks: i64) -> Option<Price> {
    Some(Price::new(ticks).unwrap())
}

fn row(day: i64, open: i64, close: i64) -> StockQuote {
    StockQuote {
        high: price(close + 10),
        volume: Some(500),
        open: price(open),
        low: price(close - 20),
        close: price(close),
        date: T0 + day * DAY_MS,
    }
}

fn quote(day: i64, open: i64, close: i64) -> CustomQuote {
    CustomQuote {
        high: price(close + 10),
        volume: Some(500),
        open: price(open),
        low: price(close - 20),
        close: price(close),
        time: T0 + day * DAY_MS,
    }
}

fn five_rows() -> Vec<StockQuote> {
    vec![row(0, 100, 110), row(1, 111, 120), row(2, 121, 130), row(3, 131, 140), row(4, 141, 150)]
}

fn five_quotes() -> Vec<CustomQuote> {
    vec![
        quote(0, 100, 110),
        quote(1, 110, 120),
        quote(2, 120, 130),
        quote(3, 130, 140),
        quote(4, 140, 150),
    ]
}

fn registered() -> StockModel {
    let mut model = StockModel::new();
    model.initialize_timeframes_at("AAPL", NOW);
    model
}

#[test]
fn the_floor_date_is_the_first_instant_of_2000() {
    assert_eq!(MIN_DATE, Utc.with_ymd_and_hms(2000, 1, 1, 0, 0, 0).unwrap().timestamp_millis());
    assert_eq!(DAY_MS, 24 * 60 * 60 * 1000);
    assert_eq!(MIN_ROWS, 5);
    assert_eq!(FETCH_TIMEOUT_MS, 3_000);
}

#[test]
fn timeframes_and_their_names() {
    assert_eq!(Timeframe::parse("1M"), Some(Timeframe::Minute));
    assert_eq!(Timeframe::parse("1H"), Some(Timeframe::Hour));
    assert_eq!(Timeframe::parse("1D"), Some(Timeframe::Day));
    assert_eq!(Timeframe::parse("1WK"), Some(Timeframe::Week));
    assert_eq!(Timeframe::parse("1m"), None);
    assert_eq!(Timeframe::parse(""), None);
    assert_eq!(Timeframe::all(), vec![
        Timeframe::Minute,
        Timeframe::Hour,
        Timeframe::Day,
        Timeframe::Week,
    ]);
    for tf in [Timeframe::Minute, Timeframe::Hour, Timeframe::Day, Timeframe::Week] {
        assert_eq!(Timeframe::parse(tf.as_str()), Some(tf));
        assert!(tf.growth_ms() > tf.lookback_ms());
    }
    assert_eq!(Timeframe::Minute.lookback_ms(), 3 * DAY_MS);
    assert_eq!(Timeframe::Hour.lookback_ms(), 15 * 7 * DAY_MS);
    assert_eq!(Timeframe::Day.lookback_ms(), 4 * 365 * DAY_MS);
    assert_eq!(Timeframe::Week.lookback_ms(), 7 * 365 * DAY_MS);
    assert_eq!(Timeframe::Minute.growth_ms(), 5 * DAY_MS);
    assert_eq!(Timeframe::Hour.growth_ms(), 30 * 7 * DAY_MS);
    assert_eq!(Timeframe::Day.growth_ms(), 8 * 365 * DAY_MS);
    assert_eq!(Timeframe::Week.growth_ms(), 15 * 365 * DAY_MS);
}

#[test]
fn texts_are_compared_by_their_characters() {
    assert!(same_text("AAPL", "AAPL"));
    assert!(!same_text("AAPL", "AAPl"));
    assert!(!same_text("AAPL", "AAP"));
    assert!(same_text("", ""));
}

#[test]
fn stepping_back_stops_at_the_floor() {
    assert_eq!(step_back(NOW, 3 * DAY_MS), NOW - 3 * DAY_MS);
    assert_eq!(step_back(MIN_DATE + DAY_MS, DAY_MS), MIN_DATE);
    assert_eq!(step_back(MIN_DATE + DAY_MS - 1, DAY_MS), MIN_DATE);
    assert_eq!(step_back(MIN_DATE - 5, 0), MIN_DATE);
    assert_eq!(step_back(i64::MIN, DAY_MS), MIN_DATE);
    assert_eq!(move_back(NOW, DAY_MS), NOW - DAY_MS);
    assert_eq!(move_back(i64::MIN + 5, DAY_MS), i64::MIN);
}

#[test]
fn the_unit_types_of_a_chart_response() {
    assert_eq!(EventsData, EventsData);
    assert_eq!(MetaData, MetaData);
}

#[test]
fn sorting_keeps_quotes_of_one_instant_in_their_order() {
    let sorted = sort_by_time(vec![
        quote(2, 1, 1),
        quote(0, 2, 2),
        quote(2, 3, 3),
        quote(1, 4, 4),
        quote(0, 5, 5),
    ]);
    assert_eq!(sorted, vec![
        quote(0, 2, 2),
        quote(0, 5, 5),
        quote(1, 4, 4),
        quote(2, 1, 1),
        quote(2, 3, 3),
    ]);
    assert!(in_time_order(&sorted));
    assert!(!in_time_order(&vec![quote(1, 1, 1), quote(0, 1, 1)]));
    assert!(sort_by_time(Vec::<CustomQuote>::new()).is_empty());
}

#[test]
fn sorting_agrees_with_the_stable_sort_of_the_standard_library() {
    let mut state: u64 = 99;
    let mut items = Vec::new();
    for n in 0..2_000 {
        state = state.wrapping_mul(6_364_136_223_846_793_005).wrapping_add(1_442_695_040_888_963_407);
        items.push(quote(((state >> 40) % 300) as i64 - 150, n, n));
    }
    let mut expected = items.clone();
    expected.sort_by_key(|q| q.time);
    assert_eq!(sort_by_time(items), expected);
    let sorted = sort_by_time(expected.clone());
    assert_eq!(sorted, expected);
    let mut reversed = expected.clone();
    reversed.reverse();
    let mut again = reversed.clone();
    again.sort_by_key(|q| q.time);
    assert_eq!(sort_by_time(reversed), again);
    assert_eq!(sort_by_time(vec![quote(1, 1, 1)]), vec![quote(1, 1, 1)]);
}

#[test]
fn incomplete_rows_are_dropped_and_the_rest_sorted() {
    let mut rows = vec![row(3, 1, 2), row(1, 3, 4), row(2, 5, 6), row(0, 7, 8), row(4, 9, 10)];
    rows[1].open = None;
    rows[2].volume = None;
    rows[4].close = None;
    let mut kept = row(2, 5, 6);
    kept.volume = None;
    assert_eq!(filter_complete_quotes(rows), vec![row(0, 7, 8), kept, row(3, 1, 2)]);
    let mut no_high = row(0, 1, 2);
    no_high.high = None;
    let mut no_low = row(1, 1, 2);
    no_low.low = None;
    assert!(filter_complete_quotes(vec![no_high, no_low]).is_empty());
}

#[test]
fn each_quote_but_the_first_opens_at_the_close_before() {
    assert_eq!(transform_to_custom_quotes(five_rows()), five_quotes());
    assert!(transform_to_custom_quotes(vec![]).is_empty());
}

#[test]
fn the_open_is_taken_from_the_row_before_in_the_order_given() {
    let quotes = transform_to_custom_quotes(vec![row(1, 111, 120), row(0, 100, 110)]);
    assert_eq!(quotes, vec![quote(0, 120, 110), quote(1, 111, 120)]);
    let quotes = clean_rows(vec![row(1, 111, 120), row(0, 100, 110)]);
    assert_eq!(quotes, vec![quote(0, 100, 110), quote(1, 110, 120)]);
}

#[test]
fn a_missing_close_is_carried_into_the_next_open() {
    let mut rows = vec![row(0, 100, 110), row(1, 111, 120)];
    rows[0].close = None;
    let quotes = transform_to_custom_quotes(rows);
    assert_eq!(quotes[1].open, None);
    assert_eq!(quotes[0].close, None);
}

#[test]
fn a_merge_takes_in_what_is_new_and_sorts() {
    let existing = vec![quote(1, 1, 1), quote(3, 3, 3)];
    let incoming = vec![quote(2, 2, 2), quote(3, 3, 3), quote(0, 0, 0)];
    assert!(holds_quote(&existing, &quote(3, 3, 3)));
    assert!(!holds_quote(&existing, &quote(3, 3, 4)));
    assert_eq!(select_new(&existing, &incoming), vec![quote(2, 2, 2), quote(0, 0, 0)]);
    assert_eq!(merge_quotes(&existing, &incoming), vec![
        quote(0, 0, 0),
        quote(1, 1, 1),
        quote(2, 2, 2),
        quote(3, 3, 3),
    ]);
}

#[test]
fn a_merge_of_nothing_new_leaves_the_series_as_it_is() {
    let existing = vec![quote(3, 3, 3), quote(1, 1, 1)];
    assert_eq!(merge_quotes(&existing, &vec![quote(1, 1, 1)]), existing);
    assert_eq!(merge_quotes(&existing, &vec![]), existing);
}

#[test]
fn merging_a_batch_twice_is_merging_it_once() {
    let existing = vec![quote(1, 1, 1), quote(3, 3, 3)];
    let incoming = vec![quote(2, 2, 2), quote(3, 3, 9), quote(0, 0, 0), quote(2, 2, 2)];
    let once = merge_quotes(&existing, &incoming);
    let twice = merge_quotes(&once, &incoming);
    assert_eq!(once, twice);
    assert_eq!(once.len(), 6);
}

#[test]
fn quotes_at_one_instant_with_different_prices_are_both_kept_by_a_merge() {
    let merged = merge_quotes(&vec![quote(1, 1, 1)], &vec![quote(1, 1, 2)]);
    assert_eq!(merged, vec![quote(1, 1, 2), quote(1, 1, 1)]);
}

#[test]
fn an_instant_that_occurs_twice_loses_all_its_quotes() {
    let series = vec![quote(0, 0, 0), quote(1, 1, 1), quote(1, 1, 2), quote(2, 2, 2)];
    assert_eq!(drop_repeated_times(&series), vec![quote(0, 0, 0), quote(2, 2, 2)]);
    let unsorted = vec![quote(2, 2, 2), quote(1, 1, 1), quote(0, 0, 0), quote(1, 1, 2)];
    assert_eq!(drop_repeated_times(&unsorted), vec![quote(2, 2, 2), quote(0, 0, 0)]);
    let thrice = vec![quote(1, 1, 1), quote(1, 1, 2), quote(1, 1, 3)];
    assert!(drop_repeated_times(&thrice).is_empty());
    assert_eq!(without_time(&series, T0 + DAY_MS), vec![quote(0, 0, 0), quote(2, 2, 2)]);
    assert_eq!(without_time(&series, T0 + 7 * DAY_MS), series);
}

#[test]
fn the_earliest_instant_of_a_batch() {
    assert_eq!(earliest_time(&vec![quote(2, 0, 0), quote(1, 0, 0), quote(3, 0, 0)], 5), T0 + DAY_MS);
    assert_eq!(earliest_time(&vec![], 5), 5);
    assert_eq!(earliest_time(&vec![quote(2, 0, 0)], i64::MIN), T0 + 2 * DAY_MS);
}

#[test]
fn a_symbol_starts_with_four_empty_series() {
    let model = registered();
    assert_eq!(get_labels(&model), vec![String::from("AAPL")]);
    for (name, days) in [("1M", 3), ("1H", 105), ("1D", 1460), ("1WK", 2555)] {
        assert_eq!(get_data(&model, "AAPL", name), Ok(vec![]));
        assert_eq!(
            get_range(&model, "AAPL", name),
            Ok(DateRange { from: NOW - days * DAY_MS, to: NOW })
        );
    }
}

#[test]
fn the_first_window_does_not_start_before_the_floor() {
    let mut model = StockModel::new();
    model.initialize_timeframes_at("OLD", MIN_DATE + 4 * DAY_MS);
    assert_eq!(
        get_range(&model, "OLD", "1M"),
        Ok(DateRange { from: MIN_DATE + DAY_MS, to: MIN_DATE + 4 * DAY_MS })
    );
    assert_eq!(
        get_range(&model, "OLD", "1D"),
        Ok(DateRange { from: MIN_DATE, to: MIN_DATE + 4 * DAY_MS })
    );
}

#[test]
fn the_first_window_ends_at_the_present() {
    let before = Utc::now().timestamp_millis();
    let mut model = StockModel::new();
    model.initialize_timeframes("AAPL");
    let after = Utc::now().timestamp_millis();
    let range = get_range(&model, "AAPL", "1M").unwrap();
    assert!(before <= range.to && range.to <= after);
    assert_eq!(range.from, range.to - 3 * DAY_MS);
}

#[test]
fn registering_a_symbol_again_keeps_its_series() {
    let mut model = registered();
    model.append_data("AAPL", "1D", five_quotes());
    model.initialize_timeframes_at("AAPL", NOW + DAY_MS);
    model.initialize_timeframes("AAPL");
    assert_eq!(get_labels(&model).len(), 1);
    assert_eq!(get_data(&model, "AAPL", "1D"), Ok(five_quotes()));
    assert_eq!(get_range(&model, "AAPL", "1D").unwrap().to, NOW);
}

#[test]
fn the_store_by_its_methods() {
    let mut model = registered();
    model.initialize_timeframes_at("MSFT", NOW);
    model.append_data("AAPL", "1D", vec![quote(1, 1, 1), quote(0, 0, 0)]);
    assert_eq!(model.get_data("AAPL", "1D"), Some(&vec![quote(0, 0, 0), quote(1, 1, 1)]));
    assert_eq!(model.get_data("AAPL", "1H"), Some(&vec![]));
    assert_eq!(model.get_data("MSFT", "1D"), Some(&vec![]));
    assert_eq!(model.get_data("AAPL", "1Y"), None);
    assert_eq!(model.get_data("GOOGL", "1D"), None);

    model.update_period("AAPL", "1D", 5, 9);
    assert_eq!(model.get_period("AAPL", "1D"), Some(DateRange { from: 5, to: 9 }));
    assert_eq!(model.get_period("MSFT", "1D").unwrap().to, NOW);
    assert_eq!(model.get_period("AAPL", "1WK").unwrap().to, NOW);
    assert_eq!(model.get_period("AAPL", "week"), None);

    model.remove_data("AAPL", "1D", T0);
    assert_eq!(model.get_data("AAPL", "1D"), Some(&vec![quote(1, 1, 1)]));
    model.update_data("AAPL", "1D", vec![quote(5, 5, 5), quote(4, 4, 4)]);
    assert_eq!(model.get_data("AAPL", "1D"), Some(&vec![quote(5, 5, 5), quote(4, 4, 4)]));
    assert_eq!(model.get_period("AAPL", "1D"), Some(DateRange { from: 5, to: 9 }));

    model.append_data("NONE", "1D", five_quotes());
    model.update_period("AAPL", "none", 1, 2);
    model.remove_data("NONE", "1D", T0);
    model.update_data("NONE", "1D", five_quotes());
    assert_eq!(get_labels(&model), vec![String::from("AAPL"), String::from("MSFT")]);
}

#[test]
fn the_table_of_symbols() {
    let mut table = SymbolTable::new();
    assert!(table.is_empty());
    table.insert("AAPL", TimeframeMap::starting_at(NOW));
    table.insert("MSFT", TimeframeMap::starting_at(NOW));
    table.insert("AAPL", TimeframeMap::starting_at(0));
    assert_eq!(table.len(), 2);
    assert_eq!(table.find("MSFT"), Some(1));
    assert_eq!(table.find("GOOGL"), None);
    assert!(table.contains_key("AAPL") && !table.contains_key("aapl"));
    assert_eq!(table.get("AAPL").unwrap().get("1D").unwrap().to, NOW);
    assert!(table.get("AAPL").unwrap().get("1Y").is_none());
    assert_eq!(table.entry(1).symbol, "MSFT");
    assert_eq!(table.keys(), vec![String::from("AAPL"), String::from("MSFT")]);
    table.set_window(0, Timeframe::Hour, 1, 2);
    table.set_quotes(0, Timeframe::Hour, five_quotes());
    let hour = table.get("AAPL").unwrap().frame(Timeframe::Hour);
    assert_eq!((hour.from, hour.to, hour.chart_data.len()), (1, 2, 5));
    assert_eq!(table.get("AAPL").unwrap().frame(Timeframe::Day).chart_data.len(), 0);
    table.remove("AAPL");
    table.remove("AAPL");
    assert_eq!(table.keys(), vec![String::from("MSFT")]);
}

#[test]
fn symbols_are_added_and_removed() {
    let mut model = startup_model_at(NOW);
    assert_eq!(startup_symbols(), vec!["AAPL", "GOOGL", "AMZN"]);
    assert_eq!(get_labels(&model), vec![
        String::from("AAPL"),
        String::from("GOOGL"),
        String::from("AMZN"),
    ]);
    add_item_at(&mut model, "MSFT", NOW + 1, vec![
        (String::from("1D"), five_quotes()),
        (String::from("1Y"), five_quotes()),
        (String::from("1H"), vec![quote(9, 9, 9)]),
        (String::from("1D"), vec![quote(7, 7, 7), quote(0, 100, 110)]),
    ]);
    assert_eq!(get_labels(&model).len(), 4);
    let mut day = five_quotes();
    day.push(quote(7, 7, 7));
    assert_eq!(get_data(&model, "MSFT", "1D"), Ok(day));
    assert_eq!(get_data(&model, "MSFT", "1H"), Ok(vec![quote(9, 9, 9)]));
    assert_eq!(get_data(&model, "MSFT", "1M"), Ok(vec![]));
    assert_eq!(get_range(&model, "MSFT", "1M").unwrap().to, NOW + 1);

    add_item_at(&mut model, "MSFT", NOW + 2, vec![(String::from("1M"), five_quotes())]);
    assert_eq!(get_data(&model, "MSFT", "1M"), Ok(vec![]));
    add_item(&mut model, "AAPL", vec![(String::from("1M"), five_quotes())]);
    assert_eq!(get_data(&model, "AAPL", "1M"), Ok(vec![]));
    add_item(&mut model, "TSLA", vec![(String::from("1M"), five_quotes())]);
    assert_eq!(get_data(&model, "TSLA", "1M"), Ok(five_quotes()));

    delete_label(&mut model, "AMZN");
    delete_label(&mut model, "NONE");
    assert_eq!(get_labels(&model), vec![
        String::from("AAPL"),
        String::from("GOOGL"),
        String::from("MSFT"),
        String::from("TSLA"),
    ]);
    assert_eq!(get_data(&model, "AMZN", "1D"), Err(ChartError::UnknownKey));
    assert_eq!(get_range(&model, "AMZN", "1D"), Err(ChartError::UnknownKey));
    assert_eq!(get_range(&model, "AAPL", "1Y"), Err(ChartError::UnknownKey));
}

#[test]
fn the_first_population_moves_the_window_back() {
    let mut model = registered();
    assert_eq!(initialize_data(&mut model, "AAPL", "1M", five_quotes()), Ok(()));
    assert_eq!(get_data(&model, "AAPL", "1M"), Ok(five_quotes()));
    assert_eq!(
        get_range(&model, "AAPL", "1M"),
        Ok(DateRange { from: NOW - 6 * DAY_MS, to: NOW - 3 * DAY_MS })
    );
    assert_eq!(
        initialize_data(&mut model, "MSFT", "1M", five_quotes()),
        Err(ChartError::UnknownKey)
    );
    assert_eq!(
        initialize_data(&mut model, "AAPL", "1Y", five_quotes()),
        Err(ChartError::UnknownKey)
    );
    assert_eq!(get_labels(&model).len(), 1);
}

#[test]
fn instants_are_written_as_the_calendar_writes_them() {
    assert_eq!(label_of(0), "1970-01-01 00:00:00 UTC");
    assert_eq!(label_of(1_431_648_000_000), "2015-05-15 00:00:00 UTC");
    assert_eq!(label_of(947_638_923_004), "2000-01-12 01:02:03.004 UTC");
    assert_eq!(label_of(-1), "1969-12-31 23:59:59.999 UTC");
    assert_eq!(label_of(MIN_DATE), Utc.with_ymd_and_hms(2000, 1, 1, 0, 0, 0).unwrap().to_string());
    assert_eq!(label_of(i64::MAX), "");
    assert_eq!(label_of(i64::MIN), "");
    assert_eq!(label_from(Some(String::from("2015-05-15 00:00:00 UTC"))), "2015-05-15 00:00:00 UTC");
    assert_eq!(label_from(None), "");
}

#[test]
fn the_addresses_of_the_provider() {
    assert_eq!(
        chart_url("AAPL", "1D", "a", "b"),
        "http://localhost:3000/stock/chart/AAPL?timeframe=1D&period1=a&period2=b"
    );
    assert_eq!(
        fetch_stock_data_for_backtest("MSFT", "1WK", "2020-01-01", "2021-01-01"),
        "http://localhost:3000/stock/chart/MSFT?timeframe=1WK&period1=2020-01-01&period2=2021-01-01"
    );
    assert_eq!(search_url("app"), "http://localhost:3000/search-stocks/app");
}

#[test]
fn a_refresh_asks_for_the_stored_window() {
    let mut model = registered();
    model.update_period("AAPL", "1D", 1_431_648_000_000, 947_638_923_004);
    assert_eq!(
        fetch_stock_data(&model, "AAPL", "1D"),
        Ok(String::from(
            "http://localhost:3000/stock/chart/AAPL?timeframe=1D&period1=2015-05-15 00:00:00 UTC&period2=2000-01-12 01:02:03.004 UTC"
        ))
    );
    assert_eq!(fetch_stock_data(&model, "MSFT", "1D"), Err(ChartError::UnknownKey));
    assert_eq!(fetch_stock_data(&model, "AAPL", "1d"), Err(ChartError::UnknownKey));
}

#[test]
fn the_first_population_asks_for_the_look_back() {
    assert_eq!(
        fetch_initial_data_at("AAPL", "1M", 1_431_648_000_000),
        Ok(String::from(
            "http://localhost:3000/stock/chart/AAPL?timeframe=1M&period1=2015-05-12 00:00:00 UTC&period2=2015-05-15 00:00:00 UTC"
        ))
    );
    assert_eq!(
        fetch_initial_data_at("AAPL", "5M", NOW),
        Err(ChartError::InvalidParameters(ParameterFault::Timeframe))
    );
    assert_eq!(
        fetch_initial_data("AAPL", "5M"),
        Err(ChartError::InvalidParameters(ParameterFault::Timeframe))
    );
    let url = fetch_initial_data("AAPL", "1WK").unwrap();
    assert!(url.starts_with("http://localhost:3000/stock/chart/AAPL?timeframe=1WK&period1="));
    assert!(url.ends_with(" UTC"));
}

#[test]
fn a_refresh_merges_the_rows_and_widens_the_window() {
    let mut model = registered();
    let mut coordinator = FetchCoordinator::new();
    let mut rows = five_rows();
    rows.swap(0, 4);
    let mut incomplete = row(9, 1, 2);
    incomplete.low = None;
    rows.push(incomplete);
    let result =
        fetch_stock_chart(&mut model, &mut coordinator, "AAPL", "1D", FetchOutcome::Rows(rows));
    assert_eq!(result, Ok(five_quotes()));
    assert_eq!(get_data(&model, "AAPL", "1D"), Ok(five_quotes()));
    assert_eq!(
        get_range(&model, "AAPL", "1D"),
        Ok(DateRange { from: 1_321_568_000_000, to: T0 - DAY_MS })
    );
    assert_eq!(get_data(&model, "AAPL", "1H"), Ok(vec![]));
    assert_eq!(get_range(&model, "AAPL", "1H").unwrap().to, NOW);
    assert!(!coordinator.is_failed("AAPL", "1D"));
}

#[test]
fn a_refresh_that_brings_nothing_new_still_widens_the_window() {
    let mut model = registered();
    let mut coordinator = FetchCoordinator::new();
    let windows = [
        DateRange { from: 1_573_856_000_000, to: NOW },
        DateRange { from: 1_321_568_000_000, to: T0 - DAY_MS },
        DateRange { from: 1_069_280_000_000, to: 1_321_568_000_000 - DAY_MS },
        DateRange { from: MIN_DATE, to: 1_069_280_000_000 - DAY_MS },
        DateRange { from: MIN_DATE, to: MIN_DATE },
        DateRange { from: MIN_DATE, to: MIN_DATE },
    ];
    for round in 0..5 {
        assert_eq!(get_range(&model, "AAPL", "1D"), Ok(windows[round]));
        let result = fetch_stock_chart(
            &mut model,
            &mut coordinator,
            "AAPL",
            "1D",
            FetchOutcome::Rows(five_rows()),
        );
        assert_eq!(result, Ok(five_quotes()));
        assert_eq!(get_range(&model, "AAPL", "1D"), Ok(windows[round + 1]));
        assert!(windows[round + 1].from <= windows[round].from);
    }
}

#[test]
fn a_window_at_the_floor_stays_there() {
    let mut model = registered();
    let mut coordinator = FetchCoordinator::new();
    model.update_period("AAPL", "1M", MIN_DATE, MIN_DATE + DAY_MS / 2);
    let rows = vec![row(0, 1, 2); 5];
    let result =
        fetch_stock_chart(&mut model, &mut coordinator, "AAPL", "1M", FetchOutcome::Rows(rows));
    assert_eq!(result, Ok(vec![]));
    let mut rows = five_rows();
    for r in rows.iter_mut() {
        r.date = MIN_DATE + DAY_MS / 2;
    }
    rows[1].date = MIN_DATE + 7;
    let _ = fetch_stock_chart(&mut model, &mut coordinator, "AAPL", "1H", FetchOutcome::Rows(rows));
    assert_eq!(get_range(&model, "AAPL", "1H").unwrap().to, MIN_DATE);
    assert_eq!(
        get_range(&model, "AAPL", "1M"),
        Ok(DateRange { from: MIN_DATE, to: T0 - DAY_MS })
    );
    model.update_period("AAPL", "1WK", MIN_DATE + 10, NOW);
    let mut rows = five_rows();
    for r in rows.iter_mut() {
        r.close = None;
    }
    let result =
        fetch_stock_chart(&mut model, &mut coordinator, "AAPL", "1WK", FetchOutcome::Rows(rows));
    assert_eq!(result, Ok(vec![]));
    assert_eq!(get_range(&model, "AAPL", "1WK"), Ok(DateRange { from: MIN_DATE, to: MIN_DATE }));
}

#[test]
fn a_refresh_drops_every_quote_of_an_instant_that_occurs_twice() {
    let mut model = registered();
    let mut coordinator = FetchCoordinator::new();
    let first =
        fetch_stock_chart(&mut model, &mut coordinator, "AAPL", "1D", FetchOutcome::Rows(five_rows()));
    assert_eq!(first, Ok(five_quotes()));
    let later =
        vec![row(2, 121, 130), row(3, 131, 140), row(4, 141, 150), row(5, 151, 160), row(6, 161, 170)];
    let second =
        fetch_stock_chart(&mut model, &mut coordinator, "AAPL", "1D", FetchOutcome::Rows(later));
    let expected = vec![
        quote(0, 100, 110),
        quote(1, 110, 120),
        quote(3, 130, 140),
        quote(4, 140, 150),
        quote(5, 150, 160),
        quote(6, 160, 170),
    ];
    assert_eq!(second, Ok(expected.clone()));
    assert_eq!(get_data(&model, "AAPL", "1D"), Ok(expected));
    assert_eq!(get_range(&model, "AAPL", "1D").unwrap().to, T0 + DAY_MS);
}

#[test]
fn a_refresh_puts_the_series_in_order_even_if_nothing_is_new() {
    let mut model = registered();
    let mut coordinator = FetchCoordinator::new();
    let mut stored = five_quotes();
    stored.reverse();
    stored.push(quote(9, 7, 7));
    stored.push(quote(9, 8, 8));
    stored.push(quote(6, 6, 6));
    model.update_data("AAPL", "1D", stored);
    let result =
        fetch_stock_chart(&mut model, &mut coordinator, "AAPL", "1D", FetchOutcome::Rows(five_rows()));
    let mut expected = five_quotes();
    expected.push(quote(6, 6, 6));
    assert_eq!(result, Ok(expected.clone()));
    assert_eq!(get_data(&model, "AAPL", "1D"), Ok(expected));
    assert_eq!(get_range(&model, "AAPL", "1D").unwrap().to, NOW - 1460 * DAY_MS - DAY_MS);
}

#[test]
fn too_few_rows_are_a_failure() {
    let mut model = registered();
    let mut coordinator = FetchCoordinator::new();
    let rows = vec![row(0, 100, 110), row(1, 111, 120), row(2, 121, 130)];
    let result =
        fetch_stock_chart(&mut model, &mut coordinator, "AAPL", "1D", FetchOutcome::Rows(rows));
    assert_eq!(result, Err(ChartError::InsufficientData));
    assert!(coordinator.is_failed("AAPL", "1D"));
    assert!(!coordinator.is_failed("AAPL", "1H"));
    assert_eq!(coordinator.failed_keys(), vec![(String::from("AAPL"), String::from("1D"))]);
    assert_eq!(get_data(&model, "AAPL", "1D"), Ok(vec![]));
    assert_eq!(get_range(&model, "AAPL", "1D").unwrap().to, NOW);
    let mut four = five_rows();
    four.pop();
    let result =
        fetch_stock_chart(&mut model, &mut coordinator, "AAPL", "1D", FetchOutcome::Rows(four));
    assert_eq!(result, Err(ChartError::InsufficientData));
}

#[test]
fn five_rows_are_enough_even_if_some_are_incomplete() {
    let mut model = registered();
    let mut coordinator = FetchCoordinator::new();
    let mut rows = five_rows();
    rows[1].high = None;
    rows[3].open = None;
    let result =
        fetch_stock_chart(&mut model, &mut coordinator, "AAPL", "1D", FetchOutcome::Rows(rows));
    assert_eq!(result, Ok(vec![quote(0, 100, 110), quote(2, 110, 130), quote(4, 130, 150)]));
}

#[test]
fn a_timeout_marks_the_key_and_a_success_clears_the_mark() {
    let mut model = registered();
    let mut coordinator = FetchCoordinator::new();
    let result = fetch_stock_chart(&mut model, &mut coordinator, "AAPL", "1D", FetchOutcome::TimedOut);
    assert_eq!(result, Err(ChartError::Timeout));
    assert!(coordinator.is_failed("AAPL", "1D"));
    assert_eq!(get_range(&model, "AAPL", "1D").unwrap().to, NOW);

    let result = fetch_stock_chart(
        &mut model,
        &mut coordinator,
        "AAPL",
        "1D",
        FetchOutcome::Failed(String::from("connection refused")),
    );
    assert_eq!(result, Err(ChartError::Network(String::from("connection refused"))));
    assert!(coordinator.is_failed("AAPL", "1D"));

    let result =
        fetch_stock_chart(&mut model, &mut coordinator, "AAPL", "1D", FetchOutcome::Rows(five_rows()));
    assert!(result.is_ok());
    assert!(!coordinator.is_failed("AAPL", "1D"));
}

#[test]
fn a_network_error_does_not_mark_the_key() {
    let mut model = registered();
    let mut coordinator = FetchCoordinator::new();
    let result = fetch_stock_chart(
        &mut model,
        &mut coordinator,
        "AAPL",
        "1D",
        FetchOutcome::Failed(String::from("HTTP 500")),
    );
    assert_eq!(result, Err(ChartError::Network(String::from("HTTP 500"))));
    assert!(!coordinator.is_failed("AAPL", "1D"));
    assert_eq!(get_data(&model, "AAPL", "1D"), Ok(vec![]));
}

#[test]
fn a_fetch_for_an_unknown_key_fails_whatever_came_back() {
    let mut model = registered();
    let mut coordinator = FetchCoordinator::new();
    for outcome in [
        FetchOutcome::Rows(five_rows()),
        FetchOutcome::Rows(vec![]),
        FetchOutcome::TimedOut,
        FetchOutcome::Failed(String::from("x")),
    ] {
        let result = fetch_stock_chart(&mut model, &mut coordinator, "MSFT", "1D", outcome);
        assert_eq!(result, Err(ChartError::UnknownKey));
    }
    let result = fetch_stock_chart(
        &mut model,
        &mut coordinator,
        "AAPL",
        "1Y",
        FetchOutcome::Rows(five_rows()),
    );
    assert_eq!(result, Err(ChartError::UnknownKey));
    assert!(!coordinator.is_failed("MSFT", "1D"));
    assert!(!coordinator.is_failed("AAPL", "1Y"));
    assert_eq!(coordinator.len(), 2);
}

#[test]
fn a_key_has_one_slot_and_one_fetch_at_a_time() {
    let mut coordinator = FetchCoordinator::new();
    let aapl_day = coordinator.acquire("AAPL", "1D");
    let aapl_hour = coordinator.acquire("AAPL", "1H");
    let msft_day = coordinator.acquire("MSFT", "1D");
    assert_eq!((aapl_day, aapl_hour, msft_day), (0, 1, 2));
    assert_eq!(coordinator.acquire("AAPL", "1D"), aapl_day);
    assert_eq!(coordinator.acquire("MSFT", "1D"), msft_day);
    assert_eq!(coordinator.len(), 3);
    assert_eq!(coordinator.find("AAPL", "1H"), Some(1));
    assert_eq!(coordinator.find("MSFT", "1H"), None);

    assert!(!coordinator.is_fetching(aapl_day));
    assert!(coordinator.begin(aapl_day));
    assert!(coordinator.is_fetching(aapl_day));
    assert!(!coordinator.begin(aapl_day));
    assert!(coordinator.begin(msft_day));
    assert!(!coordinator.is_fetching(aapl_hour));

    coordinator.settle(aapl_day, Some(true));
    assert!(!coordinator.is_fetching(aapl_day));
    assert!(coordinator.is_failed("AAPL", "1D"));
    assert!(coordinator.is_fetching(msft_day));
    assert!(coordinator.begin(aapl_day));
    coordinator.settle(aapl_day, None);
    assert!(coordinator.is_failed("AAPL", "1D"));
    coordinator.conclude("AAPL", "1D", Some(false));
    assert!(!coordinator.is_failed("AAPL", "1D"));
    coordinator.conclude("TSLA", "1M", Some(true));
    assert!(coordinator.is_failed("TSLA", "1M"));
    assert_eq!(coordinator.len(), 4);
    coordinator.settle(aapl_hour, Some(true));
    assert_eq!(coordinator.failed_keys(), vec![
        (String::from("AAPL"), String::from("1H")),
        (String::from("TSLA"), String::from("1M")),
    ]);
    assert!(FetchCoordinator::new().failed_keys().is_empty());
}

#[test]
fn a_fetch_ends_with_the_key_idle() {
    let mut model = registered();
    let mut coordinator = FetchCoordinator::new();
    let slot = coordinator.acquire("AAPL", "1D");
    assert!(coordinator.begin(slot));
    let _ = fetch_stock_chart(&mut model, &mut coordinator, "AAPL", "1D", FetchOutcome::TimedOut);
    assert!(!coordinator.is_fetching(slot));
    assert!(coordinator.begin(slot));
}
