use chrome_history::chrome_time::{from_date, Date};
use chrome_history::query_builder::{Param, QueryBuilder};
use chrome_history::row::Row;
use rusqlite::types::Value;
use rusqlite::Connection;

fn at(year: i32, month: u32, day: u32, hour: i64, minute: i64) -> i64 {
    from_date(Date { year, month, day }) + (hour * 60 + minute) * 60_000_000
}

#[test]
fn search_in_range_by_title() {
    let conn = Connection::open_in_memory().unwrap();
    conn.execute_batch(
        "CREATE TABLE urls (url TEXT, title TEXT, visit_count INTEGER, last_visit_time INTEGER)",
    )
    .unwrap();
    let rows: [(&str, &str, i32, i64); 5] = [
        ("https://bank.example.com/login", "Bank Login", 3, at(2024, 1, 15, 9, 30)),
        ("https://bank.example.com/old", "Bank Login", 1, at(2023, 12, 20, 8, 0)),
        ("https://news.example.com", "News", 9, at(2024, 1, 16, 10, 0)),
        ("https://bank.example.com/home", "My bank", 2, at(2024, 1, 10, 12, 0)),
        ("https://bank.example.com/late", "Bank Login", 5, at(2024, 2, 2, 7, 0)),
    ];
    for (url, title, count, time) in rows {
        conn.execute(
            "INSERT INTO urls VALUES (?1, ?2, ?3, ?4)",
            rusqlite::params_from_iter([
                Value::Text(url.to_string()),
                Value::Text(title.to_string()),
                Value::Integer(count as i64),
                Value::Integer(time),
            ]),
        )
        .unwrap();
    }
    let (query, params) = QueryBuilder::new()
        .date_range(Some("2024-01-01"), Some("2024-01-31"))
        .title_search(Some("bank"))
        .url_search(None)
        .limit(Some("10"))
        .build();
    let values: Vec<Value> = params
        .into_iter()
        .map(|p| match p {
            Param::Int64(n) => Value::Integer(n),
            Param::Text(s) => Value::Text(s),
        })
        .collect();
    let mut stmt = conn.prepare(&query).unwrap();
    let found: Vec<Row> = stmt
        .query_map(rusqlite::params_from_iter(values.iter()), |r| {
            Ok(Row::new(r.get(0)?, r.get(1)?, r.get(2)?, r.get(3)?))
        })
        .unwrap()
        .collect::<Result<Vec<_>, _>>()
        .unwrap();
    let texts: Vec<String> = found.iter().map(|r| r.to_string()).collect();
    assert_eq!(
        texts,
        vec![
            "[2024-01-15 09:30:00] Bank Login (3 visits)\n    https://bank.example.com/login"
                .to_string(),
            "[2024-01-10 12:00:00] My bank (2 visits)\n    https://bank.example.com/home"
                .to_string(),
        ]
    );
}
