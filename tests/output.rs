use youtube_comment_scraper::model::CommentRecord;
use youtube_comment_scraper::table::{decimal_text, header, layout_rows, record_fields, render_csv};

fn record(id: &str, parent: &str, likes: i64, text: &str) -> CommentRecord {
    CommentRecord {
        comment_id: id.to_string(),
        parent_id: parent.to_string(),
        video_id: "vid".to_string(),
        author: "Ann, B.".to_string(),
        author_channel_id: "UC9".to_string(),
        published_at: "2024-05-06T07:08:09Z".to_string(),
        like_count: likes,
        text: text.to_string(),
    }
}

#[test]
fn csv_round_trip() {
    let rows = vec![
        record("c1", "", 12, "plain"),
        record("c2", "c1", 0, "a, \"quoted\"\nsecond line"),
        record("c3", "", -4, ""),
    ];
    let bytes = render_csv(&rows).ok().expect("encoding failed");
    let mut rdr = csv::ReaderBuilder::new().has_headers(true).from_reader(bytes.as_slice());
    let head: Vec<String> = rdr.headers().unwrap().iter().map(|s| s.to_string()).collect();
    assert_eq!(head, header());
    let back: Vec<Vec<String>> = rdr.records().map(|r| r.unwrap().iter().map(|s| s.to_string()).collect()).collect();
    assert_eq!(back.len(), rows.len());
    for (got, want) in back.iter().zip(rows.iter()) {
        assert_eq!(got, &record_fields(want));
        assert_eq!(got[7], want.text);
        assert_eq!(got[6].parse::<i64>().unwrap(), want.like_count);
    }
}

#[test]
fn csv_quotes_only_where_needed() {
    let rows = vec![record("c1", "", 1, "say \"hi\"")];
    let bytes = render_csv(&rows).ok().expect("encoding failed");
    let text = String::from_utf8(bytes).unwrap();
    assert_eq!(
        text,
        "comment_id,parent_id,video_id,author,author_channel_id,published_at,like_count,text\n\
         c1,,vid,\"Ann, B.\",UC9,2024-05-06T07:08:09Z,1,\"say \"\"hi\"\"\"\n"
    );
}

#[test]
fn header_columns_in_order() {
    assert_eq!(
        header(),
        vec!["comment_id", "parent_id", "video_id", "author", "author_channel_id", "published_at", "like_count", "text"]
    );
}

#[test]
fn empty_table_is_header_only() {
    let t = layout_rows(&Vec::new());
    assert_eq!(t.len(), 1);
    let bytes = render_csv(&Vec::new()).ok().unwrap();
    assert_eq!(
        String::from_utf8(bytes).unwrap(),
        "comment_id,parent_id,video_id,author,author_channel_id,published_at,like_count,text\n"
    );
}

#[test]
fn like_count_in_decimal() {
    assert_eq!(decimal_text(0), "0");
    assert_eq!(decimal_text(7), "7");
    assert_eq!(decimal_text(1234567890), "1234567890");
    assert_eq!(decimal_text(-42), "-42");
    assert_eq!(decimal_text(i64::MAX), "9223372036854775807");
    assert_eq!(decimal_text(i64::MIN), "-9223372036854775808");
}
