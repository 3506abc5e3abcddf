use circle_checker::circle::{
    check_user_info, circle_rows, collect_circles, image_formula, output_lines, file_identifier, filter_regex_source,
    filters_apply_to, header_line, headers, output_file_path, resolve_target, target_title,
    CircleInfo, ListEntry, TargetSource, UserProfile, DIR,
};

fn user(screen: &str, name: &str, url: Option<&str>) -> UserProfile {
    UserProfile {
        screen_name: screen.to_string(),
        name: name.to_string(),
        url: url.map(|u| u.to_string()),
        profile_image_url: format!("https://pbs.twimg.com/{}.png", screen),
    }
}

fn filters(f: &[&str]) -> Vec<String> {
    f.iter().map(|s| s.to_string()).collect()
}

#[test]
fn filter_pattern_wraps_the_filter() {
    assert_eq!(filter_regex_source("C9[0-9]"), "(C9[0-9])(.*)");
    assert_eq!(filter_regex_source(""), "()(.*)");
}

#[test]
fn first_matching_filter_gives_the_record() {
    let u = user("circle_a", "サークルA@コミケ1日目東A-01a", Some("https://example.com"));
    let r = check_user_info(&u, &filters(&["C9[0-9]", "コミケ", "日目"])).unwrap();
    assert_eq!(r.twitter_id, "circle_a");
    assert_eq!(r.twitter_name, "サークルA@コミケ1日目東A-01a");
    assert_eq!(r.twitter_url, "https://example.com");
    assert_eq!(r.match_string, "コミケ");
    assert_eq!(r.space_string, "1日目東A-01a");
    assert_eq!(r.profile_image_url, "https://pbs.twimg.com/circle_a.png");
}

#[test]
fn regex_filter_captures_the_event_name() {
    let u = user("b", "本@C99 土曜 東A01", None);
    let r = check_user_info(&u, &filters(&["C9[0-9]"])).unwrap();
    assert_eq!(r.match_string, "C99");
    assert_eq!(r.space_string, " 土曜 東A01");
    assert_eq!(r.twitter_url, "");
}

#[test]
fn no_match_gives_non() {
    let u = user("c", "just a name", None);
    assert_eq!(check_user_info(&u, &filters(&["コミケ", "C9[0-9]"])).err(), Some("non".to_string()));
    assert_eq!(check_user_info(&u, &filters(&[])).err(), Some("non".to_string()));
}

#[test]
fn later_filters_do_not_change_a_match() {
    let u = user("d", "x コミティア123 y", None);
    let a = check_user_info(&u, &filters(&["コミティア[0-9]+"])).unwrap();
    let b = check_user_info(&u, &filters(&["コミティア[0-9]+", "x"])).unwrap();
    assert_eq!(a.match_string, b.match_string);
    assert_eq!(a.space_string, b.space_string);
    assert_eq!(b.match_string, "コミティア123");
    let c = check_user_info(&u, &filters(&["nothing", "コミティア[0-9]+"])).unwrap();
    assert_eq!(c.match_string, "コミティア123");
}

#[test]
fn invalid_or_grouped_filters_do_not_apply() {
    assert!(!filters_apply_to(&filters(&["("]), "anything"));
    assert!(!filters_apply_to(&filters(&["a)|(b"]), "a"));
    assert!(!filters_apply_to(&filters(&["a)|(b"]), "b"));
    assert!(filters_apply_to(&filters(&["zzz", "C9[0-9]"]), "C99"));
    assert!(filters_apply_to(&filters(&["C9[0-9]", "("]), "C99"));
    assert!(!filters_apply_to(&filters(&["C9[0-9]", "("]), "none"));
}

#[test]
fn groups_in_a_filter_shift_the_parts() {
    let u = user("e", "ab xyz", None);
    let f = filters(&["(x)y"]);
    assert!(filters_apply_to(&f, "ab xyz"));
    let r = check_user_info(&u, &f).unwrap();
    assert_eq!(r.match_string, "xy");
    assert_eq!(r.space_string, "x");
}

#[test]
fn collect_circles_keeps_matching_accounts_in_order() {
    let users = vec![
        user("a", "A@C99", None),
        user("b", "nobody", None),
        user("c", "C@コミケ 2日目", Some("u")),
    ];
    let v = collect_circles(&users, &filters(&["C99", "コミケ"])).unwrap();
    assert_eq!(v.len(), 2);
    assert_eq!(v[0].twitter_id, "a");
    assert_eq!(v[1].twitter_id, "c");
    assert_eq!(v[1].space_string, " 2日目");
    assert!(collect_circles(&users, &filters(&["("])).is_none());
    assert_eq!(collect_circles(&vec![], &filters(&["("])).unwrap().len(), 0);
}

fn info() -> CircleInfo {
    CircleInfo {
        twitter_id: "id1".to_string(),
        twitter_name: "Name".to_string(),
        twitter_url: "https://u".to_string(),
        match_string: "C99".to_string(),
        space_string: "東A01".to_string(),
        profile_image_url: "https://img".to_string(),
    }
}

#[test]
fn row_line_format() {
    let line = info().to_string("\t", &2);
    assert_eq!(
        line,
        "id1\tName\t=IMAGE($M2)\tC99\t東A01\t=IMAGE($N2)\t\t\t\thttps://twitter.com/id1\thttps://u\t\thttps://img\t"
    );
    let line = info().to_string(",", &105);
    assert_eq!(
        line,
        "id1,Name,=IMAGE($M105),C99,東A01,=IMAGE($N105),,,,https://twitter.com/id1,https://u,,https://img,"
    );
    assert_eq!(image_formula("Q", 7), "=IMAGE($Q7)");
}

#[test]
fn header_and_rows_have_the_same_columns() {
    let h = header_line(",");
    assert_eq!(
        h,
        "Twitter ID,Twitter Name,アイコン,一致イベント名,スペース番号,画像1,画像2,画像3,画像4,Twitter URL,Twitter Link,固定されたツイート,プロフィール画像,固定されたツイートの画像"
    );
    assert_eq!(headers().len(), 14);
    let h = header_line("\t");
    let row = info().to_string("\t", &2);
    assert_eq!(h.split('\t').count(), 14);
    assert_eq!(row.split('\t').count(), 14);
    assert_eq!(headers()[12], "プロフィール画像");
    assert_eq!(row.split('\t').nth(12).unwrap(), "https://img");
    assert_eq!(row.split('\t').nth(2).unwrap(), "=IMAGE($M2)");
}

#[test]
fn rows_are_numbered_from_two() {
    let rows = circle_rows(&vec![info(), info(), info()], ",");
    assert_eq!(rows.len(), 3);
    assert!(rows[0].contains("=IMAGE($M2)"));
    assert!(rows[1].contains("=IMAGE($M3)"));
    assert!(rows[2].contains("=IMAGE($N4)"));
    assert_eq!(circle_rows(&vec![], ",").len(), 0);
}

#[test]
fn output_lines_are_header_then_rows() {
    let lines = output_lines(&vec![info(), info()], ",");
    assert_eq!(lines.len(), 3);
    assert_eq!(lines[0], header_line(","));
    assert_eq!(lines[1], info().to_string(",", &2));
    assert_eq!(lines[2], info().to_string(",", &3));
    assert_eq!(output_lines(&vec![], "\t"), vec![header_line("\t")]);
}

#[test]
fn file_extension_by_separator() {
    assert_eq!(file_identifier(","), "csv");
    assert_eq!(file_identifier("\t"), "tsx");
    assert_eq!(file_identifier(";"), "txt,");
    assert_eq!(file_identifier(",,"), "txt,");
}

#[test]
fn output_path_format() {
    assert_eq!(DIR, "output");
    assert_eq!(output_file_path("list", "2023-12-30_10-00-00", ","), "output/list_2023-12-30_10-00-00.csv");
    assert_eq!(output_file_path("タイムライン", "d", "|"), "output/タイムライン_d.txt,");
}

#[test]
fn titles_and_targets() {
    assert_eq!(target_title(""), "タイムライン");
    assert_eq!(target_title("list1"), "list1");
    let lists = vec![
        ListEntry { name: "a".to_string(), id: 1 },
        ListEntry { name: "b".to_string(), id: 2 },
        ListEntry { name: "b".to_string(), id: 3 },
    ];
    assert!(matches!(resolve_target("", &lists), TargetSource::Timeline));
    assert!(matches!(resolve_target("b", &lists), TargetSource::List(2)));
    assert!(matches!(resolve_target("c", &lists), TargetSource::Missing));
}
