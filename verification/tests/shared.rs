//! Texts, dates, pages and roles.
use shopfloor::auth::{CurrentUser, Role};
use shopfloor::calendar::Date;
use shopfloor::clock::Instant;
use shopfloor::error::{version_conflict, AppError, DbFault, ErrorCode};
use shopfloor::mapping::{find_missing, parse_ids};
use shopfloor::paging::{clamp, limit_of, offset_of};
use shopfloor::patch::{change_required, change_text};
use shopfloor::text::{
    chars_of, decimal_text, id_text, ids_text, join2, join3, keep_non_blank, like_pattern,
    opt_id_text, parse_i64, same, trim, upper_of,
};

#[test]
fn trimming_takes_all_white_space() {
    for s in ["  a b ", "\t\r\nx", "\u{3000}全角\u{a0}", "", " \u{2028} ", "\u{200b}x"] {
        assert_eq!(trim(s), s.trim());
        assert_eq!(trim(trim(s)), trim(s));
    }
}

#[test]
fn every_white_space_is_trimmed() {
    for n in 0u32..0x3100 {
        if let Some(c) = char::from_u32(n) {
            let s = format!("{c}x{c}");
            assert_eq!(trim(&s), s.trim());
        }
    }
}

#[test]
fn numbers_are_read_as_the_standard_library_reads_them() {
    let texts = [
        "0", "-0", "+7", "007", "", "-", "+", "1 ", " 1", "12a", "--1", "+-1",
        "9223372036854775807", "9223372036854775808", "-9223372036854775808",
        "-9223372036854775809", "00000000000000000000000001", "１",
    ];
    for t in texts {
        assert_eq!(parse_i64(t), t.parse::<i64>().ok(), "{t:?}");
    }
}

#[test]
fn numbers_are_read_back() {
    for n in [0, 1, -1, 10, -10, 42, i64::MAX, i64::MIN] {
        assert_eq!(id_text(n), n.to_string());
        assert_eq!(parse_i64(&id_text(n)), Some(n));
    }
    assert_eq!(decimal_text(i128::from(u64::MAX)), u64::MAX.to_string());
}

#[test]
fn lists_and_options_are_written_as_in_debug_output() {
    assert_eq!(ids_text(&vec![1, -2, 3]), format!("{:?}", vec![1, -2, 3]));
    assert_eq!(ids_text(&vec![]), "[]");
    assert_eq!(opt_id_text(Some(4)), "Some(4)");
    assert_eq!(opt_id_text(None), "None");
}

#[test]
fn texts_are_joined_and_compared() {
    assert_eq!(join2("a", "b"), "ab");
    assert_eq!(join3("a", "", "c"), "ac");
    assert!(same("图", "图"));
    assert!(!same("a", "A"));
    assert_eq!(chars_of("a图"), vec!['a', '图']);
    assert_eq!(upper_of('z'), 'Z');
    assert_eq!(upper_of('ä'), 'ä');
}

#[test]
fn blank_texts_do_not_count() {
    assert_eq!(keep_non_blank(&Some(" a ".to_string())).as_deref(), Some("a"));
    assert_eq!(keep_non_blank(&Some("\t".to_string())), None);
    assert_eq!(like_pattern(&Some(" a ".to_string())).as_deref(), Some("%a%"));
    assert_eq!(like_pattern(&None), None);
}

#[test]
fn changes_clear_or_set() {
    assert_eq!(change_text(&None), (false, None));
    assert_eq!(change_text(&Some(None)), (true, None));
    assert_eq!(change_text(&Some(Some(" x ".to_string()))), (true, Some("x".to_string())));
    assert_eq!(change_required(&Some(" x ".to_string())), Ok(Some("x".to_string())));
    assert_eq!(change_required(&Some(" ".to_string())), Err(()));
    assert_eq!(change_required(&None), Ok(None));
}

#[test]
fn pages_have_bounds() {
    assert_eq!(limit_of(None), 50);
    assert_eq!(limit_of(Some(0)), 1);
    assert_eq!(limit_of(Some(501)), 500);
    assert_eq!(limit_of(Some(77)), 77);
    assert_eq!(offset_of(None), 0);
    assert_eq!(offset_of(Some(i64::MIN)), 0);
    assert_eq!(offset_of(Some(9)), 9);
    assert_eq!(clamp(5, 1, 3), 3);
}

#[test]
fn ids_are_read_all_or_not_at_all() {
    let raw = |v: &[&str]| v.iter().map(|s| s.to_string()).collect::<Vec<String>>();
    assert_eq!(parse_ids(&raw(&["1", "-2"])), Some(vec![1, -2]));
    assert_eq!(parse_ids(&raw(&["1", "x"])), None);
    assert_eq!(find_missing(&vec![1, 2, 3, 2], &vec![3, 1]), vec![2, 2]);
}

#[test]
fn days_exist_or_not() {
    assert!(Date::new(2024, 2, 29).is_some());
    assert!(Date::new(1900, 2, 29).is_none());
    assert!(Date::new(2000, 2, 29).is_some());
    assert!(Date::new(2023, 4, 31).is_none());
    assert!(Date::new(2023, 13, 1).is_none());
    assert!(Date::new(2023, 0, 1).is_none());
}

#[test]
fn days_follow_each_other() {
    let d = Date::new(2023, 12, 31).unwrap();
    assert_eq!(d.succ(), Date::new(2024, 1, 1).unwrap());
    assert!(d.succ().after(&d));
    assert!(!d.after(&d));
    assert_eq!(Date::new(-4, 2, 28).unwrap().succ(), Date::new(-4, 2, 29).unwrap());
    assert_eq!(d.text(), "2023-12-31");
}

#[test]
fn dates_are_written_by_the_calendar_crate() {
    let mut d = Date::new(1999, 12, 25).unwrap();
    for _ in 0..800 {
        let n = chrono::NaiveDate::from_ymd_opt(d.year, d.month, d.day).unwrap();
        assert_eq!(d.text(), n.to_string());
        let next = n.succ_opt().unwrap();
        d = d.succ();
        assert_eq!(d.text(), next.to_string());
    }
}

#[test]
fn the_first_and_the_last_day_exist() {
    for (y, m, day) in [(-262_143, 1, 1), (262_142, 12, 31)] {
        assert!(Date::new(y, m, day).is_some());
        assert!(chrono::NaiveDate::from_ymd_opt(y, m, day).is_some());
    }
    assert!(Date::new(262_143, 1, 1).is_none());
}

#[test]
fn points_in_time_are_written_in_utc() {
    let t = Instant::new(0, 0).unwrap();
    assert_eq!(t.to_rfc3339(), "1970-01-01T00:00:00+00:00");
    let t = Instant::new(1_700_000_000, 500_000_000).unwrap();
    assert_eq!(t.to_rfc3339(), "2023-11-14T22:13:20.500+00:00");
    assert!(Instant::new(-1, 0).is_none());
    assert!(Instant::new(0, 1_000_000_000).is_none());
}

fn caller(roles: Vec<Role>) -> CurrentUser {
    CurrentUser {
        id: 1,
        username: "u".to_string(),
        roles,
        shelf_ids: vec![4],
        shelf_wildcard: false,
    }
}

#[test]
fn roles_open_doors() {
    let clerk = caller(vec![Role::Clerk]);
    assert!(clerk.has_role(Role::Clerk));
    assert!(clerk.require_role(Role::Clerk).is_ok());
    let e = clerk.require_role(Role::Manager).unwrap_err();
    assert_eq!((e.code(), e.message.as_str()), (ErrorCode::Forbidden, "权限不足"));
    assert!(clerk.require_any_role(&[Role::Manager, Role::Clerk]).is_ok());
    assert!(clerk.require_any_role(&[]).is_err());
    assert!(clerk.require_signed_in().is_ok());
    assert!(caller(vec![]).require_signed_in().is_err());
}

#[test]
fn shelves_are_seen_by_their_accounts() {
    let mut u = caller(vec![Role::ShelfAccount]);
    assert!(u.can_access_shelf(4));
    assert!(!u.can_access_shelf(5));
    u.shelf_wildcard = true;
    assert!(u.can_access_shelf(5));
    assert!(caller(vec![Role::Manager]).can_access_shelf(5));
}

#[test]
fn faults_carry_their_state() {
    let f = DbFault { sqlstate: Some("23505".to_string()), error: AppError::validation("x") };
    assert!(f.is_state("23505"));
    assert!(!f.is_state("2350"));
    assert!(!DbFault { sqlstate: None, error: f.error.copy() }.is_state(""));
    assert_eq!(f.error.code(), ErrorCode::ValidationError);
    assert_eq!(version_conflict().message, "数据已被他人修改，请刷新后重试");
}

#[test]
fn codes_have_the_numbers_that_clients_know() {
    assert_eq!(ErrorCode::BizAutoAllocateInvalidRatio.number(), Some(20704));
    assert_eq!(ErrorCode::BizShelfNotFound.number(), Some(20501));
    assert_eq!(ErrorCode::VersionConflict.number(), Some(40901));
    assert_eq!(ErrorCode::Forbidden.number(), Some(40300));
    assert_eq!(ErrorCode::Internal.number(), None);
}
