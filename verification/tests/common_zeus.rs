use whitedog::cli::{
    LogLevel, Opts, SubCommand, SubCommandZeus, SubCommandZeusApcDirPurcAplyE,
    SubCommandZeusApcDirPurcAplyEGet,
};
use whitedog::codec::error::CodecError;
use whitedog::codec::field::{FieldValue, RecordField};
use whitedog::codec::payload::Payload;
use whitedog::codec::record::{FromRecord, Record};
use whitedog::codec::value::DataValue;
use whitedog::common::chrono::{
    DateTime, DateTimeFormat, MAX_TIMESTAMP, MAX_WEEKS_AGO, MIN_TIMESTAMP, SECS_PER_WEEK,
};
use whitedog::common::status::Status;
use whitedog::common::worker::{after_run, rest_after, Restart, RESTART_DELAY_SECS};
use whitedog::models::apa;
use whitedog::models::apc_dir_purc_aply_e;
use whitedog::models::dp;
use whitedog::models::header::Header;
use whitedog::models::metadata::Metadata;
use whitedog::models::raw::RawField;
use whitedog::models::role::User;
use whitedog::zeus::login::{
    find_member, find_session_token, login_admitted, login_succeeded, JsonMember,
};
use whitedog::zeus::query::{owner_filter, purchase_query};

#[test]
fn format_has_its_pattern() {
    assert_eq!(DateTimeFormat::YYYYMMDD.as_str(), "%Y%m%d");
}

#[test]
fn dates_are_written_as_year_month_day() {
    let epoch = DateTime::from_timestamp(0, 0).unwrap();
    assert_eq!(epoch.format(DateTimeFormat::YYYYMMDD), "19700101");
    let day = DateTime::from_timestamp(1_431_648_000, 123).unwrap();
    assert_eq!(day.format(DateTimeFormat::YYYYMMDD), "20150515");
    let before = DateTime::from_timestamp(-1, 999_999_999).unwrap();
    assert_eq!(before.format(DateTimeFormat::YYYYMMDD), "19691231");
    assert_eq!(day.timestamp(), 1_431_648_000);
    assert_eq!(day.timestamp_subsec_nanos(), 123);
}

#[test]
fn dates_at_the_limits_can_be_written() {
    let first = DateTime::from_timestamp(MIN_TIMESTAMP, 0).unwrap();
    assert_eq!(first.format(DateTimeFormat::YYYYMMDD), "-2621430101");
    let last = DateTime::from_timestamp(MAX_TIMESTAMP, 999_999_999).unwrap();
    assert_eq!(last.format(DateTimeFormat::YYYYMMDD), "+2621421231");
}

#[test]
fn times_out_of_range_are_not_made() {
    assert_eq!(DateTime::from_timestamp(MAX_TIMESTAMP + 1, 0), None);
    assert_eq!(DateTime::from_timestamp(MIN_TIMESTAMP - 1, 0), None);
    assert_eq!(DateTime::from_timestamp(0, 1_000_000_000), None);
    assert_eq!(DateTime::from_timestamp(i64::MAX, 0), None);
    assert!(DateTime::from_timestamp(MIN_TIMESTAMP, 0).is_some());
}

#[test]
fn clock_is_not_before_1970() {
    let now = DateTime::now();
    assert!(now.timestamp() >= 0);
    assert!(now.timestamp() <= MAX_TIMESTAMP);
    assert!(now.timestamp_subsec_nanos() < 1_000_000_000);
}

#[test]
fn weeks_ago_lies_whole_weeks_back() {
    let before = DateTime::now();
    let earlier = DateTime::weeks_ago(3);
    let after = DateTime::now();
    let shifted = earlier.timestamp() + 3 * SECS_PER_WEEK;
    assert!(before.timestamp() <= shifted && shifted <= after.timestamp());
    let same = DateTime::weeks_ago(0);
    assert!(same.timestamp() >= before.timestamp());
    let far = DateTime::weeks_ago(MAX_WEEKS_AGO);
    assert!(far.timestamp() >= MIN_TIMESTAMP);
    assert!(far.timestamp() + i64::from(MAX_WEEKS_AGO) * SECS_PER_WEEK >= before.timestamp());
    assert_eq!(i64::from(MAX_WEEKS_AGO) * SECS_PER_WEEK, -MIN_TIMESTAMP);
}

#[test]
fn status_wraps_results() {
    assert_eq!(Status::from_result(Ok::<u8, String>(7)), Status::Success { data: 7 });
    assert_eq!(
        Status::<u8>::from_result(Err("boom".to_string())),
        Status::Error { message: "boom".to_string() }
    );
    assert_eq!(Status::Success { data: 7u8 }.into_result(), Ok(7));
    assert_eq!(
        Status::<u8>::Error { message: "boom".to_string() }.into_result(),
        Err("failed to call: boom".to_string())
    );
}

#[test]
fn worker_rests_for_the_remainder() {
    assert_eq!(rest_after(10, 3), Some(7));
    assert_eq!(rest_after(10, 10), None);
    assert_eq!(rest_after(10, 11), None);
    assert_eq!(rest_after(0, 0), None);
    assert_eq!(rest_after(u128::MAX, 1), Some(u128::MAX - 1));
    assert_eq!(after_run(true), Restart::Stop);
    assert_eq!(after_run(false), Restart::After { secs: 1 });
    assert_eq!(RESTART_DELAY_SECS, 1);
}

#[test]
fn request_span_uses_first_day_for_both() {
    let day = DateTime::from_timestamp(1_431_648_000, 0).unwrap();
    let other = DateTime::from_timestamp(1_500_000_000, 0).unwrap();
    let earlier = DateTime::from_timestamp(86_400, 0).unwrap();
    let now = DateTime::from_timestamp(86_400 * 366, 0).unwrap();
    let given = dp::Request { date_begin: Some(day), date_end: Some(other) };
    assert_eq!(given.span_at(earlier, now), ("20150515".to_string(), "20150515".to_string()));
    assert_eq!(given.span(), ("20150515".to_string(), "20150515".to_string()));
    let open = dp::Request { date_begin: None, date_end: Some(other) };
    assert_eq!(open.span_at(earlier, now), ("19700102".to_string(), "19710102".to_string()));
    let (from, to) = dp::Request::default().span();
    assert_eq!(from.len(), 8);
    assert_eq!(to.len(), 8);
    assert!(from < to);
    assert_eq!(dp::DEFAULT_WEEKS, 24);
}

#[test]
fn models_hold_their_fields() {
    assert_eq!(apa::RESOURCE_URI, "/zeus/apa/");
    assert_eq!(apc_dir_purc_aply_e::RESOURCE_URI, "/zeus/apc/");
    assert_eq!(dp::RESOURCE_URI, "/zeus/apa/");
    let request = apa::Request::default();
    assert_eq!(request.aply_fr_dt, None);
    assert_eq!(request.aply_to_dt, None);
    let product = apa::Product {
        inner: apa::ProductBuy {
            name: "pen".to_string(),
            amount: apa::ProductAmount::EA(3),
            is_resource: false,
        },
    };
    assert!(matches!(product.inner.amount, apa::ProductAmount::EA(3)));
    assert!(matches!(apc_dir_purc_aply_e::ProductAmount::EA(9), apc_dir_purc_aply_e::ProductAmount::EA(9)));
    let receipt = dp::ProductReceipt { unit_price: 100, supply_price: 300, vat: 30, total: 330 };
    let bought = dp::Product {
        template: dp::ProductTemplate {
            name: "pen".to_string(),
            format: "0.5mm".to_string(),
            amount: dp::ProductAmount::EA(4),
            is_resource: false,
        },
        receipt: Some(receipt),
    };
    assert_eq!(bought.receipt.map(|r| r.total), Some(330));
    assert_eq!(Header::default().activated, None);
    let raw = RawField { metadata: Metadata::default(), data: 5u8 };
    assert_eq!(raw, RawField { metadata: Metadata { confirm: None, alert: None, hash: None }, data: 5 });
    let _ = apc_dir_purc_aply_e::ResponseItem {};
}

#[test]
fn login_is_judged_by_error_message() {
    assert!(login_succeeded("{\"error_msg\":\"\"}"));
    assert!(login_succeeded(" { \"user\" : 1, \"error_msg\" : \"\" } "));
    assert!(!login_succeeded("{\"error_msg\":\"wrong password\"}"));
    assert!(!login_succeeded("{\"error_msg\":null}"));
    assert!(!login_succeeded("{\"error_msg\":0}"));
    assert!(!login_succeeded("{\"error\":\"\"}"));
    assert!(!login_succeeded("{}"));
    assert!(!login_succeeded("[]"));
    assert!(!login_succeeded("\"\""));
    assert!(!login_succeeded(""));
    assert!(!login_succeeded("<html>login</html>"));
    assert!(login_admitted(&Some(JsonMember::Text("".to_string()))));
    assert!(!login_admitted(&Some(JsonMember::Text(" ".to_string()))));
    assert!(!login_admitted(&Some(JsonMember::Missing)));
    assert!(!login_admitted(&Some(JsonMember::Other)));
    assert!(!login_admitted(&None));
}

#[test]
fn members_are_looked_up_by_key() {
    let members = vec![
        ("a".to_string(), Some("x".to_string())),
        ("b".to_string(), None),
        ("a".to_string(), None),
        ("".to_string(), Some("".to_string())),
    ];
    assert_eq!(find_member(&members, "a"), JsonMember::Text("x".to_string()));
    assert_eq!(find_member(&members, "b"), JsonMember::Other);
    assert_eq!(find_member(&members, ""), JsonMember::Text("".to_string()));
    assert_eq!(find_member(&members, "c"), JsonMember::Missing);
    assert_eq!(find_member(&vec![], "a"), JsonMember::Missing);
}

#[test]
fn later_member_of_a_repeated_key_decides_login() {
    assert!(login_succeeded("{\"error_msg\":\"no\",\"error_msg\":\"\"}"));
    assert!(!login_succeeded("{\"error_msg\":\"\",\"error_msg\":\"no\"}"));
    assert!(!login_succeeded("{\"error_msg\":\"\"} trailing"));
}

#[test]
fn time_moves_back_by_whole_weeks() {
    let at = DateTime::from_timestamp(1_431_648_000, 7).unwrap();
    let before = at.weeks_before(2);
    assert_eq!(before.timestamp(), 1_431_648_000 - 2 * 604_800);
    assert_eq!(before.timestamp_subsec_nanos(), 7);
    assert_eq!(before.format(DateTimeFormat::YYYYMMDD), "20150501");
    assert_eq!(at.weeks_before(0), at);
    let epoch = DateTime::from_timestamp(0, 0).unwrap();
    assert_eq!(epoch.weeks_before(MAX_WEEKS_AGO).timestamp(), MIN_TIMESTAMP);
    assert_eq!(epoch.weeks_before(MAX_WEEKS_AGO).format(DateTimeFormat::YYYYMMDD), "-2621430101");
}

#[test]
fn moving_back_agrees_with_chrono() {
    for (secs, nanos, weeks) in [
        (0i64, 0u32, 0u32),
        (1_431_648_000, 999_999_999, 4),
        (1_431_648_000, 1, 24),
        (-86_399, 5, 1),
        (MAX_TIMESTAMP, 999_999_999, MAX_WEEKS_AGO),
        (0, 0, MAX_WEEKS_AGO),
        (MIN_TIMESTAMP, 0, 0),
    ] {
        let at = DateTime::from_timestamp(secs, nanos).unwrap();
        let theirs = chrono::DateTime::from_timestamp(secs, nanos).unwrap()
            - chrono::Duration::weeks(i64::from(weeks));
        let ours = at.weeks_before(weeks);
        assert_eq!(ours.timestamp(), theirs.timestamp());
        assert_eq!(ours.timestamp_subsec_nanos(), theirs.timestamp_subsec_nanos());
        assert_eq!(
            ours.format(DateTimeFormat::YYYYMMDD),
            theirs.format("%Y%m%d").to_string()
        );
    }
}

#[test]
fn session_token_is_the_first_cookie_of_its_name() {
    let cookie = |n: &str, v: &str| (n.to_string(), v.to_string());
    assert_eq!(
        find_session_token(&vec![cookie("JSESSIONID", "a"), cookie("WMONID", "b"), cookie("WMONID", "c")]),
        Some("b".to_string())
    );
    assert_eq!(find_session_token(&vec![cookie("wmonid", "b")]), None);
    assert_eq!(find_session_token(&vec![]), None);
}

#[test]
fn query_names_the_member_four_times() {
    assert_eq!(
        owner_filter("20211234"),
        "AND (APA.APLYT_STUDT_STTS_NO='20211234' OR APA.HEAD_STAFF_NO='20211234' OR D.GUID_PROF_NO IN (  SELECT GUID_PROF_NO FROM USR_MST WHERE STUDT_NO='20211234') OR APA.APLYT_STUDT_STTS_NO=(  SELECT GUID_PROF_NO FROM USR_MST WHERE STUDT_NO='20211234'))"
    );
    let text = |s: &str| DataValue::Text(s.to_string());
    let expected = DataValue::Object(vec![
        ("aply_dept_cd".to_string(), text("")),
        ("aply_fr_dt".to_string(), text("20210101")),
        ("aply_nm".to_string(), text("")),
        ("aply_to_dt".to_string(), text("20210131")),
        ("ctrl_val1_cd".to_string(), text("REPM")),
        ("ctrl_val2_cd".to_string(), text("STUD")),
        ("ctrl_val3_cd".to_string(), text(&owner_filter("7"))),
        ("purc_aply_no".to_string(), text("")),
        ("purc_prog_st_cd".to_string(), text("")),
    ]);
    let query = purchase_query("7", "20210101".to_string(), "20210131".to_string());
    assert_eq!(query, expected);
    let wire = Payload::from_json(Some("tok"), Some("PG"), &query).unwrap().into_string();
    assert!(wire.starts_with("SSV:utf-8\u{1f}page_open_time=\u{1f}pg_key=PG\u{1f}WMONID=tok\u{1f}aply_dept_cd=\u{1f}aply_fr_dt=20210101\u{1f}aply_nm=\u{1f}aply_to_dt=20210131\u{1f}ctrl_val1_cd=REPM\u{1f}ctrl_val2_cd=STUD\u{1f}ctrl_val3_cd=AND (APA."));
    assert!(wire.ends_with("STUDT_NO='7'))\u{1f}purc_aply_no=\u{1f}purc_prog_st_cd="));
}

fn user_record(skip: Option<&str>) -> Record {
    let names = [
        "BASE_DEPT_CD", "BASE_DEPT_NM", "DOMFRNR_CD", "LANG_CD", "MBR_NO", "NOW_ST_CD",
        "NOW_ST_NM", "ORGN_CLSF_CD", "POSI_DEPT_CD", "POSI_DEPT_NM", "STTS_CLSF_CD",
        "STTS_CLSF_NM", "STTS_MID_CD", "UNI_CLSF_CD", "USER_NM", "USER_NM_ENG",
    ];
    let mut fields = vec![RecordField { name: "EXTRA".to_string(), value: FieldValue::Integer(1) }];
    for name in names.iter().rev() {
        if Some(*name) != skip {
            fields.push(RecordField {
                name: name.to_string(),
                value: FieldValue::Text(format!("v-{}", name.to_lowercase())),
            });
        }
    }
    Record { fields }
}

#[test]
fn user_is_made_from_a_record() {
    let user = User::from_record(&user_record(None)).unwrap();
    assert_eq!(user.base_dept_cd, "v-base_dept_cd");
    assert_eq!(user.base_dept_nm, "v-base_dept_nm");
    assert_eq!(user.domfrnr_cd, "v-domfrnr_cd");
    assert_eq!(user.lang_cd, "v-lang_cd");
    assert_eq!(user.mbr_no, "v-mbr_no");
    assert_eq!(user.now_st_cd, "v-now_st_cd");
    assert_eq!(user.now_st_nm, "v-now_st_nm");
    assert_eq!(user.orgn_clsf_cd, "v-orgn_clsf_cd");
    assert_eq!(user.posi_dept_cd, "v-posi_dept_cd");
    assert_eq!(user.posi_dept_nm, "v-posi_dept_nm");
    assert_eq!(user.stts_clsf_cd, "v-stts_clsf_cd");
    assert_eq!(user.stts_clsf_nm, "v-stts_clsf_nm");
    assert_eq!(user.stts_mid_cd, "v-stts_mid_cd");
    assert_eq!(user.uni_clsf_cd, "v-uni_clsf_cd");
    assert_eq!(user.user_nm, "v-user_nm");
    assert_eq!(user.user_nm_eng, "v-user_nm_eng");
}

#[test]
fn user_needs_every_field_as_text() {
    assert_eq!(
        User::from_record(&user_record(Some("MBR_NO"))),
        Err(CodecError::MissingField { field: "MBR_NO".to_string() })
    );
    let mut two = user_record(Some("USER_NM"));
    two.fields.retain(|f| f.name != "LANG_CD");
    assert_eq!(
        User::from_record(&two),
        Err(CodecError::MissingField { field: "LANG_CD".to_string() })
    );
    let mut number = user_record(None);
    number.fields.push(RecordField { name: "USER_NM".to_string(), value: FieldValue::Integer(3) });
    assert_eq!(
        User::from_record(&number),
        Err(CodecError::MissingField { field: "USER_NM".to_string() })
    );
    assert_eq!(
        User::from_record(&Record { fields: vec![] }),
        Err(CodecError::MissingField { field: "BASE_DEPT_CD".to_string() })
    );
}

#[test]
fn users_are_decoded_from_a_response() {
    let mut descriptors = String::new();
    let mut row = String::new();
    for (i, name) in [
        "BASE_DEPT_CD", "BASE_DEPT_NM", "DOMFRNR_CD", "LANG_CD", "MBR_NO", "NOW_ST_CD",
        "NOW_ST_NM", "ORGN_CLSF_CD", "POSI_DEPT_CD", "POSI_DEPT_NM", "STTS_CLSF_CD",
        "STTS_CLSF_NM", "STTS_MID_CD", "UNI_CLSF_CD", "USER_NM", "USER_NM_ENG",
    ]
    .iter()
    .enumerate()
    {
        if i > 0 {
            descriptors.push('\u{1f}');
            row.push('\u{1f}');
        }
        descriptors.push_str(&format!("{}:string(32)", name));
        row.push_str(&format!("{}", i));
    }
    let text = format!("SSV:utf-8\u{1e}_RowType_\u{1f}{}\u{1e}N\u{1f}{}", descriptors, row);
    let users: Vec<User> = Payload::new(text).to_json().unwrap();
    assert_eq!(users.len(), 1);
    assert_eq!(users[0].mbr_no, "4");
    assert_eq!(users[0].user_nm_eng, "15");
    let short = "SSV:utf-8\u{1e}_RowType_\u{1f}MBR_NO:string(8)\u{1e}N\u{1f}1\u{1e}2";
    assert_eq!(
        Payload::new(short.to_string()).to_json::<User>(),
        Err(CodecError::MissingField { field: "BASE_DEPT_CD".to_string() })
    );
}

#[test]
fn commands_are_plain_values() {
    let get = SubCommandZeusApcDirPurcAplyEGet { aply_fr_dt: Some("20210101".to_string()), aply_to_dt: None };
    assert_eq!(
        get.span("20201204".to_string(), "20210101".to_string()),
        ("20201204".to_string(), "20210101".to_string())
    );
    let until = SubCommandZeusApcDirPurcAplyEGet { aply_fr_dt: None, aply_to_dt: Some("20210131".to_string()) };
    assert_eq!(
        until.span("20201204".to_string(), "20210101".to_string()),
        ("20210131".to_string(), "20210131".to_string())
    );
    let opts = Opts {
        command: SubCommand::Zeus(SubCommandZeus::Buy(SubCommandZeusApcDirPurcAplyE::Get(get))),
        verbose: true,
    };
    assert_eq!(opts.log_level(), LogLevel::Trace);
    assert_eq!(Opts { verbose: false, ..opts }.log_level(), LogLevel::Info);
}
