//! The query for the applications for direct purchases.

use vstd::prelude::*;
use crate::codec::value::{lemma_member_views, member_views, DataValue, DataView};
use crate::text::{to_chars, to_string};

verus! {

/// The path under which the applications for direct purchases are listed.
pub const PURCHASES_PATH: &'static str = "/apc/apcDirPurcAplyE/selectMain.do";

/// The key of the page that lists the applications for direct purchases.
pub const PURCHASES_PAGE_KEY: &'static str = "PERS01^PERS01_15^002^ApcDirPurcAplyE";

/// The condition that keeps the applications to those of the member
/// `member`: as applicant, as head, or as a student of the applicant or of
/// the guiding professor. The number of the member is put in as it stands.
pub open spec fn owner_condition(member: Seq<char>) -> Seq<char> {
    "AND (APA.APLYT_STUDT_STTS_NO='"@ + member + "' OR APA.HEAD_STAFF_NO='"@ + member
        + "' OR D.GUID_PROF_NO IN (  SELECT GUID_PROF_NO FROM USR_MST WHERE STUDT_NO='"@ + member
        + "') OR APA.APLYT_STUDT_STTS_NO=(  SELECT GUID_PROF_NO FROM USR_MST WHERE STUDT_NO='"@
        + member + "'))"@
}

/// The keys and texts of the query of the member `member` for the days from
/// `from` to `to`, in the order of the keys.
pub open spec fn purchase_fields(member: Seq<char>, from: Seq<char>, to: Seq<char>) -> Seq<
    (Seq<char>, Seq<char>),
> {
    seq![
        ("aply_dept_cd"@, Seq::<char>::empty()),
        ("aply_fr_dt"@, from),
        ("aply_nm"@, Seq::<char>::empty()),
        ("aply_to_dt"@, to),
        ("ctrl_val1_cd"@, "REPM"@),
        ("ctrl_val2_cd"@, "STUD"@),
        ("ctrl_val3_cd"@, owner_condition(member)),
        ("purc_aply_no"@, Seq::<char>::empty()),
        ("purc_prog_st_cd"@, Seq::<char>::empty()),
    ]
}

/// The mapping whose members bear the texts of `fields` under their keys,
/// in their order.
pub open spec fn text_object(fields: Seq<(Seq<char>, Seq<char>)>) -> DataView {
    DataView::Object(fields.map_values(|f: (Seq<char>, Seq<char>)| (f.0, DataView::Text(f.1))))
}

/// The condition that keeps the applications to those of the member
/// `member`.
pub fn owner_filter(member: &str) -> (r: String)
    ensures
        r@ == owner_condition(member@),
{
    let who = to_chars(member);
    let mut out = to_chars("AND (APA.APLYT_STUDT_STTS_NO='");
    let mut a = who.clone();
    out.append(&mut a);
    let mut or_head = to_chars("' OR APA.HEAD_STAFF_NO='");
    out.append(&mut or_head);
    let mut b = who.clone();
    out.append(&mut b);
    let mut or_guide = to_chars(
        "' OR D.GUID_PROF_NO IN (  SELECT GUID_PROF_NO FROM USR_MST WHERE STUDT_NO='",
    );
    out.append(&mut or_guide);
    let mut c = who.clone();
    out.append(&mut c);
    let mut or_student = to_chars(
        "') OR APA.APLYT_STUDT_STTS_NO=(  SELECT GUID_PROF_NO FROM USR_MST WHERE STUDT_NO='",
    );
    out.append(&mut or_student);
    let mut d = who.clone();
    out.append(&mut d);
    let mut close = to_chars("'))");
    out.append(&mut close);
    to_string(&out)
}

/// The member of a mapping that bears `text` under `key`.
fn member(key: &str, text: String) -> (r: (String, DataValue))
    ensures
        r.0@ == key@,
        r.1@ == DataView::Text(text@),
{
    (key.to_owned(), DataValue::Text(text))
}

/// The query of the member `member` for the applications for direct
/// purchases of the days from `aply_fr_dt` to `aply_to_dt`.
pub fn purchase_query(member: &str, aply_fr_dt: String, aply_to_dt: String) -> (r: DataValue)
    ensures
        r@ == text_object(purchase_fields(member@, aply_fr_dt@, aply_to_dt@)),
{
    let mut members: Vec<(String, DataValue)> = Vec::new();
    members.push(self::member("aply_dept_cd", String::new()));
    members.push(self::member("aply_fr_dt", aply_fr_dt));
    members.push(self::member("aply_nm", String::new()));
    members.push(self::member("aply_to_dt", aply_to_dt));
    members.push(self::member("ctrl_val1_cd", "REPM".to_owned()));
    members.push(self::member("ctrl_val2_cd", "STUD".to_owned()));
    members.push(self::member("ctrl_val3_cd", owner_filter(member)));
    members.push(self::member("purc_aply_no", String::new()));
    members.push(self::member("purc_prog_st_cd", String::new()));
    let query = DataValue::Object(members);
    proof {
        let fields = purchase_fields(member@, aply_fr_dt@, aply_to_dt@);
        let wanted = fields.map_values(|f: (Seq<char>, Seq<char>)| (f.0, DataView::Text(f.1)));
        lemma_member_views(members@);
        assert(member_views(members@) =~= wanted);
    }
    query
}

} // verus!
