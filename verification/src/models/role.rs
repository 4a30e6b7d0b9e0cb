//! The user as the remote system describes them.

use vstd::prelude::*;
use crate::codec::error::{CodecError, ErrorView};
use crate::codec::field::FieldView;
use crate::codec::record::{required_text, FromRecord, Record};

verus! {

/// A user of the remote system.
#[derive(Clone, Debug, PartialEq)]
pub struct User {
    pub base_dept_cd: String,
    pub base_dept_nm: String,
    pub domfrnr_cd: String,
    pub lang_cd: String,
    /// The number of the member.
    pub mbr_no: String,
    pub now_st_cd: String,
    pub now_st_nm: String,
    pub orgn_clsf_cd: String,
    pub posi_dept_cd: String,
    pub posi_dept_nm: String,
    pub stts_clsf_cd: String,
    pub stts_clsf_nm: String,
    pub stts_mid_cd: String,
    pub uni_clsf_cd: String,
    /// The name.
    pub user_nm: String,
    /// The name in English.
    pub user_nm_eng: String,
}

/// The names under which a record holds the fields of a user, in the order
/// of the fields.
pub open spec fn user_fields() -> Seq<Seq<char>> {
    seq![
        "BASE_DEPT_CD"@,
        "BASE_DEPT_NM"@,
        "DOMFRNR_CD"@,
        "LANG_CD"@,
        "MBR_NO"@,
        "NOW_ST_CD"@,
        "NOW_ST_NM"@,
        "ORGN_CLSF_CD"@,
        "POSI_DEPT_CD"@,
        "POSI_DEPT_NM"@,
        "STTS_CLSF_CD"@,
        "STTS_CLSF_NM"@,
        "STTS_MID_CD"@,
        "UNI_CLSF_CD"@,
        "USER_NM"@,
        "USER_NM_ENG"@,
    ]
}

/// The error of the first of the names `names` under which `fields` holds
/// no text.
pub open spec fn first_lacking(fields: Seq<FieldView>, names: Seq<Seq<char>>) -> Option<ErrorView>
    decreases names.len(),
{
    if names.len() == 0 {
        None
    } else {
        match first_lacking(fields, names.drop_last()) {
            Some(e) => Some(e),
            None => match required_text(fields, names.last()) {
                Ok(_) => None,
                Err(e) => Some(e),
            },
        }
    }
}

/// The texts of the user `user`, in the order of the fields.
pub open spec fn user_texts(user: User) -> Seq<Seq<char>> {
    seq![
        user.base_dept_cd@,
        user.base_dept_nm@,
        user.domfrnr_cd@,
        user.lang_cd@,
        user.mbr_no@,
        user.now_st_cd@,
        user.now_st_nm@,
        user.orgn_clsf_cd@,
        user.posi_dept_cd@,
        user.posi_dept_nm@,
        user.stts_clsf_cd@,
        user.stts_clsf_nm@,
        user.stts_mid_cd@,
        user.uni_clsf_cd@,
        user.user_nm@,
        user.user_nm_eng@,
    ]
}

impl FromRecord for User {
    /// A record is turned down for the first field, in the order of the
    /// fields, under whose name it holds no text.
    open spec fn rejection(fields: Seq<FieldView>) -> Option<ErrorView> {
        first_lacking(fields, user_fields())
    }

    /// Each field of the user is the text that the record holds under its
    /// name.
    open spec fn made_from(fields: Seq<FieldView>, made: User) -> bool {
        forall|i: int|
            0 <= i < 16 ==> required_text(fields, #[trigger] user_fields()[i]) == Ok::<
                Seq<char>,
                ErrorView,
            >(user_texts(made)[i])
    }

    fn from_record(record: &Record) -> (r: Result<User, CodecError>) {
        proof {
            reveal_with_fuel(first_lacking, 17);
        }
        let base_dept_cd = match record.text("BASE_DEPT_CD") {
            Ok(s) => s,
            Err(e) => {
                return Err(e);
            },
        };
        let base_dept_nm = match record.text("BASE_DEPT_NM") {
            Ok(s) => s,
            Err(e) => {
                return Err(e);
            },
        };
        let domfrnr_cd = match record.text("DOMFRNR_CD") {
            Ok(s) => s,
            Err(e) => {
                return Err(e);
            },
        };
        let lang_cd = match record.text("LANG_CD") {
            Ok(s) => s,
            Err(e) => {
                return Err(e);
            },
        };
        let mbr_no = match record.text("MBR_NO") {
            Ok(s) => s,
            Err(e) => {
                return Err(e);
            },
        };
        let now_st_cd = match record.text("NOW_ST_CD") {
            Ok(s) => s,
            Err(e) => {
                return Err(e);
            },
        };
        let now_st_nm = match record.text("NOW_ST_NM") {
            Ok(s) => s,
            Err(e) => {
                return Err(e);
            },
        };
        let orgn_clsf_cd = match record.text("ORGN_CLSF_CD") {
            Ok(s) => s,
            Err(e) => {
                return Err(e);
            },
        };
        let posi_dept_cd = match record.text("POSI_DEPT_CD") {
            Ok(s) => s,
            Err(e) => {
                return Err(e);
            },
        };
        let posi_dept_nm = match record.text("POSI_DEPT_NM") {
            Ok(s) => s,
            Err(e) => {
                return Err(e);
            },
        };
        let stts_clsf_cd = match record.text("STTS_CLSF_CD") {
            Ok(s) => s,
            Err(e) => {
                return Err(e);
            },
        };
        let stts_clsf_nm = match record.text("STTS_CLSF_NM") {
            Ok(s) => s,
            Err(e) => {
                return Err(e);
            },
        };
        let stts_mid_cd = match record.text("STTS_MID_CD") {
            Ok(s) => s,
            Err(e) => {
                return Err(e);
            },
        };
        let uni_clsf_cd = match record.text("UNI_CLSF_CD") {
            Ok(s) => s,
            Err(e) => {
                return Err(e);
            },
        };
        let user_nm = match record.text("USER_NM") {
            Ok(s) => s,
            Err(e) => {
                return Err(e);
            },
        };
        let user_nm_eng = match record.text("USER_NM_ENG") {
            Ok(s) => s,
            Err(e) => {
                return Err(e);
            },
        };
        Ok(
            User {
                base_dept_cd,
                base_dept_nm,
                domfrnr_cd,
                lang_cd,
                mbr_no,
                now_st_cd,
                now_st_nm,
                orgn_clsf_cd,
                posi_dept_cd,
                posi_dept_nm,
                stts_clsf_cd,
                stts_clsf_nm,
                stts_mid_cd,
                uni_clsf_cd,
                user_nm,
                user_nm_eng,
            },
        )
    }
}

} // verus!
