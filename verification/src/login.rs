//! Password login: the encrypted login form, the verdict of the login
//! reply, and the account read from the single-sign-on reply.
use vstd::prelude::*;
use crate::attachment::params_view;
use crate::client::ClientError;
use crate::crypto::{aes_encrypt_b64, login_cipher_text};
use crate::json::{JsonValue, json_to_i64, json_text, json_to_text};
use crate::text::{concat, string_of_str};

verus! {

/// The signed-in account.
pub struct AccountInfo {
    pub puid: i64,
    pub name: String,
    pub sex: i32,
    pub phone: String,
    pub school: String,
    pub stu_id: Option<String>,
}

impl AccountInfo {
    /// A copy of the account.
    pub fn copy(&self) -> (r: AccountInfo)
        ensures
            r == *self,
    {
        AccountInfo {
            puid: self.puid,
            name: self.name.clone(),
            sex: self.sex,
            phone: self.phone.clone(),
            school: self.school.clone(),
            stu_id: crate::chapters::copy_opt_string(&self.stu_id),
        }
    }
}

/// The form of the web login request.
pub open spec fn login_form_of(phone: Seq<char>, passwd: Seq<char>) -> Seq<(Seq<char>, Seq<char>)> {
    seq![
        ("fid"@, "-1"@),
        ("uname"@, login_cipher_text(phone)),
        ("password"@, login_cipher_text(passwd)),
        ("t"@, "true"@),
        ("forbidotherlogin"@, "0"@),
        ("validate"@, Seq::empty()),
    ]
}

/// `login_passwd`'s form: the encrypted phone and password with the fixed
/// fields.
pub fn login_form(phone: &str, passwd: &str) -> (r: Vec<(String, String)>)
    ensures
        params_view(r@) == login_form_of(phone@, passwd@),
{
    let mut ps: Vec<(String, String)> = Vec::new();
    ps.push((string_of_str("fid"), string_of_str("-1")));
    ps.push((string_of_str("uname"), aes_encrypt_b64(phone)));
    ps.push((string_of_str("password"), aes_encrypt_b64(passwd)));
    ps.push((string_of_str("t"), string_of_str("true")));
    ps.push((string_of_str("forbidotherlogin"), string_of_str("0")));
    ps.push((string_of_str("validate"), String::new()));
    assert(params_view(ps@) =~= login_form_of(phone@, passwd@));
    ps
}

/// The reply of the login request, as its fields are typed.
pub struct LoginReply {
    pub status: Option<bool>,
    pub msg: Option<JsonValue>,
}

/// The verdict of a login reply: accepted only when `status` is `true`;
/// otherwise "登录失败: " and the JSON of `msg` (or "login failed").
pub open spec fn login_verdict(reply: LoginReply, r: Result<(), ClientError>) -> bool {
    if reply.status == Some(true) {
        r == Ok::<(), ClientError>(())
    } else {
        r matches Err(ClientError::Api(m)) && m@ == "登录失败: "@ + (match reply.msg {
            Some(v) => json_text(v),
            None => "login failed"@,
        })
    }
}

/// `login_passwd` after the login request.
pub fn check_login(reply: &LoginReply) -> (r: Result<(), ClientError>)
    ensures
        login_verdict(*reply, r),
{
    if matches!(reply.status, Some(true)) {
        Ok(())
    } else {
        let detail = match &reply.msg {
            Some(v) => json_to_text(v),
            None => string_of_str("login failed"),
        };
        Err(ClientError::Api(concat("登录失败: ", detail.as_str())))
    }
}

/// The `msg` of the single-sign-on reply.
pub struct SsoMsg {
    pub puid: Option<JsonValue>,
    pub name: Option<String>,
    pub sex: Option<i32>,
    pub phone: Option<String>,
    pub schoolname: Option<String>,
    pub uname: Option<String>,
}

/// The single-sign-on reply, as its fields are typed.
pub struct SsoReply {
    pub result: Option<i32>,
    pub msg: Option<SsoMsg>,
}

/// The text of an optional string, empty when absent.
pub open spec fn text_or_empty(o: Option<String>) -> Seq<char> {
    match o {
        Some(s) => s@,
        None => Seq::empty(),
    }
}

/// What the single-sign-on reply yields: an invalid session when `result`
/// is 0 or there is no `msg`; a parse error without an integer `puid`;
/// otherwise the account, with empty texts and sex -1 for absent fields.
pub open spec fn account_outcome(reply: SsoReply, r: Result<AccountInfo, ClientError>) -> bool {
    if reply.result == Some(0i32) || reply.msg is None {
        r matches Err(ClientError::Api(m)) && m@ == "会话无效或未登录"@
    } else {
        let msg = reply.msg->0;
        let puid = match msg.puid {
            Some(p) => json_to_i64(p),
            None => None,
        };
        match puid {
            Some(id) => r matches Ok(acc) && acc.puid == id && acc.name@ == text_or_empty(msg.name)
                && acc.sex == (match msg.sex {
                Some(s) => s,
                None => -1i32,
            }) && acc.phone@ == text_or_empty(msg.phone) && acc.school@ == text_or_empty(msg.schoolname)
                && acc.stu_id == msg.uname,
            None => r matches Err(ClientError::Parse(m)) && m@ == "missing puid"@,
        }
    }
}

fn text_or_empty_exec(o: &Option<String>) -> (r: String)
    ensures
        r@ == text_or_empty(*o),
{
    match o {
        Some(s) => s.clone(),
        None => String::new(),
    }
}

/// `fetch_account_info` after the request.
pub fn account_from_sso(reply: &SsoReply) -> (r: Result<AccountInfo, ClientError>)
    ensures
        account_outcome(*reply, r),
{
    let msg = match &reply.msg {
        Some(m) => m,
        None => return Err(ClientError::Api(string_of_str("会话无效或未登录"))),
    };
    if matches!(reply.result, Some(0)) {
        return Err(ClientError::Api(string_of_str("会话无效或未登录")));
    }
    let puid = match &msg.puid {
        Some(p) => match p.to_i64() {
            Some(n) => n,
            None => return Err(ClientError::Parse(string_of_str("missing puid"))),
        },
        None => return Err(ClientError::Parse(string_of_str("missing puid"))),
    };
    Ok(
        AccountInfo {
            puid,
            name: text_or_empty_exec(&msg.name),
            sex: match msg.sex {
                Some(s) => s,
                None => -1,
            },
            phone: text_or_empty_exec(&msg.phone),
            school: text_or_empty_exec(&msg.schoolname),
            stu_id: crate::chapters::copy_opt_string(&msg.uname),
        },
    )
}

} // verus!
