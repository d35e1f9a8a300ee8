//! The record model: the status vocabulary of the lookup dispatcher, the
//! records the backend serves, and the fixed-width records handed back to the
//! dispatcher once the variable-length fields have been placed in its buffer.

use vstd::prelude::*;
use vstd::string::*;

verus! {

/// The status every entry point reports to the lookup dispatcher.
#[allow(non_camel_case_types)]
#[derive(Clone, Copy, Debug, PartialEq, Eq, Structural)]
pub enum nss_status {
    NSS_STATUS_TRYAGAIN,
    NSS_STATUS_UNAVAIL,
    NSS_STATUS_NOTFOUND,
    NSS_STATUS_SUCCESS,
    NSS_STATUS_RETURN,
}

impl nss_status {
    /// The integer the dispatcher knows this status by.
    pub open spec fn spec_code(self) -> int {
        match self {
            nss_status::NSS_STATUS_TRYAGAIN => -2,
            nss_status::NSS_STATUS_UNAVAIL => -1,
            nss_status::NSS_STATUS_NOTFOUND => 0,
            nss_status::NSS_STATUS_SUCCESS => 1,
            nss_status::NSS_STATUS_RETURN => 2,
        }
    }

    /// The integer the dispatcher knows this status by.
    pub fn code(self) -> (c: i32)
        ensures
            c == self.spec_code(),
    {
        match self {
            nss_status::NSS_STATUS_TRYAGAIN => -2,
            nss_status::NSS_STATUS_UNAVAIL => -1,
            nss_status::NSS_STATUS_NOTFOUND => 0,
            nss_status::NSS_STATUS_SUCCESS => 1,
            nss_status::NSS_STATUS_RETURN => 2,
        }
    }
}

/// A password entry as the backend serves it.
#[derive(Debug, PartialEq, Eq)]
pub struct AlexandriaPassword {
    pub pw_name: String,
    pub pw_passwd: String,
    pub pw_uid: u32,
    pub pw_gid: u32,
    pub pw_gecos: String,
    pub pw_dir: String,
    pub pw_shell: String,
}

/// The mathematical content of an [`AlexandriaPassword`].
pub struct PasswordView {
    pub pw_name: Seq<char>,
    pub pw_passwd: Seq<char>,
    pub pw_uid: u32,
    pub pw_gid: u32,
    pub pw_gecos: Seq<char>,
    pub pw_dir: Seq<char>,
    pub pw_shell: Seq<char>,
}

impl View for AlexandriaPassword {
    type V = PasswordView;

    open spec fn view(&self) -> PasswordView {
        PasswordView {
            pw_name: self.pw_name@,
            pw_passwd: self.pw_passwd@,
            pw_uid: self.pw_uid,
            pw_gid: self.pw_gid,
            pw_gecos: self.pw_gecos@,
            pw_dir: self.pw_dir@,
            pw_shell: self.pw_shell@,
        }
    }
}

impl Clone for AlexandriaPassword {
    fn clone(&self) -> (copy: Self)
        ensures
            copy@ == self@,
    {
        AlexandriaPassword {
            pw_name: self.pw_name.clone(),
            pw_passwd: self.pw_passwd.clone(),
            pw_uid: self.pw_uid,
            pw_gid: self.pw_gid,
            pw_gecos: self.pw_gecos.clone(),
            pw_dir: self.pw_dir.clone(),
            pw_shell: self.pw_shell.clone(),
        }
    }
}

/// A group entry as the backend serves it.
#[derive(Debug, PartialEq, Eq)]
pub struct AlexandriaGroup {
    pub gr_name: String,
    pub gr_passwd: String,
    pub gr_gid: u32,
    pub gr_mem: Vec<String>,
}

/// The mathematical content of an [`AlexandriaGroup`].
pub struct GroupView {
    pub gr_name: Seq<char>,
    pub gr_passwd: Seq<char>,
    pub gr_gid: u32,
    pub gr_mem: Seq<Seq<char>>,
}

impl View for AlexandriaGroup {
    type V = GroupView;

    open spec fn view(&self) -> GroupView {
        GroupView {
            gr_name: self.gr_name@,
            gr_passwd: self.gr_passwd@,
            gr_gid: self.gr_gid,
            gr_mem: Seq::new(self.gr_mem@.len(), |i: int| self.gr_mem@[i]@),
        }
    }
}

impl Clone for AlexandriaGroup {
    fn clone(&self) -> (copy: Self)
        ensures
            copy@ == self@,
    {
        let gr_mem = self.gr_mem.clone();
        assert(Seq::new(gr_mem@.len(), |i: int| gr_mem@[i]@) =~= Seq::new(
            self.gr_mem@.len(),
            |i: int| self.gr_mem@[i]@,
        ));
        AlexandriaGroup {
            gr_name: self.gr_name.clone(),
            gr_passwd: self.gr_passwd.clone(),
            gr_gid: self.gr_gid,
            gr_mem,
        }
    }
}

/// A shadow entry as the backend serves it.
#[derive(Debug, PartialEq, Eq)]
pub struct AlexandriaShadow {
    pub sp_namp: String,
    pub sp_pwdp: String,
    pub sp_lstchg: i32,
    pub sp_min: i32,
    pub sp_max: i32,
    pub sp_warn: i32,
    pub sp_inact: i32,
    pub sp_expire: i32,
    pub sp_flag: u32,
}

/// The mathematical content of an [`AlexandriaShadow`].
pub struct ShadowView {
    pub sp_namp: Seq<char>,
    pub sp_pwdp: Seq<char>,
    pub sp_lstchg: i32,
    pub sp_min: i32,
    pub sp_max: i32,
    pub sp_warn: i32,
    pub sp_inact: i32,
    pub sp_expire: i32,
    pub sp_flag: u32,
}

impl View for AlexandriaShadow {
    type V = ShadowView;

    open spec fn view(&self) -> ShadowView {
        ShadowView {
            sp_namp: self.sp_namp@,
            sp_pwdp: self.sp_pwdp@,
            sp_lstchg: self.sp_lstchg,
            sp_min: self.sp_min,
            sp_max: self.sp_max,
            sp_warn: self.sp_warn,
            sp_inact: self.sp_inact,
            sp_expire: self.sp_expire,
            sp_flag: self.sp_flag,
        }
    }
}

impl Clone for AlexandriaShadow {
    fn clone(&self) -> (copy: Self)
        ensures
            copy@ == self@,
    {
        AlexandriaShadow {
            sp_namp: self.sp_namp.clone(),
            sp_pwdp: self.sp_pwdp.clone(),
            sp_lstchg: self.sp_lstchg,
            sp_min: self.sp_min,
            sp_max: self.sp_max,
            sp_warn: self.sp_warn,
            sp_inact: self.sp_inact,
            sp_expire: self.sp_expire,
            sp_flag: self.sp_flag,
        }
    }
}

/// The password record handed to the dispatcher. Each string field holds the
/// address of the first byte of a NUL-terminated string inside the caller's
/// buffer.
#[allow(non_camel_case_types)]
#[derive(Clone, Copy, Debug, PartialEq, Eq, Structural)]
pub struct passwd {
    pub pw_name: usize,
    pub pw_passwd: usize,
    pub pw_uid: u32,
    pub pw_gid: u32,
    pub pw_gecos: usize,
    pub pw_dir: usize,
    pub pw_shell: usize,
}

/// The group record handed to the dispatcher. `gr_name` and `gr_passwd` hold
/// addresses of NUL-terminated strings inside the caller's buffer; `gr_mem`
/// holds the address of the member table, which lies in the same buffer.
#[allow(non_camel_case_types)]
#[derive(Clone, Copy, Debug, PartialEq, Eq, Structural)]
pub struct group {
    pub gr_name: usize,
    pub gr_passwd: usize,
    pub gr_gid: u32,
    pub gr_mem: usize,
}

/// The shadow record handed to the dispatcher. `sp_namp` and `sp_pwdp` hold
/// addresses of NUL-terminated strings inside the caller's buffer.
#[allow(non_camel_case_types)]
#[derive(Clone, Copy, Debug, PartialEq, Eq, Structural)]
pub struct spwd {
    pub sp_namp: usize,
    pub sp_pwdp: usize,
    pub sp_lstchg: i64,
    pub sp_min: i64,
    pub sp_max: i64,
    pub sp_warn: i64,
    pub sp_inact: i64,
    pub sp_expire: i64,
    pub sp_flag: u64,
}

/// Why the backend could not be asked or its answer could not be used. Each
/// variant carries the text of the underlying failure.
#[derive(Debug, PartialEq, Eq)]
pub enum AlexandriaSvcError {
    /// Reading the answer failed.
    Io(String),
    /// The request could not be sent or the answer was no valid HTTP.
    Hyper(String),
    /// The body was not the JSON that was expected.
    JsonDecode(String),
}

impl AlexandriaSvcError {
    /// The text of the underlying failure.
    pub open spec fn spec_description(&self) -> Seq<char> {
        match self {
            AlexandriaSvcError::Io(detail) => detail@,
            AlexandriaSvcError::Hyper(detail) => detail@,
            AlexandriaSvcError::JsonDecode(detail) => detail@,
        }
    }

    /// The words that say which kind of failure this is.
    pub open spec fn spec_prefix(&self) -> Seq<char> {
        match self {
            AlexandriaSvcError::Io(_) => "IO error: "@,
            AlexandriaSvcError::Hyper(_) => "HTTP error: "@,
            AlexandriaSvcError::JsonDecode(_) => "JSON decode error: "@,
        }
    }

    /// The text of the underlying failure.
    pub fn description(&self) -> (text: &str)
        ensures
            text@ == self.spec_description(),
    {
        match self {
            AlexandriaSvcError::Io(detail) => detail.as_str(),
            AlexandriaSvcError::Hyper(detail) => detail.as_str(),
            AlexandriaSvcError::JsonDecode(detail) => detail.as_str(),
        }
    }

    /// The failure as one line for a log: its kind, then its text.
    pub fn message(&self) -> (line: String)
        ensures
            line@ == self.spec_prefix() + self.spec_description(),
    {
        let prefix = match self {
            AlexandriaSvcError::Io(_) => "IO error: ",
            AlexandriaSvcError::Hyper(_) => "HTTP error: ",
            AlexandriaSvcError::JsonDecode(_) => "JSON decode error: ",
        };
        String::from_str(prefix).concat(self.description())
    }
}

} // verus!
