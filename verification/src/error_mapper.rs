//! Building launcher errors, and mapping raw process output to them.
use vstd::prelude::*;

pub use crate::models::LauncherError;
use crate::text::{ascii_lowercase, ascii_lowercase_chars, contains_chars, contains_text, copy_string, first_chars, limit_text, owned};

verus! {

/// Longest detail text kept on an error.
pub const DETAIL_LIMIT: usize = 1200;

/// `e` carries exactly the given kind and message and nothing else.
pub open spec fn plain_error(e: LauncherError, kind: Seq<char>, message: Seq<char>) -> bool {
    &&& e.kind@ == kind
    &&& e.message@ == message
    &&& e.detail is None
    &&& e.action is None
    &&& e.port is None
}

/// `e` has kind, message, detail, action and port as given.
pub open spec fn error_is(
    e: LauncherError,
    kind: Seq<char>,
    message: Seq<char>,
    detail: Option<Seq<char>>,
    action: Option<Seq<char>>,
    port: Option<u16>,
) -> bool {
    &&& e.kind@ == kind
    &&& e.message@ == message
    &&& e.detail.is_some() == detail.is_some()
    &&& (e.detail.is_some() ==> e.detail.unwrap()@ == detail.unwrap())
    &&& e.action.is_some() == action.is_some()
    &&& (e.action.is_some() ==> e.action.unwrap()@ == action.unwrap())
    &&& e.port == port
}

impl LauncherError {
    /// An error with a kind and a message only.
    pub fn new(kind: &str, message: &str) -> (e: Self)
        ensures
            plain_error(e, kind@, message@),
    {
        LauncherError { kind: owned(kind), message: owned(message), detail: None, action: None, port: None }
    }

    /// The same error with a detail, cut to its first 1200 characters.
    pub fn with_detail(self, detail: &str) -> (e: Self)
        ensures
            e.kind == self.kind,
            e.message == self.message,
            e.detail is Some,
            e.detail.unwrap()@ == first_chars(detail@, 1200),
            e.action == self.action,
            e.port == self.port,
    {
        let mut e = self;
        e.detail = Some(limit_text(detail, DETAIL_LIMIT));
        e
    }

    /// The same error with a suggested action.
    pub fn with_action(self, action: &str) -> (e: Self)
        ensures
            e.kind == self.kind,
            e.message == self.message,
            e.detail == self.detail,
            e.action is Some,
            e.action.unwrap()@ == action@,
            e.port == self.port,
    {
        let mut e = self;
        e.action = Some(owned(action));
        e
    }

    /// The same error tied to a port.
    pub fn with_port(self, port: u16) -> (e: Self)
        ensures
            e.kind == self.kind,
            e.message == self.message,
            e.detail == self.detail,
            e.action == self.action,
            e.port == Some(port),
    {
        let mut e = self;
        e.port = Some(port);
        e
    }

    /// The text shown for the error: its message.
    pub fn to_text(&self) -> (text: String)
        ensures
            text@ == self.message@,
    {
        copy_string(&self.message)
    }
}

/// Cutting twice to the same length is cutting once.
pub proof fn lemma_first_chars_idempotent(s: Seq<char>, max: nat)
    ensures
        first_chars(first_chars(s, max), max) == first_chars(s, max),
{
}

/// The lower-cased output reports that the port is taken.
pub open spec fn reports_port_in_use(lower: Seq<char>) -> bool {
    ||| contains_text(lower, "eaddrinuse"@)
    ||| contains_text(lower, "address already in use"@)
    ||| contains_text(lower, "only one usage of each socket address"@)
}

/// The lower-cased output reports a refused permission.
pub open spec fn reports_denied(lower: Seq<char>) -> bool {
    ||| contains_text(lower, "permission denied"@)
    ||| contains_text(lower, "access is denied"@)
}

/// The lower-cased npm output reports a refused permission.
pub open spec fn reports_npm_denied(lower: Seq<char>) -> bool {
    ||| contains_text(lower, "eacces"@)
    ||| reports_denied(lower)
}

/// `e` is the error for output of a DSH process that failed to come up: a
/// port conflict, a refused permission, or an early exit, in that order of
/// precedence (matched case-insensitively on ASCII letters).
pub open spec fn process_failure_error(e: LauncherError, output: Seq<char>, port: Option<u16>) -> bool {
    let lower = ascii_lowercase(output);
    let port_or_zero: u16 = match port {
        Some(p) => p,
        None => 0,
    };
    if reports_port_in_use(lower) {
        error_is(
            e,
            "portConflict"@,
            "目标端口已被其他程序占用。"@,
            None,
            Some("请在设置中更换端口，或关闭占用该端口的程序。"@),
            Some(port_or_zero),
        )
    } else if reports_denied(lower) {
        error_is(
            e,
            "permissionDenied"@,
            "系统拒绝了 npm 或 DSH 操作。"@,
            Some(first_chars(output, 1200)),
            Some("检查 npm global prefix 的写入权限，不要修改 DSH 数据目录。"@),
            Some(port_or_zero),
        )
    } else {
        error_is(
            e,
            "processExited"@,
            "DSH 进程在就绪前退出。"@,
            Some(first_chars(output, 1200)),
            Some("检查 Node.js、npm 和 DSH 安装后重试。"@),
            None,
        )
    }
}

/// The error for output of a DSH process that failed to come up (see
/// `process_failure_error`).
pub fn map_process_failure(output: &str, port: Option<u16>) -> (e: LauncherError)
    ensures
        process_failure_error(e, output@, port),
{
    let lower = ascii_lowercase_chars(output);
    let port_or_zero: u16 = match port {
        Some(p) => p,
        None => 0,
    };
    if contains_chars(&lower, "eaddrinuse") || contains_chars(&lower, "address already in use")
        || contains_chars(&lower, "only one usage of each socket address") {
        return LauncherError::new("portConflict", "目标端口已被其他程序占用。").with_action(
            "请在设置中更换端口，或关闭占用该端口的程序。",
        ).with_port(port_or_zero);
    }
    proof {
        lemma_first_chars_idempotent(output@, 1200);
    }
    if contains_chars(&lower, "permission denied") || contains_chars(&lower, "access is denied") {
        let detail = limit_text(output, DETAIL_LIMIT);
        return LauncherError::new("permissionDenied", "系统拒绝了 npm 或 DSH 操作。").with_detail(
            detail.as_str(),
        ).with_action("检查 npm global prefix 的写入权限，不要修改 DSH 数据目录。").with_port(
            port_or_zero,
        );
    }
    let detail = limit_text(output, DETAIL_LIMIT);
    LauncherError::new("processExited", "DSH 进程在就绪前退出。").with_detail(detail.as_str()).with_action(
        "检查 Node.js、npm 和 DSH 安装后重试。",
    )
}

/// The error for a failed global npm install: a refused permission or a
/// plain install failure, with the first 1600 characters of the output as
/// detail, cut again to the 1200 that an error keeps.
pub fn map_npm_failure(output: &str) -> (e: LauncherError)
    ensures
        error_is(
            e,
            if reports_npm_denied(ascii_lowercase(output@)) {
                "permissionDenied"@
            } else {
                "npmInstallFailed"@
            },
            "npm 全局安装未完成。"@,
            Some(first_chars(output@, 1200)),
            Some("确认 npm 默认 global prefix 可写，并检查网络后重试。"@),
            None,
        ),
{
    let lower = ascii_lowercase_chars(output);
    let denied = contains_chars(&lower, "eacces") || contains_chars(&lower, "permission denied")
        || contains_chars(&lower, "access is denied");
    let kind = if denied {
        "permissionDenied"
    } else {
        "npmInstallFailed"
    };
    let detail = limit_text(output, 1600);
    proof {
        assert(first_chars(first_chars(output@, 1600), 1200) =~= first_chars(output@, 1200));
    }
    LauncherError::new(kind, "npm 全局安装未完成。").with_detail(detail.as_str()).with_action(
        "确认 npm 默认 global prefix 可写，并检查网络后重试。",
    )
}

/// A process failure is always reported as a port conflict, a refused
/// permission or an early exit, with at most 1200 characters of detail.
pub proof fn law_process_failure_kinds(e: LauncherError, output: Seq<char>, port: Option<u16>)
    requires
        process_failure_error(e, output, port),
    ensures
        e.kind@ == "portConflict"@ || e.kind@ == "permissionDenied"@ || e.kind@ == "processExited"@,
        e.detail matches Some(d) ==> d@.len() <= 1200,
        e.kind@ == "portConflict"@ || e.kind@ == "permissionDenied"@ ==> e.port is Some,
{
    reveal_strlit("portConflict");
    reveal_strlit("permissionDenied");
    reveal_strlit("processExited");
    assert("processExited"@.len() == 13);
    assert("portConflict"@.len() == 12);
    assert("permissionDenied"@.len() == 16);
}

} // verus!
