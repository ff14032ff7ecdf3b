//! Records of the build daemon's wire protocol and the errors the daemon
//! supervisor reports.
//!
//! The child talks in newline-terminated records. Each record starts with a
//! keyword; a record is split at most twice on a space: the keyword, then for
//! `ERROR` and `FATAL` a kind, then the rest of the line.
use vstd::prelude::*;

use crate::strutil::{
    collapse, find_char, spec_collapse, spec_find, spec_unescape, string_eq, substr, unescape,
};

verus! {

/// Non-fatal error categories a hook run can report.
#[derive(Debug, Eq, PartialEq, Clone, Copy, Structural)]
pub enum HookErrorKind {
    MissingBackendModule,
    MissingBackendAttribute,
    MalformedBackendName,
    BackendImportError,
    InvalidHookName,
    InvalidAction,
    UnsupportedHook,
    MalformedHookArgument,
    HookRuntimeError,
}

/// Responses the daemon can send, one per line.
#[derive(Debug, Eq, PartialEq, Clone)]
pub enum DaemonResponse {
    Debug(String),
    Error(HookErrorKind, String),
    Traceback(String),
    Okay(String),
    Stderr(String),
    Stdout(String),
    Expect(String),
    Ready,
    Fatal(String, String),
    Shutdown,
}

/// Mathematical model of a [`DaemonResponse`].
pub enum RespV {
    Debug(Seq<char>),
    Error(HookErrorKind, Seq<char>),
    Traceback(Seq<char>),
    Okay(Seq<char>),
    Stderr(Seq<char>),
    Stdout(Seq<char>),
    Expect(Seq<char>),
    Ready,
    Fatal(Seq<char>, Seq<char>),
    Shutdown,
}

impl View for DaemonResponse {
    type V = RespV;

    open spec fn view(&self) -> RespV {
        match self {
            DaemonResponse::Debug(m) => RespV::Debug(m@),
            DaemonResponse::Error(k, m) => RespV::Error(*k, m@),
            DaemonResponse::Traceback(t) => RespV::Traceback(t@),
            DaemonResponse::Okay(p) => RespV::Okay(p@),
            DaemonResponse::Stderr(p) => RespV::Stderr(p@),
            DaemonResponse::Stdout(p) => RespV::Stdout(p@),
            DaemonResponse::Expect(m) => RespV::Expect(m@),
            DaemonResponse::Ready => RespV::Ready,
            DaemonResponse::Fatal(k, m) => RespV::Fatal(k@, m@),
            DaemonResponse::Shutdown => RespV::Shutdown,
        }
    }
}

/// Everything that can go wrong while supervising the daemon.
#[derive(Debug, Eq, PartialEq, Clone)]
pub enum DaemonError {
    IO(String),
    UnknownResponse(String),
    UnexpectedResponse(DaemonResponse),
    EmptyResponse,
    UnknownErrorKind(String),
    NotReady,
    Closed,
    Crashed { kind: String, message: String, traceback: String },
    HookError { kind: HookErrorKind, message: String, traceback: String },
    InvalidResult(String, String),
}

/// Mathematical model of a [`DaemonError`].
pub enum ErrV {
    IO(Seq<char>),
    UnknownResponse(Seq<char>),
    UnexpectedResponse(RespV),
    EmptyResponse,
    UnknownErrorKind(Seq<char>),
    NotReady,
    Closed,
    Crashed { kind: Seq<char>, message: Seq<char>, traceback: Seq<char> },
    HookError { kind: HookErrorKind, message: Seq<char>, traceback: Seq<char> },
    InvalidResult(Seq<char>, Seq<char>),
}

impl View for DaemonError {
    type V = ErrV;

    open spec fn view(&self) -> ErrV {
        match self {
            DaemonError::IO(m) => ErrV::IO(m@),
            DaemonError::UnknownResponse(l) => ErrV::UnknownResponse(l@),
            DaemonError::UnexpectedResponse(r) => ErrV::UnexpectedResponse(r@),
            DaemonError::EmptyResponse => ErrV::EmptyResponse,
            DaemonError::UnknownErrorKind(k) => ErrV::UnknownErrorKind(k@),
            DaemonError::NotReady => ErrV::NotReady,
            DaemonError::Closed => ErrV::Closed,
            DaemonError::Crashed { kind, message, traceback } => ErrV::Crashed {
                kind: kind@,
                message: message@,
                traceback: traceback@,
            },
            DaemonError::HookError { kind, message, traceback } => ErrV::HookError {
                kind: *kind,
                message: message@,
                traceback: traceback@,
            },
            DaemonError::InvalidResult(p, r) => ErrV::InvalidResult(p@, r@),
        }
    }
}

/// The error kind named by `s`, if any.
pub open spec fn spec_parse_kind(s: Seq<char>) -> Option<HookErrorKind> {
    if s == "MissingBackendModule"@ {
        Some(HookErrorKind::MissingBackendModule)
    } else if s == "MissingBackendAttribute"@ {
        Some(HookErrorKind::MissingBackendAttribute)
    } else if s == "MalformedBackendName"@ {
        Some(HookErrorKind::MalformedBackendName)
    } else if s == "BackendImportError"@ {
        Some(HookErrorKind::BackendImportError)
    } else if s == "InvalidHookName"@ {
        Some(HookErrorKind::InvalidHookName)
    } else if s == "InvalidAction"@ {
        Some(HookErrorKind::InvalidAction)
    } else if s == "UnsupportedHook"@ {
        Some(HookErrorKind::UnsupportedHook)
    } else if s == "MalformedHookArgument"@ {
        Some(HookErrorKind::MalformedHookArgument)
    } else if s == "HookRuntimeError"@ {
        Some(HookErrorKind::HookRuntimeError)
    } else {
        None
    }
}

impl HookErrorKind {
    /// Parses an error kind name as the child reports it.
    pub fn try_from_str(name: &str) -> (r: Result<HookErrorKind, DaemonError>)
        ensures
            match r {
                Ok(k) => spec_parse_kind(name@) == Some(k),
                Err(e) => spec_parse_kind(name@) is None && e@ == ErrV::UnknownErrorKind(name@),
            },
    {
        let owned = name.to_owned();
        if string_eq(&owned, "MissingBackendModule") {
            Ok(HookErrorKind::MissingBackendModule)
        } else if string_eq(&owned, "MissingBackendAttribute") {
            Ok(HookErrorKind::MissingBackendAttribute)
        } else if string_eq(&owned, "MalformedBackendName") {
            Ok(HookErrorKind::MalformedBackendName)
        } else if string_eq(&owned, "BackendImportError") {
            Ok(HookErrorKind::BackendImportError)
        } else if string_eq(&owned, "InvalidHookName") {
            Ok(HookErrorKind::InvalidHookName)
        } else if string_eq(&owned, "InvalidAction") {
            Ok(HookErrorKind::InvalidAction)
        } else if string_eq(&owned, "UnsupportedHook") {
            Ok(HookErrorKind::UnsupportedHook)
        } else if string_eq(&owned, "MalformedHookArgument") {
            Ok(HookErrorKind::MalformedHookArgument)
        } else if string_eq(&owned, "HookRuntimeError") {
            Ok(HookErrorKind::HookRuntimeError)
        } else {
            Err(DaemonError::UnknownErrorKind(owned))
        }
    }
}

/// The token of `s` before its first space, and what follows that space
/// (empty when there is no space).
pub open spec fn spec_split_first(s: Seq<char>) -> (Seq<char>, Seq<char>) {
    let k = spec_find(s, ' ', 0);
    (s.take(k), if k < s.len() { s.skip(k + 1) } else { Seq::empty() })
}

/// The record denoted by one line of child output.
///
/// The line is split at most twice on a space. The first token picks the
/// keyword; `ERROR` and `FATAL` read a kind from the second token and the
/// message from the remainder; every other keyword takes the rest of the
/// line as its payload; `TRACEBACK` decodes `\n` escapes and collapses doubled
/// newlines in its payload. An empty line is an empty response; an unknown
/// keyword is an unknown response.
pub open spec fn spec_parse_response(s: Seq<char>) -> Result<RespV, ErrV> {
    if s.len() == 0 {
        Err(ErrV::EmptyResponse)
    } else {
        let (kw, rest) = spec_split_first(s);
        let (tok2, rest2) = spec_split_first(rest);
        if kw == "DEBUG"@ {
            Ok(RespV::Debug(rest))
        } else if kw == "EXPECT"@ {
            Ok(RespV::Expect(rest))
        } else if kw == "OK"@ {
            Ok(RespV::Okay(rest))
        } else if kw == "TRACEBACK"@ {
            Ok(RespV::Traceback(spec_collapse(spec_unescape(rest))))
        } else if kw == "ERROR"@ {
            match spec_parse_kind(tok2) {
                Some(k) => Ok(RespV::Error(k, rest2)),
                None => Err(ErrV::UnknownErrorKind(tok2)),
            }
        } else if kw == "STDOUT"@ {
            Ok(RespV::Stdout(rest))
        } else if kw == "STDERR"@ {
            Ok(RespV::Stderr(rest))
        } else if kw == "READY"@ {
            Ok(RespV::Ready)
        } else if kw == "FATAL"@ {
            Ok(RespV::Fatal(tok2, rest2))
        } else if kw == "SHUTDOWN"@ {
            Ok(RespV::Shutdown)
        } else {
            Err(ErrV::UnknownResponse(s))
        }
    }
}

impl DaemonResponse {
    /// Parses one line of child output into a protocol record.
    pub fn try_from_str(line: &str) -> (r: Result<DaemonResponse, DaemonError>)
        ensures
            match r {
                Ok(resp) => spec_parse_response(line@) == Ok::<RespV, ErrV>(resp@),
                Err(e) => spec_parse_response(line@) == Err::<RespV, ErrV>(e@),
            },
    {
        let n = line.unicode_len();
        if n == 0 {
            return Err(DaemonError::EmptyResponse);
        }
        let k1 = find_char(line, ' ', 0);
        let kw = substr(line, 0, k1);
        let rest = if k1 < n {
            substr(line, k1 + 1, n)
        } else {
            String::new()
        };
        proof {
            assert(kw@ =~= line@.take(spec_find(line@, ' ', 0)));
            if spec_find(line@, ' ', 0) < line@.len() {
                assert(rest@ =~= line@.skip(spec_find(line@, ' ', 0) + 1));
            } else {
                assert(rest@ =~= Seq::<char>::empty());
            }
        }
        let rn = rest.as_str().unicode_len();
        let k2 = find_char(rest.as_str(), ' ', 0);
        let tok2 = substr(rest.as_str(), 0, k2);
        let rest2 = if k2 < rn {
            substr(rest.as_str(), k2 + 1, rn)
        } else {
            String::new()
        };
        proof {
            assert(tok2@ =~= rest@.take(spec_find(rest@, ' ', 0)));
            if spec_find(rest@, ' ', 0) < rest@.len() {
                assert(rest2@ =~= rest@.skip(spec_find(rest@, ' ', 0) + 1));
            } else {
                assert(rest2@ =~= Seq::<char>::empty());
            }
        }
        if string_eq(&kw, "DEBUG") {
            Ok(DaemonResponse::Debug(rest))
        } else if string_eq(&kw, "EXPECT") {
            Ok(DaemonResponse::Expect(rest))
        } else if string_eq(&kw, "OK") {
            Ok(DaemonResponse::Okay(rest))
        } else if string_eq(&kw, "TRACEBACK") {
            let decoded = collapse(unescape(rest.as_str()).as_str());
            Ok(DaemonResponse::Traceback(decoded))
        } else if string_eq(&kw, "ERROR") {
            match HookErrorKind::try_from_str(tok2.as_str()) {
                Ok(kind) => Ok(DaemonResponse::Error(kind, rest2)),
                Err(e) => Err(e),
            }
        } else if string_eq(&kw, "STDOUT") {
            Ok(DaemonResponse::Stdout(rest))
        } else if string_eq(&kw, "STDERR") {
            Ok(DaemonResponse::Stderr(rest))
        } else if string_eq(&kw, "READY") {
            Ok(DaemonResponse::Ready)
        } else if string_eq(&kw, "FATAL") {
            Ok(DaemonResponse::Fatal(tok2, rest2))
        } else if string_eq(&kw, "SHUTDOWN") {
            Ok(DaemonResponse::Shutdown)
        } else {
            Err(DaemonError::UnknownResponse(line.to_owned()))
        }
    }
}

/// The keyword naming an error kind.
pub open spec fn spec_kind_name(k: HookErrorKind) -> Seq<char> {
    match k {
        HookErrorKind::MissingBackendModule => "MissingBackendModule"@,
        HookErrorKind::MissingBackendAttribute => "MissingBackendAttribute"@,
        HookErrorKind::MalformedBackendName => "MalformedBackendName"@,
        HookErrorKind::BackendImportError => "BackendImportError"@,
        HookErrorKind::InvalidHookName => "InvalidHookName"@,
        HookErrorKind::InvalidAction => "InvalidAction"@,
        HookErrorKind::UnsupportedHook => "UnsupportedHook"@,
        HookErrorKind::MalformedHookArgument => "MalformedHookArgument"@,
        HookErrorKind::HookRuntimeError => "HookRuntimeError"@,
    }
}

impl HookErrorKind {
    /// The kind's name, as the child writes it.
    pub fn name(&self) -> (r: &'static str)
        ensures
            r@ == spec_kind_name(*self),
    {
        match self {
            HookErrorKind::MissingBackendModule => "MissingBackendModule",
            HookErrorKind::MissingBackendAttribute => "MissingBackendAttribute",
            HookErrorKind::MalformedBackendName => "MalformedBackendName",
            HookErrorKind::BackendImportError => "BackendImportError",
            HookErrorKind::InvalidHookName => "InvalidHookName",
            HookErrorKind::InvalidAction => "InvalidAction",
            HookErrorKind::UnsupportedHook => "UnsupportedHook",
            HookErrorKind::MalformedHookArgument => "MalformedHookArgument",
            HookErrorKind::HookRuntimeError => "HookRuntimeError",
        }
    }
}

/// A record rendered for an error report: its keyword and its payload in
/// parentheses.
pub open spec fn spec_describe_resp(r: RespV) -> Seq<char> {
    match r {
        RespV::Debug(m) => "Debug("@ + m + ")"@,
        RespV::Error(k, m) => "Error("@ + spec_kind_name(k) + ", "@ + m + ")"@,
        RespV::Traceback(t) => "Traceback("@ + t + ")"@,
        RespV::Okay(p) => "Ok("@ + p + ")"@,
        RespV::Stderr(p) => "Stderr("@ + p + ")"@,
        RespV::Stdout(p) => "Stdout("@ + p + ")"@,
        RespV::Expect(m) => "Expect("@ + m + ")"@,
        RespV::Ready => "Ready"@,
        RespV::Fatal(k, m) => "Fatal("@ + k + ", "@ + m + ")"@,
        RespV::Shutdown => "Shutdown"@,
    }
}

impl DaemonResponse {
    /// Renders the record for an error report.
    pub fn to_display_string(&self) -> (r: String)
        ensures
            r@ == spec_describe_resp(self@),
    {
        let mut out = String::new();
        match self {
            DaemonResponse::Debug(m) => {
                out.append("Debug(");
                out.append(m.as_str());
                out.append(")");
            },
            DaemonResponse::Error(k, m) => {
                out.append("Error(");
                out.append(k.name());
                out.append(", ");
                out.append(m.as_str());
                out.append(")");
            },
            DaemonResponse::Traceback(t) => {
                out.append("Traceback(");
                out.append(t.as_str());
                out.append(")");
            },
            DaemonResponse::Okay(p) => {
                out.append("Ok(");
                out.append(p.as_str());
                out.append(")");
            },
            DaemonResponse::Stderr(p) => {
                out.append("Stderr(");
                out.append(p.as_str());
                out.append(")");
            },
            DaemonResponse::Stdout(p) => {
                out.append("Stdout(");
                out.append(p.as_str());
                out.append(")");
            },
            DaemonResponse::Expect(m) => {
                out.append("Expect(");
                out.append(m.as_str());
                out.append(")");
            },
            DaemonResponse::Ready => {
                out.append("Ready");
            },
            DaemonResponse::Fatal(k, m) => {
                out.append("Fatal(");
                out.append(k.as_str());
                out.append(", ");
                out.append(m.as_str());
                out.append(")");
            },
            DaemonResponse::Shutdown => {
                out.append("Shutdown");
            },
        }
        proof {
            assert(out@ =~= spec_describe_resp(self@));
        }
        out
    }
}

/// An error's stable one-line summary (`Crashed` and `HookError` carry
/// the traceback after a newline).
pub open spec fn spec_describe_err(e: ErrV) -> Seq<char> {
    match e {
        ErrV::IO(m) => m,
        ErrV::UnknownResponse(l) => "Unknown response from build daemon: "@ + l,
        ErrV::UnexpectedResponse(r) => "Unexpected response from build daemon: "@
            + spec_describe_resp(r),
        ErrV::EmptyResponse => "Unexpected empty response from build daemon"@,
        ErrV::UnknownErrorKind(k) => "Unknown error kind reported by build daemon: "@ + k,
        ErrV::NotReady => "Build daemon never reported ready"@,
        ErrV::Closed => "Build daemon died unexpectedly"@,
        ErrV::Crashed { kind, message, traceback } => "Build daemon crashed with fatal error. "@
            + kind + ": "@ + message + "\n"@ + traceback,
        ErrV::HookError { message, traceback, .. } => "Build daemon encountered error running hook: "@
            + message + "\n"@ + traceback,
        ErrV::InvalidResult(p, reason) => "Build daemon encountered error parsing hook result "@
            + p + ": "@ + reason,
    }
}

impl DaemonError {
    /// Renders the error's summary.
    pub fn to_display_string(&self) -> (r: String)
        ensures
            r@ == spec_describe_err(self@),
    {
        let mut out = String::new();
        match self {
            DaemonError::IO(m) => {
                out.append(m.as_str());
            },
            DaemonError::UnknownResponse(l) => {
                out.append("Unknown response from build daemon: ");
                out.append(l.as_str());
            },
            DaemonError::UnexpectedResponse(resp) => {
                out.append("Unexpected response from build daemon: ");
                let rendered = resp.to_display_string();
                out.append(rendered.as_str());
            },
            DaemonError::EmptyResponse => {
                out.append("Unexpected empty response from build daemon");
            },
            DaemonError::UnknownErrorKind(k) => {
                out.append("Unknown error kind reported by build daemon: ");
                out.append(k.as_str());
            },
            DaemonError::NotReady => {
                out.append("Build daemon never reported ready");
            },
            DaemonError::Closed => {
                out.append("Build daemon died unexpectedly");
            },
            DaemonError::Crashed { kind, message, traceback } => {
                out.append("Build daemon crashed with fatal error. ");
                out.append(kind.as_str());
                out.append(": ");
                out.append(message.as_str());
                out.append("\n");
                out.append(traceback.as_str());
            },
            DaemonError::HookError { message, traceback, .. } => {
                out.append("Build daemon encountered error running hook: ");
                out.append(message.as_str());
                out.append("\n");
                out.append(traceback.as_str());
            },
            DaemonError::InvalidResult(p, reason) => {
                out.append("Build daemon encountered error parsing hook result ");
                out.append(p.as_str());
                out.append(": ");
                out.append(reason.as_str());
            },
        }
        proof {
            assert(out@ =~= spec_describe_err(self@));
        }
        out
    }
}

} // verus!
