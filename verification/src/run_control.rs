//! The versioned run-control contract carried in the `params` of `SPA_PARAM_Props`.
use vstd::prelude::*;
use vstd::string::*;
use crate::text::{concat2, concat3, decimal_u64, is_text, owned};

verus! {

broadcast use vstd::string::group_string_axioms;

/// The run state that a request asks for or a status reports.
#[derive(Clone, Copy, Debug, PartialEq, Eq, Structural)]
pub enum RunState {
    Unknown,
    Stopped,
    Running,
}

pub open spec fn wire_name(s: RunState) -> Seq<char> {
    match s {
        RunState::Unknown => "unknown"@,
        RunState::Stopped => "stopped"@,
        RunState::Running => "running"@,
    }
}

/// The run state that a wire name denotes.
pub open spec fn parse_run_state(value: Seq<char>) -> Result<RunState, Seq<char>> {
    if value == "unknown"@ {
        Ok(RunState::Unknown)
    } else if value == "stopped"@ {
        Ok(RunState::Stopped)
    } else if value == "running"@ {
        Ok(RunState::Running)
    } else {
        Err("actual-state "@ + crate::decode::quoted(value) + " is not defined by Version 1"@)
    }
}

impl RunState {
    pub fn wire_name(self) -> (r: &'static str)
        ensures
            r@ == wire_name(self),
    {
        match self {
            RunState::Unknown => "unknown",
            RunState::Stopped => "stopped",
            RunState::Running => "running",
        }
    }

    pub fn parse(value: &String) -> (r: Result<RunState, String>)
        ensures
            match r {
                Ok(s) => parse_run_state(value@) == Ok::<RunState, Seq<char>>(s),
                Err(m) => parse_run_state(value@) == Err::<RunState, Seq<char>>(m@),
            },
    {
        if is_text(value, "unknown") {
            Ok(RunState::Unknown)
        } else if is_text(value, "stopped") {
            Ok(RunState::Stopped)
        } else if is_text(value, "running") {
            Ok(RunState::Running)
        } else {
            let q = crate::decode::quoted_text(value.as_str());
            Err(concat3("actual-state ", q.as_str(), " is not defined by Version 1"))
        }
    }
}

/// One field of the `params` Struct, as far as the contract reads it.
#[derive(Debug, PartialEq, Eq)]
pub enum PodField {
    String(String),
    Int(i32),
    Long(i64),
    /// A value of any other POD type.
    Other,
}

pub enum SField {
    String(Seq<char>),
    Int(i32),
    Long(i64),
    Other,
}

impl View for PodField {
    type V = SField;

    open spec fn view(&self) -> SField {
        match self {
            PodField::String(s) => SField::String(s@),
            PodField::Int(v) => SField::Int(*v),
            PodField::Long(v) => SField::Long(*v),
            PodField::Other => SField::Other,
        }
    }
}

pub open spec fn fields_view(f: Seq<PodField>) -> Seq<SField> {
    Seq::new(f.len(), |i: int| f[i]@)
}

/// The value of one `params` property of a Props object.
#[derive(Debug, PartialEq, Eq)]
pub enum ParamsValue {
    Struct(Vec<PodField>),
    /// A value that is not a Struct.
    Other,
}

/// A decoded `SPA_PARAM_Props` object: whether its object type and parameter id are
/// those of Props, and the values of its `params` properties in order.
#[derive(Debug, PartialEq, Eq)]
pub struct PropsObject {
    pub is_props: bool,
    pub params: Vec<ParamsValue>,
}

pub enum SParams {
    Struct(Seq<SField>),
    Other,
}

pub struct SProps {
    pub is_props: bool,
    pub params: Seq<SParams>,
}

impl View for PropsObject {
    type V = SProps;

    open spec fn view(&self) -> SProps {
        SProps {
            is_props: self.is_props,
            params: Seq::new(
                self.params@.len(),
                |i: int|
                    match self.params@[i] {
                        ParamsValue::Struct(f) => SParams::Struct(fields_view(f@)),
                        ParamsValue::Other => SParams::Other,
                    },
            ),
        }
    }
}

/// A completed run-control status.
#[derive(Clone, Copy, Debug, PartialEq, Eq, Structural)]
pub struct RunControlStatus {
    pub completed_token: i64,
    pub result: i32,
    pub actual_state: RunState,
}

pub open spec fn version_key() -> Seq<char> {
    "pipewireao.run-control.version"@
}

pub open spec fn request_token_key() -> Seq<char> {
    "pipewireao.run-control.request-token"@
}

pub open spec fn requested_state_key() -> Seq<char> {
    "pipewireao.run-control.requested-state"@
}

pub open spec fn completed_token_key() -> Seq<char> {
    "pipewireao.run-control.completed-token"@
}

pub open spec fn result_key() -> Seq<char> {
    "pipewireao.run-control.result"@
}

pub open spec fn actual_state_key() -> Seq<char> {
    "pipewireao.run-control.actual-state"@
}

/// The decimal text of a signed integer.
pub open spec fn signed_text(v: int) -> Seq<char> {
    if v < 0 {
        "-"@ + crate::text::decimal((-v) as nat)
    } else {
        crate::text::decimal(v as nat)
    }
}

pub fn signed_text_exec(v: i64) -> (r: String)
    ensures
        r@ == signed_text(v as int),
{
    if v < 0 {
        let magnitude: u64 = if v == i64::MIN {
            9223372036854775808u64
        } else {
            (-v) as u64
        };
        let digits = decimal_u64(magnitude);
        concat2("-", digits.as_str())
    } else {
        decimal_u64(v as u64)
    }
}

/// The `params` fields of a request for `state` under `token`.
pub open spec fn request_fields(token: i64, state: RunState) -> Result<Seq<SField>, Seq<char>> {
    if token <= 0 {
        Err("request-token must be positive, got "@ + signed_text(token as int))
    } else if state == RunState::Unknown {
        Err("requested-state must be stopped or running"@)
    } else {
        Ok(
            seq![
                SField::String(version_key()),
                SField::Int(1),
                SField::String(request_token_key()),
                SField::Long(token),
                SField::String(requested_state_key()),
                SField::String(wire_name(state)),
            ],
        )
    }
}

/// Builds the `params` fields of a run-control request.
pub fn build_request(token: i64, state: RunState) -> (r: Result<Vec<PodField>, String>)
    ensures
        match r {
            Ok(f) => request_fields(token, state) == Ok::<Seq<SField>, Seq<char>>(fields_view(f@)),
            Err(m) => request_fields(token, state) == Err::<Seq<SField>, Seq<char>>(m@),
        },
{
    if token <= 0 {
        let t = signed_text_exec(token);
        return Err(concat2("request-token must be positive, got ", t.as_str()));
    }
    if state == RunState::Unknown {
        return Err(owned("requested-state must be stopped or running"));
    }
    let f = vec![
        PodField::String(owned("pipewireao.run-control.version")),
        PodField::Int(1),
        PodField::String(owned("pipewireao.run-control.request-token")),
        PodField::Long(token),
        PodField::String(owned("pipewireao.run-control.requested-state")),
        PodField::String(owned(state.wire_name())),
    ];
    assert(fields_view(f@) =~= seq![
        SField::String(version_key()),
        SField::Int(1),
        SField::String(request_token_key()),
        SField::Long(token),
        SField::String(requested_state_key()),
        SField::String(wire_name(state)),
    ]);
    Ok(f)
}

/// Whether a key names a field of the run-control contract.
pub open spec fn is_run_control_key(f: SField) -> bool {
    match f {
        SField::String(k) => k.len() >= 23 && k.take(23) == "pipewireao.run-control."@,
        _ => false,
    }
}

/// Whether some key (a field at an even position) names the run-control contract.
pub open spec fn mentions_run_control(fields: Seq<SField>) -> bool {
    exists|i: int| 0 <= i < fields.len() && i % 2 == 0 && is_run_control_key(#[trigger] fields[i])
}

pub open spec fn pair_error(key: Seq<char>, kind: Seq<char>) -> Seq<char> {
    key + " is missing, duplicated, or not "@ + kind
}

pub open spec fn pair_int(fields: Seq<SField>, i: int, key: Seq<char>) -> Result<i32, Seq<char>> {
    if fields[i] == SField::String(key) && fields[i + 1] is Int {
        Ok(fields[i + 1]->Int_0)
    } else {
        Err(pair_error(key, "an Int"@))
    }
}

pub open spec fn pair_long(fields: Seq<SField>, i: int, key: Seq<char>) -> Result<i64, Seq<char>> {
    if fields[i] == SField::String(key) && fields[i + 1] is Long {
        Ok(fields[i + 1]->Long_0)
    } else {
        Err(pair_error(key, "a Long"@))
    }
}

pub open spec fn pair_string(fields: Seq<SField>, i: int, key: Seq<char>) -> Result<Seq<char>, Seq<char>> {
    if fields[i] == SField::String(key) && fields[i + 1] is String {
        Ok(fields[i + 1]->String_0)
    } else {
        Err(pair_error(key, "a String"@))
    }
}

/// The status that the `params` fields of a Props object report, if they speak of run
/// control at all.
pub open spec fn status_fields(fields: Seq<SField>) -> Result<Option<RunControlStatus>, Seq<char>> {
    if !mentions_run_control(fields) {
        Ok(None)
    } else if fields.len() != 8 {
        Err(
            "status must contain four key/value pairs, observed "@ + crate::text::decimal(
                fields.len(),
            ) + " fields"@,
        )
    } else {
        match pair_int(fields, 0, version_key()) {
            Err(m) => Err(m),
            Ok(version) => if version != 1 {
                Err("version "@ + signed_text(version as int) + " is unsupported"@)
            } else {
                match pair_long(fields, 2, completed_token_key()) {
                    Err(m) => Err(m),
                    Ok(token) => if token < 0 {
                        Err("completed-token must be nonnegative, got "@ + signed_text(token as int))
                    } else {
                        match pair_int(fields, 4, result_key()) {
                            Err(m) => Err(m),
                            Ok(result) => match pair_string(fields, 6, actual_state_key()) {
                                Err(m) => Err(m),
                                Ok(s) => match parse_run_state(s) {
                                    Err(m) => Err(m),
                                    Ok(actual_state) => Ok(
                                        Some(
                                            RunControlStatus {
                                                completed_token: token,
                                                result,
                                                actual_state,
                                            },
                                        ),
                                    ),
                                },
                            },
                        }
                    },
                }
            },
        }
    }
}

/// The run-control status that a decoded Props object reports, if any.
pub open spec fn status(p: SProps) -> Result<Option<RunControlStatus>, Seq<char>> {
    if !p.is_props {
        Err("Props has the wrong object type or parameter id"@)
    } else if p.params.len() == 0 {
        Ok(None)
    } else if p.params.len() > 1 {
        Err("Props declares params more than once"@)
    } else {
        match p.params[0] {
            SParams::Other => Err("Props params is not a Struct"@),
            SParams::Struct(fields) => status_fields(fields),
        }
    }
}

fn is_run_control_key_exec(f: &PodField) -> (r: bool)
    ensures
        r == is_run_control_key(f@),
{
    match f {
        PodField::String(k) => {
            let c = crate::text::chars_of(k.as_str());
            let p = crate::text::chars_of("pipewireao.run-control.");
            proof {
                reveal_strlit("pipewireao.run-control.");
            }
            if c.len() < p.len() {
                return false;
            }
            let mut i: usize = 0;
            while i < p.len()
                invariant
                    c@ == k@,
                    p@ == "pipewireao.run-control."@,
                    p.len() == 23,
                    f@ == SField::String(k@),
                    p.len() <= c.len(),
                    i <= p.len(),
                    forall|j: int| 0 <= j < i ==> c@[j] == p@[j],
                decreases p.len() - i,
            {
                if c[i] != p[i] {
                    assert(k@.take(23)[i as int] == c@[i as int]);
                    assert(k@.take(23)[i as int] != p@[i as int]);
                    assert(k@.take(23) != p@);
                    return false;
                }
                i = i + 1;
            }
            assert(k@.take(p.len() as int) =~= p@);
            true
        },
        _ => false,
    }
}

fn pair_int_exec(fields: &Vec<PodField>, i: usize, key: &str) -> (r: Result<i32, String>)
    requires
        i + 1 < fields.len(),
    ensures
        match r {
            Ok(v) => pair_int(fields_view(fields@), i as int, key@) == Ok::<i32, Seq<char>>(v),
            Err(m) => pair_int(fields_view(fields@), i as int, key@) == Err::<i32, Seq<char>>(m@),
        },
{
    let ghost fv = fields_view(fields@);
    assert(fv[i as int] == fields@[i as int]@);
    assert(fv[i + 1] == fields@[i + 1]@);
    match (&fields[i], &fields[i + 1]) {
        (PodField::String(k), PodField::Int(v)) => {
            if is_text(k, key) {
                return Ok(*v);
            }
        },
        _ => {},
    }
    Err(concat3(key, " is missing, duplicated, or not ", "an Int"))
}

fn pair_long_exec(fields: &Vec<PodField>, i: usize, key: &str) -> (r: Result<i64, String>)
    requires
        i + 1 < fields.len(),
    ensures
        match r {
            Ok(v) => pair_long(fields_view(fields@), i as int, key@) == Ok::<i64, Seq<char>>(v),
            Err(m) => pair_long(fields_view(fields@), i as int, key@) == Err::<i64, Seq<char>>(m@),
        },
{
    let ghost fv = fields_view(fields@);
    assert(fv[i as int] == fields@[i as int]@);
    assert(fv[i + 1] == fields@[i + 1]@);
    match (&fields[i], &fields[i + 1]) {
        (PodField::String(k), PodField::Long(v)) => {
            if is_text(k, key) {
                return Ok(*v);
            }
        },
        _ => {},
    }
    Err(concat3(key, " is missing, duplicated, or not ", "a Long"))
}

fn pair_string_exec<'a>(fields: &'a Vec<PodField>, i: usize, key: &str) -> (r: Result<&'a String, String>)
    requires
        i + 1 < fields.len(),
    ensures
        match r {
            Ok(v) => pair_string(fields_view(fields@), i as int, key@) == Ok::<Seq<char>, Seq<char>>(v@),
            Err(m) => pair_string(fields_view(fields@), i as int, key@) == Err::<Seq<char>, Seq<char>>(m@),
        },
{
    let ghost fv = fields_view(fields@);
    assert(fv[i as int] == fields@[i as int]@);
    assert(fv[i + 1] == fields@[i + 1]@);
    match (&fields[i], &fields[i + 1]) {
        (PodField::String(k), PodField::String(v)) => {
            if is_text(k, key) {
                return Ok(v);
            }
        },
        _ => {},
    }
    Err(concat3(key, " is missing, duplicated, or not ", "a String"))
}

pub open spec fn status_view(r: Result<Option<RunControlStatus>, String>) -> Result<Option<RunControlStatus>, Seq<char>> {
    match r {
        Ok(s) => Ok(s),
        Err(m) => Err(m@),
    }
}

fn status_fields_exec(fields: &Vec<PodField>) -> (r: Result<Option<RunControlStatus>, String>)
    ensures
        status_view(r) == status_fields(fields_view(fields@)),
{
    let ghost fv = fields_view(fields@);
    let mut mentioned = false;
    let mut i: usize = 0;
    while i < fields.len()
        invariant
            fv == fields_view(fields@),
            i <= fields.len(),
            mentioned == exists|j: int| 0 <= j < i && j % 2 == 0 && is_run_control_key(#[trigger] fv[j]),
        decreases fields.len() - i,
    {
        assert(fv[i as int] == fields@[i as int]@);
        if i % 2 == 0 && is_run_control_key_exec(&fields[i]) {
            mentioned = true;
        }
        i = i + 1;
    }
    if !mentioned {
        return Ok(None);
    }
    if fields.len() != 8 {
        let n = decimal_u64(fields.len() as u64);
        return Err(concat3("status must contain four key/value pairs, observed ", n.as_str(), " fields"));
    }
    let version = pair_int_exec(fields, 0, "pipewireao.run-control.version")?;
    if version != 1 {
        let v = signed_text_exec(version as i64);
        return Err(concat3("version ", v.as_str(), " is unsupported"));
    }
    let token = pair_long_exec(fields, 2, "pipewireao.run-control.completed-token")?;
    if token < 0 {
        let t = signed_text_exec(token);
        return Err(concat2("completed-token must be nonnegative, got ", t.as_str()));
    }
    let result = pair_int_exec(fields, 4, "pipewireao.run-control.result")?;
    let s = pair_string_exec(fields, 6, "pipewireao.run-control.actual-state")?;
    let actual_state = RunState::parse(s)?;
    Ok(Some(RunControlStatus { completed_token: token, result, actual_state }))
}

/// Validates the run-control status that a decoded Props object reports; `Ok(None)` when
/// the Props speak of something else.
pub fn parse_status(props: &PropsObject) -> (r: Result<Option<RunControlStatus>, String>)
    ensures
        status_view(r) == status(props@),
{
    if !props.is_props {
        return Err(owned("Props has the wrong object type or parameter id"));
    }
    if props.params.len() == 0 {
        return Ok(None);
    }
    if props.params.len() > 1 {
        return Err(owned("Props declares params more than once"));
    }
    match &props.params[0] {
        ParamsValue::Other => Err(owned("Props params is not a Struct")),
        ParamsValue::Struct(fields) => status_fields_exec(fields),
    }
}

} // verus!
