//! Decoding of a parsed relaxed SPA-JSON document into the configuration model.
use vstd::prelude::*;
use vstd::string::*;
use crate::config::{
    DevelopmentConfig, EndpointFactory, ExecutionGroupSpec, GraphFactory, LinkSpec, ObjectRealization,
    ObjectRole, ObjectSpec, PortDirection, PortSpec, SConfig, SGroup, SLink, SObject, SPort,
    SRealization,
};
use crate::config;
use crate::diagnostic::{DiagnosticView, ScientificDiagnostic};
use crate::text;
use crate::spa_json::{SVal, Value};
use crate::text::{
    chars_of, concat2, concat3, concat4, contains_char, decimal_string, is_text, owned, same_text,
};

verus! {

broadcast use vstd::string::group_string_axioms;

// ----- Field names -----

pub open spec fn dot(f: Seq<char>, name: Seq<char>) -> Seq<char> {
    f + "."@ + name
}

pub open spec fn indexed(f: Seq<char>, i: nat) -> Seq<char> {
    f + "["@ + text::decimal(i) + "]"@
}

/// The text that Rust's `Debug` formatting gives for a string slice `s`: `s` between
/// double quotes, with quotes, backslashes, control characters and other characters
/// that are not printable escaped.
pub uninterp spec fn debug_text(s: Seq<char>) -> Seq<char>;

/// A value quoted in a diagnostic, as `Debug` renders it.
pub open spec fn quoted(s: Seq<char>) -> Seq<char> {
    debug_text(s)
}

pub open spec fn missing(f: Seq<char>) -> DiagnosticView {
    crate::diagnostic::diag(f, "required field is missing"@)
}

pub open spec fn duplicated(f: Seq<char>) -> DiagnosticView {
    crate::diagnostic::diag(f, "field is duplicated"@)
}

pub open spec fn unknown_field(f: Seq<char>) -> DiagnosticView {
    crate::diagnostic::diag(f, "field is not part of the development configuration model"@)
}

pub open spec fn expected_kind(f: Seq<char>, kind: Seq<char>) -> DiagnosticView {
    crate::diagnostic::diag(f, "invalid relaxed SPA-JSON: expected "@ + kind)
}

/// The field that names `key` inside the object at `f`; keys of the root object are
/// named by themselves.
pub open spec fn key_field(root: bool, f: Seq<char>, key: Seq<char>) -> Seq<char> {
    if root {
        key
    } else {
        dot(f, key)
    }
}

pub fn field_index(f: &str, i: usize) -> (r: String)
    ensures
        r@ == indexed(f@, i as nat),
{
    let n = decimal_string(i);
    concat4(f, "[", n.as_str(), "]")
}

pub fn field_dot(f: &str, name: &str) -> (r: String)
    ensures
        r@ == dot(f@, name@),
{
    concat3(f, ".", name)
}

fn key_field_exec(root: bool, f: &str, key: &str) -> (r: String)
    ensures
        r@ == key_field(root, f@, key@),
{
    if root {
        owned(key)
    } else {
        field_dot(f, key)
    }
}

/// Renders `s` with the standard library's `Debug` implementation for `str` (through
/// `format!("{:?}")`). Trusted: the contract only names that rendering, which depends on
/// `s` alone; its escaping rules (Unicode printability tables) are not written out here.
#[verifier::external_body]
pub(crate) fn quoted_text(s: &str) -> (r: String)
    ensures
        r@ == debug_text(s@),
{
    format!("{:?}", s)
}

pub fn expected_kind_diag(f: &str, kind: &str) -> (d: ScientificDiagnostic)
    ensures
        d@ == expected_kind(f@, kind@),
{
    ScientificDiagnostic::from_parts(owned(f), concat2("invalid relaxed SPA-JSON: expected ", kind))
}

// ----- Objects as entry lists -----

pub open spec fn seq_contains(keys: Seq<Seq<char>>, k: Seq<char>) -> bool {
    exists|i: int| 0 <= i < keys.len() && keys[i] == k
}

/// Whether some entry before `i` has the same key as entry `i`.
pub open spec fn earlier_key(e: Seq<(Seq<char>, SVal)>, i: int) -> bool {
    exists|j: int| 0 <= j < i && e[j].0 == e[i].0
}

/// The first entry problem at or after `i`: a NUL in a key, a key that is not admitted,
/// or a key that repeats an earlier one.
pub open spec fn entry_error(
    e: Seq<(Seq<char>, SVal)>,
    known: Seq<Seq<char>>,
    root: bool,
    f: Seq<char>,
    i: int,
) -> Option<DiagnosticView>
    decreases e.len() - i,
{
    if i < 0 || i >= e.len() {
        None
    } else if text::has_char(e[i].0, '\0') {
        Some(crate::diagnostic::diag(f, "object keys must not contain NUL"@))
    } else if !seq_contains(known, e[i].0) {
        Some(unknown_field(dot(f, e[i].0)))
    } else if earlier_key(e, i) {
        Some(duplicated(key_field(root, f, e[i].0)))
    } else {
        entry_error(e, known, root, f, i + 1)
    }
}

/// The value of the first entry with key `k` at or after `i`.
pub open spec fn lookup_from(e: Seq<(Seq<char>, SVal)>, k: Seq<char>, i: int) -> Option<SVal>
    decreases e.len() - i,
{
    if i < 0 || i >= e.len() {
        None
    } else if e[i].0 == k {
        Some(e[i].1)
    } else {
        lookup_from(e, k, i + 1)
    }
}

pub open spec fn lookup(e: Seq<(Seq<char>, SVal)>, k: Seq<char>) -> Option<SVal> {
    lookup_from(e, k, 0)
}

fn text_in(keys: &Vec<&str>, k: &String) -> (r: bool)
    ensures
        r == seq_contains(keys@.map_values(|s: &str| s@), k@),
{
    let ghost kv = keys@.map_values(|s: &str| s@);
    let mut i: usize = 0;
    while i < keys.len()
        invariant
            i <= keys.len(),
            kv == keys@.map_values(|s: &str| s@),
            forall|j: int| 0 <= j < i ==> kv[j] != k@,
        decreases keys.len() - i,
    {
        if is_text(k, keys[i]) {
            assert(kv[i as int] == k@);
            return true;
        }
        i = i + 1;
    }
    false
}

fn earlier_key_exec(e: &Vec<(String, Value)>, i: usize) -> (r: bool)
    requires
        i < e.len(),
    ensures
        r == earlier_key(crate::spa_json::entries_view(e@), i as int),
{
    let ghost ev = crate::spa_json::entries_view(e@);
    let mut j: usize = 0;
    while j < i
        invariant
            i < e.len(),
            j <= i,
            ev == crate::spa_json::entries_view(e@),
            forall|k: int| 0 <= k < j ==> ev[k].0 != ev[i as int].0,
        decreases i - j,
    {
        if same_text(&e[j].0, &e[i].0) {
            assert(ev[j as int].0 == ev[i as int].0);
            return true;
        }
        j = j + 1;
    }
    false
}

/// Checks the keys of an object against the admitted names.
pub fn check_entries(e: &Vec<(String, Value)>, known: &Vec<&str>, root: bool, f: &str) -> (r: Result<
    (),
    ScientificDiagnostic,
>)
    ensures
        match entry_error(
            crate::spa_json::entries_view(e@),
            known@.map_values(|s: &str| s@),
            root,
            f@,
            0,
        ) {
            None => r is Ok,
            Some(d) => r matches Err(x) && x@ == d,
        },
{
    let ghost ev = crate::spa_json::entries_view(e@);
    let ghost kv = known@.map_values(|s: &str| s@);
    let mut i: usize = 0;
    while i < e.len()
        invariant
            i <= e.len(),
            ev == crate::spa_json::entries_view(e@),
            kv == known@.map_values(|s: &str| s@),
            entry_error(ev, kv, root, f@, i as int) == entry_error(ev, kv, root, f@, 0),
        decreases e.len() - i,
    {
        let key = &e[i].0;
        if contains_char(key.as_str(), '\0') {
            return Err(ScientificDiagnostic::from_parts(owned(f), owned("object keys must not contain NUL")));
        }
        if !text_in(known, key) {
            let name = field_dot(f, key.as_str());
            return Err(
                ScientificDiagnostic::from_parts(
                    name,
                    owned("field is not part of the development configuration model"),
                ),
            );
        }
        if earlier_key_exec(e, i) {
            let name = key_field_exec(root, f, key.as_str());
            return Err(ScientificDiagnostic::from_parts(name, owned("field is duplicated")));
        }
        i = i + 1;
    }
    Ok(())
}

pub fn lookup_exec<'a>(e: &'a Vec<(String, Value)>, k: &str) -> (r: Option<&'a Value>)
    ensures
        match lookup(crate::spa_json::entries_view(e@), k@) {
            None => r is None,
            Some(v) => r matches Some(x) && x@ == v,
        },
{
    let ghost ev = crate::spa_json::entries_view(e@);
    let mut i: usize = 0;
    while i < e.len()
        invariant
            i <= e.len(),
            ev == crate::spa_json::entries_view(e@),
            lookup_from(ev, k@, i as int) == lookup(ev, k@),
        decreases e.len() - i,
    {
        if is_text(&e[i].0, k) {
            return Some(&e[i].1);
        }
        i = i + 1;
    }
    None
}


// ----- Scalars, arrays and maps -----

pub open spec fn text_result(r: Result<String, ScientificDiagnostic>) -> Result<
    Seq<char>,
    DiagnosticView,
> {
    match r {
        Ok(t) => Ok(t@),
        Err(d) => Err(d@),
    }
}

/// A scalar value: an atom without NUL.
pub open spec fn scalar(v: SVal, f: Seq<char>) -> Result<Seq<char>, DiagnosticView> {
    match v {
        SVal::Atom(s) => if text::has_char(s, '\0') {
            Err(crate::diagnostic::diag(f, "scalar values must not contain NUL"@))
        } else {
            Ok(s)
        },
        _ => Err(expected_kind(f, "a scalar value"@)),
    }
}

pub fn scalar_exec(v: &Value, f: &str) -> (r: Result<String, ScientificDiagnostic>)
    ensures
        text_result(r) == scalar(v@, f@),
{
    proof {
        crate::spa_json::lemma_value_view(*v);
    }
    match v {
        Value::Atom(s) => {
            if contains_char(s.as_str(), '\0') {
                Err(
                    ScientificDiagnostic::from_parts(
                        owned(f),
                        owned("scalar values must not contain NUL"),
                    ),
                )
            } else {
                Ok(s.clone())
            }
        },
        _ => Err(expected_kind_diag(f, "a scalar value")),
    }
}

/// The scalars of `items` from `k` on, each at its indexed field, after `acc`.
pub open spec fn scalars_from(items: Seq<SVal>, f: Seq<char>, k: int, acc: Seq<Seq<char>>) -> Result<
    Seq<Seq<char>>,
    DiagnosticView,
>
    decreases items.len() - k,
{
    if k < 0 || k >= items.len() {
        Ok(acc)
    } else {
        match scalar(items[k], indexed(f, k as nat)) {
            Err(d) => Err(d),
            Ok(s) => scalars_from(items, f, k + 1, acc.push(s)),
        }
    }
}

/// An array of scalars.
pub open spec fn string_array(v: SVal, f: Seq<char>) -> Result<Seq<Seq<char>>, DiagnosticView> {
    match v {
        SVal::Array(items) => scalars_from(items, f, 0, Seq::empty()),
        _ => Err(expected_kind(f, "an array"@)),
    }
}

pub open spec fn texts_result(r: Result<Vec<String>, ScientificDiagnostic>) -> Result<
    Seq<Seq<char>>,
    DiagnosticView,
> {
    match r {
        Ok(t) => Ok(config::texts_view(t@)),
        Err(d) => Err(d@),
    }
}

fn scalars_exec(items: &Vec<Value>, f: &str) -> (r: Result<Vec<String>, ScientificDiagnostic>)
    ensures
        texts_result(r) == scalars_from(
            crate::spa_json::items_view(items@),
            f@,
            0,
            Seq::empty(),
        ),
{
    let ghost iv = crate::spa_json::items_view(items@);
    let mut out: Vec<String> = Vec::new();
    let mut k: usize = 0;
    assert(config::texts_view(out@) =~= Seq::<Seq<char>>::empty());
    while k < items.len()
        invariant
            k <= items.len(),
            iv == crate::spa_json::items_view(items@),
            scalars_from(iv, f@, k as int, config::texts_view(out@)) == scalars_from(
                iv,
                f@,
                0,
                Seq::empty(),
            ),
        decreases items.len() - k,
    {
        let name = field_index(f, k);
        let t = scalar_exec(&items[k], name.as_str())?;
        let ghost before = config::texts_view(out@);
        let ghost tv = t@;
        out.push(t);
        assert(config::texts_view(out@) =~= before.push(tv));
        k = k + 1;
    }
    Ok(out)
}

pub fn string_array_exec(v: &Value, f: &str) -> (r: Result<Vec<String>, ScientificDiagnostic>)
    ensures
        texts_result(r) == string_array(v@, f@),
{
    proof {
        crate::spa_json::lemma_value_view(*v);
    }
    match v {
        Value::Array(items) => scalars_exec(items, f),
        _ => Err(expected_kind_diag(f, "an array")),
    }
}

/// Texts joined by single spaces.
pub open spec fn join_spaced(s: Seq<Seq<char>>) -> Seq<char>
    decreases s.len(),
{
    if s.len() == 0 {
        Seq::empty()
    } else if s.len() == 1 {
        s[0]
    } else {
        join_spaced(s.drop_last()) + " "@ + s.last()
    }
}

/// A construction value: a scalar, or an array rendered as `[ a b ... ]`.
pub open spec fn scalar_or_array(v: SVal, f: Seq<char>) -> Result<Seq<char>, DiagnosticView> {
    match v {
        SVal::Array(items) => match scalars_from(items, f, 0, Seq::empty()) {
            Err(d) => Err(d),
            Ok(parts) => Ok("[ "@ + join_spaced(parts) + " ]"@),
        },
        SVal::Object(_) => Err(
            crate::diagnostic::diag(f, "nested objects are not valid scalar or ndarray construction values"@),
        ),
        SVal::Atom(_) => scalar(v, f),
    }
}

fn join_spaced_exec(parts: &Vec<String>) -> (r: String)
    ensures
        r@ == join_spaced(config::texts_view(parts@)),
{
    let ghost pv = config::texts_view(parts@);
    let mut r = String::new();
    let mut k: usize = 0;
    assert(pv.take(0) =~= Seq::<Seq<char>>::empty());
    while k < parts.len()
        invariant
            k <= parts.len(),
            pv == config::texts_view(parts@),
            r@ == join_spaced(pv.take(k as int)),
        decreases parts.len() - k,
    {
        assert(pv.take(k + 1).drop_last() =~= pv.take(k as int));
        if k > 0 {
            r.append(" ");
        }
        r.append(parts[k].as_str());
        k = k + 1;
        proof {
            if k == 1 {
                assert(r@ =~= join_spaced(pv.take(k as int)));
            }
        }
    }
    assert(pv.take(parts.len() as int) =~= pv);
    r
}

fn scalar_or_array_exec(v: &Value, f: &str) -> (r: Result<String, ScientificDiagnostic>)
    ensures
        text_result(r) == scalar_or_array(v@, f@),
{
    proof {
        crate::spa_json::lemma_value_view(*v);
    }
    match v {
        Value::Array(items) => {
            let parts = scalars_exec(items, f)?;
            let joined = join_spaced_exec(&parts);
            Ok(concat3("[ ", joined.as_str(), " ]"))
        },
        Value::Object(_) => Err(
            ScientificDiagnostic::from_parts(
                owned(f),
                owned("nested objects are not valid scalar or ndarray construction values"),
            ),
        ),
        Value::Atom(_) => scalar_exec(v, f),
    }
}

/// The entries of a string map from `i` on, after `acc`.
pub open spec fn map_from(
    e: Seq<(Seq<char>, SVal)>,
    f: Seq<char>,
    i: int,
    acc: Seq<(Seq<char>, Seq<char>)>,
) -> Result<Seq<(Seq<char>, Seq<char>)>, DiagnosticView>
    decreases e.len() - i,
{
    if i < 0 || i >= e.len() {
        Ok(acc)
    } else if text::has_char(e[i].0, '\0') {
        Err(crate::diagnostic::diag(f, "object keys must not contain NUL"@))
    } else {
        match scalar_or_array(e[i].1, dot(f, e[i].0)) {
            Err(d) => Err(d),
            Ok(value) => if earlier_key(e, i) {
                Err(duplicated(dot(f, e[i].0)))
            } else {
                map_from(e, f, i + 1, acc.push((e[i].0, value)))
            },
        }
    }
}

/// A map from names to construction values.
pub open spec fn string_map(v: SVal, f: Seq<char>) -> Result<
    Seq<(Seq<char>, Seq<char>)>,
    DiagnosticView,
> {
    match v {
        SVal::Object(e) => map_from(e, f, 0, Seq::empty()),
        _ => Err(expected_kind(f, "an object"@)),
    }
}

pub open spec fn pairs_result(r: Result<Vec<(String, String)>, ScientificDiagnostic>) -> Result<
    Seq<(Seq<char>, Seq<char>)>,
    DiagnosticView,
> {
    match r {
        Ok(t) => Ok(config::pairs_view(t@)),
        Err(d) => Err(d@),
    }
}

pub fn string_map_exec(v: &Value, f: &str) -> (r: Result<Vec<(String, String)>, ScientificDiagnostic>)
    ensures
        pairs_result(r) == string_map(v@, f@),
{
    proof {
        crate::spa_json::lemma_value_view(*v);
    }
    match v {
        Value::Object(e) => {
            let ghost ev = crate::spa_json::entries_view(e@);
            let mut out: Vec<(String, String)> = Vec::new();
            let mut i: usize = 0;
            assert(config::pairs_view(out@) =~= Seq::<(Seq<char>, Seq<char>)>::empty());
            while i < e.len()
                invariant
                    i <= e.len(),
                    ev == crate::spa_json::entries_view(e@),
                    string_map(v@, f@) == map_from(ev, f@, 0, Seq::empty()),
                    map_from(ev, f@, i as int, config::pairs_view(out@)) == map_from(
                        ev,
                        f@,
                        0,
                        Seq::empty(),
                    ),
                decreases e.len() - i,
            {
                let key = &e[i].0;
                assert(ev[i as int].0 == key@);
                assert(ev[i as int].1 == e[i as int].1@);
                if contains_char(key.as_str(), '\0') {
                    return Err(
                        ScientificDiagnostic::from_parts(
                            owned(f),
                            owned("object keys must not contain NUL"),
                        ),
                    );
                }
                let name = field_dot(f, key.as_str());
                let value = scalar_or_array_exec(&e[i].1, name.as_str())?;
                if earlier_key_exec(e, i) {
                    return Err(ScientificDiagnostic::from_parts(name, owned("field is duplicated")));
                }
                let ghost before = config::pairs_view(out@);
                let ghost item = (key@, value@);
                out.push((key.clone(), value));
                assert(config::pairs_view(out@) =~= before.push(item));
                i = i + 1;
            }
            Ok(out)
        },
        _ => Err(expected_kind_diag(f, "an object")),
    }
}

// ----- Unsigned integers -----

pub open spec fn is_digit(ch: char) -> bool {
    '0' <= ch && ch <= '9'
}

pub open spec fn digit_value(ch: char) -> nat {
    (ch as nat - '0' as nat) as nat
}

pub open spec fn digits_value(s: Seq<char>) -> nat
    decreases s.len(),
{
    if s.len() == 0 {
        0
    } else {
        digits_value(s.drop_last()) * 10 + digit_value(s.last())
    }
}

pub open spec fn all_digits(s: Seq<char>) -> bool {
    forall|i: int| 0 <= i < s.len() ==> is_digit(#[trigger] s[i])
}

/// Decimal digits after an optional `+`, as `u32` parsing accepts them.
pub open spec fn unsigned_digits(s: Seq<char>) -> Seq<char> {
    if s.len() > 0 && s[0] == '+' {
        s.skip(1)
    } else {
        s
    }
}

/// The unsigned 32-bit integer that `s` spells, if any.
pub open spec fn parse_u32(s: Seq<char>) -> Option<u32> {
    let d = unsigned_digits(s);
    if d.len() > 0 && all_digits(d) && digits_value(d) <= u32::MAX {
        Some(digits_value(d) as u32)
    } else {
        None
    }
}

pub proof fn lemma_digits_value_grows(s: Seq<char>, n: int)
    requires
        0 <= n <= s.len(),
    ensures
        digits_value(s.take(n)) <= digits_value(s),
    decreases s.len() - n,
{
    if n < s.len() {
        lemma_digits_value_grows(s, n + 1);
        assert(s.take(n + 1).drop_last() =~= s.take(n));
    } else {
        assert(s.take(n) =~= s);
    }
}

pub fn parse_u32_exec(t: &str) -> (r: Option<u32>)
    ensures
        r == parse_u32(t@),
{
    let s = chars_of(t);
    let mut start: usize = 0;
    if s.len() > 0 && s[0] == '+' {
        start = 1;
    }
    let ghost d = unsigned_digits(t@);
    assert(d =~= s@.skip(start as int));
    if start >= s.len() {
        assert(d.len() == 0);
        return None;
    }
    let mut acc: u64 = 0;
    let mut i: usize = start;
    assert(d.take(0) =~= Seq::<char>::empty());
    while i < s.len()
        invariant
            s@ == t@,
            d == unsigned_digits(t@),
            start <= i <= s.len(),
            d =~= s@.skip(start as int),
            acc == digits_value(d.take(i - start)),
            acc <= u32::MAX,
            all_digits(d.take(i - start)),
        decreases s.len() - i,
    {
        let ch = s[i];
        if !('0' <= ch && ch <= '9') {
            assert(!is_digit(d[i - start]));
            assert(!all_digits(d));
            return None;
        }
        let dv = (ch as u32 - '0' as u32) as u64;
        assert(d.take(i - start + 1).drop_last() =~= d.take(i - start));
        let next = acc * 10 + dv;
        i = i + 1;
        assert(d.take(i - start).last() == ch);
        assert(digits_value(d.take(i - start)) == next);
        if next > 4294967295 {
            proof {
                lemma_digits_value_grows(d, i - start);
            }
            return None;
        }
        acc = next;
        assert(all_digits(d.take(i - start)));
    }
    assert(d.take(i - start) =~= d);
    Some(acc as u32)
}

pub open spec fn u32s_from(
    strings: Seq<Seq<char>>,
    f: Seq<char>,
    k: int,
    acc: Seq<u32>,
) -> Result<Seq<u32>, DiagnosticView>
    decreases strings.len() - k,
{
    if k < 0 || k >= strings.len() {
        Ok(acc)
    } else {
        match parse_u32(strings[k]) {
            None => Err(
                crate::diagnostic::diag(
                    indexed(f, k as nat),
                    "shape extent "@ + quoted(strings[k]) + " is not an unsigned integer"@,
                ),
            ),
            Some(x) => u32s_from(strings, f, k + 1, acc.push(x)),
        }
    }
}

/// An array of unsigned integers.
pub open spec fn integer_array(v: SVal, f: Seq<char>) -> Result<Seq<u32>, DiagnosticView> {
    match string_array(v, f) {
        Err(d) => Err(d),
        Ok(strings) => u32s_from(strings, f, 0, Seq::empty()),
    }
}

pub fn integer_array_exec(v: &Value, f: &str) -> (r: Result<Vec<u32>, ScientificDiagnostic>)
    ensures
        match r {
            Ok(x) => integer_array(v@, f@) == Ok::<Seq<u32>, DiagnosticView>(x@),
            Err(d) => integer_array(v@, f@) == Err::<Seq<u32>, DiagnosticView>(d@),
        },
{
    let strings = string_array_exec(v, f)?;
    let ghost sv = config::texts_view(strings@);
    let mut out: Vec<u32> = Vec::new();
    let mut k: usize = 0;
    while k < strings.len()
        invariant
            k <= strings.len(),
            sv == config::texts_view(strings@),
            integer_array(v@, f@) == u32s_from(sv, f@, 0, Seq::empty()),
            u32s_from(sv, f@, k as int, out@) == u32s_from(sv, f@, 0, Seq::empty()),
        decreases strings.len() - k,
    {
        match parse_u32_exec(strings[k].as_str()) {
            None => {
                assert(sv[k as int] == strings[k as int]@);
                let name = field_index(f, k);
                let q = quoted_text(strings[k].as_str());
                let message = concat3("shape extent ", q.as_str(), " is not an unsigned integer");
                return Err(ScientificDiagnostic::from_parts(name, message));
            },
            Some(x) => {
                out.push(x);
            },
        }
        k = k + 1;
    }
    Ok(out)
}

} // verus!
