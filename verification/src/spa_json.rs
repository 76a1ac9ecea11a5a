use vstd::prelude::*;
use vstd::string::*;
use crate::diagnostic::{DiagnosticView, ScientificDiagnostic};
use crate::text::{chars_of, concat4, decimal_string, owned};

verus! {

pub enum SVal {
    Atom(Seq<char>),
    Object(Seq<(Seq<char>, SVal)>),
    Array(Seq<SVal>),
}

pub enum Value {
    Atom(String),
    Object(Vec<(String, Value)>),
    Array(Vec<Value>),
}

/// The abstract value of a parsed value.
pub open spec fn value_view(v: Value) -> SVal
    decreases v,
{
    match v {
        Value::Atom(s) => SVal::Atom(s@),
        Value::Object(entries) => SVal::Object(
            Seq::new(
                entries.len() as nat,
                |i: int|
                    {
                        if 0 <= i < entries.len() {
                            proof {
                                assert(decreases_to!(entries => entries@));
                                assert(decreases_to!(entries@ => entries@[i]));
                                assert(decreases_to!(entries@[i] => entries@[i].1));
                            }
                            (entries@[i].0@, value_view(entries@[i].1))
                        } else {
                            (Seq::empty(), SVal::Atom(Seq::empty()))
                        }
                    },
            ),
        ),
        Value::Array(items) => SVal::Array(
            Seq::new(
                items.len() as nat,
                |i: int|
                    {
                        if 0 <= i < items.len() {
                            proof {
                                assert(decreases_to!(items => items@));
                                assert(decreases_to!(items@ => items@[i]));
                            }
                            value_view(items@[i])
                        } else {
                            SVal::Atom(Seq::empty())
                        }
                    },
            ),
        ),
    }
}

/// The abstract value of each kind of parsed value.
pub proof fn lemma_value_view(v: Value)
    ensures
        match v {
            Value::Atom(s) => value_view(v) == SVal::Atom(s@),
            Value::Object(e) => value_view(v) == SVal::Object(entries_view(e@)),
            Value::Array(items) => value_view(v) == SVal::Array(items_view(items@)),
        },
{
    match v {
        Value::Atom(s) => {},
        Value::Object(e) => {
            assert(value_view(v)->Object_0 =~= entries_view(e@));
        },
        Value::Array(items) => {
            assert(value_view(v)->Array_0 =~= items_view(items@));
        },
    }
}

impl View for Value {
    type V = SVal;

    open spec fn view(&self) -> SVal {
        value_view(*self)
    }
}

/// A syntax error: the character position at which it was detected and its reason.
pub struct PErr {
    pub pos: int,
    pub msg: Seq<char>,
}

pub open spec fn perr(pos: int, msg: Seq<char>) -> PErr {
    PErr { pos, msg }
}

/// The whitespace characters of relaxed SPA-JSON (the ASCII whitespace set).
pub open spec fn is_ws(ch: char) -> bool {
    ch == ' ' || ch == '\t' || ch == '\n' || ch == '\x0C' || ch == '\r'
}

/// Characters that end an unquoted token.
pub open spec fn is_delim(ch: char) -> bool {
    is_ws(ch) || ch == '{' || ch == '}' || ch == '[' || ch == ']' || ch == '=' || ch == ':' || ch
        == ','
}

pub open spec fn is_quote(ch: char) -> bool {
    ch == '"' || ch == '\''
}

/// The character an escape letter stands for inside a quoted value.
pub open spec fn escaped(ch: char) -> Option<char> {
    if ch == 'n' {
        Some('\n')
    } else if ch == 'r' {
        Some('\r')
    } else if ch == 't' {
        Some('\t')
    } else if ch == '\\' {
        Some('\\')
    } else if ch == '\'' {
        Some('\'')
    } else if ch == '"' {
        Some('"')
    } else {
        None
    }
}

#[derive(Clone, Copy, PartialEq, Eq)]
pub enum SkipMode {
    Normal,
    Line,
    Block,
}

/// Skips whitespace, `#` line comments and `/* */` block comments from `p`.
pub open spec fn skip_from(c: Seq<char>, p: int, m: SkipMode) -> Result<int, PErr>
    decreases c.len() - p,
{
    if p < 0 || p > c.len() {
        Ok(p)
    } else {
        match m {
            SkipMode::Normal => {
                if p < c.len() && is_ws(c[p]) {
                    skip_from(c, p + 1, SkipMode::Normal)
                } else if p < c.len() && c[p] == '#' {
                    skip_from(c, p + 1, SkipMode::Line)
                } else if p + 1 < c.len() && c[p] == '/' && c[p + 1] == '*' {
                    skip_from(c, p + 2, SkipMode::Block)
                } else {
                    Ok(p)
                }
            },
            SkipMode::Line => {
                if p >= c.len() {
                    Ok(p)
                } else if c[p] == '\n' {
                    skip_from(c, p + 1, SkipMode::Normal)
                } else {
                    skip_from(c, p + 1, SkipMode::Line)
                }
            },
            SkipMode::Block => {
                if p + 1 < c.len() && c[p] == '*' && c[p + 1] == '/' {
                    skip_from(c, p + 2, SkipMode::Normal)
                } else if p >= c.len() {
                    Err(perr(p, "unterminated block comment"@))
                } else {
                    skip_from(c, p + 1, SkipMode::Block)
                }
            },
        }
    }
}

pub open spec fn skip(c: Seq<char>, p: int) -> Result<int, PErr> {
    skip_from(c, p, SkipMode::Normal)
}

pub proof fn lemma_skip_bounds(c: Seq<char>, p: int, m: SkipMode)
    requires
        0 <= p <= c.len(),
    ensures
        skip_from(c, p, m) matches Ok(q) ==> p <= q <= c.len(),
    decreases c.len() - p,
{
    match m {
        SkipMode::Normal => {
            if p < c.len() && is_ws(c[p]) {
                lemma_skip_bounds(c, p + 1, SkipMode::Normal);
            } else if p < c.len() && c[p] == '#' {
                lemma_skip_bounds(c, p + 1, SkipMode::Line);
            } else if p + 1 < c.len() && c[p] == '/' && c[p + 1] == '*' {
                lemma_skip_bounds(c, p + 2, SkipMode::Block);
            }
        },
        SkipMode::Line => {
            if p < c.len() {
                if c[p] == '\n' {
                    lemma_skip_bounds(c, p + 1, SkipMode::Normal);
                } else {
                    lemma_skip_bounds(c, p + 1, SkipMode::Line);
                }
            }
        },
        SkipMode::Block => {
            if p + 1 < c.len() && c[p] == '*' && c[p + 1] == '/' {
                lemma_skip_bounds(c, p + 2, SkipMode::Normal);
            } else if p < c.len() {
                lemma_skip_bounds(c, p + 1, SkipMode::Block);
            }
        },
    }
}

/// The end of the unquoted token that starts at `q`.
pub open spec fn scan_atom(c: Seq<char>, q: int) -> int
    decreases c.len() - q,
{
    if 0 <= q < c.len() && !is_delim(c[q]) {
        scan_atom(c, q + 1)
    } else {
        q
    }
}

pub proof fn lemma_scan_atom_bounds(c: Seq<char>, q: int)
    requires
        0 <= q <= c.len(),
    ensures
        q <= scan_atom(c, q) <= c.len(),
    decreases c.len() - q,
{
    if q < c.len() && !is_delim(c[q]) {
        lemma_scan_atom_bounds(c, q + 1);
    }
}

/// Decodes the quoted value whose body starts at `i`, with `acc` already decoded.
/// On success gives the decoded text and the position after the closing quote.
pub open spec fn scan_quoted(c: Seq<char>, i: int, quote: char, acc: Seq<char>) -> Result<
    (Seq<char>, int),
    PErr,
>
    decreases c.len() - i,
{
    if i < 0 || i >= c.len() {
        Err(perr(i, "unterminated quoted value"@))
    } else if c[i] == quote {
        Ok((acc, i + 1))
    } else if c[i] == '\\' {
        if i + 1 >= c.len() {
            Err(perr(i + 1, "unterminated escape"@))
        } else {
            match escaped(c[i + 1]) {
                Some(e) => scan_quoted(c, i + 2, quote, acc.push(e)),
                None => Err(perr(i + 2, "unsupported string escape"@)),
            }
        }
    } else {
        scan_quoted(c, i + 1, quote, acc.push(c[i]))
    }
}

pub proof fn lemma_scan_quoted_bounds(c: Seq<char>, i: int, quote: char, acc: Seq<char>)
    requires
        0 <= i <= c.len(),
    ensures
        scan_quoted(c, i, quote, acc) matches Ok((_, r)) ==> i < r <= c.len(),
    decreases c.len() - i,
{
    if 0 <= i < c.len() && c[i] != quote {
        if c[i] == '\\' {
            if i + 1 < c.len() {
                if let Some(e) = escaped(c[i + 1]) {
                    lemma_scan_quoted_bounds(c, i + 2, quote, acc.push(e));
                }
            }
        } else {
            lemma_scan_quoted_bounds(c, i + 1, quote, acc.push(c[i]));
        }
    }
}

/// A container under construction.
pub struct SFrame {
    pub object: bool,
    pub implicit: bool,
    pub entries: Seq<(Seq<char>, SVal)>,
    pub items: Seq<SVal>,
    pub key: Seq<char>,
}

pub open spec fn new_frame(object: bool, implicit: bool) -> SFrame {
    SFrame { object, implicit, entries: Seq::empty(), items: Seq::empty(), key: Seq::empty() }
}

/// The value a finished container stands for.
pub open spec fn frame_value(f: SFrame) -> SVal {
    if f.object {
        SVal::Object(f.entries)
    } else {
        SVal::Array(f.items)
    }
}

/// Adds a finished value to the innermost open container.
pub open spec fn deliver(stack: Seq<SFrame>, v: SVal) -> Seq<SFrame> {
    let top = stack.last();
    let top2 = if top.object {
        SFrame { entries: top.entries.push((top.key, v)), ..top }
    } else {
        SFrame { items: top.items.push(v), ..top }
    };
    stack.update(stack.len() - 1, top2)
}

pub open spec fn set_key(stack: Seq<SFrame>, k: Seq<char>) -> Seq<SFrame> {
    stack.update(stack.len() - 1, SFrame { key: k, ..stack.last() })
}

#[derive(Clone, Copy, PartialEq, Eq)]
pub enum PMode {
    /// A value starts here.
    Value,
    /// The next entry (or the end) of the innermost container starts here.
    Item,
    /// An object key was read; its separator and value follow.
    AfterKey,
    /// An entry was completed; an optional comma follows.
    AfterItem,
}

pub open spec fn mode_rank(m: PMode) -> int {
    match m {
        PMode::Value => 0,
        PMode::Item => 1,
        PMode::AfterKey => 1,
        PMode::AfterItem => 2,
    }
}

/// After the root value ends at `r`: only space and comments may follow.
pub open spec fn trailing(c: Seq<char>, r: int, v: SVal) -> Result<SVal, PErr> {
    match skip(c, r) {
        Err(e) => Err(e),
        Ok(q) => if q == c.len() {
            Ok(v)
        } else {
            Err(perr(q, "unexpected data after configuration"@))
        },
    }
}

/// The parser from position `p` in `mode` with the open containers `stack`.
pub open spec fn run(c: Seq<char>, p: int, mode: PMode, stack: Seq<SFrame>) -> Result<SVal, PErr>
    decreases c.len() - p, mode_rank(mode), 1int,
{
    if p < 0 || p > c.len() || (mode != PMode::Value && stack.len() == 0) {
        Err(perr(p, "internal parser state"@))
    } else {
        match mode {
            PMode::Value => match skip(c, p) {
                Err(e) => Err(e),
                Ok(q) => {
                    proof {
                        lemma_skip_bounds(c, p, SkipMode::Normal);
                    }
                    if q >= c.len() {
                        Err(perr(q, "expected a value"@))
                    } else if c[q] == '{' {
                        run(c, q + 1, PMode::Item, stack.push(new_frame(true, false)))
                    } else if c[q] == '[' {
                        run(c, q + 1, PMode::Item, stack.push(new_frame(false, false)))
                    } else if is_quote(c[q]) {
                        proof {
                            lemma_scan_quoted_bounds(c, q + 1, c[q], Seq::empty());
                        }
                        match scan_quoted(c, q + 1, c[q], Seq::empty()) {
                            Err(e) => Err(e),
                            Ok((s, r)) => finish(c, r, stack, SVal::Atom(s)),
                        }
                    } else {
                        let r = scan_atom(c, q);
                        proof {
                            lemma_scan_atom_bounds(c, q);
                        }
                        if r == q {
                            Err(perr(q, "expected a token"@))
                        } else {
                            finish(c, r, stack, SVal::Atom(c.subrange(q, r)))
                        }
                    }
                },
            },
            PMode::Item => match skip(c, p) {
                Err(e) => Err(e),
                Ok(q) => {
                    proof {
                        lemma_skip_bounds(c, p, SkipMode::Normal);
                    }
                    let top = stack.last();
                    if top.object {
                        if top.implicit && q >= c.len() {
                            trailing(c, q, frame_value(top))
                        } else if !top.implicit && q < c.len() && c[q] == '}' {
                            finish(c, q + 1, stack.drop_last(), frame_value(top))
                        } else if q >= c.len() {
                            Err(perr(q, "unterminated object"@))
                        } else if is_quote(c[q]) {
                            proof {
                                lemma_scan_quoted_bounds(c, q + 1, c[q], Seq::empty());
                            }
                            match scan_quoted(c, q + 1, c[q], Seq::empty()) {
                                Err(e) => Err(e),
                                Ok((k, r)) => run(c, r, PMode::AfterKey, set_key(stack, k)),
                            }
                        } else {
                            let r = scan_atom(c, q);
                            proof {
                                lemma_scan_atom_bounds(c, q);
                            }
                            if r == q {
                                Err(perr(q, "expected a token"@))
                            } else {
                                run(c, r, PMode::AfterKey, set_key(stack, c.subrange(q, r)))
                            }
                        }
                    } else if q < c.len() && c[q] == ']' {
                        finish(c, q + 1, stack.drop_last(), frame_value(top))
                    } else {
                        run(c, q, PMode::Value, stack)
                    }
                },
            },
            PMode::AfterKey => match skip(c, p) {
                Err(e) => Err(e),
                Ok(q) => {
                    proof {
                        lemma_skip_bounds(c, p, SkipMode::Normal);
                    }
                    let q2 = if q < c.len() && (c[q] == '=' || c[q] == ':') {
                        q + 1
                    } else {
                        q
                    };
                    match skip(c, q2) {
                        Err(e) => Err(e),
                        Ok(q3) => {
                            proof {
                                lemma_skip_bounds(c, q2, SkipMode::Normal);
                            }
                            run(c, q3, PMode::Value, stack)
                        },
                    }
                },
            },
            PMode::AfterItem => match skip(c, p) {
                Err(e) => Err(e),
                Ok(q) => {
                    proof {
                        lemma_skip_bounds(c, p, SkipMode::Normal);
                    }
                    let q2 = if q < c.len() && c[q] == ',' {
                        q + 1
                    } else {
                        q
                    };
                    run(c, q2, PMode::Item, stack)
                },
            },
        }
    }
}

/// A value `v` ended at `r`: it completes the root or joins its container.
pub open spec fn finish(c: Seq<char>, r: int, stack: Seq<SFrame>, v: SVal) -> Result<SVal, PErr>
    decreases c.len() - r, 3int, 0int,
{
    if stack.len() == 0 {
        trailing(c, r, v)
    } else {
        run(c, r, PMode::AfterItem, deliver(stack, v))
    }
}

/// Relaxed SPA-JSON: a braced root object, or an unbraced list of root entries.
pub open spec fn parse_chars(c: Seq<char>) -> Result<SVal, PErr> {
    match skip(c, 0) {
        Err(e) => Err(e),
        Ok(q) => if q < c.len() && c[q] == '{' {
            run(c, q, PMode::Value, Seq::empty())
        } else {
            run(c, q, PMode::Item, seq![new_frame(true, true)])
        },
    }
}


/// A syntax error found by the executable parser.
pub struct SyntaxError {
    pub pos: usize,
    pub reason: &'static str,
}

impl View for SyntaxError {
    type V = PErr;

    open spec fn view(&self) -> PErr {
        perr(self.pos as int, self.reason@)
    }
}

pub open spec fn pos_result(r: Result<usize, SyntaxError>) -> Result<int, PErr> {
    match r {
        Ok(q) => Ok(q as int),
        Err(e) => Err(e@),
    }
}

fn is_ws_exec(ch: char) -> (r: bool)
    ensures
        r == is_ws(ch),
{
    ch == ' ' || ch == '\t' || ch == '\n' || ch == '\x0C' || ch == '\r'
}

fn is_delim_exec(ch: char) -> (r: bool)
    ensures
        r == is_delim(ch),
{
    is_ws_exec(ch) || ch == '{' || ch == '}' || ch == '[' || ch == ']' || ch == '=' || ch == ':'
        || ch == ','
}

/// Skips space and comments from `p`.
fn skip_exec(c: &Vec<char>, p: usize) -> (r: Result<usize, SyntaxError>)
    requires
        p <= c.len(),
    ensures
        pos_result(r) == skip(c@, p as int),
        r matches Ok(q) ==> p <= q <= c.len(),
{
    proof {
        lemma_skip_bounds(c@, p as int, SkipMode::Normal);
    }
    let mut i = p;
    let mut m = SkipMode::Normal;
    loop
        invariant
            p <= i <= c.len(),
            skip_from(c@, i as int, m) == skip(c@, p as int),
        decreases c.len() - i,
    {
        match m {
            SkipMode::Normal => {
                if i < c.len() && is_ws_exec(c[i]) {
                    i = i + 1;
                } else if i < c.len() && c[i] == '#' {
                    i = i + 1;
                    m = SkipMode::Line;
                } else if c.len() - i > 1 && c[i] == '/' && c[i + 1] == '*' {
                    i = i + 2;
                    m = SkipMode::Block;
                } else {
                    return Ok(i);
                }
            },
            SkipMode::Line => {
                if i >= c.len() {
                    return Ok(i);
                } else if c[i] == '\n' {
                    i = i + 1;
                    m = SkipMode::Normal;
                } else {
                    i = i + 1;
                }
            },
            SkipMode::Block => {
                if c.len() - i > 1 && c[i] == '*' && c[i + 1] == '/' {
                    i = i + 2;
                    m = SkipMode::Normal;
                } else if i >= c.len() {
                    return Err(SyntaxError { pos: i, reason: "unterminated block comment" });
                } else {
                    i = i + 1;
                }
            },
        }
    }
}

fn scan_atom_exec(c: &Vec<char>, q: usize) -> (r: usize)
    requires
        q <= c.len(),
    ensures
        r as int == scan_atom(c@, q as int),
        q <= r <= c.len(),
{
    proof {
        lemma_scan_atom_bounds(c@, q as int);
    }
    let mut i = q;
    while i < c.len() && !is_delim_exec(c[i])
        invariant
            q <= i <= c.len(),
            scan_atom(c@, i as int) == scan_atom(c@, q as int),
        decreases c.len() - i,
    {
        i = i + 1;
    }
    i
}

fn escape_text(ch: char) -> (r: Option<&'static str>)
    ensures
        r is Some <==> escaped(ch) is Some,
        r matches Some(t) ==> t@ == seq![escaped(ch)->Some_0],
{
    proof {
        reveal_strlit("\n");
        reveal_strlit("\r");
        reveal_strlit("\t");
        reveal_strlit("\\");
        reveal_strlit("'");
        reveal_strlit("\"");
    }
    if ch == 'n' {
        Some("\n")
    } else if ch == 'r' {
        Some("\r")
    } else if ch == 't' {
        Some("\t")
    } else if ch == '\\' {
        Some("\\")
    } else if ch == '\'' {
        Some("'")
    } else if ch == '"' {
        Some("\"")
    } else {
        None
    }
}

pub open spec fn quoted_result(r: Result<(String, usize), SyntaxError>) -> Result<
    (Seq<char>, int),
    PErr,
> {
    match r {
        Ok((s, q)) => Ok((s@, q as int)),
        Err(e) => Err(e@),
    }
}

fn scan_quoted_exec(text: &str, c: &Vec<char>, start: usize, quote: char) -> (r: Result<
    (String, usize),
    SyntaxError,
>)
    requires
        c@ == text@,
        start <= c.len(),
    ensures
        quoted_result(r) == scan_quoted(c@, start as int, quote, Seq::empty()),
        r matches Ok((_, q)) ==> start < q <= c.len(),
{
    proof {
        lemma_scan_quoted_bounds(c@, start as int, quote, Seq::empty());
    }
    let mut acc = String::new();
    let mut i = start;
    loop
        invariant
            c@ == text@,
            start <= i <= c.len(),
            scan_quoted(c@, i as int, quote, acc@) == scan_quoted(
                c@,
                start as int,
                quote,
                Seq::empty(),
            ),
        decreases c.len() - i,
    {
        if i >= c.len() {
            return Err(SyntaxError { pos: i, reason: "unterminated quoted value" });
        }
        let ch = c[i];
        if ch == quote {
            return Ok((acc, i + 1));
        } else if ch == '\\' {
            if i + 1 >= c.len() {
                return Err(SyntaxError { pos: i + 1, reason: "unterminated escape" });
            }
            match escape_text(c[i + 1]) {
                Some(t) => {
                    let ghost before = acc@;
                    acc.append(t);
                    assert(acc@ =~= before.push(escaped(c@[i + 1])->Some_0));
                    i = i + 2;
                },
                None => {
                    return Err(SyntaxError { pos: i + 2, reason: "unsupported string escape" });
                },
            }
        } else {
            let one = text.substring_char(i, i + 1);
            assert(one@ =~= seq![c@[i as int]]);
            let ghost before = acc@;
            acc.append(one);
            assert(acc@ =~= before.push(c@[i as int]));
            i = i + 1;
        }
    }
}


/// A container under construction by the executable parser.
struct Frame {
    object: bool,
    implicit: bool,
    entries: Vec<(String, Value)>,
    items: Vec<Value>,
    key: String,
}

pub open spec fn entries_view(e: Seq<(String, Value)>) -> Seq<(Seq<char>, SVal)> {
    Seq::new(e.len(), |i: int| (e[i].0@, e[i].1@))
}

pub open spec fn items_view(e: Seq<Value>) -> Seq<SVal> {
    Seq::new(e.len(), |i: int| e[i]@)
}

impl View for Frame {
    type V = SFrame;

    closed spec fn view(&self) -> SFrame {
        SFrame {
            object: self.object,
            implicit: self.implicit,
            entries: entries_view(self.entries@),
            items: items_view(self.items@),
            key: self.key@,
        }
    }
}

spec fn stack_view(s: Seq<Frame>) -> Seq<SFrame> {
    Seq::new(s.len(), |i: int| s[i]@)
}

fn new_frame_exec(object: bool, implicit: bool) -> (f: Frame)
    ensures
        f@ == new_frame(object, implicit),
{
    let f = Frame {
        object,
        implicit,
        entries: Vec::new(),
        items: Vec::new(),
        key: String::new(),
    };
    assert(f@.entries =~= Seq::<(Seq<char>, SVal)>::empty());
    assert(f@.items =~= Seq::<SVal>::empty());
    f
}

fn frame_value_exec(f: Frame) -> (v: Value)
    ensures
        v@ == frame_value(f@),
{
    let ghost fv = f@;
    if f.object {
        let ghost ev = f.entries@;
        let v = Value::Object(f.entries);
        assert(v@ == SVal::Object(fv.entries)) by {
            if let SVal::Object(e) = v@ {
                assert forall|i: int| 0 <= i < e.len() implies e[i] == fv.entries[i] by {
                    assert(e[i] == (ev[i].0@, ev[i].1@));
                }
                assert(e =~= fv.entries);
            }
        }
        v
    } else {
        let v = Value::Array(f.items);
        assert(v@ == SVal::Array(f@.items)) by {
            if let SVal::Array(e) = v@ {
                assert(e =~= f@.items);
            }
        }
        v
    }
}

fn push_frame(stack: &mut Vec<Frame>, f: Frame)
    ensures
        stack_view(final(stack)@) == stack_view(old(stack)@).push(f@),
{
    let ghost f_view = f@;
    stack.push(f);
    assert(stack_view(stack@) =~= stack_view(old(stack)@).push(f_view));
}

fn pop_frame(stack: &mut Vec<Frame>) -> (f: Frame)
    requires
        old(stack).len() > 0,
    ensures
        f@ == stack_view(old(stack)@).last(),
        stack_view(final(stack)@) == stack_view(old(stack)@).drop_last(),
        final(stack).len() == old(stack).len() - 1,
{
    let f = stack.pop().unwrap();
    assert(stack_view(stack@) =~= stack_view(old(stack)@).drop_last());
    f
}

fn deliver_exec(stack: &mut Vec<Frame>, v: Value)
    requires
        old(stack).len() > 0,
    ensures
        stack_view(final(stack)@) == deliver(stack_view(old(stack)@), v@),
        final(stack).len() == old(stack).len(),
{
    let ghost old_view = stack_view(stack@);
    let mut top = pop_frame(stack);
    let ghost top_view = top@;
    let ghost v_view = v@;
    if top.object {
        let k = top.key.clone();
        top.entries.push((k, v));
        assert(top@.entries =~= top_view.entries.push((top_view.key, v_view)));
    } else {
        top.items.push(v);
        assert(top@.items =~= top_view.items.push(v_view));
    }
    push_frame(stack, top);
    assert(stack_view(stack@) =~= deliver(old_view, v_view));
}

fn set_key_exec(stack: &mut Vec<Frame>, k: String)
    requires
        old(stack).len() > 0,
    ensures
        stack_view(final(stack)@) == set_key(stack_view(old(stack)@), k@),
        final(stack).len() == old(stack).len(),
{
    let ghost old_view = stack_view(stack@);
    let mut top = pop_frame(stack);
    top.key = k;
    push_frame(stack, top);
    assert(stack_view(stack@) =~= set_key(old_view, k@));
}

pub open spec fn value_result(r: Result<Value, SyntaxError>) -> Result<SVal, PErr> {
    match r {
        Ok(v) => Ok(v@),
        Err(e) => Err(e@),
    }
}

fn trailing_exec(c: &Vec<char>, r: usize, v: Value) -> (res: Result<Value, SyntaxError>)
    requires
        r <= c.len(),
    ensures
        value_result(res) == trailing(c@, r as int, v@),
{
    let q = skip_exec(c, r)?;
    if q == c.len() {
        Ok(v)
    } else {
        Err(SyntaxError { pos: q, reason: "unexpected data after configuration" })
    }
}

/// Parses relaxed SPA-JSON text.
pub fn parse_value(text: &str, c: &Vec<char>) -> (res: Result<Value, SyntaxError>)
    requires
        c@ == text@,
    ensures
        value_result(res) == parse_chars(c@),
{
    let start = skip_exec(c, 0)?;
    let mut stack: Vec<Frame> = Vec::new();
    let mut mode = PMode::Item;
    if start < c.len() && c[start] == '{' {
        mode = PMode::Value;
        assert(stack_view(stack@) =~= Seq::<SFrame>::empty());
    } else {
        push_frame(&mut stack, new_frame_exec(true, true));
        assert(stack_view(stack@) =~= seq![new_frame(true, true)]);
    }
    let mut p = start;
    loop
        invariant
            c@ == text@,
            p <= c.len(),
            mode != PMode::Value ==> stack.len() > 0,
            run(c@, p as int, mode, stack_view(stack@)) == parse_chars(c@),
        decreases c.len() - p, mode_rank(mode),
    {
        match mode {
            PMode::Value => {
                let ghost sv0 = stack_view(stack@);
                let q = skip_exec(c, p)?;
                if q >= c.len() {
                    return Err(SyntaxError { pos: q, reason: "expected a value" });
                }
                let ch = c[q];
                if ch == '{' {
                    push_frame(&mut stack, new_frame_exec(true, false));
                    p = q + 1;
                    mode = PMode::Item;
                } else if ch == '[' {
                    push_frame(&mut stack, new_frame_exec(false, false));
                    p = q + 1;
                    mode = PMode::Item;
                } else {
                    let v;
                    let r;
                    if ch == '"' || ch == '\'' {
                        let (atom, after) = scan_quoted_exec(text, c, q + 1, ch)?;
                        v = Value::Atom(atom);
                        r = after;
                        assert(run(c@, p as int, mode, sv0) == finish(c@, r as int, sv0, v@));
                    } else {
                        let after = scan_atom_exec(c, q);
                        if after == q {
                            return Err(SyntaxError { pos: q, reason: "expected a token" });
                        }
                        let atom = text.substring_char(q, after).to_owned();
                        v = Value::Atom(atom);
                        r = after;
                        assert(run(c@, p as int, mode, sv0) == finish(c@, r as int, sv0, v@));
                    }
                    if stack.len() == 0 {
                        return trailing_exec(c, r, v);
                    }
                    deliver_exec(&mut stack, v);
                    p = r;
                    mode = PMode::AfterItem;
                }
            },
            PMode::Item => {
                let q = skip_exec(c, p)?;
                let ghost sv = stack_view(stack@);
                let top_is_object = stack[stack.len() - 1].object;
                let top_is_implicit = stack[stack.len() - 1].implicit;
                assert(top_is_object == sv.last().object);
                assert(top_is_implicit == sv.last().implicit);
                if top_is_object {
                    if top_is_implicit && q >= c.len() {
                        let top = pop_frame(&mut stack);
                        return trailing_exec(c, q, frame_value_exec(top));
                    } else if !top_is_implicit && q < c.len() && c[q] == '}' {
                        assert(run(c@, p as int, mode, sv) == finish(
                            c@,
                            q + 1,
                            sv.drop_last(),
                            frame_value(sv.last()),
                        ));
                        let top = pop_frame(&mut stack);
                        let v = frame_value_exec(top);
                        assert(stack_view(stack@).len() == stack.len());
                        if stack.len() == 0 {
                            return trailing_exec(c, q + 1, v);
                        }
                        deliver_exec(&mut stack, v);
                        p = q + 1;
                        mode = PMode::AfterItem;
                    } else if q >= c.len() {
                        return Err(SyntaxError { pos: q, reason: "unterminated object" });
                    } else if c[q] == '"' || c[q] == '\'' {
                        let (k, after) = scan_quoted_exec(text, c, q + 1, c[q])?;
                        set_key_exec(&mut stack, k);
                        p = after;
                        mode = PMode::AfterKey;
                    } else {
                        let after = scan_atom_exec(c, q);
                        if after == q {
                            return Err(SyntaxError { pos: q, reason: "expected a token" });
                        }
                        let k = text.substring_char(q, after).to_owned();
                        set_key_exec(&mut stack, k);
                        p = after;
                        mode = PMode::AfterKey;
                    }
                } else if q < c.len() && c[q] == ']' {
                    assert(run(c@, p as int, mode, sv) == finish(
                        c@,
                        q + 1,
                        sv.drop_last(),
                        frame_value(sv.last()),
                    ));
                    let top = pop_frame(&mut stack);
                    let v = frame_value_exec(top);
                    assert(stack_view(stack@).len() == stack.len());
                    if stack.len() == 0 {
                        return trailing_exec(c, q + 1, v);
                    }
                    deliver_exec(&mut stack, v);
                    p = q + 1;
                    mode = PMode::AfterItem;
                } else {
                    p = q;
                    mode = PMode::Value;
                }
            },
            PMode::AfterKey => {
                let q = skip_exec(c, p)?;
                let q2 = if q < c.len() && (c[q] == '=' || c[q] == ':') {
                    q + 1
                } else {
                    q
                };
                let q3 = skip_exec(c, q2)?;
                p = q3;
                mode = PMode::Value;
            },
            PMode::AfterItem => {
                let q = skip_exec(c, p)?;
                let q2 = if q < c.len() && c[q] == ',' {
                    q + 1
                } else {
                    q
                };
                p = q2;
                mode = PMode::Item;
            },
        }
    }
}


/// The number of bytes that `ch` takes in UTF-8.
pub open spec fn utf8_width(ch: char) -> int {
    if (ch as u32) < 0x80 {
        1
    } else if (ch as u32) < 0x800 {
        2
    } else if (ch as u32) < 0x10000 {
        3
    } else {
        4
    }
}

/// The line and column (both from 1, the column counted in bytes) that follow the first
/// `n` characters of `text`.
pub open spec fn location(text: Seq<char>, n: int) -> (int, int)
    decreases n,
{
    if n <= 0 || text.len() == 0 {
        (1, 1)
    } else if n > text.len() {
        location(text, text.len() as int)
    } else {
        let (line, column) = location(text, n - 1);
        if text[n - 1] == '\n' {
            (line + 1, 1)
        } else {
            (line, column + utf8_width(text[n - 1]))
        }
    }
}

/// A count as a C `int` reports it: saturated at the largest one.
pub open spec fn saturated(v: int) -> int {
    if v > 2147483647 {
        2147483647
    } else {
        v
    }
}

/// The message of a syntax error in `text`.
pub open spec fn syntax_message(text: Seq<char>, e: PErr) -> Seq<char> {
    let (line, column) = location(text, e.pos);
    "invalid relaxed SPA-JSON at line "@ + crate::text::decimal(saturated(line) as nat)
        + ", column "@ + crate::text::decimal(saturated(column) as nat) + ": "@ + e.msg
}

/// The result of parsing `text` as relaxed SPA-JSON, with syntax errors reported on the
/// `configuration` field.
pub open spec fn document_result(text: Seq<char>) -> Result<SVal, DiagnosticView> {
    match parse_chars(text) {
        Ok(v) => Ok(v),
        Err(e) => Err(crate::diagnostic::diag("configuration"@, syntax_message(text, e))),
    }
}

fn utf8_width_exec(ch: char) -> (w: u64)
    ensures
        w == utf8_width(ch),
{
    let v = ch as u32;
    if v < 0x80 {
        1
    } else if v < 0x800 {
        2
    } else if v < 0x10000 {
        3
    } else {
        4
    }
}

proof fn lemma_location_step(text: Seq<char>, n: int)
    requires
        0 < n <= text.len(),
    ensures
        location(text, n) == (if text[n - 1] == '\n' {
            (location(text, n - 1).0 + 1, 1int)
        } else {
            (location(text, n - 1).0, location(text, n - 1).1 + utf8_width(text[n - 1]))
        }),
{
}

proof fn lemma_location_positive(text: Seq<char>, n: int)
    ensures
        location(text, n).0 >= 1,
        location(text, n).1 >= 1,
    decreases n,
{
    if n <= 0 || text.len() == 0 {
    } else if n > text.len() {
        lemma_location_positive(text, text.len() as int);
    } else {
        lemma_location_positive(text, n - 1);
    }
}

/// The saturated line and column that follow the first `n` characters of `c`.
fn location_exec(c: &Vec<char>, n: usize) -> (r: (u64, u64))
    ensures
        r.0 == saturated(location(c@, n as int).0),
        r.1 == saturated(location(c@, n as int).1),
{
    let end = if n < c.len() {
        n
    } else {
        c.len()
    };
    let mut line: u64 = 1;
    let mut column: u64 = 1;
    let mut i: usize = 0;
    while i < end
        invariant
            end <= c.len(),
            end == n || (end == c.len() && n >= c.len()),
            i <= end,
            line == saturated(location(c@, i as int).0),
            column == saturated(location(c@, i as int).1),
        decreases end - i,
    {
        proof {
            lemma_location_step(c@, i + 1);
            lemma_location_positive(c@, i as int);
        }
        if c[i] == '\n' {
            if line < 2147483647 {
                line = line + 1;
            }
            column = 1;
        } else {
            let w = utf8_width_exec(c[i]);
            if column <= 2147483647 - w {
                column = column + w;
            } else {
                column = 2147483647;
            }
        }
        i = i + 1;
    }
    proof {
        if n > c.len() && c.len() > 0 {
            assert(location(c@, n as int) == location(c@, c@.len() as int));
        }
    }
    (line, column)
}

/// Parses a relaxed SPA-JSON document.
pub fn parse_document(text: &str) -> (r: Result<Value, ScientificDiagnostic>)
    ensures
        match r {
            Ok(v) => document_result(text@) == Ok::<SVal, DiagnosticView>(v@),
            Err(d) => document_result(text@) == Err::<SVal, DiagnosticView>(d@),
        },
{
    let c = chars_of(text);
    match parse_value(text, &c) {
        Ok(v) => Ok(v),
        Err(e) => {
            let (line, column) = location_exec(&c, e.pos);
            let mut message = "invalid relaxed SPA-JSON at line ".to_owned();
            message.append(crate::text::decimal_u64(line).as_str());
            message.append(", column ");
            message.append(crate::text::decimal_u64(column).as_str());
            message.append(": ");
            message.append(e.reason);
            Err(ScientificDiagnostic::from_parts(owned("configuration"), message))
        },
    }
}

} // verus!
