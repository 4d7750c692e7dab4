//! Reading the desktop's report of the focused window.

use vstd::prelude::*;
use vstd::string::StrSliceExecFns;
use vstd::string::StringExecFns;
use crate::codec::json_as_bool;
use crate::codec::json_as_u64;
use crate::codec::json_bool;
use crate::codec::json_document;
use crate::codec::json_from_str;
use crate::codec::json_index;
use crate::codec::json_member;
use crate::codec::json_text;
use crate::codec::json_to_string;
use crate::codec::json_u64;
use crate::model::FocusedWindowInfo;
use crate::model::FocusedWindowView;

verus! {

/// Whether `c` is white space, as Unicode defines it.
pub open spec fn is_space_spec(c: char) -> bool {
    let n = c as u32;
    ||| 0x09 <= n <= 0x0d
    ||| n == 0x20
    ||| n == 0x85
    ||| n == 0xa0
    ||| n == 0x1680
    ||| 0x2000 <= n <= 0x200a
    ||| n == 0x2028
    ||| n == 0x2029
    ||| n == 0x202f
    ||| n == 0x205f
    ||| n == 0x3000
}

/// Whether `c` is a double or a single quote.
pub open spec fn is_quote_spec(c: char) -> bool {
    c == '"' || c == '\''
}

/// Whether trimming drops `c`: a quote where `quotes` is set, white space
/// where it is not.
pub open spec fn drops_spec(c: char, quotes: bool) -> bool {
    if quotes {
        is_quote_spec(c)
    } else {
        is_space_spec(c)
    }
}

/// `s` without the characters at its start that trimming drops.
pub open spec fn trim_start_spec(s: Seq<char>, quotes: bool) -> Seq<char>
    decreases s.len(),
{
    if s.len() > 0 && drops_spec(s.first(), quotes) {
        trim_start_spec(s.drop_first(), quotes)
    } else {
        s
    }
}

/// `s` without the characters at its end that trimming drops.
pub open spec fn trim_end_spec(s: Seq<char>, quotes: bool) -> Seq<char>
    decreases s.len(),
{
    if s.len() > 0 && drops_spec(s.last(), quotes) {
        trim_end_spec(s.drop_last(), quotes)
    } else {
        s
    }
}

/// `s` without the white space around it, and then without the quotes
/// around what is left.
pub open spec fn trim_parentheses_spec(s: Seq<char>) -> Seq<char> {
    let inner = trim_end_spec(trim_start_spec(s, false), false);
    trim_end_spec(trim_start_spec(inner, true), true)
}

/// Whether `c` is white space.
pub fn is_space(c: char) -> (r: bool)
    ensures
        r == is_space_spec(c),
{
    let n: u32 = c as u32;
    (0x09 <= n && n <= 0x0d) || n == 0x20 || n == 0x85 || n == 0xa0 || n == 0x1680 || (0x2000 <= n
        && n <= 0x200a) || n == 0x2028 || n == 0x2029 || n == 0x202f || n == 0x205f || n == 0x3000
}

/// Whether trimming drops `c`.
fn drops(c: char, quotes: bool) -> (r: bool)
    ensures
        r == drops_spec(c, quotes),
{
    if quotes {
        c == '"' || c == '\''
    } else {
        is_space(c)
    }
}

/// Where the part of `s` between `from` and `to` starts once the
/// characters at its start that trimming drops are gone.
fn skip_start(s: &str, from: usize, to: usize, quotes: bool) -> (r: usize)
    requires
        from <= to <= s@.len(),
    ensures
        from <= r <= to,
        s@.subrange(r as int, to as int) == trim_start_spec(
            s@.subrange(from as int, to as int),
            quotes,
        ),
{
    let mut i: usize = from;
    while i < to && drops(s.get_char(i), quotes)
        invariant
            from <= i <= to <= s@.len(),
            trim_start_spec(s@.subrange(i as int, to as int), quotes) == trim_start_spec(
                s@.subrange(from as int, to as int),
                quotes,
            ),
        decreases to - i,
    {
        proof {
            let part = s@.subrange(i as int, to as int);
            assert(part.first() == s@[i as int]);
            assert(part.drop_first() =~= s@.subrange(i as int + 1, to as int));
        }
        i += 1;
    }
    proof {
        let part = s@.subrange(i as int, to as int);
        if i < to {
            assert(part.first() == s@[i as int]);
        }
    }
    i
}

/// Where the part of `s` between `from` and `to` ends once the characters
/// at its end that trimming drops are gone.
fn skip_end(s: &str, from: usize, to: usize, quotes: bool) -> (r: usize)
    requires
        from <= to <= s@.len(),
    ensures
        from <= r <= to,
        s@.subrange(from as int, r as int) == trim_end_spec(
            s@.subrange(from as int, to as int),
            quotes,
        ),
{
    let mut i: usize = to;
    while from < i && drops(s.get_char(i - 1), quotes)
        invariant
            from <= i <= to <= s@.len(),
            trim_end_spec(s@.subrange(from as int, i as int), quotes) == trim_end_spec(
                s@.subrange(from as int, to as int),
                quotes,
            ),
        decreases i - from,
    {
        proof {
            let part = s@.subrange(from as int, i as int);
            assert(part.last() == s@[i as int - 1]);
            assert(part.drop_last() =~= s@.subrange(from as int, i as int - 1));
        }
        i -= 1;
    }
    proof {
        let part = s@.subrange(from as int, i as int);
        if from < i {
            assert(part.last() == s@[i as int - 1]);
        }
    }
    i
}

/// Strips the white space around `content`, and then the quotes around what
/// is left.
pub fn trim_parentheses(content: String) -> (r: String)
    ensures
        r@ == trim_parentheses_spec(content@),
{
    let s = content.as_str();
    let n = s.unicode_len();
    assert(s@.subrange(0, n as int) =~= s@);
    let a = skip_start(s, 0, n, false);
    let b = skip_end(s, a, n, false);
    let c = skip_start(s, a, b, true);
    let d = skip_end(s, c, b, true);
    String::from_str(s.substring_char(c, d))
}

/// Why a report of the focused window could not be read.
#[derive(Debug, Clone, Copy, PartialEq, Eq, Structural)]
pub enum FocusError {
    /// The report is no JSON document.
    NotJson,
    /// The report gives no process number.
    NoPid,
    /// The report does not say whether the window has the focus.
    NoFocus,
}

/// The text of the member `key` of the report `doc`, without the quotes
/// around it.
pub open spec fn member_text(doc: serde_json::Value, key: Seq<char>) -> Seq<char> {
    trim_parentheses_spec(json_text(json_member(doc, key)))
}

/// What the report `doc` says of the focused window: the texts of `title`,
/// `wm_class` and `wm_class_instance` without the quotes around them, the
/// number `pid` and the flag `focus`.
pub open spec fn focus_of_json(doc: serde_json::Value) -> Result<FocusedWindowView, FocusError> {
    match (json_u64(json_member(doc, "pid"@)), json_bool(json_member(doc, "focus"@))) {
        (None, _) => Err(FocusError::NoPid),
        (Some(_), None) => Err(FocusError::NoFocus),
        (Some(pid), Some(focus)) => Ok(
            FocusedWindowView {
                title: member_text(doc, "title"@),
                wm_class: member_text(doc, "wm_class"@),
                wm_class_instance: member_text(doc, "wm_class_instance"@),
                pid: pid,
                focus: focus,
            },
        ),
    }
}

/// What the report `text` says of the focused window.
pub open spec fn focus_of_text(text: Seq<char>) -> Result<FocusedWindowView, FocusError> {
    match json_document(text) {
        Some(doc) => focus_of_json(doc),
        None => Err(FocusError::NotJson),
    }
}

/// Reads what a report that was read as JSON says of the focused window.
pub fn focused_window_from_json(doc: &serde_json::Value) -> (r: Result<
    FocusedWindowInfo,
    FocusError,
>)
    ensures
        match r {
            Ok(info) => focus_of_json(*doc) == Ok::<FocusedWindowView, FocusError>(info@),
            Err(e) => focus_of_json(*doc) == Err::<FocusedWindowView, FocusError>(e),
        },
{
    let title = trim_parentheses(json_to_string(json_index(doc, "title")));
    let wm_class = trim_parentheses(json_to_string(json_index(doc, "wm_class")));
    let wm_class_instance = trim_parentheses(
        json_to_string(json_index(doc, "wm_class_instance")),
    );
    let Some(pid) = json_as_u64(json_index(doc, "pid")) else {
        return Err(FocusError::NoPid);
    };
    let Some(focus) = json_as_bool(json_index(doc, "focus")) else {
        return Err(FocusError::NoFocus);
    };
    Ok(FocusedWindowInfo { title, wm_class, wm_class_instance, pid, focus })
}

/// Reads the report of the focused window that the desktop gives as JSON
/// text.
pub fn get_focused_window_info(text: &str) -> (r: Result<FocusedWindowInfo, FocusError>)
    ensures
        match r {
            Ok(info) => focus_of_text(text@) == Ok::<FocusedWindowView, FocusError>(info@),
            Err(e) => focus_of_text(text@) == Err::<FocusedWindowView, FocusError>(e),
        },
{
    match json_from_str(text) {
        Ok(doc) => focused_window_from_json(&doc),
        Err(_) => Err(FocusError::NotJson),
    }
}

/// Remembers the focused window that was seen last, so that it is reported
/// only when it changes.
#[derive(Debug)]
pub struct FocusWatch {
    pub last: FocusedWindowInfo,
}

impl FocusWatch {
    /// Starts from the window `first`, which is not reported.
    pub fn new(first: FocusedWindowInfo) -> (r: Self)
        ensures
            r.last@ == first@,
    {
        FocusWatch { last: first }
    }

    /// Takes note of the window `info` that is focused now. Hands it back
    /// for reporting if it differs from the one seen last, and remembers it.
    pub fn observe(&mut self, info: FocusedWindowInfo) -> (report: Option<FocusedWindowInfo>)
        ensures
            final(self).last@ == info@,
            match report {
                Some(changed) => changed@ == info@ && info@ != old(self).last@,
                None => info@ == old(self).last@,
            },
    {
        if info == self.last {
            None
        } else {
            let report = info.clone();
            self.last = info;
            Some(report)
        }
    }
}

} // verus!
