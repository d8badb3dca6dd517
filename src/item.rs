use crate::error::QueryDynamoDbError;
use crate::event::{EventKind, EventView, OutboundEvent};
use vstd::prelude::*;
use vstd::string::*;

verus! {

/// An entity as the backing store returned it: its `id` attribute, if it is
/// a string, and its `value` attribute, if it is a number, as the store's
/// decimal text.
#[derive(Debug)]
pub struct StoredItem {
    pub id: Option<String>,
    pub value: Option<String>,
}

/// The canonical item: its identifier and, where the store holds a usable
/// one, its numeric value written as a JSON number.
#[derive(Debug)]
pub struct Item {
    pub id: String,
    pub value: Option<String>,
}

/// The view of an optional string.
pub open spec fn opt_text(o: Option<String>) -> Option<Seq<char>> {
    match o {
        Some(s) => Some(s@),
        None => None,
    }
}

impl View for Item {
    type V = (Seq<char>, Option<Seq<char>>);

    open spec fn view(&self) -> (Seq<char>, Option<Seq<char>>) {
        (self.id@, opt_text(self.value))
    }
}

pub open spec fn is_digit(c: char) -> bool {
    '0' <= c && c <= '9'
}

/// The length of the run of digits in `s` that starts at position `i`.
pub open spec fn digit_run(s: Seq<char>, i: int) -> nat
    decreases s.len() - i,
{
    if 0 <= i < s.len() && is_digit(s[i]) {
        1 + digit_run(s, i + 1)
    } else {
        0
    }
}

/// Whether `s` is a number in JSON's grammar: an optional minus sign, an
/// integer part without leading zeros, an optional fraction of one or more
/// digits, and an optional exponent with an optional sign and one or more
/// digits.
pub open spec fn json_number(s: Seq<char>) -> bool {
    let a: int = if s.len() > 0 && s[0] == '-' { 1 } else { 0 };
    let d = digit_run(s, a);
    let b = a + d;
    let has_frac = b < s.len() && s[b] == '.';
    let c: int = if has_frac { b + 1 + digit_run(s, b + 1) } else { b };
    let has_exp = c < s.len() && (s[c] == 'e' || s[c] == 'E');
    let signed = has_exp && c + 1 < s.len() && (s[c + 1] == '+' || s[c + 1] == '-');
    let g: int = if signed { c + 2 } else { c + 1 };
    let end: int = if has_exp { g + digit_run(s, g) } else { c };
    &&& d >= 1
    &&& (d == 1 || s[a] != '0')
    &&& (!has_frac || digit_run(s, b + 1) >= 1)
    &&& (!has_exp || digit_run(s, g) >= 1)
    &&& end == s.len()
}

/// The value that a stored number text gives: itself where it is a JSON
/// number, and none otherwise.
pub open spec fn number_or_null(v: Option<Seq<char>>) -> Option<Seq<char>> {
    match v {
        Some(t) => if json_number(t) {
            Some(t)
        } else {
            None
        },
        None => None,
    }
}

/// The item a lookup of `key` resolves to, if any: the stored entity must
/// carry `key` as its identifier.
pub open spec fn projected(key: Seq<char>, found: Option<StoredItem>) -> Option<(Seq<char>, Option<Seq<char>>)> {
    match found {
        Some(st) => if opt_text(st.id) == Some(key) {
            Some((key, number_or_null(opt_text(st.value))))
        } else {
            None
        },
        None => None,
    }
}

/// The JSON object `{"id":<id>,"value":<value>}`, where `id_json` is the
/// identifier already written as a JSON string and an absent value is null.
pub open spec fn item_json(id_json: Seq<char>, value: Option<Seq<char>>) -> Seq<char> {
    let v = match value {
        Some(t) => t,
        None => "null"@,
    };
    "{\"id\":"@ + id_json + ",\"value\":"@ + v + "}"@
}

/// What serde_json writes for a string: the string as a JSON string literal.
pub uninterp spec fn json_string_of(s: Seq<char>) -> Seq<char>;

/// Relies on serde_json::to_string on a `str`, which writes it as a quoted and
/// escaped JSON string; for a `str` it does not fail.
#[verifier::external_body]
fn quote_json(s: &str) -> (r: String)
    ensures
        r@ == json_string_of(s@),
{
    match serde_json::to_string(s) {
        Ok(t) => t,
        Err(_) => String::new(),
    }
}

/// Scans the run of digits that starts at `i`, returning where it ends.
fn scan_digits(s: &String, n: usize, i: usize) -> (r: usize)
    requires
        n == s@.len(),
        i <= n,
    ensures
        r == i + digit_run(s@, i as int),
        r <= n,
{
    let mut j: usize = i;
    while j < n && is_digit_char(s.get_char(j))
        invariant
            i <= j <= n,
            n == s@.len(),
            digit_run(s@, i as int) == (j - i) + digit_run(s@, j as int),
        decreases n - j,
    {
        j = j + 1;
    }
    j
}

fn is_digit_char(c: char) -> (r: bool)
    ensures
        r == is_digit(c),
{
    '0' <= c && c <= '9'
}

/// Whether `s` is a number in JSON's grammar.
pub fn is_json_number(s: &String) -> (r: bool)
    ensures
        r == json_number(s@),
{
    let n = s.unicode_len();
    let a: usize = if n > 0 && s.get_char(0) == '-' { 1 } else { 0 };
    let b = scan_digits(s, n, a);
    let d = b - a;
    if d < 1 || (d > 1 && s.get_char(a) == '0') {
        return false;
    }
    let has_frac = b < n && s.get_char(b) == '.';
    let mut c: usize = b;
    if has_frac {
        c = scan_digits(s, n, b + 1);
        if c == b + 1 {
            return false;
        }
    }
    let has_exp = c < n && (s.get_char(c) == 'e' || s.get_char(c) == 'E');
    if !has_exp {
        return c == n;
    }
    let signed = c + 1 < n && (s.get_char(c + 1) == '+' || s.get_char(c + 1) == '-');
    let g: usize = if signed { c + 2 } else { c + 1 };
    let end = scan_digits(s, n, g);
    end > g && end == n
}

/// Resolves a lookup of `key`: the stored entity, if there is one and it
/// carries `key` as its identifier, becomes the canonical item, with its
/// value kept where it is a JSON number.
pub fn project_item(key: &str, found: Option<StoredItem>) -> (r: Result<Item, QueryDynamoDbError>)
    ensures
        match projected(key@, found) {
            Some(it) => r is Ok && r->Ok_0@ == it,
            None => r is Err && r->Err_0.message@ == "item not found"@ && r->Err_0.kind
                == crate::error::ErrorKind::Lookup,
        },
{
    match found {
        Some(st) => {
            let wanted = key.to_owned();
            let matches = match &st.id {
                Some(id) => *id == wanted,
                None => false,
            };
            if !matches {
                return Err(QueryDynamoDbError::item_not_found());
            }
            let value = match st.value {
                Some(t) => if is_json_number(&t) {
                    Some(t)
                } else {
                    None
                },
                None => None,
            };
            Ok(Item { id: wanted, value })
        },
        None => Err(QueryDynamoDbError::item_not_found()),
    }
}

/// Writes `{"id":<id_json>,"value":<value>}`, with null for an absent value.
pub fn item_json_from(id_json: &str, value: &Option<String>) -> (r: String)
    ensures
        r@ == item_json(id_json@, opt_text(*value)),
{
    let mut out = "{\"id\":".to_owned();
    out.append(id_json);
    out.append(",\"value\":");
    match value {
        Some(t) => out.append(t.as_str()),
        None => out.append("null"),
    }
    out.append("}");
    out
}

impl Item {
    /// The item as a JSON object, its identifier written as a JSON string.
    pub fn to_json(&self) -> (r: String)
        ensures
            r@ == item_json(json_string_of(self.id@), opt_text(self.value)),
    {
        let id_json = quote_json(self.id.as_str());
        item_json_from(id_json.as_str(), &self.value)
    }
}

/// Enrichment of a change to `key`, given what the store returned for it:
/// a broadcast event carrying the item as JSON, or the lookup's error.
pub fn enrich(key: &str, found: Option<StoredItem>) -> (r: Result<OutboundEvent, QueryDynamoDbError>)
    ensures
        match projected(key@, found) {
            Some(it) => r is Ok && r->Ok_0@ == (EventView {
                kind: EventKind::Broadcast,
                data: item_json(json_string_of(it.0), it.1),
            }),
            None => r is Err && r->Err_0.message@ == "item not found"@ && r->Err_0.kind
                == crate::error::ErrorKind::Lookup,
        },
{
    let item = project_item(key, found)?;
    Ok(OutboundEvent::broadcast(item.to_json()))
}

} // verus!
