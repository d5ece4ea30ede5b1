//! Records in JSON: texts, numbers, and objects or arrays with given fields.

use vstd::prelude::*;
use vstd::string::*;

use crate::text::{format_u128, format_u64, join2, join3, same, text, to_chars};

verus! {

/// What kind of value a field has.
#[derive(Debug, Clone, Copy, PartialEq, Eq, Structural)]
pub enum Kind {
    Text,
    Number,
}

/// The value of a field.
#[derive(Debug, Clone, PartialEq, Eq)]
pub enum Value {
    Text(String),
    Number(u64),
}

/// What a value of a field is.
pub enum Datum {
    Text(Seq<char>),
    Number(u64),
}

impl View for Value {
    type V = Datum;

    open spec fn view(&self) -> Datum {
        match self {
            Value::Text(s) => Datum::Text(s@),
            Value::Number(n) => Datum::Number(*n),
        }
    }
}

impl Datum {
    /// The kind of the value.
    pub open spec fn kind(self) -> Kind {
        match self {
            Datum::Text(_) => Kind::Text,
            Datum::Number(_) => Kind::Number,
        }
    }
}

/// What a list of values holds.
pub open spec fn data(values: Seq<Value>) -> Seq<Datum> {
    values.map_values(|v: Value| v@)
}

/// The fields of a record, in order.
pub struct Schema {
    /// How messages speak of the record.
    pub shape: &'static str,
    pub fields: Vec<(&'static str, Kind)>,
}

/// The fields of a record, and how messages speak of it.
pub struct Record {
    pub shape: Seq<char>,
    pub fields: Seq<(Seq<char>, Kind)>,
}

impl View for Schema {
    type V = Record;

    open spec fn view(&self) -> Record {
        Record {
            shape: self.shape@,
            fields: self.fields@.map_values(|f: (&'static str, Kind)| (f.0@, f.1)),
        }
    }
}

/// What is wrong with the form of a text as JSON, if anything.
pub uninterp spec fn json_form(text: Seq<char>) -> Result<(), Seq<char>>;

/// Whether a text is JSON.
pub open spec fn json_valid(text: Seq<char>) -> bool {
    json_form(text) is Ok
}

/// The text that a JSON string stands for, or the message of the error.
pub uninterp spec fn json_string(text: Seq<char>) -> Result<Seq<char>, Seq<char>>;

/// The number that a JSON number stands for, or the message of the error.
pub uninterp spec fn json_number(text: Seq<char>) -> Result<u64, Seq<char>>;

/// `serde_json::from_str` that looks at the form alone. The result is determined by
/// the text.
#[verifier::external_body]
pub(crate) fn check_form(text: &str) -> (r: Result<(), String>)
    ensures
        match r {
            Ok(_) => json_form(text@) == Ok::<(), Seq<char>>(()),
            Err(message) => json_form(text@) == Err::<(), Seq<char>>(message@),
        },
{
    serde_json::from_str::<serde::de::IgnoredAny>(text).map(|_| ()).map_err(|e| e.to_string())
}

/// `serde_json::from_str` for a text. The result is determined by what is read.
#[verifier::external_body]
fn parse_string(text: &str) -> (r: Result<String, String>)
    ensures
        match r {
            Ok(s) => json_string(text@) == Ok::<Seq<char>, Seq<char>>(s@),
            Err(message) => json_string(text@) == Err::<Seq<char>, Seq<char>>(message@),
        },
{
    serde_json::from_str::<String>(text).map_err(|e| e.to_string())
}

/// `serde_json::from_str` for a number in 64 bits. The result is determined by
/// what is read.
#[verifier::external_body]
fn parse_number(text: &str) -> (r: Result<u64, String>)
    ensures
        match r {
            Ok(n) => json_number(text@) == Ok::<u64, Seq<char>>(n),
            Err(message) => json_number(text@) == Err::<u64, Seq<char>>(message@),
        },
{
    serde_json::from_str::<u64>(text).map_err(|e| e.to_string())
}

/// What a list of named values holds.
pub open spec fn named(fields: Seq<(&'static str, Value)>) -> Seq<(Seq<char>, Datum)> {
    fields.map_values(|f: (&'static str, Value)| (f.0@, f.1@))
}

/// Each name and each value of the fields is read back from its JSON, also behind
/// blanks.
pub open spec fn read_back(fields: Seq<(Seq<char>, Datum)>) -> bool {
    forall|i: int, w: Seq<char>|
        #![trigger fields[i], is_blank(w)]
        0 <= i < fields.len() && is_blank(w) ==> {
            &&& json_string(w + json_text(fields[i].0)) == Ok::<Seq<char>, Seq<char>>(fields[i].0)
            &&& read_datum(fields[i].1.kind(), w + json_datum(fields[i].1)) == Ok::<
                Datum,
                Seq<char>,
            >(fields[i].1)
        }
}

/// `serde_json::to_string` on an object whose fields have different names, which
/// does not fail: the fields stand in order, without white space. It is JSON, and
/// the names and values that it is made of are read back.
#[verifier::external_body]
pub(crate) fn write_object(fields: &Vec<(&'static str, Value)>) -> (r: Result<String, String>)
    requires
        forall|i: int, j: int|
            0 <= i < j < fields@.len() ==> (#[trigger] fields@[i]).0@ != (#[trigger] fields@[j]).0@,
    ensures
        match r {
            Ok(json) => {
                &&& json@ == object_text(named(fields@))
                &&& json_valid(json@)
                &&& read_back(named(fields@))
            },
            Err(_) => false,
        },
{
    let mut object = serde_json::Map::new();
    for (name, value) in fields {
        let value = match value {
            Value::Text(s) => serde_json::Value::from(s.as_str()),
            Value::Number(n) => serde_json::Value::from(*n),
        };
        object.insert(name.to_string(), value);
    }
    serde_json::to_string(&object).map_err(|e| e.to_string())
}

/// A character of a text in a JSON string: quotes, backslashes and control
/// characters are escaped.
pub open spec fn json_char(c: char) -> Seq<char> {
    if c == '"' || c == '\\' {
        seq!['\\', c]
    } else if c == '\u{8}' {
        seq!['\\', 'b']
    } else if c == '\t' {
        seq!['\\', 't']
    } else if c == '\n' {
        seq!['\\', 'n']
    } else if c == '\u{c}' {
        seq!['\\', 'f']
    } else if c == '\r' {
        seq!['\\', 'r']
    } else if c <= '\u{1f}' {
        seq!['\\', 'u', '0', '0'] + crate::text::hex_byte(c as u8)
    } else {
        seq![c]
    }
}

/// The characters of a text as they stand in a JSON string.
pub open spec fn json_chars(s: Seq<char>) -> Seq<char>
    decreases s.len(),
{
    if s.len() == 0 {
        Seq::empty()
    } else {
        json_chars(s.drop_last()) + json_char(s.last())
    }
}

/// A text as a JSON string.
pub open spec fn json_text(s: Seq<char>) -> Seq<char> {
    seq!['"'] + json_chars(s) + seq!['"']
}

/// A value in JSON.
pub open spec fn json_datum(d: Datum) -> Seq<char> {
    match d {
        Datum::Text(s) => json_text(s),
        Datum::Number(n) => crate::text::decimal(n as nat),
    }
}

/// The fields of an object from one on, each a name and a value, and the end of
/// the object.
pub open spec fn fields_text(fields: Seq<(Seq<char>, Datum)>, from: int) -> Seq<char>
    decreases fields.len() - from,
{
    if from < 0 || from >= fields.len() {
        seq!['}']
    } else {
        (if from == 0 {
            Seq::<char>::empty()
        } else {
            seq![',']
        }) + json_text(fields[from].0) + seq![':'] + json_datum(fields[from].1) + fields_text(
            fields,
            from + 1,
        )
    }
}

/// An object in JSON, without white space.
pub open spec fn object_text(fields: Seq<(Seq<char>, Datum)>) -> Seq<char> {
    seq!['{'] + fields_text(fields, 0)
}

/// Only spaces and line breaks.
pub open spec fn is_blank(w: Seq<char>) -> bool {
    forall|i: int| 0 <= i < w.len() ==> #[trigger] w[i] == ' ' || w[i] == '\n'
}

/// How many bytes a character takes.
pub open spec fn width(c: char) -> nat {
    if c <= '\u{7f}' {
        1
    } else if c <= '\u{7ff}' {
        2
    } else if c <= '\u{ffff}' {
        3
    } else {
        4
    }
}

/// A space for each byte, and the line breaks as they are: what follows stands at
/// the same place as it would behind the text.
pub open spec fn blanked(s: Seq<char>) -> Seq<char>
    decreases s.len(),
{
    if s.len() == 0 {
        Seq::empty()
    } else {
        blanked(s.drop_last()) + if s.last() == '\n' {
            seq!['\n']
        } else {
            Seq::new(width(s.last()), |i: int| ' ')
        }
    }
}

/// The line that a place of a text is in.
pub open spec fn line(s: Seq<char>, i: int) -> nat
    decreases i,
{
    if i <= 0 {
        1
    } else {
        line(s, i - 1) + if s[i - 1] == '\n' {
            1nat
        } else {
            0
        }
    }
}

/// How many bytes stand before a place in its line.
pub open spec fn column(s: Seq<char>, i: int) -> nat
    decreases i,
{
    if i <= 0 || s[i - 1] == '\n' {
        0
    } else {
        column(s, i - 1) + width(s[i - 1])
    }
}

/// What a message says of a place in a text.
pub open spec fn place(s: Seq<char>, i: int) -> Seq<char> {
    " at line "@ + crate::text::decimal(line(s, i)) + " column "@ + crate::text::decimal(
        column(s, i),
    )
}

/// Where a part of JSON ends: at the next comma, colon or closing bracket that
/// stands outside of texts and of brackets.
pub open spec fn part_end(s: Seq<char>, i: int, depth: nat, quoted: bool) -> int
    decreases s.len() - i + 1,
{
    if i < 0 || i >= s.len() {
        s.len() as int
    } else if quoted {
        if s[i] == '\\' {
            part_end(s, i + 2, depth, true)
        } else {
            part_end(s, i + 1, depth, s[i] != '"')
        }
    } else if s[i] == '"' {
        part_end(s, i + 1, depth, true)
    } else if s[i] == '[' || s[i] == '{' {
        part_end(s, i + 1, depth + 1, false)
    } else if s[i] == ']' || s[i] == '}' {
        if depth == 0 {
            i
        } else {
            part_end(s, i + 1, (depth - 1) as nat, false)
        }
    } else if (s[i] == ',' || s[i] == ':') && depth == 0 {
        i
    } else {
        part_end(s, i + 1, depth, false)
    }
}

proof fn part_end_bound(s: Seq<char>, i: int, depth: nat, quoted: bool)
    ensures
        part_end(s, i, depth, quoted) <= s.len(),
        0 <= i <= s.len() ==> i <= part_end(s, i, depth, quoted),
    decreases s.len() - i + 1,
{
    if 0 <= i < s.len() {
        part_end_bound(s, i + 1, depth, true);
        part_end_bound(s, i + 1, depth, false);
        part_end_bound(s, i + 2, depth, true);
        part_end_bound(s, i + 1, depth + 1, false);
        if depth > 0 {
            part_end_bound(s, i + 1, (depth - 1) as nat, false);
        }
    }
}

/// A part of a text, behind blanks that keep its place.
pub open spec fn in_place(s: Seq<char>, from: int, to: int) -> Seq<char> {
    blanked(s.take(from)) + s.subrange(from, to)
}

/// A value of a kind that a part of a text says, or the message of the error.
pub open spec fn read_datum(kind: Kind, part: Seq<char>) -> Result<Datum, Seq<char>> {
    match kind {
        Kind::Text => match json_string(part) {
            Ok(s) => Ok(Datum::Text(s)),
            Err(message) => Err(message),
        },
        Kind::Number => match json_number(part) {
            Ok(n) => Ok(Datum::Number(n)),
            Err(message) => Err(message),
        },
    }
}

/// The place of the first field with a name.
pub open spec fn field_index(fields: Seq<(Seq<char>, Kind)>, name: Seq<char>, from: int) -> Option<
    int,
>
    decreases fields.len() - from,
{
    if from < 0 || from >= fields.len() {
        None
    } else if fields[from].0 == name {
        Some(from)
    } else {
        field_index(fields, name, from + 1)
    }
}

/// What is known of the fields of a record after one more field of an object: its
/// name is read, and its value if the record has that field. A field that is
/// repeated is an error.
pub open spec fn with_field(
    s: Seq<char>,
    fields: Seq<(Seq<char>, Kind)>,
    from: int,
    colon: int,
    end: int,
    known: Seq<Option<Datum>>,
) -> Result<Seq<Option<Datum>>, Seq<char>> {
    match json_string(in_place(s, from, colon)) {
        Err(message) => Err(message),
        Ok(name) => match field_index(fields, name, 0) {
            None => Ok(known),
            Some(j) => if known[j] is Some {
                Err("duplicate field `"@ + fields[j].0 + "`"@ + place(s, colon))
            } else {
                match read_datum(fields[j].1, in_place(s, colon + 1, end)) {
                    Ok(d) => Ok(known.update(j, Some(d))),
                    Err(message) => Err(message),
                }
            },
        },
    }
}

/// What is known of the fields of a record after the fields of an object from a
/// place on.
pub open spec fn with_fields(
    s: Seq<char>,
    fields: Seq<(Seq<char>, Kind)>,
    from: int,
    known: Seq<Option<Datum>>,
) -> Result<Seq<Option<Datum>>, Seq<char>>
    decreases s.len() - from,
    via with_fields_decreases
{
    let colon = part_end(s, from, 0, false);
    let end = part_end(s, colon + 1, 0, false);
    if from < 0 || colon >= s.len() || s[colon] != ':' {
        Ok(known)
    } else {
        match with_field(s, fields, from, colon, end, known) {
            Err(message) => Err(message),
            Ok(more) => if end < s.len() && s[end] == ',' {
                with_fields(s, fields, end + 1, more)
            } else {
                Ok(more)
            },
        }
    }
}

#[via_fn]
proof fn with_fields_decreases(
    s: Seq<char>,
    fields: Seq<(Seq<char>, Kind)>,
    from: int,
    known: Seq<Option<Datum>>,
) {
    let colon = part_end(s, from, 0, false);
    part_end_bound(s, from, 0, false);
    part_end_bound(s, colon + 1, 0, false);
}

/// The first field from one on that nothing is known of.
pub open spec fn first_missing(known: Seq<Option<Datum>>, from: int) -> Option<int>
    decreases known.len() - from,
{
    if from < 0 || from >= known.len() {
        None
    } else if known[from] is None {
        Some(from)
    } else {
        first_missing(known, from + 1)
    }
}

/// White space in JSON.
pub open spec fn is_json_space(c: char) -> bool {
    c == ' ' || c == '\n' || c == '\t' || c == '\r'
}

/// The first place from one on, and before another, that is no white space.
pub open spec fn after_space(s: Seq<char>, from: int, to: int) -> int
    decreases to - from,
{
    if from < to && is_json_space(s[from]) {
        after_space(s, from + 1, to)
    } else {
        from
    }
}

/// Where a text ends without the white space at its end, looked at from a place.
pub open spec fn before_space(s: Seq<char>, to: int) -> int
    decreases to,
{
    if 0 < to <= s.len() && is_json_space(s[to - 1]) {
        before_space(s, to - 1)
    } else {
        to
    }
}

/// The values of the fields of a record that an array says: `read` are those of
/// the elements before the place.
pub open spec fn elements(
    s: Seq<char>,
    record: Record,
    from: int,
    read: Seq<Datum>,
) -> Result<Seq<Datum>, Seq<char>>
    decreases s.len() - from,
    via elements_decreases
{
    let end = part_end(s, from, 0, false);
    let follows = end < s.len() && s[end] == ',';
    if from < 0 || from > s.len() {
        Ok(read)
    } else if read.len() == record.fields.len() {
        let first = after_space(s, from, end);
        Err(
            "trailing characters"@ + place(
                s,
                if first < s.len() {
                    first + 1
                } else {
                    first
                },
            ),
        )
    } else if !follows && after_space(s, from, end) >= end {
        Err(wrong_length(s, record, read.len()))
    } else {
        match read_datum(record.fields[read.len() as int].1, in_place(s, from, end)) {
            Err(message) => Err(message),
            Ok(d) => if follows {
                elements(s, record, end + 1, read.push(d))
            } else if read.len() + 1 < record.fields.len() {
                Err(wrong_length(s, record, read.len() + 1))
            } else {
                Ok(read.push(d))
            },
        }
    }
}

#[via_fn]
proof fn elements_decreases(s: Seq<char>, record: Record, from: int, read: Seq<Datum>) {
    part_end_bound(s, from, 0, false);
}

/// What is said of an array with too few elements.
pub open spec fn wrong_length(s: Seq<char>, record: Record, n: nat) -> Seq<char> {
    "invalid length "@ + crate::text::decimal(n) + ", expected "@ + record.shape + place(
        s,
        before_space(s, s.len() as int),
    )
}

/// The values of the fields of a record that a text in JSON says, or the message of
/// the error. In an object every field of the record stands once, among others, and
/// an array holds the values in order.
pub open spec fn says(s: Seq<char>, record: Record) -> Result<Seq<Datum>, Seq<char>> {
    let start = after_space(s, 0, s.len() as int);
    if start < s.len() && s[start] == '{' {
        match with_fields(
            s,
            record.fields,
            start + 1,
            Seq::new(record.fields.len(), |i: int| None::<Datum>),
        ) {
            Err(message) => Err(message),
            Ok(known) => match first_missing(known, 0) {
                Some(j) => Err(
                    "missing field `"@ + record.fields[j].0 + "`"@ + place(
                        s,
                        before_space(s, s.len() as int),
                    ),
                ),
                None => Ok(known.map_values(|d: Option<Datum>| d->Some_0)),
            },
        }
    } else if start < s.len() && s[start] == '[' {
        elements(s, record, start + 1, Seq::empty())
    } else {
        Err("expected "@ + record.shape)
    }
}

/// How many bytes a character takes.
fn char_width(c: char) -> (r: u128)
    ensures
        r == width(c),
{
    if c <= '\u{7f}' {
        1
    } else if c <= '\u{7ff}' {
        2
    } else if c <= '\u{ffff}' {
        3
    } else {
        4
    }
}

fn blanks(c: char) -> (r: &'static str)
    ensures
        r@ == if c == '\n' {
            seq!['\n']
        } else {
            Seq::new(width(c), |i: int| ' ')
        },
{
    proof {
        reveal_strlit("\n");
        reveal_strlit(" ");
        reveal_strlit("  ");
        reveal_strlit("   ");
        reveal_strlit("    ");
    }
    let n: u128 = char_width(c);
    let r = if c == '\n' {
        "\n"
    } else if n == 1 {
        " "
    } else if n == 2 {
        "  "
    } else if n == 3 {
        "   "
    } else {
        "    "
    };
    assert(r@ =~= if c == '\n' {
        seq!['\n']
    } else {
        Seq::new(width(c), |i: int| ' ')
    });
    r
}

/// A part of a text, behind blanks that keep its place.
fn part_in_place(s: &str, chars: &Vec<char>, from: usize, to: usize) -> (r: String)
    requires
        chars@ == s@,
        from <= to <= s@.len(),
    ensures
        r@ == in_place(s@, from as int, to as int),
{
    let mut r: String = String::new();
    let mut i: usize = 0;
    assert(r@ =~= blanked(s@.take(0)));
    while i < from
        invariant
            chars@ == s@,
            i <= from <= s@.len(),
            r@ == blanked(s@.take(i as int)),
        decreases from - i,
    {
        r.append(blanks(chars[i]));
        proof {
            assert(s@.take(i + 1).drop_last() =~= s@.take(i as int));
        }
        i = i + 1;
    }
    r.append(s.substring_char(from, to));
    r
}

/// What a message says of a place in a text.
fn format_place(chars: &Vec<char>, i: usize) -> (r: String)
    requires
        i <= chars@.len(),
    ensures
        r@ == place(chars@, i as int),
{
    let mut lines: u128 = 1;
    let mut bytes: u128 = 0;
    let mut k: usize = 0;
    while k < i
        invariant
            k <= i <= chars@.len(),
            lines == line(chars@, k as int),
            lines <= 1 + k,
            bytes == column(chars@, k as int),
            bytes <= 4 * k,
        decreases i - k,
    {
        if chars[k] == '\n' {
            lines = lines + 1;
            bytes = 0;
        } else {
            bytes = bytes + char_width(chars[k]);
        }
        k = k + 1;
    }
    let head = join3(" at line ", format_u128(lines).as_str(), " column ");
    join2(head.as_str(), format_u128(bytes).as_str())
}

/// Where a part of JSON ends.
fn find_part_end(chars: &Vec<char>, from: usize) -> (r: usize)
    requires
        from <= chars@.len(),
    ensures
        r == part_end(chars@, from as int, 0, false),
        from <= r <= chars@.len(),
{
    let n: usize = chars.len();
    let mut i: usize = from;
    let mut depth: usize = 0;
    let mut quoted: bool = false;
    while i < n
        invariant
            from <= i <= n == chars@.len(),
            depth <= i - from,
            part_end(chars@, from as int, 0, false) == part_end(
                chars@,
                i as int,
                depth as nat,
                quoted,
            ),
        decreases n - i,
    {
        let c = chars[i];
        if quoted {
            if c == '\\' {
                if i + 1 >= n {
                    assert(part_end(chars@, i + 2, depth as nat, true) == n);
                    return n;
                }
                i = i + 2;
            } else {
                quoted = c != '"';
                i = i + 1;
            }
        } else if c == '"' {
            quoted = true;
            i = i + 1;
        } else if c == '[' || c == '{' {
            depth = depth + 1;
            i = i + 1;
        } else if c == ']' || c == '}' {
            if depth == 0 {
                return i;
            }
            depth = depth - 1;
            i = i + 1;
        } else if (c == ',' || c == ':') && depth == 0 {
            return i;
        } else {
            i = i + 1;
        }
    }
    n
}

/// A value of a kind that a part of a text says.
fn parse_value(kind: Kind, part: &str) -> (r: Result<Value, String>)
    ensures
        match read_datum(kind, part@) {
            Ok(d) => r is Ok && r->Ok_0@ == d,
            Err(message) => r is Err && r->Err_0@ == message,
        },
{
    match kind {
        Kind::Text => match parse_string(part) {
            Ok(s) => Ok(Value::Text(s)),
            Err(message) => Err(message),
        },
        Kind::Number => match parse_number(part) {
            Ok(n) => Ok(Value::Number(n)),
            Err(message) => Err(message),
        },
    }
}

impl Schema {
    /// The place of the field with a name.
    fn find_field(&self, name: &str) -> (r: Option<usize>)
        ensures
            match r {
                Some(j) => field_index(self@.fields, name@, 0) == Some(j as int) && j
                    < self.fields@.len() && self.fields@[j as int].0@ == name@,
                None => field_index(self@.fields, name@, 0) is None,
            },
    {
        let mut j: usize = 0;
        while j < self.fields.len()
            invariant
                j <= self.fields@.len(),
                field_index(self@.fields, name@, 0) == field_index(self@.fields, name@, j as int),
            decreases self.fields@.len() - j,
        {
            assert(self@.fields[j as int].0 == self.fields@[j as int].0@);
            if same(self.fields[j].0, name) {
                return Some(j);
            }
            j = j + 1;
        }
        None
    }
}

/// What is known of the fields of a record.
spec fn known_data(known: Seq<Option<Value>>) -> Seq<Option<Datum>> {
    known.map_values(
        |v: Option<Value>|
            match v {
                Some(v) => Some(v@),
                None => None,
            },
    )
}

/// Reads one field of an object.
fn read_field(
    s: &str,
    chars: &Vec<char>,
    schema: &Schema,
    from: usize,
    colon: usize,
    end: usize,
    known: &mut Vec<Option<Value>>,
) -> (r: Result<(), String>)
    requires
        chars@ == s@,
        from <= colon < end <= s@.len(),
        old(known)@.len() == schema.fields@.len(),
    ensures
        final(known)@.len() == schema.fields@.len(),
        match with_field(
            s@,
            schema@.fields,
            from as int,
            colon as int,
            end as int,
            known_data(old(known)@),
        ) {
            Ok(more) => r is Ok && known_data(final(known)@) == more,
            Err(message) => r is Err && r->Err_0@ == message,
        },
{
    let name = match parse_string(part_in_place(s, chars, from, colon).as_str()) {
        Ok(name) => name,
        Err(message) => {
            return Err(message);
        },
    };
    match schema.find_field(name.as_str()) {
        None => Ok(()),
        Some(j) => {
            let (field, kind): (&'static str, Kind) = schema.fields[j];
            assert(known_data(known@)[j as int] is Some == known@[j as int] is Some);
            if known[j].is_some() {
                let head = join3("duplicate field `", field, "`");
                return Err(join2(head.as_str(), format_place(chars, colon).as_str()));
            }
            match parse_value(kind, part_in_place(s, chars, colon + 1, end).as_str()) {
                Ok(value) => {
                    let ghost before = known@;
                    known.set(j, Some(value));
                    assert(known_data(known@) =~= known_data(before).update(
                        j as int,
                        Some(value@),
                    ));
                    Ok(())
                },
                Err(message) => Err(message),
            }
        },
    }
}

/// Reads the values of the fields of a record from an object.
fn read_object(s: &str, chars: &Vec<char>, schema: &Schema, start: usize) -> (r: Result<
    Vec<Value>,
    String,
>)
    requires
        chars@ == s@,
        start < s@.len(),
        start == after_space(s@, 0, s@.len() as int),
        s@[start as int] == '{',
    ensures
        match says(s@, schema@) {
            Ok(read) => r is Ok && data(r->Ok_0@) == read,
            Err(message) => r is Err && r->Err_0@ == message,
        },
{
    let n: usize = chars.len();
    let width: usize = schema.fields.len();
    let mut known: Vec<Option<Value>> = Vec::new();
    while known.len() < width
        invariant
            known@.len() <= width,
            forall|j: int| 0 <= j < known@.len() ==> #[trigger] known@[j] is None,
        decreases width - known@.len(),
    {
        known.push(None);
    }
    let ghost nothing = Seq::new(schema@.fields.len(), |i: int| None::<Datum>);
    assert(known_data(known@) =~= nothing);
    let mut from: usize = start + 1;
    let mut more: bool = true;
    while more
        invariant
            chars@ == s@,
            n == s@.len(),
            1 <= from <= n,
            known@.len() == width == schema.fields@.len() == schema@.fields.len(),
            more ==> with_fields(s@, schema@.fields, start + 1, nothing) == with_fields(
                s@,
                schema@.fields,
                from as int,
                known_data(known@),
            ),
            !more ==> with_fields(s@, schema@.fields, start + 1, nothing) == Ok::<
                Seq<Option<Datum>>,
                Seq<char>,
            >(known_data(known@)),
            start < n,
            start == after_space(s@, 0, s@.len() as int),
            s@[start as int] == '{',
            nothing == Seq::new(schema@.fields.len(), |i: int| None::<Datum>),
        decreases n - from + if more {
            1int
        } else {
            0
        },
    {
        let colon: usize = find_part_end(chars, from);
        if colon >= n || chars[colon] != ':' {
            more = false;
        } else {
            let end: usize = find_part_end(chars, colon + 1);
            match read_field(s, chars, schema, from, colon, end, &mut known) {
                Ok(()) => {
                    if end < n && chars[end] == ',' {
                        from = end + 1;
                    } else {
                        more = false;
                    }
                },
                Err(message) => {
                    return Err(message);
                },
            }
        }
    }
    let ghost all = known_data(known@);
    let mut read: Vec<Value> = Vec::new();
    let mut j: usize = 0;
    while j < width
        invariant
            chars@ == s@,
            j <= width == schema.fields@.len() == schema@.fields.len() == all.len(),
            known@.len() == width - j,
            known_data(known@) == all.skip(j as int),
            read@.len() == j,
            forall|k: int| 0 <= k < j ==> all[k] == Some((#[trigger] read@[k])@),
            first_missing(all, 0) == first_missing(all, j as int),
            with_fields(s@, schema@.fields, start + 1, nothing) == Ok::<Seq<Option<Datum>>, Seq<char>>(all),
            n == s@.len(),
            start < n,
            start == after_space(s@, 0, s@.len() as int),
            s@[start as int] == '{',
            nothing == Seq::new(schema@.fields.len(), |i: int| None::<Datum>),
        decreases width - j,
    {
        let ghost before = known@;
        let first = known.remove(0);
        proof {
            assert(known_data(before)[0] == all[j as int]);
            assert(known_data(known@) =~= all.skip(j + 1)) by {
                assert forall|k: int| 0 <= k < known@.len() implies known_data(known@)[k]
                    == all.skip(j + 1)[k] by {
                    assert(known_data(before)[k + 1] == all.skip(j as int)[k + 1]);
                }
            }
        }
        match first {
            Some(value) => {
                read.push(value);
            },
            None => {
                assert(schema@.fields[j as int].0 == schema.fields@[j as int].0@);
                let head = join3("missing field `", schema.fields[j].0, "`");
                let last: usize = skip_space_back(chars);
                return Err(join2(head.as_str(), format_place(chars, last).as_str()));
            },
        }
        j = j + 1;
    }
    assert(data(read@) =~= all.map_values(|d: Option<Datum>| d->Some_0));
    Ok(read)
}

/// The first place from one on, and before another, that is no white space.
fn skip_space(chars: &Vec<char>, from: usize, to: usize) -> (r: usize)
    requires
        from <= to <= chars@.len(),
    ensures
        r == after_space(chars@, from as int, to as int),
        from <= r <= to,
{
    let mut i: usize = from;
    while i < to && (chars[i] == ' ' || chars[i] == '\n' || chars[i] == '\t' || chars[i] == '\r')
        invariant
            from <= i <= to <= chars@.len(),
            after_space(chars@, from as int, to as int) == after_space(
                chars@,
                i as int,
                to as int,
            ),
        decreases to - i,
    {
        i = i + 1;
    }
    i
}

/// Where a text ends without the white space at its end.
fn skip_space_back(chars: &Vec<char>) -> (r: usize)
    ensures
        r == before_space(chars@, chars@.len() as int),
        r <= chars@.len(),
{
    let mut i: usize = chars.len();
    while i > 0 && (chars[i - 1] == ' ' || chars[i - 1] == '\n' || chars[i - 1] == '\t' || chars[i
        - 1] == '\r')
        invariant
            i <= chars@.len(),
            before_space(chars@, chars@.len() as int) == before_space(chars@, i as int),
        decreases i,
    {
        i = i - 1;
    }
    i
}

/// What is said of an array with too few elements.
fn format_wrong_length(chars: &Vec<char>, schema: &Schema, n: usize) -> (r: String)
    ensures
        r@ == wrong_length(chars@, schema@, n as nat),
{
    let head = join3("invalid length ", format_u64(n as u64).as_str(), ", expected ");
    join3(head.as_str(), schema.shape, format_place(chars, skip_space_back(chars)).as_str())
}

/// Reads the values of the fields of a record from an array.
fn read_array(s: &str, chars: &Vec<char>, schema: &Schema, start: usize) -> (r: Result<
    Vec<Value>,
    String,
>)
    requires
        chars@ == s@,
        start < s@.len(),
        start == after_space(s@, 0, s@.len() as int),
        s@[start as int] == '[',
    ensures
        match says(s@, schema@) {
            Ok(read) => r is Ok && data(r->Ok_0@) == read,
            Err(message) => r is Err && r->Err_0@ == message,
        },
{
    let n: usize = chars.len();
    let width: usize = schema.fields.len();
    let mut read: Vec<Value> = Vec::new();
    let mut from: usize = start + 1;
    assert(data(read@) =~= Seq::empty());
    loop
        invariant
            chars@ == s@,
            n == s@.len(),
            1 <= from <= n,
            read@.len() <= width == schema.fields@.len() == schema@.fields.len(),
            says(s@, schema@) == elements(s@, schema@, from as int, data(read@)),
        decreases n - from,
    {
        let end: usize = find_part_end(chars, from);
        let follows: bool = end < n && chars[end] == ',';
        let start: usize = skip_space(chars, from, end);
        let count: usize = read.len();
        if count == width {
            let first: usize = if start < n {
                start + 1
            } else {
                start
            };
            return Err(join2("trailing characters", format_place(chars, first).as_str()));
        }
        if !follows && start >= end {
            return Err(format_wrong_length(chars, schema, count));
        }
        assert(schema@.fields[count as int].1 == schema.fields@[count as int].1);
        match parse_value(schema.fields[count].1, part_in_place(s, chars, from, end).as_str()) {
            Err(message) => {
                return Err(message);
            },
            Ok(value) => {
                assert(data(read@.push(value)) =~= data(read@).push(value@));
                read.push(value);
                if !follows {
                    if count + 1 < width {
                        return Err(format_wrong_length(chars, schema, count + 1));
                    }
                    return Ok(read);
                }
                from = end + 1;
            },
        }
    }
}

/// The values of the fields of a record that a text in JSON says, in order.
pub fn read_record(s: &str, schema: &Schema) -> (r: Result<Vec<Value>, String>)
    ensures
        match says(s@, schema@) {
            Ok(read) => r is Ok && data(r->Ok_0@) == read,
            Err(message) => r is Err && r->Err_0@ == message,
        },
{
    let chars = to_chars(s);
    let start: usize = skip_space(&chars, 0, chars.len());
    if start < chars.len() && chars[start] == '{' {
        read_object(s, &chars, schema, start)
    } else if start < chars.len() && chars[start] == '[' {
        read_array(s, &chars, schema, start)
    } else {
        Err(join2("expected ", schema.shape))
    }
}

proof fn blanked_is_blank(s: Seq<char>)
    ensures
        is_blank(blanked(s)),
    decreases s.len(),
{
    if s.len() > 0 {
        blanked_is_blank(s.drop_last());
    }
}

proof fn through_chars(s: Seq<char>, i: int, t: Seq<char>)
    requires
        0 <= i,
        i + json_chars(t).len() <= s.len(),
        s.subrange(i, i + json_chars(t).len()) == json_chars(t),
    ensures
        part_end(s, i, 0, true) == part_end(s, i + json_chars(t).len(), 0, true),
    decreases t.len(),
{
    if t.len() > 0 {
        let (head, last) = (json_chars(t.drop_last()), json_char(t.last()));
        let whole = json_chars(t);
        assert(s.subrange(i, i + head.len()) =~= head) by {
            assert forall|k: int| 0 <= k < head.len() implies s[i + k] == head[k] by {
                assert(s.subrange(i, i + whole.len())[k] == whole[k]);
            }
        }
        through_chars(s, i, t.drop_last());
        let at = i + head.len();
        assert forall|k: int| 0 <= k < last.len() implies s[at + k] == last[k] by {
            assert(s.subrange(i, i + whole.len())[head.len() + k] == whole[head.len() + k]);
        }
        assert(s[at] == last[0]);
        if last.len() == 2 {
            assert(part_end(s, at, 0, true) == part_end(s, at + 2, 0, true));
        } else if last.len() == 6 {
            assert(s[at + 2] == last[2] && s[at + 3] == last[3]);
            assert(s[at + 4] == last[4] && s[at + 5] == last[5]);
            assert(part_end(s, at, 0, true) == part_end(s, at + 2, 0, true));
            assert(part_end(s, at + 2, 0, true) == part_end(s, at + 3, 0, true));
            assert(part_end(s, at + 3, 0, true) == part_end(s, at + 4, 0, true));
            assert(part_end(s, at + 4, 0, true) == part_end(s, at + 5, 0, true));
            assert(part_end(s, at + 5, 0, true) == part_end(s, at + 6, 0, true));
        }
    }
}

proof fn through_text(s: Seq<char>, i: int, t: Seq<char>)
    requires
        0 <= i,
        i + json_text(t).len() <= s.len(),
        s.subrange(i, i + json_text(t).len()) == json_text(t),
    ensures
        part_end(s, i, 0, false) == part_end(s, i + json_text(t).len(), 0, false),
{
    let (whole, inner) = (json_text(t), json_chars(t));
    let n = inner.len() as int;
    assert forall|k: int| 0 <= k < whole.len() implies s[i + k] == whole[k] by {
        assert(s.subrange(i, i + whole.len())[k] == whole[k]);
    }
    assert(s[i + 0] == whole[0]);
    assert(s[i + (n + 1)] == whole[n + 1]);
    assert(s.subrange(i + 1, i + 1 + n) =~= inner) by {
        assert forall|k: int| 0 <= k < n implies s[i + 1 + k] == inner[k] by {
            assert(s[i + (k + 1)] == whole[k + 1]);
        }
    }
    through_chars(s, i + 1, t);
}

proof fn through_digits(s: Seq<char>, i: int, to: int)
    requires
        0 <= i <= to <= s.len(),
        forall|k: int| i <= k < to ==> crate::text::is_digit(#[trigger] s[k]),
    ensures
        part_end(s, i, 0, false) == part_end(s, to, 0, false),
    decreases to - i,
{
    if i < to {
        assert(crate::text::is_digit(s[i]));
        through_digits(s, i + 1, to);
    }
}

proof fn through_datum(s: Seq<char>, i: int, d: Datum)
    requires
        0 <= i,
        i + json_datum(d).len() <= s.len(),
        s.subrange(i, i + json_datum(d).len()) == json_datum(d),
    ensures
        part_end(s, i, 0, false) == part_end(s, i + json_datum(d).len(), 0, false),
{
    match d {
        Datum::Text(t) => through_text(s, i, t),
        Datum::Number(n) => {
            let digits = json_datum(d);
            crate::text::number_reads_decimal(n as nat, u64::MAX as nat);
            assert forall|k: int| i <= k < i + digits.len() implies crate::text::is_digit(
                #[trigger] s[k],
            ) by {
                assert(s.subrange(i, i + digits.len())[k - i] == digits[k - i]);
                assert(crate::text::is_digit(digits[k - i]));
            }
            through_digits(s, i, i + digits.len());
        },
    }
}

proof fn index_of_own(fields: Seq<(Seq<char>, Kind)>, j: int, from: int)
    requires
        0 <= from <= j < fields.len(),
        forall|a: int, b: int|
            0 <= a < b < fields.len() ==> (#[trigger] fields[a]).0 != (#[trigger] fields[b]).0,
    ensures
        field_index(fields, fields[j].0, from) == Some(j),
    decreases j - from,
{
    if from < j {
        index_of_own(fields, j, from + 1);
    }
}

/// A record and named values have the same fields, each name once.
pub open spec fn matches_record(record: Record, fields: Seq<(Seq<char>, Datum)>) -> bool {
    &&& record.fields.len() == fields.len()
    &&& forall|i: int|
        0 <= i < fields.len() ==> #[trigger] record.fields[i] == (
            fields[i].0,
            fields[i].1.kind(),
        )
    &&& forall|a: int, b: int|
        0 <= a < b < fields.len() ==> (#[trigger] fields[a]).0 != (#[trigger] fields[b]).0
}

spec fn known_before(fields: Seq<(Seq<char>, Datum)>, j: int) -> Seq<Option<Datum>> {
    Seq::new(
        fields.len(),
        |i: int|
            if i < j {
                Some(fields[i].1)
            } else {
                None
            },
    )
}

spec fn from_field(fields: Seq<(Seq<char>, Datum)>, j: int) -> Seq<char> {
    json_text(fields[j].0) + seq![':'] + json_datum(fields[j].1) + fields_text(fields, j + 1)
}

proof fn fields_read_back(
    s: Seq<char>,
    record: Record,
    fields: Seq<(Seq<char>, Datum)>,
    from: int,
    j: int,
)
    requires
        0 <= j < fields.len(),
        matches_record(record, fields),
        read_back(fields),
        0 <= from <= s.len(),
        s.skip(from) == from_field(fields, j),
    ensures
        with_fields(s, record.fields, from, known_before(fields, j)) == Ok::<
            Seq<Option<Datum>>,
            Seq<char>,
        >(known_before(fields, fields.len() as int)),
    decreases fields.len() - j,
{
    let (name, d) = fields[j];
    let (key, val, tail) = (json_text(name), json_datum(d), fields_text(fields, j + 1));
    let all = from_field(fields, j);
    let colon = from + key.len();
    let end = colon + 1 + val.len();
    assert(all.len() == s.len() - from);
    assert forall|k: int| 0 <= k < all.len() implies s[from + k] == all[k] by {
        assert(s.skip(from)[k] == all[k]);
    }
    assert(s.subrange(from, colon) =~= key) by {
        assert forall|k: int| 0 <= k < key.len() implies s[from + k] == key[k] by {
            assert(s[from + k] == all[k]);
        }
    }
    through_text(s, from, name);
    assert(s[from + key.len()] == all[key.len() as int]);
    assert(s[colon] == ':');
    assert(part_end(s, from, 0, false) == colon);
    assert(s.subrange(colon + 1, end) =~= val) by {
        assert forall|k: int| 0 <= k < val.len() implies s[colon + 1 + k] == val[k] by {
            assert(s[from + (key.len() + 1 + k)] == all[key.len() + 1 + k]);
        }
    }
    through_datum(s, colon + 1, d);
    assert(tail.len() > 0);
    assert(s[from + (key.len() + 1 + val.len())] == all[(key.len() + 1 + val.len()) as int]);
    assert(s[end] == tail[0]);
    assert(part_end(s, colon + 1, 0, false) == end);
    blanked_is_blank(s.take(from));
    blanked_is_blank(s.take(colon + 1));
    assert(record.fields[j] == (fields[j].0, fields[j].1.kind()));
    assert forall|a: int, b: int| 0 <= a < b < record.fields.len() implies (
    #[trigger] record.fields[a]).0 != (#[trigger] record.fields[b]).0 by {
        assert(fields[a].0 != fields[b].0);
    }
    index_of_own(record.fields, j, 0);
    let known = known_before(fields, j);
    assert(known.update(j, Some(d)) =~= known_before(fields, j + 1));
    if j + 1 < fields.len() {
        assert(s.skip(end + 1) =~= from_field(fields, j + 1)) by {
            let rest = from_field(fields, j + 1);
            assert(tail =~= seq![','] + rest);
            assert forall|k: int| 0 <= k < rest.len() implies s[end + 1 + k] == rest[k] by {
                assert(s[from + (key.len() + 1 + val.len() + 1 + k)] == all[key.len() + 1
                    + val.len() + 1 + k]);
                assert(tail[1 + k] == rest[k]);
            }
        }
        fields_read_back(s, record, fields, end + 1, j + 1);
    }
}

proof fn none_missing(fields: Seq<(Seq<char>, Datum)>, from: int)
    requires
        0 <= from <= fields.len(),
    ensures
        first_missing(known_before(fields, fields.len() as int), from) is None,
    decreases fields.len() - from,
{
    if from < fields.len() {
        none_missing(fields, from + 1);
    }
}

/// An object that was written of named values says those values.
pub proof fn written_reads_back(record: Record, fields: Seq<(Seq<char>, Datum)>)
    requires
        fields.len() > 0,
        matches_record(record, fields),
        read_back(fields),
    ensures
        says(object_text(fields), record) == Ok::<Seq<Datum>, Seq<char>>(
            fields.map_values(|f: (Seq<char>, Datum)| f.1),
        ),
{
    let s = object_text(fields);
    assert(s.skip(1) =~= from_field(fields, 0));
    let nothing = Seq::new(record.fields.len(), |i: int| None::<Datum>);
    assert(nothing =~= known_before(fields, 0));
    fields_read_back(s, record, fields, 1, 0);
    none_missing(fields, 0);
    let known = known_before(fields, fields.len() as int);
    assert(known.map_values(|d: Option<Datum>| d->Some_0) =~= fields.map_values(
        |f: (Seq<char>, Datum)| f.1,
    ));
}

/// An object that was written stands in braces.
pub proof fn written_in_braces(fields: Seq<(Seq<char>, Datum)>)
    ensures
        object_text(fields)[0] == '{',
        object_text(fields).last() == '}',
        object_text(fields).len() >= 2,
{
    fields_end(fields, 0);
}

proof fn fields_end(fields: Seq<(Seq<char>, Datum)>, from: int)
    ensures
        fields_text(fields, from).len() > 0,
        fields_text(fields, from).last() == '}',
    decreases fields.len() - from,
{
    if 0 <= from < fields.len() {
        fields_end(fields, from + 1);
    }
}

/// What is said of a record is a value for each of its fields, of the kind of the
/// field.
pub proof fn as_many_values(s: Seq<char>, record: Record)
    requires
        record.fields.len() > 0,
    ensures
        says(s, record) matches Ok(read) ==> {
            &&& read.len() == record.fields.len()
            &&& forall|i: int|
                0 <= i < read.len() ==> (#[trigger] read[i]).kind() == record.fields[i].1
        },
{
    let start = after_space(s, 0, s.len() as int);
    after_space_bound(s, 0, s.len() as int);
    if start < s.len() && s[start] == '{' {
        let nothing = Seq::new(record.fields.len(), |i: int| None::<Datum>);
        known_of_kind(s, record.fields, start + 1, nothing);
        if let Ok(known) = with_fields(s, record.fields, start + 1, nothing) {
            if first_missing(known, 0) is None {
                all_known(known, 0);
            }
        }
    } else if start < s.len() && s[start] == '[' {
        elements_of_kind(s, record, start + 1, Seq::empty());
    }
}

proof fn after_space_bound(s: Seq<char>, from: int, to: int)
    requires
        from <= to,
    ensures
        from <= after_space(s, from, to) <= to,
    decreases to - from,
{
    if from < to {
        after_space_bound(s, from + 1, to);
    }
}

proof fn all_known(known: Seq<Option<Datum>>, from: int)
    requires
        0 <= from <= known.len(),
        first_missing(known, from) is None,
    ensures
        forall|i: int| from <= i < known.len() ==> #[trigger] known[i] is Some,
    decreases known.len() - from,
{
    if from < known.len() {
        all_known(known, from + 1);
    }
}

spec fn of_kind(fields: Seq<(Seq<char>, Kind)>, known: Seq<Option<Datum>>) -> bool {
    &&& known.len() == fields.len()
    &&& forall|i: int|
        0 <= i < known.len() && (#[trigger] known[i]) is Some ==> known[i]->Some_0.kind()
            == fields[i].1
}

proof fn index_in_bounds(fields: Seq<(Seq<char>, Kind)>, name: Seq<char>, from: int)
    ensures
        field_index(fields, name, from) matches Some(j) ==> 0 <= j < fields.len(),
    decreases fields.len() - from,
{
    if 0 <= from < fields.len() {
        index_in_bounds(fields, name, from + 1);
    }
}

proof fn known_of_kind(
    s: Seq<char>,
    fields: Seq<(Seq<char>, Kind)>,
    from: int,
    known: Seq<Option<Datum>>,
)
    requires
        of_kind(fields, known),
    ensures
        with_fields(s, fields, from, known) matches Ok(more) ==> of_kind(fields, more),
    decreases s.len() - from,
{
    let colon = part_end(s, from, 0, false);
    let end = part_end(s, colon + 1, 0, false);
    part_end_bound(s, from, 0, false);
    part_end_bound(s, colon + 1, 0, false);
    if !(from < 0 || colon >= s.len() || s[colon] != ':') {
        if let Ok(name) = json_string(in_place(s, from, colon)) {
            index_in_bounds(fields, name, 0);
        }
        if let Ok(more) = with_field(s, fields, from, colon, end, known) {
            assert(of_kind(fields, more));
            if end < s.len() && s[end] == ',' {
                known_of_kind(s, fields, end + 1, more);
            }
        }
    }
}

proof fn elements_of_kind(s: Seq<char>, record: Record, from: int, read: Seq<Datum>)
    requires
        0 <= from <= s.len(),
        read.len() <= record.fields.len(),
        forall|i: int|
            0 <= i < read.len() ==> (#[trigger] read[i]).kind() == record.fields[i].1,
    ensures
        elements(s, record, from, read) matches Ok(all) ==> {
            &&& all.len() == record.fields.len()
            &&& forall|i: int|
                0 <= i < all.len() ==> (#[trigger] all[i]).kind() == record.fields[i].1
        },
    decreases s.len() - from,
{
    let end = part_end(s, from, 0, false);
    part_end_bound(s, from, 0, false);
    if read.len() < record.fields.len() && end < s.len() && s[end] == ',' {
        if let Ok(d) = read_datum(record.fields[read.len() as int].1, in_place(s, from, end)) {
            elements_of_kind(s, record, end + 1, read.push(d));
        }
    }
}

/// An object that was written of named values stands on one line.
pub proof fn written_on_one_line(fields: Seq<(Seq<char>, Datum)>)
    ensures
        !object_text(fields).contains('\n'),
{
    fields_on_one_line(fields, 0);
}

proof fn fields_on_one_line(fields: Seq<(Seq<char>, Datum)>, from: int)
    ensures
        !fields_text(fields, from).contains('\n'),
    decreases fields.len() - from,
{
    if 0 <= from < fields.len() {
        let (name, d) = fields[from];
        fields_on_one_line(fields, from + 1);
        text_on_one_line(name);
        match d {
            Datum::Text(t) => text_on_one_line(t),
            Datum::Number(n) => {
                crate::text::number_reads_decimal(n as nat, u64::MAX as nat);
                let digits = json_datum(d);
                assert forall|i: int| 0 <= i < digits.len() implies digits[i] != '\n' by {
                    assert(crate::text::is_digit(digits[i]));
                }
            },
        }
        let comma = if from == 0 {
            Seq::<char>::empty()
        } else {
            seq![',']
        };
        let tail = fields_text(fields, from + 1);
        one_line_joined(comma, json_text(name));
        one_line_joined(comma + json_text(name), seq![':']);
        one_line_joined(comma + json_text(name) + seq![':'], json_datum(d));
        one_line_joined(comma + json_text(name) + seq![':'] + json_datum(d), tail);
    }
}

proof fn one_line_joined(a: Seq<char>, b: Seq<char>)
    requires
        !a.contains('\n'),
        !b.contains('\n'),
    ensures
        !(a + b).contains('\n'),
{
    assert forall|i: int| 0 <= i < (a + b).len() implies (a + b)[i] != '\n' by {
        if i < a.len() {
            assert(a.contains(a[i]));
        } else {
            assert((a + b)[i] == b[i - a.len()]);
            assert(b.contains(b[i - a.len()]));
        }
    }
}

proof fn text_on_one_line(t: Seq<char>)
    ensures
        !json_text(t).contains('\n'),
{
    chars_on_one_line(t);
    one_line_joined(seq!['"'], json_chars(t));
    one_line_joined(seq!['"'] + json_chars(t), seq!['"']);
}

proof fn chars_on_one_line(t: Seq<char>)
    ensures
        !json_chars(t).contains('\n'),
    decreases t.len(),
{
    if t.len() > 0 {
        chars_on_one_line(t.drop_last());
        assert(forall|i: int| 0 <= i < json_char(t.last()).len() ==> json_char(t.last())[i] != '\n');
        one_line_joined(json_chars(t.drop_last()), json_char(t.last()));
    }
}

/// A field is found under its name at the first place at which it stands, and is
/// unknown if and only if it stands nowhere.
pub proof fn fields_are_found_by_name(
    fields: Seq<(Seq<char>, Kind)>,
    name: Seq<char>,
    from: int,
)
    requires
        0 <= from <= fields.len(),
    ensures
        match field_index(fields, name, from) {
            Some(i) => from <= i < fields.len() && fields[i].0 == name && forall|j: int|
                from <= j < i ==> (#[trigger] fields[j]).0 != name,
            None => forall|j: int| from <= j < fields.len() ==> (#[trigger] fields[j]).0 != name,
        },
    decreases fields.len() - from,
{
    if from < fields.len() && fields[from].0 != name {
        fields_are_found_by_name(fields, name, from + 1);
    }
}

/// A field that is not asked for changes nothing, one that was read already is
/// refused, and any other is read and known from then on, with the others as they
/// were.
pub proof fn fields_are_read_once(
    s: Seq<char>,
    fields: Seq<(Seq<char>, Kind)>,
    from: int,
    colon: int,
    end: int,
    known: Seq<Option<Datum>>,
    name: Seq<char>,
    j: int,
)
    requires
        json_string(in_place(s, from, colon)) == Ok::<Seq<char>, Seq<char>>(name),
        known.len() == fields.len(),
        forall|a: int, b: int|
            0 <= a < b < fields.len() ==> (#[trigger] fields[a]).0 != (#[trigger] fields[b]).0,
    ensures
        (forall|k: int| 0 <= k < fields.len() ==> (#[trigger] fields[k]).0 != name) ==> with_field(
            s,
            fields,
            from,
            colon,
            end,
            known,
        ) == Ok::<Seq<Option<Datum>>, Seq<char>>(known),
        0 <= j < fields.len() && fields[j].0 == name ==> {
            let read = read_datum(fields[j].1, in_place(s, colon + 1, end));
            let next = with_field(s, fields, from, colon, end, known);
            &&& known[j] is Some ==> next is Err
            &&& known[j] is None ==> (next is Ok <==> read is Ok)
            &&& next matches Ok(more) ==> {
                &&& more.len() == known.len()
                &&& more[j] is Some && read is Ok && more[j]->Some_0 == read->Ok_0
                &&& forall|k: int|
                    0 <= k < known.len() && k != j ==> #[trigger] more[k] == known[k]
            }
        },
{
    fields_are_found_by_name(fields, name, 0);
    if 0 <= j < fields.len() && fields[j].0 == name {
        match field_index(fields, name, 0) {
            Some(i) => {
                if i < j {
                    assert(fields[i].0 != fields[j].0);
                } else if j < i {
                    assert(fields[j].0 != fields[i].0);
                }
            },
            None => {},
        }
    }
}

/// What is missing is the first field that is not known, and nothing is missing if
/// and only if all are known.
pub proof fn missing_fields_are_found(known: Seq<Option<Datum>>, from: int)
    requires
        0 <= from <= known.len(),
    ensures
        match first_missing(known, from) {
            Some(i) => from <= i < known.len() && known[i] is None && forall|j: int|
                from <= j < i ==> (#[trigger] known[j]) is Some,
            None => forall|j: int| from <= j < known.len() ==> (#[trigger] known[j]) is Some,
        },
    decreases known.len() - from,
{
    if from < known.len() && known[from] is Some {
        missing_fields_are_found(known, from + 1);
    }
}

/// Text that is blanked out stands in the same line and column: whatever follows it
/// is told at its own place.
pub proof fn blanks_keep_the_place(s: Seq<char>)
    ensures
        is_blank(blanked(s)),
        line(blanked(s), blanked(s).len() as int) == line(s, s.len() as int),
        column(blanked(s), blanked(s).len() as int) == column(s, s.len() as int),
    decreases s.len(),
{
    if s.len() > 0 {
        let rest = s.drop_last();
        blanks_keep_the_place(rest);
        same_place(rest, s, rest.len() as int);
        let (before, all) = (blanked(rest), blanked(s));
        same_place(before, all, before.len() as int);
        if s.last() == '\n' {
            assert(all[before.len() as int] == '\n');
            assert(all.len() == before.len() + 1);
            reveal_with_fuel(line, 2);
            reveal_with_fuel(column, 2);
        } else {
            blanks_move_on(all, before.len() as int, all.len() as int);
        }
    }
}

proof fn same_place(a: Seq<char>, b: Seq<char>, n: int)
    requires
        0 <= n <= a.len(),
        n <= b.len(),
        forall|i: int| 0 <= i < n ==> a[i] == b[i],
    ensures
        line(a, n) == line(b, n),
        column(a, n) == column(b, n),
    decreases n,
{
    if n > 0 {
        same_place(a, b, n - 1);
    }
}

proof fn blanks_move_on(s: Seq<char>, from: int, to: int)
    requires
        0 <= from <= to <= s.len(),
        forall|i: int| from <= i < to ==> s[i] == ' ',
    ensures
        line(s, to) == line(s, from),
        column(s, to) == column(s, from) + (to - from),
    decreases to - from,
{
    if from < to {
        blanks_move_on(s, from, to - 1);
        assert(width(' ') == 1);
    }
}

/// A text begins in its first line. Each line break begins another one, in which
/// the columns count from the break on, by the bytes of what stands there.
pub proof fn places_count_lines_and_bytes(s: Seq<char>, i: int)
    requires
        0 <= i < s.len(),
    ensures
        line(s, 0) == 1 && column(s, 0) == 0,
        s[i] == '\n' ==> line(s, i + 1) == line(s, i) + 1 && column(s, i + 1) == 0,
        s[i] != '\n' ==> line(s, i + 1) == line(s, i),
        s[i] != '\n' && s[i] <= '\u{7f}' ==> column(s, i + 1) == column(s, i) + 1,
        '\u{80}' <= s[i] && s[i] <= '\u{7ff}' ==> column(s, i + 1) == column(s, i) + 2,
        '\u{800}' <= s[i] && s[i] <= '\u{ffff}' ==> column(s, i + 1) == column(s, i) + 3,
        '\u{10000}' <= s[i] ==> column(s, i + 1) == column(s, i) + 4,
{
}

/// White space is passed over up to the first character that is none.
pub proof fn white_space_is_passed_over(s: Seq<char>, from: int, to: int)
    requires
        0 <= from <= to <= s.len(),
    ensures
        ({
            let n = after_space(s, from, to);
            &&& from <= n <= to
            &&& forall|i: int|
                from <= i < n ==> #[trigger] s[i] == ' ' || s[i] == '\n' || s[i] == '\t' || s[i]
                    == '\r'
            &&& n < to ==> s[n] != ' ' && s[n] != '\n' && s[n] != '\t' && s[n] != '\r'
        }),
        ({
            let n = before_space(s, to);
            &&& 0 <= n <= to
            &&& forall|i: int|
                n <= i < to ==> #[trigger] s[i] == ' ' || s[i] == '\n' || s[i] == '\t' || s[i]
                    == '\r'
            &&& n > 0 ==> s[n - 1] != ' ' && s[n - 1] != '\n' && s[n - 1] != '\t' && s[n - 1]
                != '\r'
        }),
    decreases to - from, to,
{
    if from < to && is_json_space(s[from]) {
        white_space_is_passed_over(s, from + 1, to);
    } else {
        no_space_behind(s, to);
    }
}

proof fn no_space_behind(s: Seq<char>, to: int)
    requires
        0 <= to <= s.len(),
    ensures
        ({
            let n = before_space(s, to);
            &&& 0 <= n <= to
            &&& forall|i: int|
                n <= i < to ==> #[trigger] s[i] == ' ' || s[i] == '\n' || s[i] == '\t' || s[i]
                    == '\r'
            &&& n > 0 ==> s[n - 1] != ' ' && s[n - 1] != '\n' && s[n - 1] != '\t' && s[n - 1]
                != '\r'
        }),
    decreases to,
{
    if to > 0 && is_json_space(s[to - 1]) {
        no_space_behind(s, to - 1);
    }
}

/// The values from one on as they stand in an array.
pub open spec fn values_text(values: Seq<Datum>, from: int) -> Seq<char>
    decreases values.len() - from,
{
    if from < 0 || from >= values.len() {
        seq![']']
    } else {
        (if from == 0 {
            Seq::<char>::empty()
        } else {
            seq![',']
        }) + json_datum(values[from]) + values_text(values, from + 1)
    }
}

/// An array says its values in order if it has as many as the record has fields,
/// and nothing if it has more or fewer; of too few it is told how many they are.
pub proof fn arrays_say_their_values(
    record: Record,
    fields: Seq<(Seq<char>, Datum)>,
    values: Seq<Datum>,
)
    requires
        values.len() > 0,
        values.len() == fields.len(),
        record.fields.len() > 0,
        read_back(fields),
        forall|i: int| 0 <= i < fields.len() ==> (#[trigger] fields[i]).1 == values[i],
        forall|i: int|
            0 <= i < values.len() && i < record.fields.len() ==> (#[trigger] record.fields[i]).1
                == values[i].kind(),
    ensures
        ({
            let said = says(seq!['['] + values_text(values, 0), record);
            &&& values.len() == record.fields.len() ==> said == Ok::<Seq<Datum>, Seq<char>>(values)
            &&& values.len() != record.fields.len() ==> said is Err
            &&& values.len() < record.fields.len() ==> said->Err_0 == "invalid length "@
                + crate::text::decimal(values.len()) + ", expected "@ + record.shape + place(
                seq!['['] + values_text(values, 0),
                before_space(
                    seq!['['] + values_text(values, 0),
                    (seq!['['] + values_text(values, 0)).len() as int,
                ),
            )
        }),
{
    let s = seq!['['] + values_text(values, 0);
    assert(s.skip(1) =~= from_value(values, 0));
    assert(s[0] == '[');
    assert(values.take(0) =~= Seq::<Datum>::empty());
    values_read_back(s, record, fields, values, 1, 0);
}

spec fn from_value(values: Seq<Datum>, j: int) -> Seq<char> {
    json_datum(values[j]) + values_text(values, j + 1)
}

proof fn values_read_back(
    s: Seq<char>,
    record: Record,
    fields: Seq<(Seq<char>, Datum)>,
    values: Seq<Datum>,
    from: int,
    j: int,
)
    requires
        0 <= j < values.len(),
        j <= record.fields.len(),
        values.len() == fields.len(),
        read_back(fields),
        forall|i: int| 0 <= i < fields.len() ==> (#[trigger] fields[i]).1 == values[i],
        forall|i: int|
            0 <= i < values.len() && i < record.fields.len() ==> (#[trigger] record.fields[i]).1
                == values[i].kind(),
        0 <= from <= s.len(),
        s.skip(from) == from_value(values, j),
    ensures
        ({
            let said = elements(s, record, from, values.take(j));
            &&& values.len() == record.fields.len() ==> said == Ok::<Seq<Datum>, Seq<char>>(values)
            &&& values.len() != record.fields.len() ==> said is Err
            &&& values.len() < record.fields.len() ==> said->Err_0 == wrong_length(
                s,
                record,
                values.len(),
            )
        }),
    decreases values.len() - j,
{
    let d = values[j];
    let (val, tail) = (json_datum(d), values_text(values, j + 1));
    let all = from_value(values, j);
    let end = from + val.len();
    assert(all.len() == s.len() - from);
    assert forall|k: int| 0 <= k < all.len() implies s[from + k] == all[k] by {
        assert(s.skip(from)[k] == all[k]);
    }
    assert(s.subrange(from, end) =~= val) by {
        assert forall|k: int| 0 <= k < val.len() implies s[from + k] == val[k] by {
            assert(s[from + k] == all[k]);
        }
    }
    through_datum(s, from, d);
    assert(tail.len() > 0);
    assert(s[from + val.len()] == all[val.len() as int]);
    assert(s[end] == tail[0]);
    assert(part_end(s, from, 0, false) == end);
    if j < record.fields.len() {
        blanked_is_blank(s.take(from));
        assert(fields[j].1 == d);
        assert(record.fields[j].1 == d.kind());
        assert(read_datum(d.kind(), in_place(s, from, end)) == Ok::<Datum, Seq<char>>(d));
        datum_begins(d);
        assert(s[from + 0] == all[0]);
        assert(after_space(s, from, end) == from);
        assert(values.take(j).push(d) =~= values.take(j + 1));
        if j + 1 < values.len() {
            assert(s.skip(end + 1) =~= from_value(values, j + 1)) by {
                let rest = from_value(values, j + 1);
                assert(tail =~= seq![','] + rest);
                assert forall|k: int| 0 <= k < rest.len() implies s[end + 1 + k] == rest[k] by {
                    assert(s[from + (val.len() + 1 + k)] == all[val.len() + 1 + k]);
                    assert(tail[1 + k] == rest[k]);
                }
            }
            values_read_back(s, record, fields, values, end + 1, j + 1);
        } else {
            assert(values.take(j + 1) =~= values);
        }
    }
}

proof fn datum_begins(d: Datum)
    ensures
        json_datum(d).len() > 0,
        !is_json_space(json_datum(d)[0]),
{
    match d {
        Datum::Text(t) => {},
        Datum::Number(n) => {
            crate::text::number_reads_decimal(n as nat, u64::MAX as nat);
            assert(crate::text::is_digit(json_datum(d)[0]));
        },
    }
}

/// A text that begins with anything but a brace or a bracket, after white space,
/// says nothing of a record.
pub proof fn only_objects_and_arrays_say_something(s: Seq<char>, record: Record, n: int)
    requires
        0 <= n <= s.len(),
        forall|i: int|
            0 <= i < n ==> #[trigger] s[i] == ' ' || s[i] == '\n' || s[i] == '\t' || s[i] == '\r',
        n < s.len() ==> s[n] != ' ' && s[n] != '\n' && s[n] != '\t' && s[n] != '\r' && s[n] != '{'
            && s[n] != '[',
    ensures
        says(s, record) is Err,
{
    white_space_is_passed_over(s, 0, s.len() as int);
    let start = after_space(s, 0, s.len() as int);
    if start < n {
        assert(s[start] == ' ' || s[start] == '\n' || s[start] == '\t' || s[start] == '\r');
    } else if n < start {
        assert(s[n] == ' ' || s[n] == '\n' || s[n] == '\t' || s[n] == '\r');
    }
}

/// A part ends at the first comma, colon or closing bracket after it, but for those
/// in quotes and in brackets of its own.
pub proof fn parts_end_at_delimiters(s: Seq<char>, i: int, q: int, depth: nat)
    requires
        0 <= i < q < s.len(),
    ensures
        ({
            let e = part_end(s, i, 0, false);
            &&& i <= e <= s.len()
            &&& e < s.len() ==> s[e] == ',' || s[e] == ':' || s[e] == ']' || s[e] == '}'
        }),
        (forall|k: int| i <= k < q ==> plain(#[trigger] s[k])) && (s[q] == ',' || s[q] == ':'
            || s[q] == ']' || s[q] == '}') ==> part_end(s, i, 0, false) == q,
        s[i] == '"' && s[q] == '"' && (forall|k: int|
            i < k < q ==> #[trigger] s[k] != '"' && s[k] != '\\') ==> part_end(s, i, depth, false)
            == part_end(s, q + 1, depth, false),
        (s[i] == '[' || s[i] == '{') && (s[q] == ']' || s[q] == '}') && (forall|k: int|
            i < k < q ==> plain(#[trigger] s[k]) || s[k] == ',' || s[k] == ':') ==> part_end(
            s,
            i,
            depth,
            false,
        ) == part_end(s, q + 1, depth, false),
{
    part_end_bound(s, i, 0, false);
    ends_at_delimiter(s, i, 0, false);
    if forall|k: int| i <= k < q ==> plain(#[trigger] s[k]) {
        through_plain(s, i, q, 0);
    }
    if s[i] == '"' && (forall|k: int| i < k < q ==> #[trigger] s[k] != '"' && s[k] != '\\') {
        through_quoted(s, i + 1, q, depth);
    }
    if forall|k: int| i < k < q ==> plain(#[trigger] s[k]) || s[k] == ',' || s[k] == ':' {
        through_nested(s, i + 1, q, depth + 1);
    }
}

/// The character neither quotes nor delimits.
pub open spec fn plain(c: char) -> bool {
    c != '"' && c != '[' && c != ']' && c != '{' && c != '}' && c != ',' && c != ':'
}

proof fn ends_at_delimiter(s: Seq<char>, i: int, depth: nat, quoted: bool)
    ensures
        part_end(s, i, depth, quoted) < s.len() ==> {
            let c = s[part_end(s, i, depth, quoted)];
            c == ',' || c == ':' || c == ']' || c == '}'
        },
    decreases s.len() - i + 1,
{
    if 0 <= i < s.len() {
        ends_at_delimiter(s, i + 1, depth, true);
        ends_at_delimiter(s, i + 1, depth, false);
        ends_at_delimiter(s, i + 2, depth, true);
        ends_at_delimiter(s, i + 1, depth + 1, false);
        if depth > 0 {
            ends_at_delimiter(s, i + 1, (depth - 1) as nat, false);
        }
    }
}

proof fn through_plain(s: Seq<char>, i: int, to: int, depth: nat)
    requires
        0 <= i <= to <= s.len(),
        forall|k: int| i <= k < to ==> plain(#[trigger] s[k]),
    ensures
        part_end(s, i, depth, false) == part_end(s, to, depth, false),
    decreases to - i,
{
    if i < to {
        assert(plain(s[i]));
        through_plain(s, i + 1, to, depth);
    }
}

proof fn through_quoted(s: Seq<char>, i: int, to: int, depth: nat)
    requires
        0 <= i <= to <= s.len(),
        forall|k: int| i <= k < to ==> #[trigger] s[k] != '"' && s[k] != '\\',
    ensures
        part_end(s, i, depth, true) == part_end(s, to, depth, true),
    decreases to - i,
{
    if i < to {
        assert(s[i] != '"' && s[i] != '\\');
        through_quoted(s, i + 1, to, depth);
    }
}

proof fn through_nested(s: Seq<char>, i: int, to: int, depth: nat)
    requires
        0 <= i <= to <= s.len(),
        depth > 0,
        forall|k: int| i <= k < to ==> plain(#[trigger] s[k]) || s[k] == ',' || s[k] == ':',
    ensures
        part_end(s, i, depth, false) == part_end(s, to, depth, false),
    decreases to - i,
{
    if i < to {
        assert(plain(s[i]) || s[i] == ',' || s[i] == ':');
        through_nested(s, i + 1, to, depth);
    }
}

} // verus!
