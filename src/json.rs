//! A JSON value tree: the shape of native platform events and replies, and the
//! interchange form of function metadata.

use vstd::prelude::*;
use vstd::string::StrSliceExecFns;

verus! {

/// A JSON value. Numbers are kept as their decimal text; object members keep
/// their order.
#[derive(Debug)]
pub enum Json {
    Null,
    Bool(bool),
    /// The text of a JSON number, e.g. `200`.
    Number(String),
    Str(String),
    Array(Vec<Json>),
    Object(Vec<(String, Json)>),
}

/// The mathematical value of a [`Json`].
pub ghost enum JsonV {
    Null,
    Bool(bool),
    Number(Seq<char>),
    Str(Seq<char>),
    Array(Seq<JsonV>),
    /// Member keys and member values, in order.
    Object(Seq<Seq<char>>, Seq<JsonV>),
}

impl View for Json {
    type V = JsonV;

    open spec fn view(&self) -> JsonV
        decreases self,
    {
        match self {
            Json::Null => JsonV::Null,
            Json::Bool(b) => JsonV::Bool(*b),
            Json::Number(t) => JsonV::Number(t@),
            Json::Str(s) => JsonV::Str(s@),
            Json::Array(v) => JsonV::Array(
                Seq::new(
                    v@.len(),
                    |i: int|
                        if 0 <= i < v@.len() {
                            v@[i].view()
                        } else {
                            JsonV::Null
                        },
                ),
            ),
            Json::Object(v) => JsonV::Object(
                Seq::new(v@.len(), |i: int| v@[i].0@),
                Seq::new(
                    v@.len(),
                    |i: int|
                        if 0 <= i < v@.len() {
                            v@[i].1.view()
                        } else {
                            JsonV::Null
                        },
                ),
            ),
        }
    }
}

/// The view of an object lists the keys and the views of the values of its
/// members, in order.
pub proof fn lemma_object_view(v: Vec<(String, Json)>)
    ensures
        Json::Object(v)@->Object_0.len() == v@.len(),
        Json::Object(v)@->Object_1.len() == v@.len(),
        forall|i: int| 0 <= i < v@.len() ==> #[trigger] Json::Object(v)@->Object_0[i] == v@[i].0@,
        forall|i: int| 0 <= i < v@.len() ==> #[trigger] Json::Object(v)@->Object_1[i] == v@[i].1@,
{
}

/// The view of an array lists the views of its items, in order.
pub proof fn lemma_array_view(v: Vec<Json>)
    ensures
        Json::Array(v)@->Array_0.len() == v@.len(),
        forall|i: int| 0 <= i < v@.len() ==> #[trigger] Json::Array(v)@->Array_0[i] == v@[i]@,
{
}

/// A hexadecimal digit, in lower case.
pub open spec fn hex_digit(d: u32) -> char {
    "0123456789abcdef"@[d as int]
}

/// How one character stands inside a JSON string literal: the quote, the
/// backslash, backspace, form feed, line feed, carriage return and tab by
/// their two-character escapes; other characters below U+0020 as `\u00XX`;
/// everything else as itself.
pub open spec fn escaped_char(c: char) -> Seq<char> {
    if c == '"' {
        seq!['\\', '"']
    } else if c == '\\' {
        seq!['\\', '\\']
    } else if c == '\u{8}' {
        seq!['\\', 'b']
    } else if c == '\u{c}' {
        seq!['\\', 'f']
    } else if c == '\n' {
        seq!['\\', 'n']
    } else if c == '\r' {
        seq!['\\', 'r']
    } else if c == '\t' {
        seq!['\\', 't']
    } else if (c as u32) < 0x20 {
        seq!['\\', 'u', '0', '0', hex_digit((c as u32) / 16), hex_digit((c as u32) % 16)]
    } else {
        seq![c]
    }
}

/// The characters of `s`, each as it stands inside a JSON string literal.
pub open spec fn escaped(s: Seq<char>) -> Seq<char>
    decreases s.len(),
{
    if s.len() == 0 {
        Seq::empty()
    } else {
        escaped(s.drop_last()) + escaped_char(s.last())
    }
}

/// The JSON string literal for the text `s`: quotes around its escaped
/// characters.
pub open spec fn json_quoted(s: Seq<char>) -> Seq<char> {
    seq!['"'] + escaped(s) + seq!['"']
}

/// Relies on `serde_json::to_string` applied to a `str`: it writes a quote,
/// each character through serde_json's escape table (the rules of
/// [`escaped_char`]), and a closing quote; writing a `str` cannot fail.
#[verifier::external_body]
fn quote_json(s: &str) -> (r: String)
    ensures
        r@ == json_quoted(s@),
{
    match serde_json::to_string(s) {
        Ok(t) => t,
        Err(_) => String::new(),
    }
}

/// Decimal digits of `n`, most significant first, without leading zeros.
pub open spec fn decimal(n: nat) -> Seq<char>
    decreases n,
{
    if n < 10 {
        seq![digit_char(n)]
    } else {
        decimal(n / 10).push(digit_char(n % 10))
    }
}

pub open spec fn digit_char(d: nat) -> char {
    if d == 0 { '0' }
    else if d == 1 { '1' }
    else if d == 2 { '2' }
    else if d == 3 { '3' }
    else if d == 4 { '4' }
    else if d == 5 { '5' }
    else if d == 6 { '6' }
    else if d == 7 { '7' }
    else if d == 8 { '8' }
    else { '9' }
}

fn digit_str(d: u64) -> (r: &'static str)
    requires
        d < 10,
    ensures
        r@ == seq![digit_char(d as nat)],
{
    proof {
        reveal_strlit("0");
        reveal_strlit("1");
        reveal_strlit("2");
        reveal_strlit("3");
        reveal_strlit("4");
        reveal_strlit("5");
        reveal_strlit("6");
        reveal_strlit("7");
        reveal_strlit("8");
        reveal_strlit("9");
    }
    let r = if d == 0 { "0" }
    else if d == 1 { "1" }
    else if d == 2 { "2" }
    else if d == 3 { "3" }
    else if d == 4 { "4" }
    else if d == 5 { "5" }
    else if d == 6 { "6" }
    else if d == 7 { "7" }
    else if d == 8 { "8" }
    else { "9" };
    assert(r@ =~= seq![digit_char(d as nat)]);
    r
}

/// The decimal text of `n`.
pub fn decimal_text(n: u64) -> (r: String)
    ensures
        r@ == decimal(n as nat),
    decreases n,
{
    if n < 10 {
        digit_str(n).to_owned()
    } else {
        let mut r = decimal_text(n / 10);
        r.append(digit_str(n % 10));
        r
    }
}

/// The compact JSON text of `j`.
pub open spec fn json_text(j: JsonV) -> Seq<char>
    decreases j,
{
    match j {
        JsonV::Null => "null"@,
        JsonV::Bool(b) => if b { "true"@ } else { "false"@ },
        JsonV::Number(t) => t,
        JsonV::Str(s) => json_quoted(s),
        JsonV::Array(v) => "["@ + items_text(v, v.len() as int) + "]"@,
        JsonV::Object(ks, vs) => "{"@ + members_text(ks, vs, vs.len() as int) + "}"@,
    }
}

/// The first `n` items of `s`, as JSON text separated by commas.
pub open spec fn items_text(s: Seq<JsonV>, n: int) -> Seq<char>
    decreases s, n,
{
    if n <= 0 || n > s.len() {
        Seq::empty()
    } else if n == 1 {
        json_text(s[0])
    } else {
        items_text(s, n - 1) + ","@ + json_text(s[n - 1])
    }
}

/// The first `n` members, keys `ks` and values `vs`, as JSON `"key":value`
/// text separated by commas.
pub open spec fn members_text(ks: Seq<Seq<char>>, vs: Seq<JsonV>, n: int) -> Seq<char>
    decreases vs, n,
{
    if n <= 0 || n > vs.len() {
        Seq::empty()
    } else if n == 1 {
        json_quoted(ks[0]) + ":"@ + json_text(vs[0])
    } else {
        members_text(ks, vs, n - 1) + ","@ + json_quoted(ks[n - 1]) + ":"@ + json_text(vs[n - 1])
    }
}

/// The position of the first member of `s` under key `k`.
pub open spec fn first_key(s: Seq<Seq<char>>, k: Seq<char>) -> Option<int>
    decreases s.len(),
{
    if s.len() == 0 {
        None
    } else if s[0] == k {
        Some(0)
    } else {
        match first_key(s.drop_first(), k) {
            Some(i) => Some(i + 1),
            None => None,
        }
    }
}

/// What the first position of a key is.
pub proof fn lemma_first_key(s: Seq<Seq<char>>, k: Seq<char>)
    ensures
        match first_key(s, k) {
            Some(i) => 0 <= i < s.len() && s[i] == k && forall|j: int|
                0 <= j < i ==> s[j] != k,
            None => forall|j: int| 0 <= j < s.len() ==> s[j] != k,
        },
    decreases s.len(),
{
    if s.len() > 0 {
        lemma_first_key(s.drop_first(), k);
        if s[0] != k {
            match first_key(s.drop_first(), k) {
                Some(i) => {
                    assert forall|j: int| 0 <= j < i + 1 implies s[j] != k by {
                        if j > 0 {
                            assert(s[j] == s.drop_first()[j - 1]);
                        }
                    }
                },
                None => {
                    assert forall|j: int| 0 <= j < s.len() implies s[j] != k by {
                        if j > 0 {
                            assert(s[j] == s.drop_first()[j - 1]);
                        }
                    }
                },
            }
        }
    }
}

/// The first-position characterisation, as an equation.
pub proof fn lemma_first_key_is(s: Seq<Seq<char>>, k: Seq<char>, i: int)
    requires
        0 <= i < s.len(),
        s[i] == k,
        forall|j: int| 0 <= j < i ==> s[j] != k,
    ensures
        first_key(s, k) == Some(i),
{
    lemma_first_key(s, k);
}

/// A key that no position holds has no first position.
pub proof fn lemma_first_key_none(s: Seq<Seq<char>>, k: Seq<char>)
    requires
        forall|j: int| 0 <= j < s.len() ==> s[j] != k,
    ensures
        first_key(s, k) == None::<int>,
{
    lemma_first_key(s, k);
}

impl Json {
    /// Appends the compact JSON text of `self` to `out`.
    pub fn write_to(&self, out: &mut String)
        ensures
            final(out)@ == old(out)@ + json_text(self@),
        decreases self,
    {
        match self {
            Json::Null => out.append("null"),
            Json::Bool(b) => {
                if *b {
                    out.append("true")
                } else {
                    out.append("false")
                }
            },
            Json::Number(t) => out.append(t.as_str()),
            Json::Str(s) => {
                let q = quote_json(s.as_str());
                out.append(q.as_str());
            },
            Json::Array(v) => {
                let ghost start = out@;
                out.append("[");
                let mut i: usize = 0;
                while i < v.len()
                    invariant
                        i <= v@.len(),
                        out@ == start + "["@ + items_text(self@->Array_0, i as int),
                        *self == Json::Array(*v),
                    decreases v.len() - i,
                {
                    if i > 0 {
                        out.append(",");
                    }
                    proof {
                        assert(decreases_to!(*self => self->Array_0));
                        assert(decreases_to!(*v => v@));
                        assert(decreases_to!(v@ => v@[i as int]));
                    }
                    v[i].write_to(out);
                    proof {
                        assert(self@->Array_0[i as int] == v@[i as int]@);
                        assert(out@ =~= start + "["@ + items_text(self@->Array_0, i + 1));
                    }
                    i = i + 1;
                }
                out.append("]");
                assert(out@ =~= start + json_text(self@));
            },
            Json::Object(v) => {
                let ghost start = out@;
                out.append("{");
                let mut i: usize = 0;
                while i < v.len()
                    invariant
                        i <= v@.len(),
                        out@ == start + "{"@ + members_text(self@->Object_0, self@->Object_1, i as int),
                        *self == Json::Object(*v),
                    decreases v.len() - i,
                {
                    if i > 0 {
                        out.append(",");
                    }
                    let q = quote_json(v[i].0.as_str());
                    out.append(q.as_str());
                    out.append(":");
                    proof {
                        assert(decreases_to!(*self => self->Object_0));
                        assert(decreases_to!(*v => v@));
                        assert(decreases_to!(v@ => v@[i as int]));
                        assert(decreases_to!(v@[i as int] => v@[i as int].1));
                    }
                    v[i].1.write_to(out);
                    proof {
                        lemma_object_view(*v);
                        assert(out@ =~= start + "{"@ + members_text(self@->Object_0, self@->Object_1, i + 1));
                    }
                    i = i + 1;
                }
                out.append("}");
                assert(out@ =~= start + json_text(self@));
            },
        }
    }

    /// The compact JSON text of `self`.
    pub fn to_text(&self) -> (r: String)
        ensures
            r@ == json_text(self@),
    {
        let mut out = String::new();
        self.write_to(&mut out);
        assert(out@ =~= json_text(self@));
        out
    }

    /// The text of a JSON string.
    pub fn as_str(&self) -> (r: Option<&String>)
        ensures
            match self {
                Json::Str(s) => r == Some(s),
                _ => r is None,
            },
    {
        match self {
            Json::Str(s) => Some(s),
            _ => None,
        }
    }

    /// The member of an object under key `k` (the first, if several).
    pub fn member(&self, k: &str) -> (r: Option<&Json>)
        ensures
            match r {
                Some(x) => member_of(self@, k@) == Some(x@),
                None => member_of(self@, k@) is None,
            },
    {
        match self {
            Json::Object(v) => {
                let mut i: usize = 0;
                while i < v.len()
                    invariant
                        i <= v@.len(),
                        forall|j: int| 0 <= j < i ==> v@[j].0@ != k@,
                        *self == Json::Object(*v),
                    decreases v.len() - i,
                {
                    if crate::strmap::text_eq(v[i].0.as_str(), k) {
                        proof {
                            lemma_object_view(*v);
                            let s = self@->Object_0;
                            lemma_first_key_is(s, k@, i as int);
                        }
                        let found = &v[i].1;
                        return Some(found);
                    }
                    i = i + 1;
                }
                proof {
                    lemma_object_view(*v);
                    let s = self@->Object_0;
                    lemma_first_key_none(s, k@);
                }
                None
            },
            _ => None,
        }
    }

    /// The value reached from `self` by following object keys `path`, in order.
    pub fn get_path(&self, path: &Vec<String>) -> (r: Option<&Json>)
        ensures
            match r {
                Some(x) => path_get(self@, texts(path@), 0) == Some(x@),
                None => path_get(self@, texts(path@), 0) is None,
            },
    {
        let mut cur: &Json = self;
        let mut i: usize = 0;
        while i < path.len()
            invariant
                i <= path@.len(),
                path_get(self@, texts(path@), 0) == path_get(cur@, texts(path@), i as int),
            decreases path.len() - i,
        {
            match cur.member(path[i].as_str()) {
                Some(next) => {
                    cur = next;
                },
                None => {
                    return None;
                },
            }
            i = i + 1;
        }
        Some(cur)
    }

    /// The value at a dot-separated path of object keys ("aws.function.arn").
    pub fn get_dotted(&self, path: &str) -> (r: Option<&Json>)
        ensures
            match r {
                Some(x) => path_get(self@, split_dots(path@), 0) == Some(x@),
                None => path_get(self@, split_dots(path@), 0) is None,
            },
    {
        let segments = split_path(path);
        self.get_path(&segments)
    }
}

/// The member of `j` under `k` (the first, if several), when `j` is an object.
pub open spec fn member_of(j: JsonV, k: Seq<char>) -> Option<JsonV> {
    match j {
        JsonV::Object(ks, vs) => match first_key(ks, k) {
            Some(i) => Some(vs[i]),
            None => None,
        },
        _ => None,
    }
}

/// The texts of a list of strings.
pub open spec fn texts(v: Seq<String>) -> Seq<Seq<char>> {
    Seq::new(v.len(), |i: int| v[i]@)
}

/// Following the keys `path[i..]` from `j`.
pub open spec fn path_get(j: JsonV, path: Seq<Seq<char>>, i: int) -> Option<JsonV>
    decreases path.len() - i,
{
    if i < 0 || i >= path.len() {
        Some(j)
    } else {
        match member_of(j, path[i]) {
            Some(n) => path_get(n, path, i + 1),
            None => None,
        }
    }
}

/// The pieces of `s` between dots ("a.b" gives "a" and "b"; "" gives one
/// empty piece).
pub open spec fn split_dots(s: Seq<char>) -> Seq<Seq<char>>
    decreases s.len(),
{
    if s.len() == 0 {
        seq![Seq::empty()]
    } else {
        let r = split_dots(s.drop_last());
        if s.last() == '.' {
            r.push(Seq::empty())
        } else {
            r.update(r.len() - 1, r.last().push(s.last()))
        }
    }
}

/// Splitting yields at least one piece.
pub proof fn lemma_split_dots_len(s: Seq<char>)
    ensures
        split_dots(s).len() >= 1,
    decreases s.len(),
{
    if s.len() > 0 {
        lemma_split_dots_len(s.drop_last());
    }
}

/// The pieces of `path` between dots.
pub fn split_path(path: &str) -> (r: Vec<String>)
    ensures
        texts(r@) == split_dots(path@),
{
    let n = path.unicode_len();
    let mut segs: Vec<String> = Vec::new();
    let mut start: usize = 0;
    let mut i: usize = 0;
    proof {
        assert(path@.subrange(0, 0) =~= Seq::<char>::empty());
        assert(texts(segs@) =~= Seq::<Seq<char>>::empty());
        assert(texts(segs@).push(path@.subrange(0, 0)) =~= split_dots(path@.subrange(0, 0)));
    }
    while i < n
        invariant
            n == path@.len(),
            start <= i <= n,
            texts(segs@).push(path@.subrange(start as int, i as int)) == split_dots(
                path@.subrange(0, i as int),
            ),
        decreases n - i,
    {
        let c = path.get_char(i);
        proof {
            let p = path@.subrange(0, i + 1);
            assert(p.drop_last() =~= path@.subrange(0, i as int));
            assert(p.last() == c);
            lemma_split_dots_len(path@.subrange(0, i as int));
        }
        if c == '.' {
            let piece = path.substring_char(start, i).to_owned();
            let ghost before = segs@;
            segs.push(piece);
            proof {
                assert(texts(segs@) =~= texts(before).push(piece@));
                assert(path@.subrange((i + 1) as int, (i + 1) as int) =~= Seq::<char>::empty());
                assert(texts(segs@).push(path@.subrange((i + 1) as int, (i + 1) as int))
                    =~= split_dots(path@.subrange(0, i + 1)));
            }
            start = i + 1;
        } else {
            proof {
                assert(path@.subrange(start as int, i + 1) =~= path@.subrange(
                    start as int,
                    i as int,
                ).push(c));
                assert(texts(segs@).push(path@.subrange(start as int, i + 1)) =~= split_dots(
                    path@.subrange(0, i + 1),
                ));
            }
        }
        i = i + 1;
    }
    let last = path.substring_char(start, n).to_owned();
    let ghost before = segs@;
    segs.push(last);
    proof {
        assert(path@.subrange(0, n as int) =~= path@);
        assert(texts(segs@) =~= texts(before).push(last@));
    }
    segs
}

/// One step of the recogniser of JSON number text
/// (`-? (0 | [1-9][0-9]*) (. [0-9]+)? ([eE] [+-]? [0-9]+)?`):
/// 0 start, 1 after the sign, 2 a leading zero, 3 integer digits, 4 after the
/// point, 5 fraction digits, 6 after the exponent mark, 7 after its sign,
/// 8 exponent digits, 9 rejected.
pub open spec fn number_step(st: int, c: char) -> int {
    let digit = '0' <= c && c <= '9';
    let exp = c == 'e' || c == 'E';
    if st == 0 {
        if c == '-' { 1 } else if c == '0' { 2 } else if digit { 3 } else { 9 }
    } else if st == 1 {
        if c == '0' { 2 } else if digit { 3 } else { 9 }
    } else if st == 2 {
        if c == '.' { 4 } else if exp { 6 } else { 9 }
    } else if st == 3 {
        if digit { 3 } else if c == '.' { 4 } else if exp { 6 } else { 9 }
    } else if st == 4 {
        if digit { 5 } else { 9 }
    } else if st == 5 {
        if digit { 5 } else if exp { 6 } else { 9 }
    } else if st == 6 {
        if c == '+' || c == '-' { 7 } else if digit { 8 } else { 9 }
    } else if st == 7 || st == 8 {
        if digit { 8 } else { 9 }
    } else {
        9
    }
}

/// The state the recogniser reaches from `st` on `s`.
pub open spec fn number_run(st: int, s: Seq<char>) -> int
    decreases s.len(),
{
    if s.len() == 0 {
        st
    } else {
        number_run(number_step(st, s[0]), s.drop_first())
    }
}

/// Whether `s` is the text of a JSON number.
pub open spec fn is_number_text(s: Seq<char>) -> bool {
    let st = number_run(0, s);
    st == 2 || st == 3 || st == 5 || st == 8
}

fn number_step_exec(st: u8, c: char) -> (r: u8)
    requires
        st <= 9,
    ensures
        r as int == number_step(st as int, c),
        r <= 9,
{
    let digit = '0' <= c && c <= '9';
    let exp = c == 'e' || c == 'E';
    if st == 0 {
        if c == '-' { 1 } else if c == '0' { 2 } else if digit { 3 } else { 9 }
    } else if st == 1 {
        if c == '0' { 2 } else if digit { 3 } else { 9 }
    } else if st == 2 {
        if c == '.' { 4 } else if exp { 6 } else { 9 }
    } else if st == 3 {
        if digit { 3 } else if c == '.' { 4 } else if exp { 6 } else { 9 }
    } else if st == 4 {
        if digit { 5 } else { 9 }
    } else if st == 5 {
        if digit { 5 } else if exp { 6 } else { 9 }
    } else if st == 6 {
        if c == '+' || c == '-' { 7 } else if digit { 8 } else { 9 }
    } else if st == 7 || st == 8 {
        if digit { 8 } else { 9 }
    } else {
        9
    }
}

/// Whether `s` is the text of a JSON number.
pub fn number_text_ok(s: &str) -> (r: bool)
    ensures
        r == is_number_text(s@),
{
    let n = s.unicode_len();
    let mut st: u8 = 0;
    let mut i: usize = 0;
    assert(s@.skip(0) =~= s@);
    while i < n
        invariant
            n == s@.len(),
            i <= n,
            st <= 9,
            number_run(0, s@) == number_run(st as int, s@.skip(i as int)),
        decreases n - i,
    {
        let c = s.get_char(i);
        assert(s@.skip(i as int).drop_first() =~= s@.skip(i + 1));
        st = number_step_exec(st, c);
        i = i + 1;
    }
    st == 2 || st == 3 || st == 5 || st == 8
}

/// Every number in `j` is written as a JSON number.
pub open spec fn numbers_ok(j: JsonV) -> bool
    decreases j,
{
    match j {
        JsonV::Number(t) => is_number_text(t),
        JsonV::Array(v) => items_ok(v, v.len() as int),
        JsonV::Object(ks, vs) => items_ok(vs, vs.len() as int),
        _ => true,
    }
}

/// The first `n` items of `s` satisfy [`numbers_ok`].
pub open spec fn items_ok(s: Seq<JsonV>, n: int) -> bool
    decreases s, n,
{
    if n <= 0 || n > s.len() {
        true
    } else {
        items_ok(s, n - 1) && numbers_ok(s[n - 1])
    }
}

/// A list whose first `n` items pass has every shorter prefix passing.
pub proof fn lemma_items_ok_prefix(s: Seq<JsonV>, i: int, n: int)
    requires
        0 <= i <= n <= s.len(),
        items_ok(s, n),
    ensures
        items_ok(s, i),
    decreases n - i,
{
    if i < n {
        lemma_items_ok_prefix(s, i, n - 1);
    }
}

impl Json {
    /// Whether every number in `self` is written as a JSON number, so that
    /// the text of `self` is JSON.
    pub fn numbers_valid(&self) -> (r: bool)
        ensures
            r == numbers_ok(self@),
        decreases self,
    {
        match self {
            Json::Number(t) => number_text_ok(t.as_str()),
            Json::Array(v) => {
                proof {
                    lemma_array_view(*v);
                }
                let mut i: usize = 0;
                while i < v.len()
                    invariant
                        i <= v@.len(),
                        *self == Json::Array(*v),
                        items_ok(self@->Array_0, i as int),
                    decreases v.len() - i,
                {
                    proof {
                        assert(decreases_to!(*self => self->Array_0));
                        assert(decreases_to!(*v => v@));
                        assert(decreases_to!(v@ => v@[i as int]));
                    }
                    if !v[i].numbers_valid() {
                        proof {
                            let s = self@->Array_0;
                            if items_ok(s, s.len() as int) {
                                lemma_items_ok_prefix(s, i + 1, s.len() as int);
                            }
                        }
                        return false;
                    }
                    i = i + 1;
                }
                true
            },
            Json::Object(v) => {
                proof {
                    lemma_object_view(*v);
                }
                let mut i: usize = 0;
                while i < v.len()
                    invariant
                        i <= v@.len(),
                        *self == Json::Object(*v),
                        items_ok(self@->Object_1, i as int),
                    decreases v.len() - i,
                {
                    proof {
                        assert(decreases_to!(*self => self->Object_0));
                        assert(decreases_to!(*v => v@));
                        assert(decreases_to!(v@ => v@[i as int]));
                        assert(decreases_to!(v@[i as int] => v@[i as int].1));
                    }
                    if !v[i].1.numbers_valid() {
                        proof {
                            let s = self@->Object_1;
                            if items_ok(s, s.len() as int) {
                                lemma_items_ok_prefix(s, i + 1, s.len() as int);
                            }
                        }
                        return false;
                    }
                    i = i + 1;
                }
                true
            },
            _ => true,
        }
    }
}

} // verus!
