//! The grammar as it stands in its source file.
use vstd::prelude::*;
use pest_meta::ast::{Expr as PestExpr, Rule as PestRule};
use crate::grammar_doc::{rules_view, Entry, Grammar, GrammarExpr, GrammarExprV, GrammarRule, GrammarV};
use crate::grammar_page::{page, page_result, render_page, PageError, PageErrorV};
use crate::text::joined;


verus! {

/// A rule as `pest_meta` reads it.
#[verifier::external_type_specification]
#[verifier::external_body]
pub struct ExPestRule(pest_meta::ast::Rule);

/// The rules of a grammar in the notation of pest, by name and body: those that
/// `pest_meta::parser::consume_rules` makes of the text, once it was read.
pub uninterp spec fn grammar_rules(source: Seq<char>) -> Seq<(Seq<char>, GrammarExprV)>;

/// Why a grammar could not be read, as it describes itself.
#[derive(Debug, PartialEq, Eq)]
pub enum ReadFailure {
    /// The text is no grammar.
    Parse(String),
    /// The rules make no sense.
    Build(String),
}

/// A [`ReadFailure`] as a mathematical object.
pub ghost enum ReadFailureV {
    Parse(Seq<char>),
    Build(Seq<char>),
}

impl View for ReadFailure {
    type V = ReadFailureV;

    open spec fn view(&self) -> ReadFailureV {
        match self {
            ReadFailure::Parse(m) => ReadFailureV::Parse(m@),
            ReadFailure::Build(m) => ReadFailureV::Build(m@),
        }
    }
}

/// Rules as mathematical objects, or what went wrong.
pub open spec fn rules_result(r: Result<Vec<GrammarRule>, ReadFailure>) -> Result<
    Seq<(Seq<char>, GrammarExprV)>,
    ReadFailureV,
> {
    match r {
        Ok(rules) => Ok(rules_view(rules@)),
        Err(f) => Err(f@),
    }
}

/// Whether a character is a hexadecimal digit.
pub open spec fn is_hex(c: char) -> bool {
    '0' <= c <= '9' || 'a' <= c <= 'f' || 'A' <= c <= 'F'
}

/// The value of a hexadecimal digit.
pub open spec fn hex_digit(c: char) -> nat {
    if '0' <= c <= '9' {
        (c as int - '0' as int) as nat
    } else if 'a' <= c <= 'f' {
        (c as int - 'a' as int + 10) as nat
    } else {
        (c as int - 'A' as int + 10) as nat
    }
}

/// Whether `n` hexadecimal digits stand at a position, with a closing brace behind them.
pub open spec fn hex_run(s: Seq<char>, i: int, n: int) -> bool {
    &&& i + n < s.len()
    &&& s[i + n] == '}'
    &&& forall|k: int| i <= k < i + n ==> is_hex(#[trigger] s[k])
}

/// The number that the first `n` hexadecimal digits at a position write.
pub open spec fn hex_value(s: Seq<char>, i: int, n: int) -> nat
    decreases n,
{
    if n <= 0 {
        0
    } else {
        hex_value(s, i, n - 1) * 16 + hex_digit(s[i + n - 1])
    }
}

/// Whether a number is that of a character.
pub open spec fn is_scalar(n: nat) -> bool {
    n < 0xD800 || 0xE000 <= n <= 0x10FFFF
}

/// Whether an escape at a position, of two to six hexadecimal digits, stands for no character.
pub open spec fn bad_escape(s: Seq<char>, i: int) -> bool {
    &&& 0 <= i
    &&& i + 3 <= s.len()
    &&& s[i] == '\\'
    &&& s[i + 1] == 'u'
    &&& s[i + 2] == '{'
    &&& exists|n: int| 2 <= n <= 6 && #[trigger] hex_run(s, i + 3, n) && !is_scalar(
        hex_value(s, i + 3, n),
    )
}

/// Whether an escape at a position is one that a literal may hold.
pub open spec fn good_escape(s: Seq<char>, i: int) -> bool {
    &&& 0 <= i
    &&& i + 1 < s.len()
    &&& s[i] == '\\'
    &&& {
        ||| s[i + 1] == '"' || s[i + 1] == '\\' || s[i + 1] == '\'' || s[i + 1] == 'r' || s[i + 1] == 'n'
        ||| s[i + 1] == 't' || s[i + 1] == '0'
        ||| s[i + 1] == 'x' && i + 3 < s.len() && is_hex(s[i + 2]) && is_hex(s[i + 3])
        ||| s[i + 1] == 'u' && i + 2 < s.len() && s[i + 2] == '{' && exists|n: int|
            2 <= n <= 6 && #[trigger] hex_run(s, i + 3, n) && is_scalar(hex_value(s, i + 3, n))
    }
}

/// Whether a character is a decimal digit.
pub open spec fn is_digit(c: char) -> bool {
    '0' <= c <= '9'
}

/// The number that the decimal digits from a position on write behind those that write `acc`.
pub open spec fn decimal_value(s: Seq<char>, i: int, acc: nat) -> nat
    decreases s.len() - i,
{
    if i < 0 || i >= s.len() || !is_digit(s[i]) {
        acc
    } else {
        decimal_value(s, i + 1, acc * 10 + hex_digit(s[i]))
    }
}

/// Whether what stands at a position is no number, or one of a size that an index can have.
pub open spec fn number_fits(s: Seq<char>, i: int) -> bool {
    is_digit(s[i]) ==> decimal_value(s, i, 0) <= if i > 0 && s[i - 1] == '-' {
        0x8000_0000nat
    } else {
        0x7FFF_FFFFnat
    }
}

/// Whether two characters stand at a position.
pub open spec fn pair_at(s: Seq<char>, i: int, a: char, b: char) -> bool {
    0 <= i && i + 1 < s.len() && s[i] == a && s[i + 1] == b
}

/// The position `n` characters on, or the end of the text.
pub open spec fn beyond(s: Seq<char>, i: int, n: int) -> int {
    if i + n > s.len() {
        s.len() as int
    } else {
        i + n
    }
}

/// The end of the line from a position on.
pub open spec fn line_end(s: Seq<char>, i: int) -> int
    decreases s.len() - i,
{
    if i < 0 || i >= s.len() || s[i] == '\n' {
        i
    } else {
        line_end(s, i + 1)
    }
}

/// The end of a block comment from a position inside it on, where it has one. A comment inside it
/// counts only where that one ends; where it does not, what would open it is text.
pub open spec fn comment_end(s: Seq<char>, i: int) -> Option<int>
    decreases s.len() - i,
{
    if i < 0 || i >= s.len() {
        None
    } else if pair_at(s, i, '*', '/') {
        Some(i + 2)
    } else {
        match if pair_at(s, i, '/', '*') {
            comment_end(s, i + 2)
        } else {
            None
        } {
            Some(e) => if i < e <= s.len() {
                comment_end(s, e)
            } else {
                None
            },
            None => comment_end(s, i + 1),
        }
    }
}

/// The end of the comment or the white space at a position, or the position itself where there is
/// neither.
pub open spec fn gap_end(s: Seq<char>, i: int) -> int {
    if i < 0 || i >= s.len() {
        i
    } else if s[i] == ' ' || s[i] == '\t' || s[i] == '\r' || s[i] == '\n' {
        i + 1
    } else if pair_at(s, i, '/', '/') {
        line_end(s, i + 2)
    } else if pair_at(s, i, '/', '*') {
        match comment_end(s, i + 2) {
            Some(e) => e,
            None => i,
        }
    } else {
        i
    }
}

/// The first position from `i` on that is in no comment and no white space.
pub open spec fn after_gaps(s: Seq<char>, i: int) -> int
    decreases s.len() - i,
{
    if gap_end(s, i) <= i {
        i
    } else if gap_end(s, i) >= s.len() {
        s.len() as int
    } else {
        after_gaps(s, gap_end(s, i))
    }
}

/// The end of a string from a position inside it on.
pub open spec fn string_end(s: Seq<char>, i: int) -> int
    decreases s.len() - i,
{
    if i < 0 || i >= s.len() {
        i
    } else if s[i] == '"' {
        i + 1
    } else if s[i] == '\\' {
        string_end(s, beyond(s, i, 2))
    } else {
        string_end(s, i + 1)
    }
}

/// Whether every escape of a string, from a position inside it on, stands for a character.
pub open spec fn string_fits(s: Seq<char>, i: int) -> bool
    decreases s.len() - i,
{
    if i < 0 || i >= s.len() || s[i] == '"' {
        true
    } else if s[i] == '\\' {
        !bad_escape(s, i) && string_fits(s, beyond(s, i, 2))
    } else {
        string_fits(s, i + 1)
    }
}

/// The position behind the next single quote.
pub open spec fn quote_end(s: Seq<char>, i: int) -> int
    decreases s.len() - i,
{
    if i < 0 || i >= s.len() {
        i
    } else if s[i] == '\'' {
        i + 1
    } else {
        quote_end(s, i + 1)
    }
}

/// The end of a character in single quotes that opens at a position.
pub open spec fn char_end(s: Seq<char>, i: int) -> int {
    if i + 1 < s.len() && s[i + 1] == '\\' {
        quote_end(s, beyond(s, i, 3))
    } else {
        beyond(s, i, 3)
    }
}

/// The end of what opens at a position of a grammar: of a comment, a string or a character in
/// quotes, or else of the character there.
pub open spec fn piece_end(s: Seq<char>, i: int) -> int {
    let end = if 0 <= i < s.len() && s[i] == '"' {
        string_end(s, i + 1)
    } else if 0 <= i < s.len() && s[i] == '\'' {
        char_end(s, i)
    } else {
        gap_end(s, i)
    };
    if end <= i {
        i + 1
    } else if end > s.len() {
        s.len() as int
    } else {
        end
    }
}

/// Whether every backslash between two positions opens an escape that a literal may hold.
pub open spec fn escapes_fit(s: Seq<char>, i: int, j: int) -> bool
    decreases s.len() - i,
{
    if i < 0 || i >= j || i >= s.len() {
        true
    } else if s[i] == '\\' {
        good_escape(s, i) && escapes_fit(s, beyond(s, i, 2), j)
    } else {
        escapes_fit(s, i + 1, j)
    }
}

/// Whether every number from a position on, up to the next closing bracket, is of a size that an
/// index can have.
pub open spec fn indices_fit(s: Seq<char>, i: int) -> bool
    decreases s.len() - i,
{
    if i < 0 || i >= s.len() || s[i] == ']' {
        true
    } else {
        number_fits(s, i) && indices_fit(s, piece_end(s, i))
    }
}

/// Whether what opens at a position can be read. An escape stands for a character. No bracket
/// opens on a choice without a first alternative. What stands between a caret and its string is
/// read with the string. An index into the stack is of a size that it can have.
pub open spec fn piece_fits(s: Seq<char>, i: int) -> bool {
    if s[i] == '"' {
        string_fits(s, i + 1)
    } else if s[i] == '\'' {
        !bad_escape(s, i + 1)
    } else if s[i] == '(' {
        !(after_gaps(s, i + 1) < s.len() && s[after_gaps(s, i + 1)] == '|')
    } else if s[i] == '^' {
        escapes_fit(s, i + 1, after_gaps(s, i + 1))
    } else if s[i] == '[' {
        indices_fit(s, i + 1)
    } else {
        true
    }
}

/// Whether what opens from a position on can be read.
pub open spec fn pieces_fit(s: Seq<char>, i: int) -> bool
    decreases s.len() - i,
{
    if i < 0 || i >= s.len() {
        true
    } else {
        piece_fits(s, i) && pieces_fit(s, piece_end(s, i))
    }
}

/// Whether a grammar can be read: whatever opens in it can.
pub open spec fn readable(s: Seq<char>) -> bool {
    pieces_fit(s, 0)
}

fn hex_digit_of(c: char) -> (r: Option<u32>)
    ensures
        match r {
            Some(d) => is_hex(c) && d == hex_digit(c) && d < 16,
            None => !is_hex(c),
        },
{
    if '0' <= c && c <= '9' {
        Some(c as u32 - '0' as u32)
    } else if 'a' <= c && c <= 'f' {
        Some(c as u32 - 'a' as u32 + 10)
    } else if 'A' <= c && c <= 'F' {
        Some(c as u32 - 'A' as u32 + 10)
    } else {
        None
    }
}

/// The escape at a position by the number of a character: whether it is that of one, where digits
/// in braces are there at all.
fn unicode_escape(s: &Vec<char>, i: usize) -> (r: Option<bool>)
    requires
        i + 3 <= s@.len(),
    ensures
        match r {
            None => forall|n: int| 2 <= n <= 6 ==> !#[trigger] hex_run(s@, i + 3, n),
            Some(good) => {
                &&& exists|n: int| 2 <= n <= 6 && #[trigger] hex_run(s@, i + 3, n)
                &&& forall|n: int|
                    2 <= n <= 6 && #[trigger] hex_run(s@, i + 3, n) ==> good == is_scalar(
                        hex_value(s@, i + 3, n),
                    )
            },
        },
{
    let len: usize = s.len();
    let start: usize = i + 3;
    let mut n: usize = 0;
    let mut value: u32 = 0;
    while n < 7 && n < len - start
        invariant
            len == s@.len(),
            start == i + 3,
            start <= len,
            n <= 7,
            n <= len - start,
            forall|k: int| start <= k < start + n ==> is_hex(#[trigger] s@[k]),
            value == hex_value(s@, start as int, n as int),
            n == 0 ==> value < 0x1,
            n == 1 ==> value < 0x10,
            n == 2 ==> value < 0x100,
            n == 3 ==> value < 0x1000,
            n == 4 ==> value < 0x1_0000,
            n == 5 ==> value < 0x10_0000,
            n == 6 ==> value < 0x100_0000,
            n == 7 ==> value < 0x1000_0000,
        decreases 7 - n,
    {
        let c: char = s[start + n];
        match hex_digit_of(c) {
            Some(d) => {
                value = value * 16 + d;
                n += 1;
            },
            None => {
                assert forall|m: int| 2 <= m <= 6 && #[trigger] hex_run(
                    s@,
                    start as int,
                    m,
                ) implies m == n by {
                    if m > n {
                        assert(is_hex(s@[start + n]));
                    } else if m < n {
                        assert(is_hex(s@[start + m]));
                    }
                }
                if c == '}' && 2 <= n && n <= 6 {
                    assert(hex_run(s@, start as int, n as int));
                    return Some(value < 0xD800 || (0xE000 <= value && value <= 0x10FFFF));
                }
                return None;
            },
        }
    }
    assert forall|m: int| 2 <= m <= 6 implies !#[trigger] hex_run(s@, start as int, m) by {
        if hex_run(s@, start as int, m) {
            assert(m < n);
            assert(is_hex(s@[start + m]));
        }
    }
    None
}

fn is_bad_escape(s: &Vec<char>, i: usize) -> (r: bool)
    requires
        i <= s@.len(),
    ensures
        r == bad_escape(s@, i as int),
{
    if s.len() - i < 3 || s[i] != '\\' || s[i + 1] != 'u' || s[i + 2] != '{' {
        return false;
    }
    match unicode_escape(s, i) {
        Some(good) => !good,
        None => false,
    }
}

fn is_good_escape(s: &Vec<char>, i: usize) -> (r: bool)
    requires
        i <= s@.len(),
    ensures
        r == good_escape(s@, i as int),
{
    let left: usize = s.len() - i;
    if left < 2 || s[i] != '\\' {
        return false;
    }
    let c: char = s[i + 1];
    if c == 'x' {
        left >= 4 && hex_digit_of(s[i + 2]).is_some() && hex_digit_of(s[i + 3]).is_some()
    } else if c == 'u' {
        if left < 3 || s[i + 2] != '{' {
            return false;
        }
        match unicode_escape(s, i) {
            Some(good) => good,
            None => false,
        }
    } else {
        c == '"' || c == '\\' || c == '\'' || c == 'r' || c == 'n' || c == 't' || c == '0'
    }
}

proof fn lemma_decimal_value(s: Seq<char>, i: int, acc: nat)
    ensures
        decimal_value(s, i, acc) >= acc,
    decreases s.len() - i,
{
    if !(i < 0 || i >= s.len() || !is_digit(s[i])) {
        lemma_decimal_value(s, i + 1, acc * 10 + hex_digit(s[i]));
    }
}

fn does_number_fit(s: &Vec<char>, at: usize) -> (r: bool)
    requires
        at < s@.len(),
    ensures
        r == number_fits(s@, at as int),
{
    if !('0' <= s[at] && s[at] <= '9') {
        return true;
    }
    let limit: u64 = if at > 0 && s[at - 1] == '-' {
        0x8000_0000
    } else {
        0x7FFF_FFFF
    };
    let mut value: u64 = 0;
    let mut i: usize = at;
    while i < s.len() && '0' <= s[i] && s[i] <= '9'
        invariant
            at < s@.len(),
            at <= i <= s@.len(),
            is_digit(s@[at as int]),
            limit == (if at > 0 && s@[at - 1] == '-' {
                0x8000_0000u64
            } else {
                0x7FFF_FFFFu64
            }),
            value <= limit,
            decimal_value(s@, at as int, 0) == decimal_value(s@, i as int, value as nat),
        decreases s@.len() - i,
    {
        let digit: u64 = s[i] as u64 - '0' as u64;
        assert(digit == hex_digit(s@[i as int]));
        value = value * 10 + digit;
        i += 1;
        if value > limit {
            proof {
                lemma_decimal_value(s@, i as int, value as nat);
            }
            return false;
        }
    }
    true
}

/// A text, with the ends of its block comments from every position on.
struct Scan {
    chars: Vec<char>,
    ends: Vec<Option<usize>>,
}

/// Where a comment ends.
spec fn end_view(e: Option<usize>) -> Option<int> {
    match e {
        Some(e) => Some(e as int),
        None => None,
    }
}

impl Scan {
    spec fn wf(&self) -> bool {
        &&& self.ends@.len() == self.chars@.len()
        &&& forall|j: int|
            0 <= j < self.ends@.len() ==> end_view(#[trigger] self.ends@[j]) == comment_end(
                self.chars@,
                j,
            )
        &&& forall|j: int|
            0 <= j < self.ends@.len() ==> (#[trigger] self.ends@[j] matches Some(e) ==> j < e
                <= self.chars@.len())
    }

    fn new(chars: Vec<char>) -> (r: Self)
        ensures
            r.wf(),
            r.chars@ == chars@,
    {
        let len: usize = chars.len();
        let mut ends: Vec<Option<usize>> = Vec::new();
        let mut k: usize = 0;
        while k < len
            invariant
                k <= len,
                ends@.len() == k,
            decreases len - k,
        {
            ends.push(None);
            k += 1;
        }
        let mut i: usize = len;
        while i > 0
            invariant
                i <= len,
                len == chars@.len(),
                ends@.len() == len,
                forall|j: int|
                    i <= j < len ==> end_view(#[trigger] ends@[j]) == comment_end(chars@, j),
                forall|j: int|
                    i <= j < len ==> (#[trigger] ends@[j] matches Some(e) ==> j < e <= len),
            decreases i,
        {
            i -= 1;
            let end: Option<usize> = if is_pair(&chars, i, '*', '/') {
                Some(i + 2)
            } else {
                let inner: Option<usize> = if is_pair(&chars, i, '/', '*') && i + 2 < len {
                    ends[i + 2]
                } else {
                    None
                };
                let next: usize = match inner {
                    Some(e) => e,
                    None => i + 1,
                };
                if next < len {
                    ends[next]
                } else {
                    None
                }
            };
            proof {
                let s = chars@;
                let k = i as int;
                if !pair_at(s, k, '*', '/') {
                    let inner = if pair_at(s, k, '/', '*') {
                        comment_end(s, k + 2)
                    } else {
                        None
                    };
                    if pair_at(s, k, '/', '*') && k + 2 < len {
                        assert(end_view(ends@[k + 2]) == comment_end(s, k + 2));
                    }
                    match inner {
                        Some(e) => {
                            assert(k < e <= len);
                            if e < len {
                                assert(end_view(ends@[e]) == comment_end(s, e));
                            }
                        },
                        None => {
                            if k + 1 < len {
                                assert(end_view(ends@[k + 1]) == comment_end(s, k + 1));
                            }
                        },
                    }
                }
                assert(end_view(end) == comment_end(s, k));
            }
            ends.set(i, end);
        }
        Scan { chars, ends }
    }
}

fn is_pair(s: &Vec<char>, i: usize, a: char, b: char) -> (r: bool)
    requires
        i < s@.len(),
    ensures
        r == pair_at(s@, i as int, a, b),
{
    s.len() - i >= 2 && s[i] == a && s[i + 1] == b
}

fn step_beyond(s: &Vec<char>, i: usize, n: usize) -> (r: usize)
    requires
        i <= s@.len(),
    ensures
        r == beyond(s@, i as int, n as int),
        r <= s@.len(),
{
    if s.len() - i < n {
        s.len()
    } else {
        i + n
    }
}

fn find_line_end(s: &Vec<char>, from: usize) -> (r: usize)
    requires
        from <= s@.len(),
    ensures
        r == line_end(s@, from as int),
        from <= r <= s@.len(),
{
    let mut i: usize = from;
    while i < s.len() && s[i] != '\n'
        invariant
            from <= i <= s@.len(),
            line_end(s@, from as int) == line_end(s@, i as int),
        decreases s@.len() - i,
    {
        i += 1;
    }
    i
}

fn find_gap_end(t: &Scan, i: usize) -> (r: usize)
    requires
        t.wf(),
        i <= t.chars@.len(),
    ensures
        r == gap_end(t.chars@, i as int),
        i <= r <= t.chars@.len(),
{
    let s: &Vec<char> = &t.chars;
    if i >= s.len() {
        return i;
    }
    let c: char = s[i];
    if c == ' ' || c == '\t' || c == '\r' || c == '\n' {
        i + 1
    } else if is_pair(s, i, '/', '/') {
        find_line_end(s, i + 2)
    } else if is_pair(s, i, '/', '*') {
        if i + 2 < s.len() {
            match t.ends[i + 2] {
                Some(e) => e,
                None => i,
            }
        } else {
            i
        }
    } else {
        i
    }
}

fn skip_gaps(t: &Scan, from: usize) -> (r: usize)
    requires
        t.wf(),
        from <= t.chars@.len(),
    ensures
        r == after_gaps(t.chars@, from as int),
        from <= r <= t.chars@.len(),
{
    let mut i: usize = from;
    let mut end: usize = find_gap_end(t, i);
    while end > i
        invariant
            t.wf(),
            from <= i <= end <= t.chars@.len(),
            end == gap_end(t.chars@, i as int),
            after_gaps(t.chars@, from as int) == after_gaps(t.chars@, i as int),
        decreases t.chars@.len() - i,
    {
        i = end;
        end = find_gap_end(t, i);
    }
    i
}

fn find_string_end(s: &Vec<char>, from: usize) -> (r: usize)
    requires
        from <= s@.len(),
    ensures
        r == string_end(s@, from as int),
        from <= r <= s@.len(),
{
    let mut i: usize = from;
    while i < s.len() && s[i] != '"'
        invariant
            from <= i <= s@.len(),
            string_end(s@, from as int) == string_end(s@, i as int),
        decreases s@.len() - i,
    {
        if s[i] == '\\' {
            i = step_beyond(s, i, 2);
        } else {
            i += 1;
        }
    }
    if i < s.len() {
        i + 1
    } else {
        i
    }
}

fn does_string_fit(s: &Vec<char>, from: usize) -> (r: bool)
    requires
        from <= s@.len(),
    ensures
        r == string_fits(s@, from as int),
{
    let mut i: usize = from;
    while i < s.len() && s[i] != '"'
        invariant
            from <= i <= s@.len(),
            string_fits(s@, from as int) == string_fits(s@, i as int),
        decreases s@.len() - i,
    {
        if s[i] == '\\' {
            if is_bad_escape(s, i) {
                return false;
            }
            i = step_beyond(s, i, 2);
        } else {
            i += 1;
        }
    }
    true
}

fn find_quote_end(s: &Vec<char>, from: usize) -> (r: usize)
    requires
        from <= s@.len(),
    ensures
        r == quote_end(s@, from as int),
        from <= r <= s@.len(),
{
    let mut i: usize = from;
    while i < s.len() && s[i] != '\''
        invariant
            from <= i <= s@.len(),
            quote_end(s@, from as int) == quote_end(s@, i as int),
        decreases s@.len() - i,
    {
        i += 1;
    }
    if i < s.len() {
        i + 1
    } else {
        i
    }
}

fn find_piece_end(t: &Scan, i: usize) -> (r: usize)
    requires
        t.wf(),
        i < t.chars@.len(),
    ensures
        r == piece_end(t.chars@, i as int),
        i < r <= t.chars@.len(),
{
    let s: &Vec<char> = &t.chars;
    let len: usize = s.len();
    let end: usize = if s[i] == '"' {
        find_string_end(s, i + 1)
    } else if s[i] == '\'' {
        let past: usize = step_beyond(s, i, 3);
        if len - i >= 2 && s[i + 1] == '\\' {
            find_quote_end(s, past)
        } else {
            past
        }
    } else {
        find_gap_end(t, i)
    };
    if end <= i {
        i + 1
    } else {
        end
    }
}

fn do_escapes_fit(s: &Vec<char>, from: usize, to: usize) -> (r: bool)
    requires
        from <= to <= s@.len(),
    ensures
        r == escapes_fit(s@, from as int, to as int),
{
    let mut i: usize = from;
    while i < to
        invariant
            from <= to <= s@.len(),
            i <= s@.len(),
            escapes_fit(s@, from as int, to as int) == escapes_fit(s@, i as int, to as int),
        decreases s@.len() - i,
    {
        if s[i] == '\\' {
            if !is_good_escape(s, i) {
                return false;
            }
            i = step_beyond(s, i, 2);
        } else {
            i += 1;
        }
    }
    true
}

fn do_indices_fit(t: &Scan, from: usize) -> (r: bool)
    requires
        t.wf(),
        from <= t.chars@.len(),
    ensures
        r == indices_fit(t.chars@, from as int),
{
    let s: &Vec<char> = &t.chars;
    let mut i: usize = from;
    while i < s.len() && s[i] != ']'
        invariant
            t.wf(),
            *s == t.chars,
            from <= i <= s@.len(),
            indices_fit(s@, from as int) == indices_fit(s@, i as int),
        decreases s@.len() - i,
    {
        if !does_number_fit(s, i) {
            return false;
        }
        i = find_piece_end(t, i);
    }
    true
}

fn does_piece_fit(t: &Scan, i: usize) -> (r: bool)
    requires
        t.wf(),
        i < t.chars@.len(),
    ensures
        r == piece_fits(t.chars@, i as int),
{
    let s: &Vec<char> = &t.chars;
    let len: usize = s.len();
    let c: char = s[i];
    if c == '"' {
        does_string_fit(s, i + 1)
    } else if c == '\'' {
        !is_bad_escape(s, i + 1)
    } else if c == '(' {
        let next: usize = skip_gaps(t, i + 1);
        !(next < len && s[next] == '|')
    } else if c == '^' {
        let next: usize = skip_gaps(t, i + 1);
        do_escapes_fit(s, i + 1, next)
    } else if c == '[' {
        do_indices_fit(t, i + 1)
    } else {
        true
    }
}

/// How many characters are taken out of a text at a time: each is found by counting.
const STRETCH: usize = 256;

fn chars_of(source: &str) -> (r: Vec<char>)
    ensures
        r@ == source@,
{
    let len: usize = source.unicode_len();
    let mut out: Vec<char> = Vec::new();
    let mut i: usize = 0;
    while i < len
        invariant
            i <= len,
            len == source@.len(),
            out@ == source@.take(i as int),
        decreases len - i,
    {
        let n: usize = if len - i < STRETCH {
            len - i
        } else {
            STRETCH
        };
        let part: &str = source.substring_char(i, i + n);
        let mut k: usize = 0;
        while k < n
            invariant
                k <= n,
                i + n <= len,
                len == source@.len(),
                part@ == source@.subrange(i as int, i + n),
                out@ == source@.take(i + k),
            decreases n - k,
        {
            assert(source@.take(i + k + 1) =~= source@.take(i + k).push(source@[i + k]));
            out.push(part.get_char(k));
            k += 1;
        }
        i += n;
    }
    assert(source@.take(i as int) =~= source@);
    out
}

/// Whether a grammar can be read: whatever opens in it can.
pub fn is_readable(source: &str) -> (r: bool)
    ensures
        r == readable(source@),
{
    let t: Scan = Scan::new(chars_of(source));
    let mut i: usize = 0;
    while i < t.chars.len()
        invariant
            t.wf(),
            i <= t.chars@.len(),
            t.chars@ == source@,
            readable(source@) == pieces_fit(t.chars@, i as int),
        decreases t.chars@.len() - i,
    {
        if !does_piece_fit(&t, i) {
            return false;
        }
        i = find_piece_end(&t, i);
    }
    true
}

/// The rules of a grammar, by `pest_meta::parser::parse` and `pest_meta::parser::consume_rules`:
/// the former reads the text as grammar rules, and the latter, which takes nothing else, makes
/// bodies of them and checks them, as deep as the thread's own stack reaches. The rules of a text
/// that is read depend on the text alone. What they are is not stated, nor is when a text is
/// refused, for that depends on the thread's stack and on a limit of the process too. The latter
/// function gives up on an escape that stands for no character, on an index into the grammar's
/// stack that is too large, on a bracket that opens on a choice, and on an escape in a comment
/// between a caret and its string that no literal may hold.
#[verifier::external_body]
fn read_rules(source: &str) -> (r: Result<Vec<GrammarRule>, ReadFailure>)
    requires
        readable(source@),
    ensures
        r matches Ok(rules) ==> rules_view(rules@) == grammar_rules(source@),
{
    let pairs = pest_meta::parser::parse(pest_meta::parser::Rule::grammar_rules, source)
        .map_err(|e| ReadFailure::Parse(format!("{e}")))?;
    let rules = pest_meta::parser::consume_rules(pairs)
        .map_err(|e| ReadFailure::Build(format!("{e:?}")))?;
    Ok(rules.into_iter().map(|r| GrammarRule { name: r.name.clone(), body: body_of_pest(r) }).collect())
}

/// The body of a rule of `pest_meta`, form by form.
#[verifier::external_body]
fn body_of_pest(r: PestRule) -> GrammarExpr {
    let ty = r.ty;
    let part = |x: Box<PestExpr>| Box::new(body_of_pest(PestRule { name: String::new(), ty, expr: *x }));
    match r.expr {
        PestExpr::PosPred(x) => GrammarExpr::PosPred(part(x)),
        PestExpr::NegPred(x) => GrammarExpr::NegPred(part(x)),
        PestExpr::Seq(x, y) => GrammarExpr::Sequence(part(x), part(y)),
        PestExpr::Choice(x, y) => GrammarExpr::Choice(part(x), part(y)),
        PestExpr::Opt(x) => GrammarExpr::Opt(part(x)),
        other => repetition_of_pest(PestRule { name: r.name, ty, expr: other }),
    }
}

/// The body of a rule of `pest_meta` that repeats a part, form by form.
#[verifier::external_body]
fn repetition_of_pest(r: PestRule) -> GrammarExpr {
    let ty = r.ty;
    let part = |x: Box<PestExpr>| Box::new(body_of_pest(PestRule { name: String::new(), ty, expr: *x }));
    match r.expr {
        PestExpr::Rep(x) => GrammarExpr::Rep(part(x)),
        PestExpr::RepOnce(x) => GrammarExpr::RepOnce(part(x)),
        PestExpr::RepExact(x, n) => GrammarExpr::RepExact(part(x), n),
        PestExpr::RepMin(x, n) => GrammarExpr::RepMin(part(x), n),
        PestExpr::RepMax(x, n) => GrammarExpr::RepMax(part(x), n),
        other => atom_of_pest(PestRule { name: r.name, ty, expr: other }),
    }
}

/// The body of a rule of `pest_meta` without further parts, or with a bounded repetition, form by
/// form. What has no notation is kept as it describes itself.
#[verifier::external_body]
fn atom_of_pest(r: PestRule) -> GrammarExpr {
    let ty = r.ty;
    let part = |x: Box<PestExpr>| Box::new(body_of_pest(PestRule { name: String::new(), ty, expr: *x }));
    match r.expr {
        PestExpr::Str(s) => GrammarExpr::Str(s),
        PestExpr::Insens(s) => GrammarExpr::Insens(s),
        PestExpr::Range(a, b) => GrammarExpr::Range(a, b),
        PestExpr::Ident(s) => GrammarExpr::Ident(s),
        PestExpr::RepMinMax(x, n, m) => GrammarExpr::RepMinMax(part(x), n, m),
        PestExpr::Push(x) => GrammarExpr::Push(part(x.clone()), format!("{:?}", PestExpr::Push(x))),
        other => GrammarExpr::Other(format!("{other:?}")),
    }
}

/// What is said of a grammar that could not be read.
pub open spec fn failure_text(f: ReadFailureV) -> Seq<char> {
    match f {
        ReadFailureV::Parse(m) => "parsing grammar.pest:\n"@ + m,
        ReadFailureV::Build(m) => "building grammar.pest AST:\n"@ + m,
    }
}

/// The page for a grammar that was read, or could not be.
pub open spec fn page_of(
    rules: Result<Seq<(Seq<char>, GrammarExprV)>, ReadFailureV>,
    entries: Seq<Entry>,
    preamble: Seq<char>,
) -> Result<Seq<char>, PageErrorV> {
    match rules {
        Err(f) => Err(PageErrorV::Broken(failure_text(f))),
        Ok(rules) => page(GrammarV { rules, entries }, preamble),
    }
}

/// The page for a grammar that was read, or could not be.
pub fn render_rules(
    rules: Result<Vec<GrammarRule>, ReadFailure>,
    entries: &Vec<Entry>,
    preamble: &str,
) -> (r: Result<String, PageError>)
    ensures
        page_result(r) == page_of(rules_result(rules), entries@, preamble@),
{
    match rules {
        Err(ReadFailure::Parse(m)) => Err(
            PageError::Broken(joined("parsing grammar.pest:\n", m.as_str())),
        ),
        Err(ReadFailure::Build(m)) => Err(
            PageError::Broken(joined("building grammar.pest AST:\n", m.as_str())),
        ),
        Ok(rules) => {
            let g = Grammar { rules: &rules, entries };
            render_page(&g, preamble)
        },
    }
}

/// What is said of a grammar that cannot be read for how it is written.
pub open spec fn unreadable() -> Seq<char> {
    "building grammar.pest AST:\nan escape, a number or a choice cannot be read"@
}

/// The page of the language reference that shows a grammar, from the source of the grammar and
/// the entries that say how its rules appear: that of the rules of the grammar, or why there are
/// none.
pub fn grammar_document(source: &str, entries: &Vec<Entry>, preamble: &str) -> (r: Result<
    String,
    PageError,
>)
    ensures
        if readable(source@) {
            page_result(r) == page_of(Ok(grammar_rules(source@)), entries@, preamble@) || exists|
                f: ReadFailureV,
            |
                page_result(r) == #[trigger] page_of(Err(f), entries@, preamble@)
        } else {
            page_result(r) == Err::<Seq<char>, PageErrorV>(PageErrorV::Broken(unreadable()))
        },
{
    if is_readable(source) {
        let rules: Result<Vec<GrammarRule>, ReadFailure> = read_rules(source);
        let ghost read = rules_result(rules);
        let r: Result<String, PageError> = render_rules(rules, entries, preamble);
        assert(page_result(r) == page_of(read, entries@, preamble@));
        r
    } else {
        Err(
            PageError::Broken(
                "building grammar.pest AST:\nan escape, a number or a choice cannot be read".to_owned(),
            ),
        )
    }
}

} // verus!
