//! The names of documents: `YYYY.MM.DD_AlphaNumericTitle.md`.

use crate::text::to_chars;
use vstd::prelude::*;
use vstd::string::StringExecFns;

verus! {

/// Whether `c` is one of `0` to `9`.
pub open spec fn is_digit(c: char) -> bool {
    '0' as u32 <= c as u32 <= '9' as u32
}

/// Whether `c` is a digit or a letter of the ASCII alphabet.
pub open spec fn is_alphanumeric(c: char) -> bool {
    ||| is_digit(c)
    ||| 'a' as u32 <= c as u32 <= 'z' as u32
    ||| 'A' as u32 <= c as u32 <= 'Z' as u32
}

/// Whether `s[from..to]` lies in `s` and holds digits only.
pub open spec fn digits(s: Seq<char>, from: int, to: int) -> bool {
    &&& 0 <= from <= to <= s.len()
    &&& forall|i: int| from <= i < to ==> is_digit(#[trigger] s[i])
}

/// Whether `s` starts with a year: four digits and a dot.
pub open spec fn year_ok(s: Seq<char>) -> bool {
    s.len() >= 5 && digits(s, 0, 4) && s[4] == '.'
}

/// Whether a month follows the year: two digits and a dot.
pub open spec fn month_ok(s: Seq<char>) -> bool {
    s.len() >= 8 && digits(s, 5, 7) && s[7] == '.'
}

/// Whether a day follows the month: two digits and an underscore.
pub open spec fn day_ok(s: Seq<char>) -> bool {
    s.len() >= 11 && digits(s, 8, 10) && s[10] == '_'
}

/// The end of the run of letters and digits that starts at `i`.
pub open spec fn title_end(s: Seq<char>, i: int) -> int
    decreases s.len() - i,
{
    if 0 <= i < s.len() && is_alphanumeric(s[i]) {
        title_end(s, i + 1)
    } else {
        i
    }
}

/// Whether a title follows the day: one or more letters and digits, and a dot.
pub open spec fn title_ok(s: Seq<char>) -> bool {
    let end = title_end(s, 11);
    11 < end < s.len() && s[end] == '.'
}

/// Whether `md`, and nothing else, follows the dot of the title.
pub open spec fn extension_ok(s: Seq<char>) -> bool {
    let end = title_end(s, 11);
    s.len() == end + 3 && s[end + 1] == 'm' && s[end + 2] == 'd'
}

/// Whether `s` is the name of a document: four digits, a dot, two digits, a dot,
/// two digits, an underscore, one or more letters and digits, and `.md`.
pub open spec fn valid_file_name(s: Seq<char>) -> bool {
    year_ok(s) && month_ok(s) && day_ok(s) && title_ok(s) && extension_ok(s)
}

/// What is wrong with the name `s`: the first of its parts that is not as it
/// must be.
pub open spec fn file_name_fault(s: Seq<char>) -> Seq<char> {
    if !year_ok(s) {
        "Invalid year"@
    } else if !month_ok(s) {
        "Invalid month"@
    } else if !day_ok(s) {
        "Invalid day"@
    } else if !title_ok(s) {
        "Invalid title"@
    } else {
        "Invalid extension"@
    }
}

/// The message for the name `s`, which is not valid.
pub open spec fn file_name_error(s: Seq<char>) -> Seq<char> {
    file_name_fault(s) + ". Expected: YYYY.MM.DD_AlphaNumericTitle.md"@
}

/// The title of a valid name lies between the underscore and the extension.
pub proof fn lemma_valid_file_name(s: Seq<char>)
    requires
        valid_file_name(s),
    ensures
        s.len() >= 15,
        title_end(s, 11) == s.len() - 3,
        forall|i: int| 11 <= i < s.len() - 3 ==> is_alphanumeric(s[i]),
        s[s.len() - 3] == '.',
{
    lemma_title_end(s, 11);
}

proof fn lemma_title_end(s: Seq<char>, i: int)
    requires
        0 <= i <= s.len(),
    ensures
        i <= title_end(s, i) <= s.len(),
        forall|k: int| i <= k < title_end(s, i) ==> is_alphanumeric(s[k]),
        title_end(s, i) < s.len() ==> !is_alphanumeric(s[title_end(s, i)]),
    decreases s.len() - i,
{
    if i < s.len() && is_alphanumeric(s[i]) {
        lemma_title_end(s, i + 1);
    }
}

fn is_digit_exec(c: char) -> (b: bool)
    ensures
        b == is_digit(c),
{
    let n: u32 = c as u32;
    '0' as u32 <= n && n <= '9' as u32
}

fn is_alphanumeric_exec(c: char) -> (b: bool)
    ensures
        b == is_alphanumeric(c),
{
    let n: u32 = c as u32;
    ('0' as u32 <= n && n <= '9' as u32) || ('a' as u32 <= n && n <= 'z' as u32) || ('A' as u32
        <= n && n <= 'Z' as u32)
}

/// Whether `chars[from..from + count]` holds digits and `sep` follows them.
fn number_ok(chars: &Vec<char>, from: usize, count: usize, sep: char) -> (b: bool)
    requires
        from + count < 100,
    ensures
        b == (chars@.len() >= from + count + 1 && digits(
            chars@,
            from as int,
            (from + count) as int,
        ) && chars@[from + count] == sep),
{
    if chars.len() < from + count + 1 {
        return false;
    }
    let mut i: usize = from;
    while i < from + count
        invariant
            from + count < 100,
            from <= i <= from + count < chars@.len(),
            forall|k: int| from <= k < i ==> is_digit(#[trigger] chars@[k]),
        decreases from + count - i,
    {
        if !is_digit_exec(chars[i]) {
            return false;
        }
        i += 1;
    }
    chars[from + count] == sep
}

/// The part of the name `chars` that is not as it must be, if there is one.
fn fault(chars: &Vec<char>) -> (r: Option<&'static str>)
    ensures
        match r {
            Some(reason) => !valid_file_name(chars@) && reason@ == file_name_fault(chars@),
            None => valid_file_name(chars@),
        },
{
    if !number_ok(chars, 0, 4, '.') {
        return Some("Invalid year");
    }
    if !number_ok(chars, 5, 2, '.') {
        return Some("Invalid month");
    }
    if !number_ok(chars, 8, 2, '_') {
        return Some("Invalid day");
    }
    let len = chars.len();
    let mut end: usize = 11;
    while end < len && is_alphanumeric_exec(chars[end])
        invariant
            11 <= end <= len == chars@.len(),
            title_end(chars@, 11) == title_end(chars@, end as int),
        decreases len - end,
    {
        end += 1;
    }
    if !(end > 11 && end < len && chars[end] == '.') {
        return Some("Invalid title");
    }
    if !(len - end == 3 && chars[end + 1] == 'm' && chars[end + 2] == 'd') {
        return Some("Invalid extension");
    }
    None
}

/// Checks that `file_name` is the name of a document. A name that is not is
/// refused with a message that names its first faulty part.
pub fn validate(file_name: &String) -> (r: Result<(), String>)
    ensures
        r.is_ok() <==> valid_file_name(file_name@),
        r matches Err(msg) ==> msg@ == file_name_error(file_name@),
{
    let chars = to_chars(file_name.as_str());
    match fault(&chars) {
        Some(reason) => {
            let mut msg = String::from_str(reason);
            msg.append(". Expected: YYYY.MM.DD_AlphaNumericTitle.md");
            Err(msg)
        },
        None => Ok(()),
    }
}

} // verus!
